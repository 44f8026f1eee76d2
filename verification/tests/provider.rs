use shell_starter_rust::modules::provider::builtin::echo::Echo;
use shell_starter_rust::modules::provider::builtin::history::History;
use shell_starter_rust::modules::provider::builtin::type_::Type;
use shell_starter_rust::modules::provider::{CommandProvider, CommandStep};
use shell_starter_rust::modules::service_container::ServiceContainer;
use shell_starter_rust::shell::interface::{
    ShellCommand, ShellCommandProvider, ShellHistoryHandler, ShellTokenizer,
};
use shell_starter_rust::tokenizer::{Token, Tokenizer};
use shell_starter_rust::util::error::{ErrorKind, ShellError};

fn provider_tokens(line: &str) -> Vec<Token> {
    Tokenizer::tokenize(line).unwrap()
}

fn run(line: &str, services: &ServiceContainer) -> CommandStep {
    let ts = provider_tokens(line);
    let cmd = match &ts[0] {
        Token::Value(c) => c.clone(),
        Token::String(c, _) => c.clone(),
        _ => panic!("no command"),
    };
    assert!(!CommandProvider::would_crash(&cmd, &ts, services));
    CommandProvider::run(&cmd, &ts, services)
}

fn reply(step: CommandStep) -> String {
    match step {
        CommandStep::Done(Ok(s)) => s,
        other => panic!("unexpected {:?}", other),
    }
}

fn failure(step: CommandStep) -> ShellError {
    match step {
        CommandStep::Done(Err(e)) => e,
        other => panic!("unexpected {:?}", other),
    }
}

#[test]
fn provider_lists_builtins() {
    assert_eq!(
        CommandProvider::get_commands(),
        vec!["echo", "type", "exit", "pwd", "cd", "history"]
    );
}

#[test]
fn echo_joins_the_rest_of_the_line() {
    let s = ServiceContainer::new();
    assert_eq!(reply(run("echo hello world", &s)), "hello world");
    assert_eq!(reply(run("echo 'a  b'   c", &s)), "a  b c");
}

#[test]
fn echo_without_text_fails() {
    let s = ServiceContainer::new();
    let e = failure(Echo::run(&provider_tokens("echo"), &s));
    assert_eq!(e.kind(), ErrorKind::InvalidInput);
    assert_eq!(e.message(), "No string input found.");
}

#[test]
fn type_names_builtins() {
    let s = ServiceContainer::new();
    assert_eq!(reply(run("type echo", &s)), "echo is a shell builtin");
    assert_eq!(reply(run("type history", &s)), "history is a shell builtin");
}

#[test]
fn type_looks_for_programs() {
    let s = ServiceContainer::new();
    match run("type ls", &s) {
        CommandStep::FindProgram(p) => assert_eq!(p, "ls"),
        other => panic!("unexpected {:?}", other),
    }
    match run("type \"my prog\"", &s) {
        CommandStep::FindProgram(p) => assert_eq!(p, "my prog"),
        other => panic!("unexpected {:?}", other),
    }
}

#[test]
fn type_needs_an_argument() {
    let s = ServiceContainer::new();
    let e = failure(Type::run(&provider_tokens("type"), &s));
    assert_eq!(e.kind(), ErrorKind::InvalidInput);
    assert_eq!(e.message(), "This command needs argument.");
}

#[test]
fn type_takes_the_first_word_past_options() {
    let s = ServiceContainer::new();
    assert_eq!(reply(run("type -a echo", &s)), "echo is a shell builtin");
    match run("type --all ls", &s) {
        CommandStep::FindProgram(p) => assert_eq!(p, "ls"),
        other => panic!("unexpected {:?}", other),
    }
    let e = failure(run("type -a", &s));
    assert_eq!(e.kind(), ErrorKind::InvalidInput);
    assert_eq!(e.message(), "This command needs argument.");
    assert!(!CommandProvider::would_crash("type", &provider_tokens("type -a"), &s));
}

#[test]
fn type_answers_after_the_search() {
    assert_eq!(Type::found("ls", Some("/bin/ls".to_string())).unwrap(), "ls is /bin/ls");
    let e = Type::found("nope", None).unwrap_err();
    assert_eq!(e.kind(), ErrorKind::InvalidInput);
    assert_eq!(e.message(), "nope not found");
}

#[test]
fn exit_ends_the_shell() {
    let s = ServiceContainer::new();
    assert_eq!(failure(run("exit", &s)).kind(), ErrorKind::Interrupted);
    assert_eq!(failure(run("exit 0", &s)).kind(), ErrorKind::Interrupted);
}

#[test]
fn exit_with_other_code_would_crash() {
    let s = ServiceContainer::new();
    assert!(CommandProvider::would_crash("exit", &provider_tokens("exit 1"), &s));
    assert!(CommandProvider::would_crash("exit", &provider_tokens("exit 2 3"), &s));
}

#[test]
fn pwd_asks_for_the_directory() {
    let s = ServiceContainer::new();
    assert!(matches!(run("pwd", &s), CommandStep::CurrentDir));
}

#[test]
fn cd_takes_its_target() {
    let s = ServiceContainer::new();
    match run("cd /tmp", &s) {
        CommandStep::ChangeDir(Some(p)) => assert_eq!(p, "/tmp"),
        other => panic!("unexpected {:?}", other),
    }
    assert!(matches!(run("cd", &s), CommandStep::ChangeDir(None)));
}

#[test]
fn unknown_command_is_not_found() {
    let s = ServiceContainer::new();
    let e = failure(run("frobnicate now", &s));
    assert_eq!(e.kind(), ErrorKind::NotFound);
    assert_eq!(e.message(), "frobnicate: command not found");
}

#[test]
fn history_lists_numbered_entries() {
    let mut s = ServiceContainer::new();
    s.history_handler.add_entry("ls");
    s.history_handler.add_entry("pwd");
    s.history_handler.add_entry("cd");
    assert_eq!(reply(run("history", &s)), "1 ls\n2 pwd\n3 cd");
    assert_eq!(reply(run("history 2", &s)), "2 pwd\n3 cd");
    assert_eq!(reply(run("history 0", &s)), "");
}

#[test]
fn history_with_bad_count_fails() {
    let mut s = ServiceContainer::new();
    s.history_handler.add_entry("ls");
    let e = failure(run("history abc", &s));
    assert_eq!(e.kind(), ErrorKind::InvalidData);
    assert_eq!(e.message(), "Argument is invalid");
}

#[test]
fn history_count_beyond_entries_would_crash() {
    let mut s = ServiceContainer::new();
    s.history_handler.add_entry("ls");
    assert!(History::would_crash(&provider_tokens("history 5"), &s.history_handler));
}

#[test]
fn history_read_and_write_name_the_file() {
    let s = ServiceContainer::new();
    match run("history r file", &s) {
        CommandStep::LoadHistory(p) => assert_eq!(p, " "),
        other => panic!("unexpected {:?}", other),
    }
    match run("history w out", &s) {
        CommandStep::SaveHistory(p) => assert_eq!(p, " "),
        other => panic!("unexpected {:?}", other),
    }
    let e = failure(run("history w", &s));
    assert_eq!(e.kind(), ErrorKind::InvalidData);
    assert_eq!(e.message(), "Argument is invalid");
}

#[test]
fn history_finish_reports_file_errors() {
    assert_eq!(History::finish(Ok(())).unwrap(), "");
    let e = History::finish(Err(ShellError::from_text(ErrorKind::NotFound, "gone"))).unwrap_err();
    assert_eq!(e.kind(), ErrorKind::InvalidData);
    assert_eq!(e.message(), "Error: gone");
}

#[test]
fn type_rejects_a_redirection_and_needs_a_word() {
    let s = ServiceContainer::new();
    let blank = vec![Token::Value("type".to_string()), Token::Space, Token::Space];
    let e = failure(Type::run(&blank, &s));
    assert_eq!(e.kind(), ErrorKind::InvalidInput);
    assert_eq!(e.message(), "This command needs argument.");
    let e = failure(Type::run(&provider_tokens("type > f"), &s));
    assert_eq!(e.kind(), ErrorKind::InvalidInput);
    assert_eq!(e.message(), "bash: syntax error near unexpected token 'newline'");
}

#[test]
fn history_read_with_an_option_as_path_is_invalid() {
    let s = ServiceContainer::new();
    let ts = vec![
        Token::Value("history".to_string()),
        Token::Space,
        Token::Value("r".to_string()),
        Token::Value("-x".to_string()),
    ];
    let e = failure(History::run(&ts, &s));
    assert_eq!(e.kind(), ErrorKind::InvalidData);
    assert_eq!(e.message(), "Invalid data");
}
