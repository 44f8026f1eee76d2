use shell_starter_rust::modules::interpreter::run::{
    BuiltinNext, LookupNext, ProgramNext, ProgramOutput, RunAction,
};
use shell_starter_rust::modules::interpreter::Interpreter;
use shell_starter_rust::shell::interface::ShellTokenizer;
use shell_starter_rust::tokenizer::{Token, Tokenizer};
use shell_starter_rust::util::error::{ErrorKind, ShellError};

fn run_tokens(line: &str) -> Vec<Token> {
    Tokenizer::tokenize(line).unwrap()
}

fn value(s: &str) -> Token {
    Token::Value(s.to_string())
}

#[test]
fn run_starts_with_the_builtin() {
    match Interpreter::start(run_tokens("echo hi there")) {
        RunAction::RunBuiltin { cmd, tokens: ts, next: BuiltinNext::Direct { cmd: c2, args } } => {
            assert_eq!(cmd, "echo");
            assert_eq!(c2, "echo");
            assert_eq!(ts, run_tokens("echo hi there"));
            assert_eq!(args, vec!["hi".to_string(), "there".to_string()]);
        }
        other => panic!("unexpected {:?}", other),
    }
}

#[test]
fn run_without_command_fails() {
    match Interpreter::start(vec![Token::Space]) {
        RunAction::Finish(Err(e)) => {
            assert_eq!(e.kind(), ErrorKind::InvalidInput);
            assert_eq!(e.message(), "error: no command provided");
        }
        other => panic!("unexpected {:?}", other),
    }
}

#[test]
fn run_builtin_answer_is_the_outcome() {
    let next = BuiltinNext::Direct { cmd: "echo".to_string(), args: vec!["hi".to_string()] };
    match Interpreter::builtin_answered(next, Ok("hi".to_string())) {
        RunAction::Finish(Ok(bytes)) => assert_eq!(bytes, b"hi".to_vec()),
        other => panic!("unexpected {:?}", other),
    }
    let next = BuiltinNext::Direct { cmd: "type".to_string(), args: vec![] };
    match Interpreter::builtin_answered(next, Err(ShellError::from_text(ErrorKind::InvalidInput, "bad"))) {
        RunAction::Finish(Err(e)) => assert_eq!(e.message(), "bad"),
        other => panic!("unexpected {:?}", other),
    }
}

#[test]
fn run_unknown_name_tries_the_program() {
    let next = BuiltinNext::Direct { cmd: "ls".to_string(), args: vec!["-l".to_string()] };
    let not_found = ShellError::from_text(ErrorKind::NotFound, "ls: command not found");
    let lookup = match Interpreter::builtin_answered(next, Err(not_found)) {
        RunAction::FindProgram { cmd, next } => {
            assert_eq!(cmd, "ls");
            next
        }
        other => panic!("unexpected {:?}", other),
    };
    match lookup {
        LookupNext::Direct { ref cmd, ref args, ref error } => {
            assert_eq!(cmd, "ls");
            assert_eq!(args, &vec!["-l".to_string()]);
            assert_eq!(error.message(), "ls: command not found");
        }
        ref other => panic!("unexpected {:?}", other),
    }
    match Interpreter::program_looked_up(lookup, true) {
        RunAction::RunProgram { cmd, args, next: ProgramNext::Direct } => {
            assert_eq!(cmd, "ls");
            assert_eq!(args, vec!["-l".to_string()]);
        }
        other => panic!("unexpected {:?}", other),
    }
}

#[test]
fn run_missing_program_gives_the_builtin_error() {
    let next = LookupNext::Direct {
        cmd: "nope".to_string(),
        args: vec![],
        error: ShellError::from_text(ErrorKind::NotFound, "nope: command not found"),
    };
    match Interpreter::program_looked_up(next, false) {
        RunAction::Finish(Err(e)) => {
            assert_eq!(e.kind(), ErrorKind::NotFound);
            assert_eq!(e.message(), "nope: command not found");
        }
        other => panic!("unexpected {:?}", other),
    }
}

#[test]
fn run_program_outcomes() {
    let ok = ProgramOutput { success: true, stdout: b"a\n".to_vec(), stderr: String::new() };
    match Interpreter::program_ran(ProgramNext::Direct, Ok(ok)) {
        RunAction::Finish(Ok(bytes)) => assert_eq!(bytes, b"a".to_vec()),
        other => panic!("unexpected {:?}", other),
    }
    let failed = ProgramOutput { success: false, stdout: Vec::new(), stderr: "no such file\n".to_string() };
    match Interpreter::program_ran(ProgramNext::Direct, Ok(failed)) {
        RunAction::Finish(Err(e)) => {
            assert_eq!(e.kind(), ErrorKind::InvalidInput);
            assert_eq!(e.message(), "no such file");
        }
        other => panic!("unexpected {:?}", other),
    }
    let unstarted = ShellError::from_text(ErrorKind::Other, "cannot start");
    match Interpreter::program_ran(ProgramNext::Direct, Err(unstarted)) {
        RunAction::Finish(Err(e)) => assert_eq!(e.message(), "cannot start"),
        other => panic!("unexpected {:?}", other),
    }
}

#[test]
fn run_redirected_builtin_writes_its_answer() {
    let lookup = match Interpreter::start(run_tokens("echo hi > out.txt")) {
        RunAction::FindProgram { cmd, next } => {
            assert_eq!(cmd, "echo");
            next
        }
        other => panic!("unexpected {:?}", other),
    };
    let next = match Interpreter::program_looked_up(lookup, false) {
        RunAction::RunBuiltin { cmd, tokens: ts, next } => {
            assert_eq!(cmd, "echo");
            assert_eq!(ts, vec![value("echo"), Token::Space, value("hi"), Token::Space]);
            next
        }
        other => panic!("unexpected {:?}", other),
    };
    let then = match Interpreter::builtin_answered(next, Ok("hi".to_string())) {
        RunAction::Write { write, then } => {
            assert_eq!(write.path, "out.txt");
            assert_eq!(write.bytes, b"hi".to_vec());
            assert!(!write.append);
            then
        }
        other => panic!("unexpected {:?}", other),
    };
    match Interpreter::written(then, Ok(())) {
        RunAction::Finish(Ok(bytes)) => assert!(bytes.is_empty()),
        other => panic!("unexpected {:?}", other),
    }
}

#[test]
fn run_failed_write_is_the_outcome() {
    let denied = ShellError::from_text(ErrorKind::Other, "Permission denied");
    match Interpreter::written(Ok(b"x".to_vec()), Err(denied)) {
        RunAction::Finish(Err(e)) => assert_eq!(e.message(), "Permission denied"),
        other => panic!("unexpected {:?}", other),
    }
}

#[test]
fn run_redirected_program_sends_errors_to_the_file() {
    let lookup = match Interpreter::start(run_tokens("ls -x 2> err.log")) {
        RunAction::FindProgram { next, .. } => next,
        other => panic!("unexpected {:?}", other),
    };
    let next = match Interpreter::program_looked_up(lookup, true) {
        RunAction::RunProgram { cmd, args, next } => {
            assert_eq!(cmd, "ls");
            assert_eq!(args, vec!["-x".to_string()]);
            next
        }
        other => panic!("unexpected {:?}", other),
    };
    let out = ProgramOutput { success: false, stdout: b"partial".to_vec(), stderr: "warn".to_string() };
    match Interpreter::program_ran(next, Ok(out)) {
        RunAction::Write { write, then } => {
            assert_eq!(write.path, "err.log");
            assert_eq!(write.bytes, b"warn".to_vec());
            assert_eq!(then.unwrap(), b"partial".to_vec());
        }
        other => panic!("unexpected {:?}", other),
    }
}

#[test]
fn run_redirection_edge_cases() {
    assert!(matches!(
        Interpreter::start(vec![Token::Redirector('1'), Token::Space, value("f")]),
        RunAction::Finish(Ok(ref b)) if b.is_empty()
    ));
    match Interpreter::start(vec![Token::Space, Token::Redirector('1'), Token::Space, value("f")]) {
        RunAction::Finish(Err(e)) => assert_eq!(e.message(), "error: invalid input"),
        other => panic!("unexpected {:?}", other),
    }
    let lookup = match Interpreter::start(vec![value("echo"), Token::Space, Token::Redirector('1'), value("f")]) {
        RunAction::FindProgram { next, .. } => next,
        other => panic!("unexpected {:?}", other),
    };
    let next = match Interpreter::program_looked_up(lookup, false) {
        RunAction::RunBuiltin { next, .. } => next,
        other => panic!("unexpected {:?}", other),
    };
    assert!(matches!(Interpreter::builtin_answered(next, Ok(String::new())), RunAction::Crash));
}
