use shell_starter_rust::modules::interpreter::{DirectNext, Interpreter, RedirectStart};
use shell_starter_rust::shell::interface::ShellTokenizer;
use shell_starter_rust::tokenizer::{Token, Tokenizer};
use shell_starter_rust::util::error::{ErrorKind, ShellError};

fn line_tokens(line: &str) -> Vec<Token> {
    Tokenizer::tokenize(line).unwrap()
}

#[test]
fn interpreter_spots_redirections() {
    assert!(Interpreter::is_redirected(&line_tokens("echo hi > out.txt")));
    assert!(Interpreter::is_redirected(&line_tokens("ls 2>> err.log")));
    assert!(!Interpreter::is_redirected(&line_tokens("echo hi")));
}

#[test]
fn interpreter_direct_command_is_first_word() {
    assert_eq!(Interpreter::direct_command(&line_tokens("echo hi")).unwrap(), "echo");
    assert_eq!(Interpreter::direct_command(&line_tokens("'my prog' x")).unwrap(), "my prog");
    let e = Interpreter::direct_command(&[Token::Space]).unwrap_err();
    assert_eq!(e.kind(), ErrorKind::InvalidInput);
    assert_eq!(e.message(), "error: no command provided");
}

#[test]
fn interpreter_after_builtin() {
    match Interpreter::after_builtin(Ok("hi".to_string())) {
        DirectNext::Finish(Ok(b)) => assert_eq!(b, b"hi".to_vec()),
        other => panic!("unexpected {:?}", other),
    }
    match Interpreter::after_builtin(Err(ShellError::from_text(ErrorKind::NotFound, "x: command not found"))) {
        DirectNext::TryProgram(e) => assert_eq!(e.message(), "x: command not found"),
        other => panic!("unexpected {:?}", other),
    }
    match Interpreter::after_builtin(Err(ShellError::from_text(ErrorKind::InvalidInput, "bad"))) {
        DirectNext::Finish(Err(e)) => {
            assert_eq!(e.kind(), ErrorKind::InvalidInput);
            assert_eq!(e.message(), "bad");
        }
        other => panic!("unexpected {:?}", other),
    }
}

#[test]
fn interpreter_program_outcome_drops_one_line_feed() {
    assert_eq!(Interpreter::program_outcome(true, b"out\n\n".to_vec(), String::new()).unwrap(), b"out\n".to_vec());
    assert_eq!(Interpreter::program_outcome(true, b"out".to_vec(), String::new()).unwrap(), b"out".to_vec());
    let e = Interpreter::program_outcome(false, b"ignored".to_vec(), "bad thing\n".to_string()).unwrap_err();
    assert_eq!(e.kind(), ErrorKind::InvalidInput);
    assert_eq!(e.message(), "bad thing");
}

#[test]
fn interpreter_program_arguments() {
    assert_eq!(
        Interpreter::program_args(&line_tokens("ls -la /tmp")),
        vec!["-la".to_string(), "/tmp".to_string()]
    );
    assert_eq!(
        Interpreter::program_args(&line_tokens("cat 'a b'c  d")),
        vec!["a bc".to_string(), "d".to_string()]
    );
    assert!(Interpreter::program_args(&line_tokens("ls")).is_empty());
}

#[test]
fn interpreter_splits_at_the_redirection() {
    let (command, redirect) = Interpreter::split_at_redirection(&line_tokens("echo hi > f"));
    assert_eq!(
        command,
        vec![Token::Value("echo".to_string()), Token::Space, Token::Value("hi".to_string()), Token::Space]
    );
    assert_eq!(redirect, vec![Token::Redirector('1'), Token::Space, Token::Value("f".to_string())]);
}

#[test]
fn interpreter_redirected_start() {
    assert!(matches!(Interpreter::redirected_start(&[]), RedirectStart::Empty));
    match Interpreter::redirected_start(&line_tokens("ls ")) {
        RedirectStart::Command(c) => assert_eq!(c, "ls"),
        other => panic!("unexpected {:?}", other),
    }
    match Interpreter::redirected_start(&[Token::Space]) {
        RedirectStart::Invalid(e) => assert_eq!(e.message(), "error: invalid input"),
        other => panic!("unexpected {:?}", other),
    }
}

#[test]
fn interpreter_streams() {
    let (out, err) = Interpreter::builtin_streams(Ok("hi".to_string()));
    assert_eq!(out, Some(b"hi".to_vec()));
    assert!(err.is_none());
    let (out, err) = Interpreter::builtin_streams(Err(ShellError::from_text(ErrorKind::InvalidData, "bad")));
    assert!(out.is_none());
    assert_eq!(err.unwrap().message(), "bad");
    let (out, err) = Interpreter::program_streams(b"x\n".to_vec(), String::new());
    assert_eq!(out, Some(b"x\n".to_vec()));
    assert!(err.is_none());
    let (_, err) = Interpreter::program_streams(Vec::new(), "oops".to_string());
    assert_eq!(err.unwrap().message(), "oops");
}

#[test]
fn interpreter_redirect_output_writes_the_file() {
    let plan = Interpreter::plan_redirect(&line_tokens("> out.txt"), Some(b"hello".to_vec()), None);
    let w = plan.write.unwrap();
    assert_eq!(w.path, "out.txt");
    assert_eq!(w.bytes, b"hello".to_vec());
    assert!(!w.append);
    assert_eq!(plan.result.unwrap(), Vec::<u8>::new());
}

#[test]
fn interpreter_redirect_output_passes_errors_on() {
    let plan = Interpreter::plan_redirect(
        &line_tokens("> out.txt"),
        None,
        Some(ShellError::from_text(ErrorKind::NotFound, "gone")),
    );
    assert!(plan.write.is_none());
    assert_eq!(plan.result.unwrap_err().message(), "gone");
}

#[test]
fn interpreter_redirect_errors_to_a_file() {
    let plan = Interpreter::plan_redirect(
        &line_tokens("2> err.txt"),
        Some(b"fine".to_vec()),
        Some(ShellError::from_text(ErrorKind::Other, "oops")),
    );
    let w = plan.write.unwrap();
    assert_eq!(w.path, "err.txt");
    assert_eq!(w.bytes, b"oops".to_vec());
    assert!(!w.append);
    assert_eq!(plan.result.unwrap(), b"fine".to_vec());
    let plan = Interpreter::plan_redirect(&line_tokens("2> err.txt"), None, None);
    assert_eq!(plan.write.unwrap().bytes, Vec::<u8>::new());
    assert_eq!(plan.result.unwrap(), Vec::<u8>::new());
}

#[test]
fn interpreter_append_redirections() {
    let plan = Interpreter::plan_redirect(&line_tokens(">> log"), None, None);
    let w = plan.write.unwrap();
    assert!(w.append);
    assert!(w.bytes.is_empty());
    let plan = Interpreter::plan_redirect(&line_tokens("2>> log"), Some(b"o".to_vec()), None);
    assert!(plan.write.is_none());
    assert_eq!(plan.result.unwrap(), b"o".to_vec());
}

#[test]
fn interpreter_appended_contents() {
    assert_eq!(Interpreter::appended_contents(Some(b"a".to_vec()), b"b".to_vec()), b"a\nb".to_vec());
    assert_eq!(Interpreter::appended_contents(Some(Vec::new()), b"b".to_vec()), b"b".to_vec());
    assert_eq!(Interpreter::appended_contents(None, b"b".to_vec()), b"b".to_vec());
}
