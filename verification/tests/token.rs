use shell_starter_rust::modules::tokenizer::helpers::{Argument, HasArguments, Redirectable};
use shell_starter_rust::shell::interface::{ShellTokenSerializer, ShellTokenizer};
use shell_starter_rust::tokenizer::{Token, Tokenizer};

#[test]
fn token_serialize_forms() {
    assert_eq!(Token::Value("ls".to_string()).serialize(), "ls");
    assert_eq!(Token::String("a b".to_string(), true).serialize(), "a b");
    assert_eq!(Token::Space.serialize(), " ");
    assert_eq!(Token::Argument("la".to_string(), false).serialize(), "-la");
    assert_eq!(Token::Argument("all".to_string(), true).serialize(), "--all");
    assert_eq!(Token::Redirector('2').serialize(), "2>");
    assert_eq!(Token::Appender('1').serialize(), "1>>");
}

#[test]
fn token_is_empty_only_for_empty_text() {
    assert!(Token::String(String::new(), false).is_empty());
    assert!(Token::Value(String::new()).is_empty());
    assert!(!Token::Space.is_empty());
    assert!(!Token::Value("x".to_string()).is_empty());
}

#[test]
fn token_redirect_checks() {
    for (word, ok, err, append) in [
        (">", true, false, false),
        ("1>", true, false, false),
        ("2>", false, true, false),
        (">>", true, false, true),
        ("1>>", true, false, true),
        ("2>>", false, true, true),
    ] {
        let t = Token::Value(word.to_string());
        assert!(t.is_redirector());
        assert_eq!(t.is_append(), append);
        assert_eq!(t.is_redirect(), !append);
        assert_eq!(t.is_redirecting_ok(), ok);
        assert_eq!(t.is_redirecting_err(), err);
    }
    for t in [
        Token::Value("x".to_string()),
        Token::String(">".to_string(), false),
        Token::Redirector('1'),
        Token::Appender('2'),
    ] {
        assert!(!t.is_redirector());
        assert!(!t.is_redirecting_ok());
        assert!(!t.is_redirecting_err());
    }
}

#[test]
fn token_redirection_operators() {
    assert!(Token::Redirector('1').is_redirection_token());
    assert!(Token::Appender('2').is_redirection_token());
    assert!(!Token::Value(">".to_string()).is_redirection_token());
    assert!(!Token::Space.is_redirection_token());
}

#[test]
fn token_argument_checks() {
    assert!(Token::Value("-x".to_string()).is_arg());
    assert!(!Token::Value("x".to_string()).is_arg());
    assert!(!Token::Argument("x".to_string(), false).is_arg());
    assert!("-r".to_string().is_arg());
    assert!(">>f".to_string().is_append());
    assert!(!">>f".to_string().is_redirect());
    assert!("2>f".to_string().is_redirect());
}

#[test]
fn token_list_argument_lookup() {
    let ts = Tokenizer::tokenize("cmd x value").unwrap();
    let slice: &[Token] = &ts;
    assert_eq!(slice.get_arg_value("x"), Some(" ".to_string()));
    assert_eq!(slice.get_arg_value("value"), None);
    assert_eq!(slice.get_arg_value("nothing"), None);
    let flags = vec![Token::Value("--v".to_string())];
    let flag_slice: &[Token] = &flags;
    assert!(flag_slice.contains_arg("v"));
    assert!(!flag_slice.contains_arg("w"));
}

#[test]
fn token_list_serializes_from_a_position() {
    let ts = Tokenizer::tokenize("echo  a 'b c'").unwrap();
    assert_eq!(ts[..].serialize(2), "a b c");
    assert_eq!(ts[..].serialize(0), "echo a b c");
    assert_eq!(ts[..].serialize(99), "");
}

#[test]
fn token_plain_line_round_trip() {
    for line in ["ls foo_1 bar", " a b ", "x", "", "A9 _b 7"] {
        let ts = Tokenizer::tokenize(line).unwrap();
        assert_eq!(ts[..].serialize(0), line);
    }
}
