use shell_starter_rust::shell::interface::ShellHistoryHandler;
use shell_starter_rust::shell::{EnterStep, Key, KeyAction, Shell, TermOp};
use shell_starter_rust::tokenizer::Token;
use shell_starter_rust::util::error::{ErrorKind, ShellError};

fn show(ops: &[TermOp]) -> Vec<String> {
    ops.iter().map(|op| format!("{:?}", op)).collect()
}

fn started() -> Shell {
    let mut shell = Shell::new();
    shell.begin();
    shell
}

fn typed(shell: &mut Shell, text: &str) {
    for ch in text.chars() {
        shell.insert_char(ch);
    }
}

#[test]
fn shell_begins_with_the_prompt() {
    let mut shell = Shell::new();
    assert_eq!(shell.cursor_x, 0);
    let ops = shell.begin();
    assert_eq!(show(&ops), vec!["Print(\"$ \")"]);
    assert_eq!(shell.cursor_x, 2);
    assert_eq!(shell.buffer, "");
}

#[test]
fn shell_types_at_the_end() {
    let mut shell = started();
    let ops = shell.insert_char('l');
    assert_eq!(show(&ops), vec!["Print(\"l\")"]);
    shell.insert_char('s');
    assert_eq!(shell.buffer, "ls");
    assert_eq!(shell.cursor_x, 4);
}

#[test]
fn shell_types_inside_the_line() {
    let mut shell = started();
    typed(&mut shell, "ls");
    shell.cursor_x = 3;
    let ops = shell.insert_char('x');
    assert_eq!(shell.buffer, "lxs");
    assert_eq!(shell.cursor_x, 4);
    assert_eq!(
        show(&ops),
        vec!["ClearLine", "MoveToColumn(0)", "Print(\"$ \")", "Print(\"lxs\")", "MoveToColumn(4)"]
    );
}

#[test]
fn shell_erases_before_the_cursor() {
    let mut shell = started();
    typed(&mut shell, "lxs");
    let ops = shell.erase_before(4);
    assert_eq!(shell.buffer, "ls");
    assert_eq!(
        show(&ops),
        vec!["ClearLine", "MoveToColumn(0)", "Print(\"$ \")", "Print(\"ls\")", "MoveLeft(1)"]
    );
    let ops = shell.erase_before(4);
    assert_eq!(shell.buffer, "l");
    assert_eq!(show(&ops), vec!["ClearLine", "MoveToColumn(0)", "Print(\"$ \")", "Print(\"l\")"]);
    let ops = shell.erase_before(2);
    assert!(ops.is_empty());
    assert_eq!(shell.buffer, "l");
}

#[test]
fn shell_typing_then_erasing_restores_the_line() {
    let mut shell = started();
    typed(&mut shell, "ab");
    shell.on_key(Key::Left, false);
    assert_eq!(shell.cursor_x, 3);
    shell.insert_char('x');
    assert_eq!(shell.buffer, "axb");
    let column = shell.cursor_x;
    shell.erase_before(column);
    assert_eq!(shell.buffer, "ab");
}

#[test]
fn shell_keys() {
    let mut shell = started();
    assert!(matches!(shell.on_key(Key::Char('c'), true), KeyAction::Interrupt));
    assert!(matches!(shell.on_key(Key::Char('j'), true), KeyAction::Enter));
    assert!(matches!(shell.on_key(Key::Enter, false), KeyAction::Enter));
    assert!(matches!(shell.on_key(Key::Tab, false), KeyAction::Tab));
    assert!(matches!(shell.on_key(Key::Backspace, false), KeyAction::Backspace));
    match shell.on_key(Key::Up, false) {
        KeyAction::Ops(ops) => assert!(ops.is_empty()),
        other => panic!("unexpected {:?}", other),
    }
    match shell.on_key(Key::Char('a'), false) {
        KeyAction::Ops(ops) => assert_eq!(show(&ops), vec!["Print(\"a\")"]),
        other => panic!("unexpected {:?}", other),
    }
    assert_eq!(shell.buffer, "a");
}

#[test]
fn shell_arrows_stay_within_the_line() {
    let mut shell = started();
    match shell.on_key(Key::Left, false) {
        KeyAction::Ops(ops) => assert!(ops.is_empty()),
        other => panic!("unexpected {:?}", other),
    }
    typed(&mut shell, "a");
    match shell.on_key(Key::Right, false) {
        KeyAction::Ops(ops) => assert!(ops.is_empty()),
        other => panic!("unexpected {:?}", other),
    }
    match shell.on_key(Key::Left, false) {
        KeyAction::Ops(ops) => assert_eq!(show(&ops), vec!["MoveLeft(1)"]),
        other => panic!("unexpected {:?}", other),
    }
    match shell.on_key(Key::Right, false) {
        KeyAction::Ops(ops) => assert_eq!(show(&ops), vec!["MoveRight(1)"]),
        other => panic!("unexpected {:?}", other),
    }
    assert_eq!(shell.cursor_x, 3);
}

#[test]
fn shell_enter_on_empty_line() {
    let mut shell = started();
    match shell.enter_line() {
        EnterStep::Done(ops) => assert!(ops.is_empty()),
        other => panic!("unexpected {:?}", other),
    }
    assert_eq!(shell.cursor_x, 2);
    assert_eq!(shell.cursor_y, 1);
    assert!(shell.services.history_handler.get_all().is_empty());
}

#[test]
fn shell_enter_runs_the_line_and_records_it() {
    let mut shell = started();
    typed(&mut shell, "echo hi ");
    match shell.enter_line() {
        EnterStep::Run(ops, tokens) => {
            assert_eq!(show(&ops), vec!["Print(\"\\r\\n\")", "MoveToColumn(0)"]);
            assert_eq!(
                tokens,
                vec![Token::Value("echo".to_string()), Token::Space, Token::Value("hi".to_string())]
            );
        }
        other => panic!("unexpected {:?}", other),
    }
    assert_eq!(shell.services.history_handler.get_all(), vec!["echo hi ".to_string()]);
    let ops = shell.finish_line(Ok("hi\nthere".to_string())).unwrap();
    assert_eq!(
        show(&ops),
        vec![
            "Print(\"hi\")",
            "MoveToColumn(0)",
            "Print(\"\\r\\n\")",
            "Print(\"there\")",
            "MoveToColumn(0)",
            "Print(\"\\r\\n\")",
            "Print(\"$ \")"
        ]
    );
    assert_eq!(shell.buffer, "");
    assert_eq!(shell.cursor_x, 2);
    assert_eq!(shell.cursor_y, 1);
}

#[test]
fn shell_enter_reports_tokenizer_errors() {
    let mut shell = started();
    typed(&mut shell, "echo 'x");
    match shell.enter_line() {
        EnterStep::Done(ops) => assert_eq!(
            show(&ops),
            vec![
                "Print(\"\\r\\n\")",
                "MoveToColumn(0)",
                "ErrPrint(\"Single quote didn't end.\")",
                "Print(\"\\r\\n\")",
                "Print(\"$ \")"
            ]
        ),
        other => panic!("unexpected {:?}", other),
    }
    assert_eq!(shell.buffer, "");
    assert_eq!(shell.cursor_y, 1);
}

#[test]
fn shell_finish_line_with_errors() {
    let mut shell = started();
    let ops = shell
        .finish_line(Err(ShellError::from_text(ErrorKind::InvalidInput, "bad")))
        .unwrap();
    assert_eq!(
        show(&ops),
        vec!["ErrPrint(\"bad\")", "ErrMoveToColumn(0)", "ErrPrint(\"\\r\\n\")", "Print(\"$ \")"]
    );
    let ops = shell.finish_line(Ok(String::new())).unwrap();
    assert_eq!(show(&ops), vec!["Print(\"$ \")"]);
    let err = shell
        .finish_line(Err(ShellError::from_text(ErrorKind::Interrupted, "")))
        .unwrap_err();
    assert_eq!(err.kind(), ErrorKind::Interrupted);
    assert_eq!(shell.cursor_y, 2);
}

#[test]
fn shell_tab_completes_a_single_name() {
    let mut shell = started();
    typed(&mut shell, "ec");
    assert_eq!(shell.tab_query(), "ec");
    let ops = shell.tab_complete(vec!["echo".to_string()]);
    assert_eq!(shell.buffer, "echo ");
    assert_eq!(
        show(&ops),
        vec!["ClearLine", "MoveToColumn(0)", "Print(\"$ \")", "Print(\"echo \")", "MoveToColumn(7)"]
    );
}

#[test]
fn shell_tab_twice_lists_the_names() {
    let mut shell = started();
    typed(&mut shell, "x");
    let names = vec!["xa".to_string(), "xb".to_string()];
    shell.tab_query();
    let ops = shell.tab_complete(names.clone());
    assert_eq!(show(&ops), vec!["Print(\"\\u{7}\")"]);
    shell.tab_query();
    let ops = shell.tab_complete(names);
    assert_eq!(
        show(&ops),
        vec!["ClearLine", "MoveToColumn(0)", "Print(\"$ x\\r\\nxa xb\\r\\n$ x\")", "MoveToColumn(3)"]
    );
    assert_eq!(shell.buffer, "x");
}

#[test]
fn shell_history_keys_bring_back_lines() {
    let mut shell = started();
    shell.services.history_handler.add_entry("ls");
    shell.services.history_handler.add_entry("pwd");
    let ops = shell.history_up();
    assert_eq!(shell.buffer, "pwd");
    assert_eq!(shell.cursor_x, 5);
    assert_eq!(
        show(&ops),
        vec!["ClearLine", "MoveToColumn(0)", "Print(\"$ \")", "Print(\"pwd\")", "MoveToColumn(5)"]
    );
    shell.history_up();
    assert_eq!(shell.buffer, "ls");
    shell.history_down();
    assert_eq!(shell.buffer, "pwd");
    let ops = shell.history_down();
    assert!(ops.is_empty());
    assert_eq!(shell.buffer, "pwd");
}
