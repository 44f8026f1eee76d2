use shell_starter_rust::modules::history_handler::{parse_history, HistoryEntry, HistoryHandler};
use shell_starter_rust::shell::interface::ShellHistoryHandler;
use shell_starter_rust::util::error::ErrorKind;

fn handler_with(commands: &[&str]) -> HistoryHandler {
    let mut h = HistoryHandler::new();
    for c in commands {
        h.add_entry(c);
    }
    h
}

#[test]
fn history_steps_back_and_forth() {
    let mut h = handler_with(&["ls", "pwd"]);
    assert_eq!(h.get_previous(), Some("pwd".to_string()));
    assert_eq!(h.get_previous(), Some("ls".to_string()));
    assert_eq!(h.get_previous(), None);
    assert_eq!(h.get_next(), Some("pwd".to_string()));
    assert_eq!(h.get_next(), None);
}

#[test]
fn history_step_back_gives_last_recorded() {
    let mut h = handler_with(&["ls"]);
    h.add_entry("echo hi");
    assert_eq!(h.get_previous(), Some("echo hi".to_string()));
}

#[test]
fn history_back_then_forward_returns() {
    let mut h = handler_with(&["a", "b", "c"]);
    assert_eq!(h.get_previous(), Some("c".to_string()));
    assert_eq!(h.get_previous(), Some("b".to_string()));
    assert_eq!(h.get_next(), Some("c".to_string()));
}

#[test]
fn history_empty_has_nothing_to_step_to() {
    let mut h = HistoryHandler::new();
    assert_eq!(h.get_previous(), None);
    assert_eq!(h.get_next(), None);
    assert_eq!(h.get_all(), Vec::<String>::new());
    assert_eq!(h.commands_len(), 0);
}

#[test]
fn history_remove_entry() {
    let mut h = handler_with(&["ls", "pwd"]);
    assert!(h.remove_entry(0).is_ok());
    assert_eq!(h.get_all(), vec!["pwd".to_string()]);
}

#[test]
fn history_remove_entry_out_of_bounds() {
    let mut h = handler_with(&["ls"]);
    let err = h.remove_entry(1).unwrap_err();
    assert_eq!(err.kind(), ErrorKind::InvalidInput);
    assert_eq!(err.message(), "Index out of bounds");
    assert_eq!(h.get_all(), vec!["ls".to_string()]);
}

#[test]
fn history_get_nth() {
    let h = handler_with(&["ls", "pwd"]);
    assert_eq!(h.get_nth(0), Some("ls".to_string()));
    assert_eq!(h.get_nth(1), Some("pwd".to_string()));
    assert_eq!(h.get_nth(2), None);
}

#[test]
fn history_reset_index_moves_past_the_end() {
    let mut h = handler_with(&["a", "b"]);
    h.get_previous();
    h.get_previous();
    h.reset_index();
    assert_eq!(h.get_previous(), Some("b".to_string()));
}

#[test]
fn history_entry_from_line() {
    let e = HistoryEntry::from_line("1700000000 ls -la").unwrap();
    assert_eq!(e.timestamp, 1700000000);
    assert_eq!(e.command, "ls -la");
}

#[test]
fn history_entry_without_time_is_kept_whole() {
    let e = HistoryEntry::from_line("cat file").unwrap();
    assert_eq!(e.timestamp, 0);
    assert_eq!(e.command, "cat file");
}

#[test]
fn history_entry_without_blank_fails() {
    let err = HistoryEntry::from_line("ls").unwrap_err();
    assert_eq!(err.kind(), ErrorKind::InvalidData);
    assert_eq!(err.message(), "split failed");
}

#[test]
fn history_entry_with_empty_time_fails() {
    let err = HistoryEntry::from_line(" ls").unwrap_err();
    assert_eq!(err.kind(), ErrorKind::InvalidData);
    assert_eq!(err.message(), "cannot parse integer from empty string");
}

#[test]
fn history_entry_with_huge_time_fails() {
    let err = HistoryEntry::from_line("99999999999999999999 ls").unwrap_err();
    assert_eq!(err.kind(), ErrorKind::InvalidData);
    assert_eq!(err.message(), "number too large to fit in target type");
}

#[test]
fn history_parse_file_text() {
    let entries = parse_history("5 ls\n6 echo hi\n").unwrap();
    assert_eq!(entries.len(), 2);
    assert_eq!(entries[0].timestamp, 5);
    assert_eq!(entries[0].command, "ls");
    assert_eq!(entries[1].timestamp, 6);
    assert_eq!(entries[1].command, "echo hi");
    assert!(parse_history("").unwrap().is_empty());
}

#[test]
fn history_parse_stops_at_bad_line() {
    let err = parse_history("5 ls\nbroken\n7 pwd").unwrap_err();
    assert_eq!(err.kind(), ErrorKind::InvalidData);
    assert_eq!(err.message(), "split failed");
}

#[test]
fn history_saved_text_reads_back() {
    let mut h = HistoryHandler::new();
    h.finish_load(Some(parse_history("5 ls\n6 echo hi").unwrap()), "/h".to_string());
    let text = h.save_text();
    assert_eq!(text, "5 ls\n6 echo hi");
    let again = parse_history(&text).unwrap();
    assert_eq!(again.len(), 2);
    assert_eq!(again[1].timestamp, 6);
    assert_eq!(again[1].command, "echo hi");
    assert_eq!(h.path(), "/h");
    assert_eq!(h.get_previous(), Some("echo hi".to_string()));
}

#[test]
fn history_load_without_file_starts_empty() {
    let mut h = handler_with(&["ls"]);
    h.finish_load(None, "/ignored".to_string());
    assert!(h.get_all().is_empty());
    assert_eq!(h.path(), "");
}

#[test]
fn history_extend_loaded_adds_entries() {
    let mut h = handler_with(&["ls"]);
    h.extend_loaded(parse_history("1 pwd").unwrap(), "/x".to_string());
    assert_eq!(h.get_all(), vec!["ls".to_string(), "pwd".to_string()]);
    assert_eq!(h.path(), "/x");
    assert_eq!(h.get_previous(), Some("pwd".to_string()));
}

#[test]
fn history_commands_text_ends_each_line() {
    let h = handler_with(&["ls", "pwd"]);
    assert_eq!(h.commands_text(), "ls\npwd\n");
}

#[test]
fn history_unappended_text_after_append() {
    let mut h = handler_with(&["ls", "pwd"]);
    assert_eq!(h.unappended_text(), "ls\npwd\n");
    h.mark_appended();
    h.add_entry("cd");
    assert_eq!(h.unappended_text(), "cd\n");
    h.mark_appended();
    assert_eq!(h.unappended_text(), "\n");
}

#[test]
fn history_clear_and_replace_path() {
    let mut h = handler_with(&["ls"]);
    h.clear_entries();
    assert!(h.get_all().is_empty());
    let previous = h.replace_path("/new".to_string());
    assert_eq!(previous, "");
    assert_eq!(h.path(), "/new");
}

#[test]
fn history_entry_at_a_given_time() {
    let e = HistoryEntry::at(42, "ls".to_string());
    assert_eq!(e.timestamp, 42);
    assert_eq!(e.command, "ls");
}
