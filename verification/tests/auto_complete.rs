use shell_starter_rust::modules::auto_complete::{find_common_prefix, AutoComplete};
use shell_starter_rust::shell::interface::{QueryResult, ShellAutoComplete};

fn names(v: &[&str]) -> Vec<String> {
    v.iter().map(|s| s.to_string()).collect()
}

#[test]
fn completion_no_match() {
    let mut a = AutoComplete::new();
    assert_eq!(a.begin_query("zz"), "zz");
    assert_eq!(a.complete_query(vec![]), QueryResult::NoMatch);
}

#[test]
fn completion_exact_match() {
    let mut a = AutoComplete::new();
    a.begin_query("echo");
    assert_eq!(
        a.complete_query(names(&["echoer", "echo"])),
        QueryResult::ExactMatch("echo".to_string())
    );
}

#[test]
fn completion_single_match() {
    let mut a = AutoComplete::new();
    a.begin_query("ec");
    assert_eq!(
        a.complete_query(names(&["echo"])),
        QueryResult::SingleMatch("echo".to_string())
    );
}

#[test]
fn completion_common_prefix() {
    let mut a = AutoComplete::new();
    a.begin_query("xy");
    assert_eq!(
        a.complete_query(names(&["xyz_a", "xyz_b"])),
        QueryResult::CommonPrefix("xyz_".to_string())
    );
}

#[test]
fn completion_bell_then_list_then_bell() {
    let mut a = AutoComplete::new();
    a.begin_query("x");
    assert_eq!(a.complete_query(names(&["xa", "xb"])), QueryResult::Bell);
    a.begin_query("ignored");
    assert_eq!(
        a.complete_query(names(&["xa", "xb"])),
        QueryResult::MultipleMatches(names(&["xa", "xb"]))
    );
    assert_eq!(a.complete_query(names(&["xa", "xb"])), QueryResult::Bell);
}

#[test]
fn completion_second_press_with_one_match() {
    let mut a = AutoComplete::new();
    a.begin_query("ec");
    a.complete_query(names(&["echo"]));
    assert_eq!(
        a.complete_query(names(&["echo"])),
        QueryResult::SingleMatch("echo".to_string())
    );
}

#[test]
fn completion_query_is_trimmed_and_kept() {
    let mut a = AutoComplete::new();
    assert_eq!(a.begin_query("  ec \t"), "ec");
    assert_eq!(a.begin_query("other"), "ec");
    a.reset();
    assert_eq!(a.begin_query("other"), "other");
}

#[test]
fn completion_reset_starts_counting_again() {
    let mut a = AutoComplete::new();
    a.begin_query("x");
    a.complete_query(names(&["xa", "xb"]));
    a.reset();
    a.begin_query("x");
    assert_eq!(a.complete_query(names(&["xa", "xb"])), QueryResult::Bell);
}

#[test]
fn common_prefix_of_several() {
    assert_eq!(find_common_prefix(&names(&["flower", "flow", "flight"])), "fl");
    assert_eq!(find_common_prefix(&names(&["dog", "car"])), "");
    assert_eq!(find_common_prefix(&names(&["same"])), "same");
    assert_eq!(find_common_prefix(&[]), "");
}
