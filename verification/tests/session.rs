use ebishell::session::{expand_recall, is_exit_command, Expanded, History};
use ebishell::text::{is_blank, trimmed};

#[test]
fn trimmed_strips_both_ends() {
    assert_eq!(trimmed("  a b  "), "a b");
    assert_eq!(trimmed("\t x\t"), "x");
    assert_eq!(trimmed("plain"), "plain");
    assert_eq!(trimmed("   "), "");
}

#[test]
fn blank_lines_detected() {
    assert!(is_blank(""));
    assert!(is_blank(" \t "));
    assert!(!is_blank(" a "));
}

#[test]
fn exit_sentinels_trim_and_ignore_case() {
    assert!(is_exit_command("quit"));
    assert!(is_exit_command("exit"));
    assert!(is_exit_command("  QUIT "));
    assert!(is_exit_command("Exit"));
    assert!(is_exit_command("\teXiT\t"));
}

#[test]
fn non_sentinels_do_not_exit() {
    assert!(!is_exit_command("quitt"));
    assert!(!is_exit_command("exits"));
    assert!(!is_exit_command("quit now"));
    assert!(!is_exit_command(""));
}

#[test]
fn recall_expands_to_previous_line() {
    let prev = "echo hello".to_string();
    match expand_recall("!!", Some(&prev)) {
        Expanded::Command(c) => assert_eq!(c, "echo hello"),
        Expanded::NoHistory => panic!("recall with history must expand"),
    }
}

#[test]
fn recall_trims_surrounding_whitespace() {
    let prev = "ls".to_string();
    match expand_recall("  !!  ", Some(&prev)) {
        Expanded::Command(c) => assert_eq!(c, "ls"),
        Expanded::NoHistory => panic!("recall with history must expand"),
    }
}

#[test]
fn recall_without_history_is_diagnosed() {
    match expand_recall("!!", None) {
        Expanded::Command(_) => panic!("recall without history must not run"),
        Expanded::NoHistory => {}
    }
}

#[test]
fn ordinary_line_passes_through() {
    match expand_recall("echo !!x", None) {
        Expanded::Command(c) => assert_eq!(c, "echo !!x"),
        Expanded::NoHistory => panic!("only a bare recall token expands"),
    }
}

#[test]
fn history_records_and_recalls_last() {
    let mut h = History::new();
    assert!(h.last().is_none());
    h.record("first".to_string());
    h.record("second".to_string());
    assert_eq!(h.last().unwrap(), "second");
}
