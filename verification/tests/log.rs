use glp::commands::log::tail_lines;

#[test]
fn tail_lines_returns_last_n() {
    assert_eq!(tail_lines("a\nb\nc\nd\ne", 3), vec!["c", "d", "e"]);
}

#[test]
fn tail_lines_n_exceeds_total() {
    assert_eq!(tail_lines("a\nb", 10), vec!["a", "b"]);
}

#[test]
fn tail_lines_zero() {
    let result = tail_lines("a\nb\nc", 0);
    assert!(result.is_empty());
}

#[test]
fn tail_lines_empty_input() {
    let result = tail_lines("", 5);
    assert!(result.is_empty());
}

#[test]
fn tail_lines_single_line() {
    assert_eq!(tail_lines("single", 1), vec!["single"]);
}

#[test]
fn tail_lines_strips_crlf_and_keeps_lone_cr() {
    assert_eq!(tail_lines("one\r\ntwo\r\nthree\r", 5), vec!["one", "two", "three\r"]);
}

#[test]
fn tail_lines_final_newline_adds_no_line() {
    assert_eq!(tail_lines("a\nb\n", 5), vec!["a", "b"]);
    assert_eq!(tail_lines("\n", 5), vec![""]);
}

#[test]
fn tail_lines_keeps_empty_lines_between() {
    assert_eq!(tail_lines("a\n\nb", 2), vec!["", "b"]);
}

#[test]
fn tail_lines_multibyte_text() {
    assert_eq!(tail_lines("héllo\nwörld\n日本", 2), vec!["wörld", "日本"]);
}

#[test]
fn tail_lines_matches_std_lines() {
    let log = "x\r\ny\n\nz\rw\n";
    let expected: Vec<&str> = log.lines().collect();
    assert_eq!(tail_lines(log, 100), expected);
}
