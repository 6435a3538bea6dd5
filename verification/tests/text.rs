use glp::text::{
    find_char, pad_right, same_text, starts_with, trim, trim_end_matches, trim_start_char,
    u64_to_decimal,
};

#[test]
fn decimal_rendering() {
    assert_eq!(u64_to_decimal(0), "0");
    assert_eq!(u64_to_decimal(7), "7");
    assert_eq!(u64_to_decimal(10), "10");
    assert_eq!(u64_to_decimal(u64::MAX), u64::MAX.to_string());
}

#[test]
fn padding() {
    assert_eq!(pad_right("ab", 5), "ab   ");
    assert_eq!(pad_right("abcdef", 3), "abcdef");
    assert_eq!(pad_right("é", 3), "é  ");
}

#[test]
fn trimming_matches_std() {
    for s in ["  a b \n", "\u{3000}x\u{85}", "", " \t ", "no-space"] {
        assert_eq!(trim(s), s.trim());
    }
    assert_eq!(trim_end_matches("a.git.git", ".git"), "a");
    assert_eq!(trim_end_matches("a.git", ""), "a.git");
    assert_eq!(trim_start_char("//a/b", '/'), "a/b");
}

#[test]
fn searching() {
    assert_eq!(find_char("a:b:c", ':'), 1);
    assert_eq!(find_char("abc", ':'), 3);
    assert!(starts_with("git@host", "git@"));
    assert!(!starts_with("git", "git@"));
    assert!(same_text("abc", "abc"));
    assert!(!same_text("abc", "abd"));
}
