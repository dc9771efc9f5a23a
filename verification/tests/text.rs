use language_reporting::text::{
    decimal_string, eq_ignoring_case, find_char, is_whitespace_char, join_strings, repeat_str,
    split_str, str_eq, trim_line_end_str, trim_str,
};

#[test]
fn strings_are_compared_by_their_characters() {
    assert!(str_eq("", ""));
    assert!(str_eq("gr\u{fc}n", "gr\u{fc}n"));
    assert!(!str_eq("a", "b"));
    assert!(!str_eq("a", "ab"));
    assert!(eq_ignoring_case("GrEeN", "green"));
    assert!(!eq_ignoring_case("green", "GREEN"));
    assert!(!eq_ignoring_case("gree", "green"));
}

#[test]
fn characters_are_found_by_position() {
    assert_eq!(find_char("a:b:c", ':'), Some(1));
    assert_eq!(find_char("\u{e4}:b", ':'), Some(1));
    assert_eq!(find_char("abc", ':'), None);
    assert_eq!(find_char("", ':'), None);
}

#[test]
fn trimming_takes_whitespace_from_both_ends() {
    assert_eq!(trim_str("  a b \t\n"), "a b");
    assert_eq!(trim_str("\u{a0}\u{3000}x\u{2003}"), "x");
    assert_eq!(trim_str("   "), "");
    assert_eq!(trim_str(""), "");
    assert_eq!(trim_str("\u{200b}x"), "\u{200b}x");
    assert!(is_whitespace_char('\u{85}'));
    assert!(!is_whitespace_char('\u{1c}'));
    assert_eq!(trim_line_end_str("code)\r\n\n"), "code)");
    assert_eq!(trim_line_end_str("code) \n"), "code) ");
    assert_eq!(trim_line_end_str("\n"), "");
}

#[test]
fn splitting_keeps_empty_pieces() {
    assert_eq!(split_str("a b", ' '), vec!["a", "b"]);
    assert_eq!(split_str(" a  b ", ' '), vec!["", "a", "", "b", ""]);
    assert_eq!(split_str("", ' '), vec![""]);
    assert_eq!(split_str("abc", ' '), vec!["abc"]);
}

#[test]
fn repetition_joining_and_numerals() {
    assert_eq!(repeat_str("ab", 3), "ababab");
    assert_eq!(repeat_str("ab", 0), "");
    assert_eq!(repeat_str("", 5), "");
    let parts = vec!["a".to_string(), "b".to_string(), "c".to_string()];
    assert_eq!(join_strings(&parts, ", "), "a, b, c");
    assert_eq!(join_strings(&vec!["a".to_string()], ", "), "a");
    assert_eq!(join_strings(&vec![], ", "), "");
    assert_eq!(decimal_string(0), "0");
    assert_eq!(decimal_string(9), "9");
    assert_eq!(decimal_string(10), "10");
    assert_eq!(decimal_string(4096), "4096");
    assert_eq!(decimal_string(usize::MAX), usize::MAX.to_string());
}
