use command_tool::text::{
    replace_vec, split_char, split_lines, split_str_vec, split_whitespace_vec, trim_end_matches_char,
    trim_start_matches_vec, trim_vec,
};

fn v(s: &str) -> Vec<char> {
    s.chars().collect()
}

fn s(v: &Vec<char>) -> String {
    v.iter().collect()
}

fn all(vs: &Vec<Vec<char>>) -> Vec<String> {
    vs.iter().map(s).collect()
}

#[test]
fn lines_drop_line_endings() {
    assert_eq!(all(&split_lines(&v("a\r\nb\n\nc\r"))), vec!["a", "b", "", "c\r"]);
    assert_eq!(all(&split_lines(&v("one\n"))), vec!["one"]);
    assert!(split_lines(&v("")).is_empty());
}

#[test]
fn split_keeps_empty_pieces() {
    assert_eq!(all(&split_char(&v(",a,"), ',')), vec!["", "a", ""]);
    assert_eq!(all(&split_char(&v(""), ':')), vec![""]);
    assert_eq!(all(&split_str_vec(&v("command::set::abc"), &v("::"))), vec!["command", "set", "abc"]);
    assert_eq!(all(&split_str_vec(&v("a:::b"), &v("::"))), vec!["a", ":b"]);
}

#[test]
fn split_whitespace_skips_runs() {
    assert_eq!(all(&split_whitespace_vec(&v("  a  b\tc \n"))), vec!["a", "b", "c"]);
    assert!(split_whitespace_vec(&v(" \t ")).is_empty());
}

#[test]
fn trims() {
    assert_eq!(s(&trim_vec(&v("  x y \u{a0}"))), "x y");
    assert_eq!(s(&trim_start_matches_vec(&v("//! //! x"), &v("//! "))), "x");
    assert_eq!(s(&trim_end_matches_char(&v("a>>"), '>')), "a");
}

#[test]
fn replace_is_left_to_right_without_overlap() {
    assert_eq!(s(&replace_vec(&v("aaa"), &v("aa"), &v("b"))), "ba");
    assert_eq!(s(&replace_vec(&v("x\\,y\\,"), &v("\\,"), &v("PLACEHOLDER"))), "xPLACEHOLDERyPLACEHOLDER");
}
