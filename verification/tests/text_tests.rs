use jurnalo::text::{
    append_chars, copy_range, decimal_chars, digit_char, join_chars, lowercase_chars,
    push_digits, split_chars, to_chars, trim_chars,
};

fn chars(s: &str) -> Vec<char> {
    s.chars().collect()
}

fn text(v: &Vec<char>) -> String {
    v.iter().collect()
}

#[test]
fn to_chars_keeps_every_character() {
    assert_eq!(to_chars("héllo ✓"), chars("héllo ✓"));
    assert_eq!(to_chars(""), Vec::<char>::new());
}

#[test]
fn lowercase_chars_changes_the_text() {
    assert_eq!(text(&lowercase_chars(&chars("HeLLo ÄÖ"))), "hello äö");
    assert_eq!(text(&lowercase_chars(&chars(""))), "");
}

#[test]
fn copy_range_takes_the_middle() {
    assert_eq!(text(&copy_range(&chars("abcdef"), 2, 5)), "cde");
    assert_eq!(text(&copy_range(&chars("abcdef"), 3, 3)), "");
    assert_eq!(text(&copy_range(&chars("abcdef"), 0, 6)), "abcdef");
}

#[test]
fn trim_chars_removes_whitespace_at_both_ends() {
    assert_eq!(text(&trim_chars(&chars("  a b \t\n"))), "a b");
    assert_eq!(text(&trim_chars(&chars("a"))), "a");
    assert_eq!(text(&trim_chars(&chars(" \u{a0}\u{3000} x\u{2003}"))), "x");
    assert_eq!(text(&trim_chars(&chars("   "))), "");
    assert_eq!(text(&trim_chars(&chars(""))), "");
}

#[test]
fn split_chars_keeps_empty_pieces() {
    let pieces: Vec<String> = split_chars(&chars("a::b:"), ':').iter().map(text).collect();
    assert_eq!(pieces, vec!["a", "", "b", ""]);
    let pieces: Vec<String> = split_chars(&chars(""), ':').iter().map(text).collect();
    assert_eq!(pieces, vec![""]);
    let pieces: Vec<String> = split_chars(&chars("no separator"), ':').iter().map(text).collect();
    assert_eq!(pieces, vec!["no separator"]);
    let pieces: Vec<String> = split_chars(&chars(" a  b"), ' ').iter().map(text).collect();
    assert_eq!(pieces, vec!["", "a", "", "b"]);
}

#[test]
fn join_chars_puts_the_separator_between() {
    let parts = vec![chars("a"), chars(""), chars("bc")];
    assert_eq!(text(&join_chars(&parts, &chars(" | "))), "a |  | bc");
    assert_eq!(text(&join_chars(&vec![chars("only")], &chars(", "))), "only");
    assert_eq!(text(&join_chars(&Vec::new(), &chars(", "))), "");
}

#[test]
fn split_then_join_gives_the_text_back() {
    let whole = chars("x:y::z:");
    let pieces = split_chars(&whole, ':');
    assert_eq!(join_chars(&pieces, &chars(":")), whole);
}

#[test]
fn append_chars_extends() {
    let mut out = chars("ab");
    append_chars(&mut out, &chars("cd"));
    assert_eq!(text(&out), "abcd");
    append_chars(&mut out, &chars(""));
    assert_eq!(text(&out), "abcd");
}

#[test]
fn digits_and_decimals() {
    assert_eq!(digit_char(0), '0');
    assert_eq!(digit_char(9), '9');
    let mut out = chars("n=");
    push_digits(&mut out, 1203);
    assert_eq!(text(&out), "n=1203");
    assert_eq!(text(&decimal_chars(0)), "0");
    assert_eq!(text(&decimal_chars(7)), "7");
    assert_eq!(text(&decimal_chars(-1)), "-1");
    assert_eq!(text(&decimal_chars(i32::MAX)), "2147483647");
    assert_eq!(text(&decimal_chars(i32::MIN)), "-2147483648");
}
