use ptv::clean;

#[test]
fn clean_trims_and_strips_one_quote_pair() {
    assert_eq!(clean("  \"hello\"  ".to_string()), "hello");
}

#[test]
fn clean_keeps_inner_quotes() {
    assert_eq!(clean("\"\"a\"\"".to_string()), "\"a\"");
}

#[test]
fn clean_strips_lone_leading_quote() {
    assert_eq!(clean("\"abc".to_string()), "abc");
}

#[test]
fn clean_strips_lone_trailing_quote() {
    assert_eq!(clean("abc\"".to_string()), "abc");
}

#[test]
fn clean_leaves_plain_text() {
    assert_eq!(clean("x".to_string()), "x");
}

#[test]
fn clean_of_empty_is_empty() {
    assert_eq!(clean(String::new()), "");
}

#[test]
fn clean_trims_whitespace_kinds() {
    assert_eq!(clean("\t\n hello \r".to_string()), "hello");
}

#[test]
fn clean_quote_only_input() {
    assert_eq!(clean("\"".to_string()), "");
    assert_eq!(clean("\"\"".to_string()), "");
}

#[test]
fn clean_trims_all_unicode_whitespace() {
    assert_eq!(clean("\u{000B}x\u{00A0}".to_string()), "x");
    assert_eq!(clean("\u{2003}\u{0085}y\u{3000}".to_string()), "y");
    assert_eq!(clean("\u{000C}\"z\"\u{202F}".to_string()), "z");
}
