use agentloom_db::text::{
    add_in_order,
    chars_of,
    comes_before,
    contains_text,
    decimal_text,
    join,
    join3,
    parse_integer,
    replace_char,
    signed_decimal_text,
    text_of,
    trim,
};

#[test]
fn numbers_are_written_in_decimal() {
    assert_eq!(decimal_text(0), "0");
    assert_eq!(decimal_text(1_020_304), "1020304");
    assert_eq!(decimal_text(u64::MAX), "18446744073709551615");
    assert_eq!(signed_decimal_text(-5), "-5");
    assert_eq!(signed_decimal_text(i64::MIN), "-9223372036854775808");
}

#[test]
fn integers_are_read_as_they_are_written() {
    for n in [0, 7, -7, i64::MAX, i64::MIN] {
        assert_eq!(parse_integer(&signed_decimal_text(n)), Some(n));
    }
    assert_eq!(parse_integer("+12"), Some(12));
    assert_eq!(parse_integer("007"), Some(7));
    for text in ["", "+", "-", " 1", "1 ", "1.0", "x", "9223372036854775808", "٣"] {
        assert_eq!(parse_integer(text), None, "{text}");
    }
}

#[test]
fn white_space_is_removed_at_both_ends() {
    assert_eq!(trim(" \t a b \u{a0}\u{3000}\n"), "a b");
    assert_eq!(trim("\u{2003}"), "");
    assert_eq!(trim("\u{200b}x"), "\u{200b}x");
}

#[test]
fn strings_are_put_together_and_searched() {
    assert_eq!(join3("a", "", "b"), "ab");
    assert_eq!(join(&vec!["a".to_string(), "b".to_string()], ", "), "a, b");
    assert_eq!(join(&vec![], ", "), "");
    assert!(contains_text("abc", "bc"));
    assert!(contains_text("abc", ""));
    assert!(!contains_text("abc", "cb"));
    assert_eq!(replace_char("a%b%", '%', "\\%"), "a\\%b\\%");
    let chars = chars_of("你好x");
    assert_eq!(chars, vec!['你', '好', 'x']);
    assert_eq!(text_of(&chars, 1, 3), "好x");
}

#[test]
fn strings_are_kept_in_order_and_distinct() {
    assert!(comes_before("a", "b") && comes_before("a", "ab") && comes_before("Z", "a"));
    assert!(!comes_before("a", "a") && !comes_before("b", "a"));
    let mut parts: Vec<String> = Vec::new();
    for part in ["b", "a", "你", "b", "ab"] {
        add_in_order(&mut parts, part.to_string());
    }
    assert_eq!(parts, vec!["a", "ab", "b", "你"]);
}
