use novel_spider::number::{push_decimal, push_signed_decimal, push_two_digits};
use novel_spider::order::{insert_text, sort_unique};
use novel_spider::text::{
    chars_before_first, chars_end_with, chars_trim_end_char, copy_str, from_chars, join_strings,
    str_contains, str_equal, str_lex_less, str_replace_all, str_starts_with, str_trim, to_chars,
};

fn decimal_text(n: u64) -> String {
    let mut out = Vec::new();
    push_decimal(&mut out, n);
    from_chars(&out)
}

#[test]
fn trim_strips_white_space_at_both_ends() {
    assert_eq!(str_trim("  a b \n"), "a b");
    assert_eq!(str_trim("\u{3000}标题\t"), "标题");
    assert_eq!(str_trim(" \n "), "");
    assert_eq!(str_trim(""), "");
}

#[test]
fn trim_agrees_with_the_standard_library() {
    for sample in ["", " ", "x", " x", "x ", "\r\n x y \u{a0}", "\u{2003}z\u{85}"] {
        assert_eq!(str_trim(sample), sample.trim());
    }
}

#[test]
fn replace_all_replaces_each_occurrence_from_the_left() {
    assert_eq!(str_replace_all("a.b.c", ".", "::"), "a::b::c");
    assert_eq!(str_replace_all("aaa", "aa", "b"), "ba");
    assert_eq!(str_replace_all("abc", "", "x"), "abc");
    assert_eq!(str_replace_all("abc", "abcd", "x"), "abc");
    assert_eq!(str_replace_all("https://m.qidian.com/x", "m.qidian.com", "www.qidian.com"),
        "https://www.qidian.com/x");
}

#[test]
fn prefix_suffix_and_substring() {
    assert!(str_starts_with("data: x", "data: "));
    assert!(!str_starts_with("data:x", "data: "));
    assert!(str_starts_with("abc", ""));
    assert!(chars_end_with(&to_chars("a/chat/completions"), &to_chars("/chat/completions")));
    assert!(!chars_end_with(&to_chars("ab"), &to_chars("abc")));
    assert!(str_contains("abc", "bc"));
    assert!(str_contains("abc", ""));
    assert!(!str_contains("abc", "cb"));
    assert!(!str_contains("", "a"));
    assert!(str_equal("标题", "标题"));
    assert!(!str_equal("a", "b"));
}

#[test]
fn trailing_characters_are_removed_all() {
    assert_eq!(from_chars(&chars_trim_end_char(&to_chars("x///"), '/')), "x");
    assert_eq!(from_chars(&chars_trim_end_char(&to_chars("///"), '/')), "");
    assert_eq!(from_chars(&chars_trim_end_char(&to_chars("x/y"), '/')), "x/y");
}

#[test]
fn before_first_cuts_at_the_first_occurrence() {
    assert_eq!(from_chars(&chars_before_first(&to_chars("书名_作者_起点"), '_')), "书名");
    assert_eq!(from_chars(&chars_before_first(&to_chars("书名"), '_')), "书名");
    assert_eq!(from_chars(&chars_before_first(&to_chars("_x"), '_')), "");
}

#[test]
fn lexicographic_order_is_that_of_str() {
    let samples = ["", "a", "ab", "b", "都市", "连载", "VIP", "a\u{10ffff}", "a\u{e000}"];
    for a in samples {
        for b in samples {
            assert_eq!(str_lex_less(a, b), a < b);
        }
    }
}

#[test]
fn join_puts_the_separator_between() {
    let parts = vec!["一".to_string(), "二".to_string(), "三".to_string()];
    assert_eq!(join_strings(&parts, "\n\n"), "一\n\n二\n\n三");
    assert_eq!(join_strings(&vec!["x".to_string()], ", "), "x");
    assert_eq!(join_strings(&Vec::new(), ", "), "");
}

#[test]
fn copies_and_conversions_keep_the_text() {
    assert_eq!(copy_str("《书》"), "《书》");
    assert_eq!(from_chars(&to_chars("a\u{10ffff}b")), "a\u{10ffff}b");
    assert_eq!(to_chars("标题"), vec!['标', '题']);
}

#[test]
fn decimal_digits() {
    assert_eq!(decimal_text(0), "0");
    assert_eq!(decimal_text(7), "7");
    assert_eq!(decimal_text(10), "10");
    assert_eq!(decimal_text(1234567890), "1234567890");
    assert_eq!(decimal_text(u64::MAX), "18446744073709551615");
}

#[test]
fn two_digits_pad_with_a_zero() {
    for (n, expected) in [(0u64, "00"), (1, "01"), (9, "09"), (10, "10"), (99, "99"), (100, "100")] {
        let mut out = Vec::new();
        push_two_digits(&mut out, n);
        assert_eq!(from_chars(&out), expected);
        assert_eq!(from_chars(&out), format!("{:02}", n));
    }
}

#[test]
fn signed_decimal_carries_the_sign() {
    for n in [0i32, 5, -5, 42, i32::MAX, i32::MIN] {
        let mut out = Vec::new();
        push_signed_decimal(&mut out, n);
        assert_eq!(from_chars(&out), format!("{}", n));
    }
}

#[test]
fn sorted_unique_sorts_and_drops_repetitions() {
    let tags = vec!["连载", "VIP", "都市", "VIP", "签约", "都市"];
    let owned: Vec<String> = tags.iter().map(|t| t.to_string()).collect();
    let mut expected = owned.clone();
    expected.sort();
    expected.dedup();
    assert_eq!(sort_unique(&owned), expected);
    assert_eq!(sort_unique(&Vec::new()), Vec::<String>::new());
}

#[test]
fn insert_keeps_a_sorted_list_sorted() {
    let mut list = vec!["b".to_string(), "d".to_string()];
    insert_text(&mut list, "c".to_string());
    insert_text(&mut list, "a".to_string());
    insert_text(&mut list, "e".to_string());
    insert_text(&mut list, "c".to_string());
    assert_eq!(list, vec!["a", "b", "c", "d", "e"]);
}
