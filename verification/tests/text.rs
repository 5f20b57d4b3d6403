use sub2api_operator::text::basic::{
    equal_ignoring_case, is_blank, joined, lowered, padded, same, stripped_head, stripped_tail,
    take_chars, text5, trimmed, trimmed_start,
};
use sub2api_operator::text::numeral::{integer_text, number_text, read_signed, read_unsigned};
use sub2api_operator::text::order::{insert_text, is_before};
use sub2api_operator::text::search::{
    begins_with, contains, contains_char, drop_prefix, drop_suffix, ends_with, replaced, text_after,
    text_before,
};
use sub2api_operator::text::split::{keep_filled, split_at_char, split_words};

#[test]
fn trimming_takes_unicode_white_space() {
    assert_eq!(trimmed("\u{3000} a b\t\r\n\u{a0}"), "a b");
    assert_eq!(trimmed(" \u{2028}\u{85} "), "");
    assert_eq!(trimmed_start("  x "), "x ");
    assert!(is_blank("\u{2003}\n"));
    assert!(!is_blank("\u{200b}"));
    assert_eq!(trimmed(&trimmed(" a ")), trimmed(" a "));
}

#[test]
fn case_is_folded_for_ascii_alone() {
    assert_eq!(lowered("ABC-É"), "abc-É");
    assert!(equal_ignoring_case("A@Ex.Com", "a@eX.cOM"));
    assert!(!equal_ignoring_case("É", "é"));
    assert!(!equal_ignoring_case("ab", "abc"));
    assert!(same("x", "x") && !same("x", "X"));
}

#[test]
fn texts_are_cut_and_joined() {
    assert_eq!(take_chars("验证码abc", 3), "验证码");
    assert_eq!(take_chars("ab", 3), "ab");
    assert_eq!(padded("验", 3), "验  ");
    assert_eq!(padded("abcd", 3), "abcd");
    assert_eq!(joined(&vec!["a".into(), "".into(), "b".into()], "；"), "a；；b");
    assert_eq!(joined(&vec![], ","), "");
    assert_eq!(text5("a", "b", "", "c", "d"), "abcd");
    assert_eq!(stripped_tail("x//", '/'), "x");
    assert_eq!(stripped_head("//x/", '/'), "x/");
}

#[test]
fn numbers_read_back() {
    for n in [0u64, 7, 10, 99, 100, u64::MAX] {
        assert_eq!(read_unsigned(&number_text(n)), Some(n));
    }
    for i in [0i64, -1, 42, i64::MAX, i64::MIN] {
        assert_eq!(read_signed(&integer_text(i)), Some(i));
    }
    assert_eq!(number_text(18446744073709551615), "18446744073709551615");
    assert_eq!(integer_text(i64::MIN), "-9223372036854775808");
    assert_eq!(read_unsigned("+5"), Some(5));
    assert_eq!(read_unsigned("18446744073709551616"), None);
    assert_eq!(read_unsigned(""), None);
    assert_eq!(read_unsigned("+"), None);
    assert_eq!(read_unsigned("5a"), None);
    assert_eq!(read_signed("9223372036854775808"), None);
    assert_eq!(read_signed("1.0"), None);
}

#[test]
fn lists_stay_in_order_without_repetition() {
    assert!(is_before("a", "ab") && is_before("Z", "a") && !is_before("b", "a"));
    assert!(!is_before("a", "a"));
    let mut list: Vec<String> = Vec::new();
    for s in ["b", "a", "验", "b", "aa"] {
        insert_text(&mut list, s.to_string());
    }
    assert_eq!(list, vec!["a", "aa", "b", "验"]);
}

#[test]
fn texts_are_searched() {
    assert!(contains("hello", "ell") && contains("x", "") && !contains("ab", "abc"));
    assert!(contains_char("a<b", '<') && !contains_char("ab", '<'));
    assert!(begins_with("abc", "ab") && !begins_with("a", "ab"));
    assert!(ends_with("a/api", "/api") && !ends_with("api", "/api"));
    assert_eq!(drop_prefix("剩余 3", "剩余"), " 3");
    assert_eq!(drop_suffix("3 次", "次"), "3 ");
    assert_eq!(drop_suffix("3", "次"), "3");
    assert_eq!(replaced("aaa", "aa", "b"), "ba");
    assert_eq!(text_after("a=1&a=2", "a=").as_deref(), Some("1&a=2"));
    assert_eq!(text_after("b", "a="), None);
    assert_eq!(text_before("x&y&z", "&"), "x");
    assert_eq!(text_before("xy", "&"), "xy");
}

#[test]
fn texts_are_split() {
    assert_eq!(split_at_char("a,,b", ','), vec!["a", "", "b"]);
    assert_eq!(split_at_char("", ','), vec![""]);
    assert_eq!(split_words("  a\u{3000}b \n c "), vec!["a", "b", "c"]);
    assert_eq!(split_words(" \t"), Vec::<String>::new());
    let parts = vec![" x ".to_string(), "  ".to_string(), "y".to_string()];
    assert_eq!(keep_filled(&parts, 0), vec!["x", "y"]);
    assert_eq!(keep_filled(&parts, 1), vec!["y"]);
}
