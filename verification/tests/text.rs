use jobpipe::text::number::{i64_text, padded_left, padded_right, parse_digits, u128_text, usize_text};
use jobpipe::text::order::{le_text, lt_text};
use jobpipe::text::search::{begins_with, contains_text, cut_at, ends_with};
use jobpipe::text::words::{flatten, join_texts, split_on, words_of};
use jobpipe::text::{blank, chars_of, same_text, trim_text};

#[test]
fn numbers_are_written_like_the_standard_library_does() {
    for n in [0i64, 7, -7, 10, 99, 1234567890, i64::MAX, i64::MIN] {
        assert_eq!(i64_text(n), n.to_string());
    }
    assert_eq!(u128_text(u128::MAX), u128::MAX.to_string());
    assert_eq!(usize_text(usize::MAX), usize::MAX.to_string());
}

#[test]
fn padding_is_by_characters() {
    assert_eq!(padded_left("é", 3), "  é");
    assert_eq!(padded_right("é", 3), "é  ");
    assert_eq!(padded_left("abcd", 3), "abcd");
    assert_eq!(padded_right("abcd", 3), "abcd");
}

#[test]
fn digits_are_parsed_up_to_the_limit() {
    let d = |s: &str| parse_digits(&chars_of(s));
    assert_eq!(d("0012"), Some(12));
    assert_eq!(d("9223372036854775807"), Some(i64::MAX));
    assert_eq!(d("9223372036854775808"), None);
    assert_eq!(d(""), None);
}

#[test]
fn texts_are_ordered_like_strings() {
    let all = ["", "a", "ab", "b", "Z", "é", "😀", "\u{ffff}"];
    for a in all {
        for b in all {
            assert_eq!(le_text(a, b), a <= b);
            assert_eq!(lt_text(a, b), a < b);
            assert_eq!(same_text(a, b), a == b);
        }
    }
}

#[test]
fn splitting_and_joining_undo_each_other() {
    for s in ["", "a", "/a//b/", "//"] {
        let fields = split_on(&chars_of(s), '/');
        assert_eq!(fields, s.split('/').collect::<Vec<_>>());
        assert_eq!(join_texts(&fields, "/"), s);
    }
    assert_eq!(words_of(&chars_of(" a\u{3000}b \n")), vec!["a", "b"]);
    assert_eq!(flatten(" a\n b "), "a b");
}

#[test]
fn trimming_and_searching() {
    assert_eq!(trim_text("\u{2028} a b\t"), "a b");
    assert_eq!(trim_text(&trim_text("  x ")), "x");
    assert!(blank(" \u{a0}") && !blank("."));
    assert!(contains_text("on-site", "site") && contains_text("a", "") && !contains_text("", "a"));
    assert!(begins_with("https://x", "https://") && !begins_with("h", "https://"));
    assert!(ends_with("a.io", ".io") && !ends_with("io", ".io"));
    assert_eq!(cut_at("a=b=c", '='), Some(("a".to_string(), "b=c".to_string())));
    assert_eq!(cut_at("abc", '='), None);
}
