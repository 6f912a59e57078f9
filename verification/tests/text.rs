use ruddit::text::{
    chars_of, contains_text, decimal_text, find_from, join_texts, matches_at, natural_text,
    replace_all, same_text, slice_text, starts_with, strip_both, strip_leading,
};

fn chars(s: &str) -> Vec<char> {
    s.chars().collect()
}

#[test]
fn characters_are_handed_out_in_order() {
    assert_eq!(chars_of("héllo"), vec!['h', 'é', 'l', 'l', 'o']);
    assert!(chars_of("").is_empty());
}

#[test]
fn texts_are_equal_when_their_characters_are() {
    assert!(same_text("abc", "abc"));
    assert!(same_text("", ""));
    assert!(!same_text("abc", "abd"));
    assert!(!same_text("abc", "ab"));
    assert!(!same_text("abc", "ABC"));
}

#[test]
fn a_needle_stands_where_its_characters_stand() {
    let hay = chars("abcabc");
    assert!(matches_at(&hay, &chars("abc"), 0));
    assert!(matches_at(&hay, &chars("abc"), 3));
    assert!(!matches_at(&hay, &chars("abc"), 1));
    assert!(!matches_at(&hay, &chars("abc"), 4));
    assert!(!matches_at(&hay, &chars("abc"), 6));
    assert!(!matches_at(&hay, &chars("abc"), usize::MAX));
    assert!(matches_at(&hay, &chars(""), 6));
    assert!(!matches_at(&hay, &chars(""), 7));
    assert!(!matches_at(&chars("ab"), &chars("abc"), 0));
    assert!(matches_at(&chars(""), &chars(""), 0));
}

#[test]
fn the_first_occurrence_from_an_offset_is_found() {
    let hay = chars("abcabc");
    assert_eq!(find_from(&hay, &chars("bc"), 0), Some(1));
    assert_eq!(find_from(&hay, &chars("bc"), 1), Some(1));
    assert_eq!(find_from(&hay, &chars("bc"), 2), Some(4));
    assert_eq!(find_from(&hay, &chars("bc"), 5), None);
    assert_eq!(find_from(&hay, &chars("bc"), 100), None);
    assert_eq!(find_from(&hay, &chars("x"), 0), None);
    assert_eq!(find_from(&hay, &chars(""), 6), Some(6));
    assert_eq!(find_from(&hay, &chars(""), 7), None);
    assert_eq!(find_from(&hay, &chars("abcabcd"), 0), None);
    assert_eq!(find_from(&chars("aaa"), &chars("aa"), 1), Some(1));
}

#[test]
fn slices_count_characters_not_bytes() {
    assert_eq!(slice_text("héllo wörld", 1, 5), "éllo");
    assert_eq!(slice_text("héllo", 0, 5), "héllo");
    assert_eq!(slice_text("héllo", 2, 2), "");
    assert_eq!(slice_text("", 0, 0), "");
}

#[test]
fn every_leading_copy_of_a_prefix_is_taken_away() {
    assert_eq!(strip_leading("r/r/rust", "r/"), "rust");
    assert_eq!(strip_leading("rust", "r/"), "rust");
    assert_eq!(strip_leading("r/", "r/"), "");
    assert_eq!(strip_leading("r", "r/"), "r");
    assert_eq!(strip_leading("aaa", "aa"), "a");
    assert_eq!(strip_leading("abc", ""), "abc");
    assert_eq!(strip_leading("", "r/"), "");
}

#[test]
fn leading_copies_go_first_and_trailing_copies_then() {
    assert_eq!(strip_both("xxabcyy", "x", "y"), "abc");
    assert_eq!(strip_both("aaa", "aa", "a"), "");
    assert_eq!(strip_both("aaaa", "aaa", "aa"), "a");
    assert_eq!(strip_both("abab", "ab", "ab"), "");
    assert_eq!(strip_both("abc", "", ""), "abc");
    assert_eq!(strip_both("abc", "c", "a"), "abc");
}

#[test]
fn a_text_starts_with_its_prefixes() {
    assert!(starts_with("abc", "ab"));
    assert!(starts_with("abc", "abc"));
    assert!(starts_with("abc", ""));
    assert!(starts_with("", ""));
    assert!(!starts_with("abc", "abcd"));
    assert!(!starts_with("abc", "bc"));
}

#[test]
fn texts_are_joined_by_their_separator() {
    let parts = vec![String::from("a"), String::from("b"), String::from("c")];
    assert_eq!(join_texts(&parts, " OR "), "a OR b OR c");
    assert_eq!(join_texts(&vec![String::from("a")], " OR "), "a");
    assert_eq!(join_texts(&vec![], " OR "), "");
    assert_eq!(join_texts(&vec![String::new(), String::new()], ","), ",");
    assert_eq!(join_texts(&parts, ""), "abc");
}

#[test]
fn numbers_are_written_in_decimal() {
    assert_eq!(natural_text(0), "0");
    assert_eq!(natural_text(7), "7");
    assert_eq!(natural_text(10), "10");
    assert_eq!(natural_text(1234567890), "1234567890");
    assert_eq!(natural_text(u64::MAX), "18446744073709551615");
    assert_eq!(decimal_text(0), "0");
    assert_eq!(decimal_text(-1), "-1");
    assert_eq!(decimal_text(-1000), "-1000");
    assert_eq!(decimal_text(i64::MAX), "9223372036854775807");
    assert_eq!(decimal_text(i64::MIN), "-9223372036854775808");
}

#[test]
fn a_text_contains_its_substrings() {
    assert!(contains_text("learning rust", "rust"));
    assert!(contains_text("learning rust", "learning rust"));
    assert!(contains_text("learning rust", " "));
    assert!(contains_text("learning rust", ""));
    assert!(contains_text("", ""));
    assert!(!contains_text("", "a"));
    assert!(!contains_text("learning rust", "Rust"));
    assert!(!contains_text("learning rust", "rusty"));
    assert!(!contains_text("rust", "learning rust"));
    assert!(contains_text("aab", "ab"));
    assert!(contains_text("größe", "öß"));
}

#[test]
fn occurrences_are_replaced_from_the_left() {
    assert_eq!(replace_all("models/gemini-pro", "models/", ""), "gemini-pro");
    assert_eq!(replace_all("models/models/x", "models/", ""), "x");
    assert_eq!(replace_all("a-b-c", "-", "+"), "a+b+c");
    assert_eq!(replace_all("aaa", "aa", "b"), "ba");
    assert_eq!(replace_all("aaaa", "aa", "b"), "bb");
    assert_eq!(replace_all("abc", "abc", ""), "");
    assert_eq!(replace_all("abc", "x", "y"), "abc");
    assert_eq!(replace_all("abc", "", "y"), "abc");
    assert_eq!(replace_all("", "a", "b"), "");
    assert_eq!(replace_all("abab", "ab", "abab"), "abababab");
    assert_eq!(replace_all("xay", "a", "é"), "xéy");
}
