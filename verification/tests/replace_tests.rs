//! Tests of the string replacement helpers.

use std::borrow::Cow;

use hstr::replace::remove_all_ascii;
use hstr::replace::remove_all_ascii_in_place;
use hstr::replace::replace_all_ascii_in_place;
use hstr::replace::replace_all_str;
use hstr::replace::replace_str_if_contains;

#[test]
fn test_str_remove_all_ascii() {
    let s = "hello world";
    let result = remove_all_ascii(s, b'l');
    assert_eq!(result, "heo word");

    // Test with no occurrences
    let s = "hello world";
    let result = remove_all_ascii(s, b'z');
    assert_eq!(result, "hello world");
    match result {
        Cow::Borrowed(_) => {}
        Cow::Owned(_) => panic!("Should return borrowed when no changes"),
    }
}

#[test]
fn test_str_replace_all_str() {
    let s = "hello world hello";
    let result = replace_all_str(s, "hello", "hi");
    assert_eq!(result, "hi world hi");

    // Test with no occurrences
    let s = "hello world";
    let result = replace_all_str(s, "xyz", "abc");
    match result {
        Cow::Borrowed(_) => {}
        Cow::Owned(_) => panic!("Should return borrowed when no changes"),
    }
    assert_eq!(result, "hello world");
}

#[test]
fn test_string_remove_all_ascii() {
    let s = "hello world".to_string();
    let result = remove_all_ascii(&s, b'l');
    assert_eq!(result, "heo word");

    // Test with no occurrences
    let s = "hello world".to_string();
    let result = remove_all_ascii(&s, b'z');
    assert_eq!(result, "hello world");
    match result {
        Cow::Borrowed(_) => {}
        Cow::Owned(_) => panic!("Should return borrowed when no changes"),
    }
}

#[test]
fn test_string_remove_all_ascii_in_place() {
    let mut s = "hello world".to_string();
    remove_all_ascii_in_place(&mut s, b'l');
    assert_eq!(s, "heo word");

    let mut s = "aaaaaa".to_string();
    remove_all_ascii_in_place(&mut s, b'a');
    assert_eq!(s, "");
}

#[test]
fn test_string_replace_all_ascii_in_place() {
    let mut s = "hello world".to_string();
    replace_all_ascii_in_place(&mut s, b'l', b'x');
    assert_eq!(s, "hexxo worxd");

    let mut s = "hello world".to_string();
    replace_all_ascii_in_place(&mut s, b'z', b'x');
    assert_eq!(s, "hello world");
}

#[test]
fn test_string_replace_all_str() {
    let s = "hello world hello".to_string();
    let result = replace_all_str(&s, "hello", "hi");
    assert_eq!(result, "hi world hi");
    assert_eq!(s, "hello world hello"); // Original string should remain unchanged

    // Test with no occurrences
    let s = "hello world".to_string();
    let result = replace_all_str(&s, "xyz", "abc");
    match result {
        Cow::Borrowed(_) => {}
        Cow::Owned(_) => panic!("Should return borrowed when no changes"),
    }
    assert_eq!(result, "hello world");
    assert_eq!(s, "hello world");
}

#[test]
fn test_cow_remove_all_ascii() {
    let s: Cow<'_, str> = Cow::Borrowed("hello world");
    let result = remove_all_ascii(&s, b'l');
    assert_eq!(result, "heo word");

    let s: Cow<'_, str> = Cow::Owned("hello world".to_string());
    let result = remove_all_ascii(&s, b'l');
    assert_eq!(result, "heo word");
}

#[test]
fn test_cow_replace_all_str() {
    let s: Cow<'_, str> = Cow::Borrowed("hello world hello");
    let result = replace_all_str(&s, "hello", "hi");
    assert_eq!(result, "hi world hi");
    assert_eq!(s, "hello world hello"); // Original string should remain unchanged

    let s: Cow<'_, str> = Cow::Borrowed("hello world");
    let result = replace_all_str(&s, "xyz", "abc");
    match result {
        Cow::Borrowed(_) => {}
        Cow::Owned(_) => panic!("Should return borrowed when no changes"),
    }
    assert_eq!(result, "hello world");
    assert_eq!(s, "hello world");
}

#[test]
fn empty_pattern_changes_nothing() {
    assert!(replace_str_if_contains("anything", "", "x").is_none());
    match replace_all_str("anything", "", "x") {
        Cow::Borrowed(b) => assert_eq!(b, "anything"),
        Cow::Owned(_) => panic!("empty pattern must borrow"),
    }
}

#[test]
fn replacements_do_not_overlap() {
    let result = replace_all_str("aaa", "aa", "b");
    assert_eq!(result, "ba");
    let result = replace_all_str("aaaa", "aa", "a");
    assert_eq!(result, "aa");
}

#[test]
fn replace_across_unicode() {
    let result = replace_all_str("\u{e9}a\u{e9}a\u{e9}", "a", "-");
    assert_eq!(result, "\u{e9}-\u{e9}-\u{e9}");
    let removed = remove_all_ascii("\u{e9}a\u{e9}a\u{e9}", b'a');
    assert_eq!(removed, "\u{e9}\u{e9}\u{e9}");
}

#[test]
fn replace_grows_and_shrinks() {
    assert_eq!(replace_all_str("a-b-c", "-", "--"), "a--b--c");
    assert_eq!(replace_all_str("a--b--c", "--", "-"), "a-b-c");
    assert_eq!(
        replace_str_if_contains("hello world hello", "hello", "hi").as_deref(),
        Some("hi world hi")
    );
    assert!(replace_str_if_contains("hello", "world", "x").is_none());
}
