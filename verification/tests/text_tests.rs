use tapi::lists::reversed;
use tapi::text::{
    chars_of, contains, ends_with, find, matches_at, push_decimal, push_padded_decimal, same_text,
    starts_with, str_contains, string_of_range, to_ascii_lower, trim,
};

fn chars(s: &str) -> Vec<char> {
    s.chars().collect()
}

#[test]
fn chars_and_strings_convert_both_ways() {
    assert_eq!(chars_of("héllo"), chars("héllo"));
    assert_eq!(string_of_range(&chars("héllo"), 0, 5), "héllo");
    assert_eq!(string_of_range(&chars("abcdef"), 2, 4), "cd");
    assert_eq!(string_of_range(&chars("abcdef"), 3, 3), "");
}

#[test]
fn same_text_compares_characters() {
    assert!(same_text("abc", "abc"));
    assert!(!same_text("abc", "abd"));
    assert!(!same_text("abc", "ab"));
}

#[test]
fn prefix_suffix_and_substring_tests() {
    assert!(starts_with(&chars("_output"), &chars("_out")));
    assert!(!starts_with(&chars("ab"), &chars("abc")));
    assert!(ends_with(&chars("ch1_output"), &chars("_output")));
    assert!(!ends_with(&chars("output"), &chars("_output")));
    assert!(matches_at(&chars("abcabc"), &chars("cab"), 2));
    assert!(!matches_at(&chars("abcabc"), &chars("cab"), 3));
    assert_eq!(find(&chars("abcabc"), &chars("bc")), Some(1));
    assert_eq!(find(&chars("abcabc"), &chars("")), Some(0));
    assert_eq!(find(&chars("abc"), &chars("abcd")), None);
    assert!(contains(&chars("error 403 forbidden"), &chars("403")));
    assert!(!contains(&chars("error 404"), &chars("403")));
    assert!(str_contains("https://nhentai.net/g/1", "nhentai"));
}

#[test]
fn reversed_turns_a_list_round() {
    assert_eq!(reversed(vec![1, 2, 3]), vec![3, 2, 1]);
    assert_eq!(reversed(Vec::<u8>::new()), Vec::<u8>::new());
}

#[test]
fn trim_drops_unicode_white_space_at_both_ends() {
    assert_eq!(trim("  key \t\r\n"), "key");
    assert_eq!(trim("\u{3000}a b\u{a0}"), "a b");
    assert_eq!(trim("   "), "");
    assert_eq!(trim(""), "");
    assert_eq!(trim("\u{200b}x"), "\u{200b}x");
    for s in ["  a ", "\u{85}b\u{2028}", "c", " \u{1680}d\u{205f} "] {
        assert_eq!(trim(s), s.trim());
    }
}

fn decimal(n: u64) -> String {
    let mut out = String::from("n=");
    push_decimal(&mut out, n);
    out
}

fn padded(n: u64, width: usize) -> String {
    let mut out = String::new();
    push_padded_decimal(&mut out, n, width);
    out
}

#[test]
fn decimal_writes_numbers_without_leading_zeros() {
    assert_eq!(decimal(0), "n=0");
    assert_eq!(decimal(7), "n=7");
    assert_eq!(decimal(10), "n=10");
    assert_eq!(decimal(15518924), "n=15518924");
    assert_eq!(decimal(u64::MAX), format!("n={}", u64::MAX));
}

#[test]
fn padded_decimal_fills_up_with_zeros() {
    assert_eq!(padded(7, 3), "007");
    assert_eq!(padded(0, 4), "0000");
    assert_eq!(padded(123, 3), "123");
    assert_eq!(padded(12345, 3), "12345");
    assert_eq!(padded(5, 0), "5");
}

#[test]
fn ascii_lower_leaves_other_characters_alone() {
    assert_eq!(to_ascii_lower(&chars("JpEg")), "jpeg");
    assert_eq!(to_ascii_lower(&chars("ÀB\u{212a}")), "Àb\u{212a}");
}
