use pragmatic_segmenter::text::{
    at_boundary, byte_len, contains, contains_char, decimal, parse_number, rank, replace, same,
    slice, split_nonempty, strip, to_chars, trim, trim_start, Strip,
};

#[test]
fn replace_takes_occurrences_left_to_right_without_overlap() {
    assert_eq!(replace("aaa", "aa", "b"), "ba");
    assert_eq!(replace("a.b.c", ".", "∯"), "a∯b∯c");
    assert_eq!(replace("&ᓴ&x&ᓴ&", "&ᓴ&", "!"), "!x!");
    assert_eq!(replace("abc", "x", "y"), "abc");
    assert_eq!(replace("", "x", "y"), "");
    assert_eq!(replace("xȸ", "ȸ", ""), "x");
}

#[test]
fn replace_with_an_empty_pattern_replaces_nothing() {
    assert_eq!(replace("abc", "", "-"), "abc");
}

#[test]
fn contains_finds_a_text_inside_another() {
    assert!(contains("humana inc. is", "inc"));
    assert!(!contains("humana Inc. is", "inc"));
    assert!(contains("abc", ""));
    assert!(contains("", ""));
    assert!(!contains("", "a"));
    assert!(contains("abc", "bc"));
    assert!(!contains("abc", "bcd"));
}

#[test]
fn contains_char_finds_one_character() {
    assert!(contains_char("1♨ abcd", '♨'));
    assert!(!contains_char("1. abcd", '♨'));
    assert!(!contains_char("", 'a'));
}

#[test]
fn trim_strips_unicode_white_space() {
    assert_eq!(trim("  a b \t\n"), "a b");
    assert_eq!(trim("\u{3000}a\u{2028}"), "a");
    assert_eq!(trim("\u{85}\u{a0}x\u{1680}\u{200a}\u{202f}\u{205f}"), "x");
    assert_eq!(trim("\u{200b}x"), "\u{200b}x");
    assert_eq!(trim("   "), "");
    assert_eq!(trim(""), "");
    assert_eq!(trim_start("  a "), "a ");
    assert_eq!(trim_start("\r\n"), "");
}

#[test]
fn strip_takes_list_marks_off_both_ends() {
    assert_eq!(strip(".1.)]", &Strip::ListMarks), "1");
    assert_eq!(strip("1.", &Strip::ListMarks), "1");
    assert_eq!(strip(" 1.", &Strip::ListMarks), " 1");
    assert_eq!(strip("...", &Strip::ListMarks), "");
}

#[test]
fn split_nonempty_leaves_empty_parts_out() {
    assert_eq!(split_nonempty("a\rb", '\r'), vec!["a", "b"]);
    assert_eq!(split_nonempty("\r\ra\r\rb\r", '\r'), vec!["a", "b"]);
    assert_eq!(split_nonempty("", '\r'), Vec::<String>::new());
    assert_eq!(split_nonempty("\r", '\r'), Vec::<String>::new());
    assert_eq!(split_nonempty("abc", '\r'), vec!["abc"]);
}

#[test]
fn parse_number_reads_unsigned_decimal_numbers() {
    assert_eq!(parse_number("0"), Some(0));
    assert_eq!(parse_number("7"), Some(7));
    assert_eq!(parse_number("07"), Some(7));
    assert_eq!(parse_number("99"), Some(99));
    assert_eq!(parse_number("2147483647"), Some(2147483647));
    assert_eq!(parse_number("2147483648"), None);
    assert_eq!(parse_number("99999999999999999999"), None);
    assert_eq!(parse_number(""), None);
    assert_eq!(parse_number("+1"), None);
    assert_eq!(parse_number("-1"), None);
    assert_eq!(parse_number("1a"), None);
    assert_eq!(parse_number(" 1"), None);
    assert_eq!(parse_number("٣"), None);
}

#[test]
fn decimal_writes_a_number_in_base_ten() {
    assert_eq!(decimal(0), "0");
    assert_eq!(decimal(9), "9");
    assert_eq!(decimal(10), "10");
    assert_eq!(decimal(1203), "1203");
    assert_eq!(decimal(4294967295), "4294967295");
}

#[test]
fn rank_is_the_last_place_in_the_table() {
    let table: Vec<String> = vec!["x".to_string(), "y".to_string(), "x".to_string()];
    assert_eq!(rank(&table, "x"), Some(2));
    assert_eq!(rank(&table, "y"), Some(1));
    assert_eq!(rank(&table, "z"), None);
    assert_eq!(rank(&Vec::new(), "x"), None);
}

#[test]
fn slices_go_by_byte_offsets_at_character_boundaries() {
    let text = "a∯b";
    assert_eq!(byte_len(text), 5);
    assert!(at_boundary(text, 0));
    assert!(at_boundary(text, 1));
    assert!(!at_boundary(text, 2));
    assert!(!at_boundary(text, 3));
    assert!(at_boundary(text, 4));
    assert!(at_boundary(text, 5));
    assert!(!at_boundary(text, 6));
    assert_eq!(slice(text, 1, 4), "∯");
    assert_eq!(slice(text, 0, 5), "a∯b");
    assert_eq!(slice(text, 4, 4), "");
}

#[test]
fn same_compares_character_by_character() {
    assert!(same("", ""));
    assert!(same("a∯", "a∯"));
    assert!(!same("a", "ab"));
    assert!(!same("ab", "a"));
    assert!(!same("ab", "ac"));
    assert_eq!(to_chars("a∯"), vec!['a', '∯']);
}
