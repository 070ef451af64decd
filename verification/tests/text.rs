use rindexer::text::{chars_of, contains, remove, without_separators};

#[test]
fn substring_is_found_wherever_it_stands() {
    assert!(contains("block range too large", "block"));
    assert!(contains("block range too large", "large"));
    assert!(contains("aaab", "aab"));
    assert!(contains("", ""));
    assert!(contains("abc", ""));
    assert!(!contains("abc", "abcd"));
    assert!(!contains("block  range", "block range"));
    assert!(contains("\u{e9}t\u{e9}", "t\u{e9}"));
}

#[test]
fn occurrences_are_removed_from_left_to_right() {
    assert_eq!(remove("ERC20Filter", "Filter"), "ERC20");
    assert_eq!(remove("FilterFilter", "Filter"), "");
    assert_eq!(remove("FilFilterter", "Filter"), "Filter");
    assert_eq!(remove("Filte", "Filter"), "Filte");
    assert_eq!(remove("aaa", "aa"), "a");
    assert_eq!(remove("\u{e9}Filter\u{e8}", "Filter"), "\u{e9}\u{e8}");
}

#[test]
fn separators_are_left_out() {
    assert_eq!(without_separators("1,000.5"), "10005");
    assert_eq!(without_separators(".,"), "");
    assert_eq!(without_separators("10 000"), "10 000");
}

#[test]
fn characters_keep_their_order() {
    assert_eq!(chars_of("a\u{e9}b"), vec!['a', '\u{e9}', 'b']);
    assert_eq!(chars_of(""), Vec::<char>::new());
}
