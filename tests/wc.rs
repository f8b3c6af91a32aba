use smarttype::wc::count_words_in_str;

#[test]
fn counts_words_in_str() {
    let input = "rust is fast and fearless";
    assert_eq!(count_words_in_str(input), 5);
}

#[test]
fn counts_words_across_any_whitespace() {
    assert_eq!(count_words_in_str(""), 0);
    assert_eq!(count_words_in_str("   \t\n"), 0);
    assert_eq!(count_words_in_str("  one\ttwo\n\nthree  "), 3);
    assert_eq!(count_words_in_str("a\u{3000}b"), 2);
}
