use gemini_marketplace::text::trim;

#[test]
fn trim_removes_unicode_whitespace_only() {
    assert_eq!(trim("\u{3000}\t x y\u{85}\u{2028}"), "x y");
    assert_eq!(trim("\u{200b}x"), "\u{200b}x");
}
