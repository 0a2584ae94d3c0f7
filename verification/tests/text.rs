use solvedbot::util::{escape_markdown, format_thousands};

#[test]
fn escape_inserts_backslashes() {
    assert_eq!(escape_markdown("a.b_c"), "a\\.b\\_c");
}

#[test]
fn escape_covers_every_markup_character() {
    assert_eq!(
        escape_markdown("_*[]()~`>#+-=|{}.!"),
        "\\_\\*\\[\\]\\(\\)\\~\\`\\>\\#\\+\\-\\=\\|\\{\\}\\.\\!"
    );
}

#[test]
fn escape_leaves_plain_text_alone() {
    assert_eq!(escape_markdown(""), "");
    assert_eq!(escape_markdown("abc ABC 123"), "abc ABC 123");
    assert_eq!(escape_markdown("한글 텍스트"), "한글 텍스트");
}

#[test]
fn escape_is_not_self_inverse() {
    let once = escape_markdown("a.b");
    let twice = escape_markdown(&once);
    assert_eq!(once, "a\\.b");
    assert_eq!(twice, "a\\\\.b");
    assert_ne!(twice, once);
}

#[test]
fn escape_escapes_the_escaped() {
    // The backslash itself is not markup, so only the dot is escaped again.
    assert_eq!(escape_markdown("a\\.b"), "a\\\\.b");
}

#[test]
fn thousands_small_numbers_unchanged() {
    assert_eq!(format_thousands(0), "0");
    assert_eq!(format_thousands(7), "7");
    assert_eq!(format_thousands(999), "999");
}

#[test]
fn thousands_grouping() {
    assert_eq!(format_thousands(1000), "1,000");
    assert_eq!(format_thousands(12345), "12,345");
    assert_eq!(format_thousands(1234567), "1,234,567");
    assert_eq!(format_thousands(u64::MAX), "18,446,744,073,709,551,615");
}
