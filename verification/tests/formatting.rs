use ferro_code::formatting::{format_token_count, humanize, short_path, truncate_text};

#[test]
fn truncation_is_unicode_safe() {
    assert_eq!(truncate_text("a🙂bc", 3), "a🙂b…");
    assert_eq!(short_path("abcdef", 4), "…def");
}

#[test]
fn formats_tokens_and_protocol_names() {
    assert_eq!(format_token_count(999), "999");
    assert_eq!(format_token_count(12_345), "12.3K");
    assert_eq!(humanize("fileChange"), "File Change");
}
