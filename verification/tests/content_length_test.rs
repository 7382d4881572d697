use learning_rust::content_length::{content_length, is_header_text, parse_u64};

#[test]
fn parses_plain_decimal() {
    assert_eq!(parse_u64(b"4096"), Some(4096));
    assert_eq!(parse_u64(b"0"), Some(0));
    assert_eq!(parse_u64(b"007"), Some(7));
}

#[test]
fn parses_leading_plus() {
    assert_eq!(parse_u64(b"+256"), Some(256));
}

#[test]
fn rejects_what_u64_from_str_rejects() {
    for text in ["", "+", "-1", "12a", " 12", "12 ", "1_000", "++1", "18446744073709551616"] {
        assert_eq!(parse_u64(text.as_bytes()), None, "{text:?}");
        assert_eq!(parse_u64(text.as_bytes()), text.parse::<u64>().ok(), "{text:?}");
    }
}

#[test]
fn agrees_with_u64_from_str_on_accepted_text() {
    for text in ["1", "+0", "18446744073709551615", "000000000000000000000042", "99999"] {
        assert_eq!(parse_u64(text.as_bytes()), text.parse::<u64>().ok(), "{text:?}");
    }
    assert_eq!(parse_u64(b"18446744073709551615"), Some(u64::MAX));
}

#[test]
fn header_text_allows_visible_ascii_and_tab() {
    assert!(is_header_text(b"abc 123\t~"));
    assert!(!is_header_text(b"abc\n"));
    assert!(!is_header_text(&[0x7f]));
    assert!(!is_header_text(&[0xc3, 0xa9]));
}

#[test]
fn content_length_from_header() {
    assert_eq!(content_length(Some(b"256")), Some(256));
    assert_eq!(content_length(None), None);
    assert_eq!(content_length(Some(b"chunked")), None);
    assert_eq!(content_length(Some(b"12\x01")), None);
}
