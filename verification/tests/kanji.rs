use karukan::kanji::{bytes_to_hex_display, common_prefix_len, is_byte_fallback_token};

#[test]
fn byte_fallback_tokens_are_recognized() {
    assert!(is_byte_fallback_token("<0x00>"));
    assert!(is_byte_fallback_token("<0xCE>"));
    assert!(is_byte_fallback_token("<0xff>"));
}

#[test]
fn control_tokens_are_not_byte_fallback() {
    assert!(!is_byte_fallback_token("<s>"));
    assert!(!is_byte_fallback_token("</s>"));
    assert!(!is_byte_fallback_token("<unk>"));
    assert!(!is_byte_fallback_token("<pad>"));
    assert!(!is_byte_fallback_token("<0xGG>"));
    assert!(!is_byte_fallback_token("<0x123>"));
    assert!(!is_byte_fallback_token("0xCE"));
}

#[test]
fn common_prefix_len_basics() {
    assert_eq!(common_prefix_len(&[1, 2, 3], &[1, 2, 4]), 2);
    assert_eq!(common_prefix_len(&[], &[1]), 0);
    assert_eq!(common_prefix_len(&[1, 2], &[1, 2]), 2);
    assert_eq!(common_prefix_len(&[1, 2, 3], &[1, 2]), 2);
    assert_eq!(common_prefix_len(&[9], &[1, 2]), 0);
}

#[test]
fn partial_utf8_bytes_show_as_uppercase_hex() {
    assert_eq!(bytes_to_hex_display(&[0xCE, 0xBB]), "<CE><BB>");
    assert_eq!(bytes_to_hex_display(&[0x05]), "<05>");
    assert_eq!(bytes_to_hex_display(&[]), "");
}

#[test]
fn a_signed_byte_reads_as_byte_fallback_like_from_str_radix() {
    // `u8::from_str_radix` accepts a leading `+`.
    assert!(is_byte_fallback_token("<0x+F>"));
    assert!(!is_byte_fallback_token("<0x-F>"));
    assert!(!is_byte_fallback_token("<0xé>"));
}
