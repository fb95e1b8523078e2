use leonos::encoding::{
    gbk_char_len, gbk_to_utf8, is_gbk_double_byte_first, is_gbk_double_byte_second,
    is_gbk_single_byte, utf8_to_gbk, Encoding, EncodingError,
};

#[test]
fn gbk_byte_classes() {
    assert!(is_gbk_single_byte(0x00));
    assert!(is_gbk_single_byte(0x7F));
    assert!(!is_gbk_single_byte(0x80));
    assert!(!is_gbk_double_byte_first(0x80));
    assert!(is_gbk_double_byte_first(0x81));
    assert!(is_gbk_double_byte_first(0xFE));
    assert!(!is_gbk_double_byte_first(0xFF));
    assert!(is_gbk_double_byte_second(0x40));
    assert!(is_gbk_double_byte_second(0x7E));
    assert!(!is_gbk_double_byte_second(0x7F));
    assert!(is_gbk_double_byte_second(0x80));
    assert!(is_gbk_double_byte_second(0xFE));
    assert!(!is_gbk_double_byte_second(0x3F));
}

#[test]
fn gbk_char_len_classes() {
    assert_eq!(gbk_char_len(b'a'), 1);
    assert_eq!(gbk_char_len(0xB1), 2);
    assert_eq!(gbk_char_len(0x80), 0);
    assert_eq!(gbk_char_len(0xFF), 0);
}

#[test]
fn gbk_ascii_passes_through() {
    let mut out = [0u8; 16];
    let n = gbk_to_utf8(b"abc", &mut out).unwrap();
    assert_eq!(n, 3);
    assert_eq!(&out[..3], b"abc");
}

#[test]
fn gbk_mapped_pair_becomes_three_utf8_bytes() {
    let mut out = [0u8; 16];
    let n = gbk_to_utf8(&[0xB1, 0xE3], &mut out).unwrap();
    assert_eq!(n, 3);
    // U+4E2D
    assert_eq!(&out[..3], &[0xE4, 0xB8, 0xAD]);
}

#[test]
fn gbk_unmapped_pair_becomes_replacement_character() {
    let mut out = [0u8; 16];
    let n = gbk_to_utf8(&[0x81, 0x40], &mut out).unwrap();
    assert_eq!(n, 3);
    // U+FFFD
    assert_eq!(&out[..3], &[0xEF, 0xBF, 0xBD]);
}

#[test]
fn gbk_bad_second_byte_is_invalid() {
    let mut out = [0u8; 16];
    assert_eq!(
        gbk_to_utf8(&[0x81, 0x30], &mut out),
        Err(EncodingError::InvalidInput)
    );
}

#[test]
fn gbk_truncated_pair_is_invalid() {
    let mut out = [0u8; 16];
    assert_eq!(gbk_to_utf8(&[0x81], &mut out), Err(EncodingError::InvalidInput));
}

#[test]
fn gbk_margin_needs_three_spare_bytes() {
    // the three-byte margin is checked before every character, so even one
    // ASCII byte is refused with a three-byte buffer
    let mut tight = [0u8; 3];
    assert_eq!(
        gbk_to_utf8(b"a", &mut tight),
        Err(EncodingError::NotEnoughSpace)
    );
    let mut enough = [0u8; 4];
    assert_eq!(gbk_to_utf8(b"a", &mut enough), Ok(1));
    assert_eq!(enough[0], b'a');
}

#[test]
fn gbk_error_keeps_converted_prefix() {
    let mut out = [0xAAu8; 8];
    assert_eq!(
        gbk_to_utf8(&[b'h', b'i', 0x81, 0x30], &mut out),
        Err(EncodingError::InvalidInput)
    );
    assert_eq!(&out[..2], b"hi");
    assert_eq!(out[2], 0xAA);
}

#[test]
fn utf8_ascii_passes_through() {
    let mut out = [0u8; 16];
    let n = utf8_to_gbk(b"ok", &mut out).unwrap();
    assert_eq!(n, 2);
    assert_eq!(&out[..2], b"ok");
}

#[test]
fn utf8_mapped_three_byte_character() {
    let mut out = [0u8; 16];
    // U+7F51
    let n = utf8_to_gbk(&[0xE7, 0xBD, 0x91], &mut out).unwrap();
    assert_eq!(n, 2);
    assert_eq!(&out[..2], &[0xD7, 0xD6]);
}

#[test]
fn utf8_three_byte_table_misses_the_two_byte_entries() {
    // U+4E2D is listed only in the branch for two-byte UTF-8 characters,
    // which a three-byte scalar never reaches: it falls through to `?`
    let mut out = [0u8; 16];
    let n = utf8_to_gbk(&[0xE4, 0xB8, 0xAD], &mut out).unwrap();
    assert_eq!(n, 1);
    assert_eq!(out[0], b'?');
}

#[test]
fn utf8_unmapped_two_byte_character_becomes_question_mark() {
    let mut out = [0u8; 16];
    // U+00E9
    let n = utf8_to_gbk(&[0xC3, 0xA9], &mut out).unwrap();
    assert_eq!(n, 1);
    assert_eq!(out[0], b'?');
}

#[test]
fn utf8_bad_continuation_is_invalid() {
    let mut out = [0u8; 16];
    assert_eq!(
        utf8_to_gbk(&[0xC3, 0x29], &mut out),
        Err(EncodingError::InvalidInput)
    );
    assert_eq!(
        utf8_to_gbk(&[0xE4, 0xB8, 0x29], &mut out),
        Err(EncodingError::InvalidInput)
    );
}

#[test]
fn utf8_truncated_character_is_invalid() {
    let mut out = [0u8; 16];
    assert_eq!(utf8_to_gbk(&[0xE4, 0xB8], &mut out), Err(EncodingError::InvalidInput));
}

#[test]
fn utf8_margin_needs_two_spare_bytes() {
    let mut tight = [0u8; 2];
    assert_eq!(
        utf8_to_gbk(b"a", &mut tight),
        Err(EncodingError::NotEnoughSpace)
    );
    let mut enough = [0u8; 3];
    assert_eq!(utf8_to_gbk(b"a", &mut enough), Ok(1));
}

#[test]
fn round_trip_of_mapped_characters() {
    // GBK -> UTF-8 -> GBK reproduces the pairs whose scalars the reverse
    // table also lists
    let gbk = [0xD7u8, 0xD6, 0xC2, 0xED, b'!'];
    let mut utf8 = [0u8; 32];
    let n = gbk_to_utf8(&gbk, &mut utf8).unwrap();
    assert_eq!(n, 7);
    let mut back = [0u8; 32];
    let m = utf8_to_gbk(&utf8[..n], &mut back).unwrap();
    assert_eq!(&back[..m], &gbk);
}

#[test]
fn encoding_enum_is_comparable() {
    assert_eq!(Encoding::UTF8, Encoding::UTF8);
    assert_ne!(Encoding::GBK, Encoding::ASCII);
    assert_ne!(EncodingError::InvalidInput, EncodingError::NotEnoughSpace);
}
