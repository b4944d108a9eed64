use rusty_jvm::jvm::class::constant::decode_modified_utf8;
use rusty_jvm::jvm::class::ClassBuilderError;

#[test]
fn two_and_three_byte_sequences_back_to_back() {
    let s = decode_modified_utf8(&[0xC2, 0x80, 0xE0, 0xA0, 0x80]).unwrap();
    let chars: Vec<char> = s.chars().collect();
    assert_eq!(chars, vec!['\u{0080}', '\u{0800}']);
}

#[test]
fn lone_continuation_byte_is_rejected() {
    assert_eq!(decode_modified_utf8(&[0x80]), Err(ClassBuilderError::InvalidUtf8Encoding));
}

#[test]
fn ascii_bytes_are_single_characters() {
    assert_eq!(decode_modified_utf8(b"Code"), Ok(String::from("Code")));
    assert_eq!(decode_modified_utf8(&[0x01, 0x7F]), Ok(String::from("\u{1}\u{7f}")));
}

#[test]
fn empty_input_is_the_empty_string() {
    assert_eq!(decode_modified_utf8(&[]), Ok(String::new()));
}

#[test]
fn zero_byte_is_rejected() {
    assert_eq!(decode_modified_utf8(&[0x41, 0x00]), Err(ClassBuilderError::InvalidUtf8Encoding));
}

#[test]
fn two_byte_formula_is_exact() {
    // ((0xC3 & 0x1F) << 6) | (0xA9 & 0x3F) = 0xE9
    assert_eq!(decode_modified_utf8(&[0xC3, 0xA9]), Ok(String::from("\u{e9}")));
    // ((0xDF & 0x1F) << 6) | (0xBF & 0x3F) = 0x7FF
    assert_eq!(decode_modified_utf8(&[0xDF, 0xBF]), Ok(String::from("\u{7ff}")));
    // The two-byte form of the code point 0.
    assert_eq!(decode_modified_utf8(&[0xC0, 0x80]), Ok(String::from("\u{0}")));
}

#[test]
fn three_byte_formula_is_exact() {
    // ((0xE2 & 0x0F) << 12) | ((0x82 & 0x3F) << 6) | (0xAC & 0x3F) = 0x20AC
    assert_eq!(decode_modified_utf8(&[0xE2, 0x82, 0xAC]), Ok(String::from("\u{20ac}")));
    assert_eq!(decode_modified_utf8(&[0xEF, 0xBF, 0xBF]), Ok(String::from("\u{ffff}")));
}

#[test]
fn surrogate_code_points_are_rejected() {
    // 0xED 0xA0 0x80 spells 0xD800, which no character has.
    assert_eq!(
        decode_modified_utf8(&[0xED, 0xA0, 0x80]),
        Err(ClassBuilderError::InvalidUtf8Encoding)
    );
    assert_eq!(
        decode_modified_utf8(&[0xED, 0xBF, 0xBF]),
        Err(ClassBuilderError::InvalidUtf8Encoding)
    );
    assert_eq!(decode_modified_utf8(&[0xED, 0x9F, 0xBF]), Ok(String::from("\u{d7ff}")));
    assert_eq!(decode_modified_utf8(&[0xEE, 0x80, 0x80]), Ok(String::from("\u{e000}")));
}

#[test]
fn four_byte_lead_is_rejected() {
    assert_eq!(
        decode_modified_utf8(&[0xF0, 0x9F, 0x98, 0x80]),
        Err(ClassBuilderError::InvalidUtf8Encoding)
    );
    assert_eq!(decode_modified_utf8(&[0xFF]), Err(ClassBuilderError::InvalidUtf8Encoding));
}

#[test]
fn sequence_cut_short_is_rejected() {
    assert_eq!(decode_modified_utf8(&[0xC2]), Err(ClassBuilderError::InvalidUtf8Encoding));
    assert_eq!(decode_modified_utf8(&[0xE0, 0xA0]), Err(ClassBuilderError::InvalidUtf8Encoding));
    assert_eq!(
        decode_modified_utf8(&[0x41, 0xE0]),
        Err(ClassBuilderError::InvalidUtf8Encoding)
    );
}

#[test]
fn characters_come_out_in_order() {
    let s = decode_modified_utf8(&[0x61, 0xC3, 0xA9, 0x62, 0xE2, 0x82, 0xAC, 0x63]).unwrap();
    assert_eq!(s, "a\u{e9}b\u{20ac}c");
}
