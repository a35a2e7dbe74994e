use libisdb::arib_string::{
    code_point_to_utf16, is_ligature, put_hiragana_char, put_jis_katakana_char, put_katakana_char, utf8_to_codepoint,
};

#[test]
fn test_is_ligature() {
    assert!(is_ligature(0x00120000));
    assert!(!is_ligature(0x3042));
    assert!(!is_ligature(0x10FFFF));
}

#[test]
fn test_utf8_to_codepoint_ascii() {
    let (cp, len) = utf8_to_codepoint(b"A");
    assert_eq!(cp, 0x41);
    assert_eq!(len, 1);
}

#[test]
fn test_utf8_to_codepoint_3byte() {
    // U+3042 = E3 81 82
    let data = [0xE3u8, 0x81, 0x82];
    let (cp, len) = utf8_to_codepoint(&data);
    assert_eq!(cp, 0x3042);
    assert_eq!(len, 3);
}

#[test]
fn test_utf8_to_codepoint_other_forms() {
    assert_eq!(utf8_to_codepoint(&[]), (0, 0));
    assert_eq!(utf8_to_codepoint(&[0xC3, 0xA9]), (0xE9, 2));
    assert_eq!(utf8_to_codepoint(&[0xF0, 0x9F, 0x98, 0x80]), (0x1F600, 4));
    // a surrogate encoded in three bytes
    assert_eq!(utf8_to_codepoint(&[0xED, 0xA0, 0x80]), (0, 3));
    // overlong forms and a lone continuation byte
    assert_eq!(utf8_to_codepoint(&[0xC0, 0x80]), (0, 1));
    assert_eq!(utf8_to_codepoint(&[0xE0, 0x80, 0x80]), (0, 1));
    assert_eq!(utf8_to_codepoint(&[0x80]), (0, 1));
    // truncated sequence
    assert_eq!(utf8_to_codepoint(&[0xE3, 0x81]), (0, 1));
    // above U+10FFFF
    assert_eq!(utf8_to_codepoint(&[0xF4, 0x90, 0x80, 0x80]), (0, 4));
}

#[test]
fn test_code_point_to_utf16() {
    assert_eq!(code_point_to_utf16(0x3042), vec![0x3042]);
    assert_eq!(code_point_to_utf16(0x1F600), vec![0xD83D, 0xDE00]);
    assert_eq!(code_point_to_utf16(0x10FFFF), vec![0xDBFF, 0xDFFF]);
    let s: String = std::char::decode_utf16(code_point_to_utf16(0x20B9F)).map(|c| c.unwrap()).collect();
    assert_eq!(s, "\u{20B9F}");
}

#[test]
fn test_put_hiragana_a() {
    // code 0x22 -> index 2 -> 'あ'
    assert_eq!(put_hiragana_char(0x22), "あ");
}

#[test]
fn test_put_katakana_a() {
    // code 0x22 -> index 2 -> 'ア'
    assert_eq!(put_katakana_char(0x22), "ア");
}

#[test]
fn test_put_jis_katakana() {
    // code 0x21 -> index 1 -> '。'
    assert_eq!(put_jis_katakana_char(0x21), "。");
}

#[test]
fn test_put_char_outside_tables() {
    assert_eq!(put_hiragana_char(0x10), "\u{3000}");
    assert_eq!(put_katakana_char(0x80), "\u{3000}");
    assert_eq!(put_jis_katakana_char(0x60), "\u{3000}");
    assert_eq!(put_jis_katakana_char(0x5F), "゜");
    assert_eq!(put_hiragana_char(0x73), "ん");
}
