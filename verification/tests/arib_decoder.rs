use libisdb::arib_decoder::{
    decode, decode_caption, decode_caption_to_string, decode_to_string, get_kanji_code, jisx0213_kanji_to_utf16,
    utf16_to_string, KanjiMap,
};
use libisdb::arib_string::{put_alphanumeric_char, put_symbols_char, CharSize, DecodeFlags};

/// A kanji map that holds the cells the tests use, at their JIS X 0213
/// values: 1-1 (U+3000), 4-1 (U+3041) and 4-2 (U+3042) of plane 1.
fn kanji_map() -> KanjiMap {
    let mut plane1 = vec![0u32; 94 * 94];
    plane1[0] = 0x3000;
    plane1[3 * 94] = 0x3041;
    plane1[3 * 94 + 1] = 0x3042;
    KanjiMap::new(plane1, vec![0u32; 15 * 94], vec![0u32; 17 * 94]).unwrap()
}

fn flags_default() -> DecodeFlags {
    DecodeFlags::default()
}

fn caption_flags() -> DecodeFlags {
    DecodeFlags { caption: true, ..Default::default() }
}

#[test]
fn test_decode_empty_returns_none() {
    assert!(decode(&kanji_map(), &[], flags_default()).is_none());
}

#[test]
fn test_hiragana_via_ss2() {
    // SS2 (0x19) invokes G2 = hiragana; 0x22 is 'あ' (index 2)
    let src = [0x19u8, 0x22];
    let result = decode_to_string(&kanji_map(), &src, flags_default()).unwrap();
    assert_eq!(result, "あ");
}

#[test]
fn test_katakana_via_ss3() {
    // SS3 (0x1D) invokes G3 = katakana; 0x22 is 'ア' (index 2)
    let src = [0x1Du8, 0x22];
    let result = decode_to_string(&kanji_map(), &src, flags_default()).unwrap();
    assert_eq!(result, "ア");
}

#[test]
fn test_alphanumeric_fullwidth() {
    // ESC 0x28 0x4A designates alphanumerics to G0; 0x41 is 'Ａ' full-width
    let src = [0x1Bu8, 0x28, 0x4A, 0x41];
    let result = decode_to_string(&kanji_map(), &src, flags_default()).unwrap();
    assert_eq!(result, "Ａ");
}

#[test]
fn test_alphanumeric_halfwidth_in_latin_mode() {
    let flags = DecodeFlags { latin: true, ..Default::default() };
    // Latin text: G0 = alphanumerics, half-width
    let src = [0x1Bu8, 0x28, 0x4A, 0x41];
    let result = decode_to_string(&kanji_map(), &src, flags).unwrap();
    assert_eq!(result, "A");
}

#[test]
fn test_newline_control() {
    let src = [0x0Du8];
    let result = decode_to_string(&kanji_map(), &src, flags_default()).unwrap();
    assert_eq!(result, "\n");
}

#[test]
fn test_space_fullwidth() {
    let src = [0x20u8];
    let result = decode_to_string(&kanji_map(), &src, flags_default()).unwrap();
    assert_eq!(result, "　");
}

#[test]
fn test_space_halfwidth_a0() {
    let src = [0xA0u8];
    let result = decode_to_string(&kanji_map(), &src, flags_default()).unwrap();
    assert_eq!(result, " ");
}

#[test]
fn test_escape_set_hiragana_g0() {
    // ESC 0x28 0x30 designates hiragana to G0; 0x22 is 'あ'
    let src = [0x1Bu8, 0x28, 0x30, 0x22];
    let result = decode_to_string(&kanji_map(), &src, flags_default()).unwrap();
    assert_eq!(result, "あ");
}

#[test]
fn test_escape_set_katakana_g0() {
    // ESC 0x28 0x31 designates katakana to G0; 0x22 is 'ア'
    let src = [0x1Bu8, 0x28, 0x31, 0x22];
    let result = decode_to_string(&kanji_map(), &src, flags_default()).unwrap();
    assert_eq!(result, "ア");
}

#[test]
fn test_jisx0213_kanji_to_utf16_plane1() {
    // 0x2422: row 0x24, cell 0x22 is 'あ'
    let units = jisx0213_kanji_to_utf16(&kanji_map(), 1, 0x2422);
    assert_eq!(units.len(), 1);
    let ch = char::from_u32(units[0] as u32).unwrap();
    assert_eq!(ch, 'あ');
}

#[test]
fn test_jisx0213_kanji_to_utf16_ideographic_space() {
    // 0x2121: row 0x21, cell 0x21 is the ideographic space
    let units = jisx0213_kanji_to_utf16(&kanji_map(), 1, 0x2121);
    assert_eq!(units.len(), 1);
    assert_eq!(units[0], 0x3000);
}

#[test]
fn test_jisx0213_kanji_to_utf16_invalid() {
    assert!(jisx0213_kanji_to_utf16(&kanji_map(), 1, 0x0000).is_empty());
    assert!(jisx0213_kanji_to_utf16(&kanji_map(), 3, 0x2121).is_empty());
}

#[test]
fn test_get_kanji_code_plane1_first() {
    let v = get_kanji_code(&kanji_map(), 1, 0x2121);
    assert_eq!(v, 0x3000);
}

#[test]
fn test_rpc_repeat() {
    // RPC (0x98) with count 2, then G0 = hiragana and 'あ', written twice
    let src = [0x98u8, 0x02, 0x1B, 0x28, 0x30, 0x22];
    let result = decode_to_string(&kanji_map(), &src, flags_default()).unwrap();
    assert_eq!(result, "ああ");
}

#[test]
fn test_locking_shift_g1_alphanumeric() {
    // LS1 (0x0E) invokes G1 = alphanumerics into GL; 0x41 is 'Ａ'
    let src = [0x0Eu8, 0x41];
    let result = decode_to_string(&kanji_map(), &src, flags_default()).unwrap();
    assert_eq!(result, "Ａ");
}

#[test]
fn test_decode_caption_empty_returns_none() {
    assert!(decode_caption(&kanji_map(), &[], caption_flags()).is_none());
}

#[test]
fn test_decode_caption_no_format_codes() {
    // no format codes: an empty format list, and the text of a plain decoding
    let src = [0x1Bu8, 0x28, 0x30, 0x22];
    let (utf16, fmt) = decode_caption(&kanji_map(), &src, caption_flags()).unwrap();
    assert_eq!(String::from_utf16_lossy(&utf16), "あ");
    assert!(fmt.is_empty());
}

#[test]
fn test_decode_caption_char_color() {
    // 0x81 sets colour 1; its format is recorded at position 0
    let src = [0x81u8, 0x1B, 0x28, 0x30, 0x22];
    let (utf16, fmt) = decode_caption(&kanji_map(), &src, caption_flags()).unwrap();
    assert_eq!(String::from_utf16_lossy(&utf16), "あ");
    assert_eq!(fmt.len(), 1);
    assert_eq!(fmt[0].pos, 0);
    assert_eq!(fmt[0].char_color_index, 1);
    // captions start with background colour 8
    assert_eq!(fmt[0].back_color_index, 8);
}

#[test]
fn test_decode_caption_char_size_small() {
    // one character, then SSZ (0x88): the small size is recorded at position 1
    let src = [0x1Bu8, 0x28, 0x30, 0x22, 0x88];
    let (utf16, fmt) = decode_caption(&kanji_map(), &src, caption_flags()).unwrap();
    assert_eq!(String::from_utf16_lossy(&utf16), "あ");
    assert_eq!(fmt.len(), 1);
    assert_eq!(fmt[0].pos, 1);
    assert_eq!(fmt[0].size, CharSize::Small);
}

#[test]
fn test_decode_caption_col_background() {
    // COL (0x90) 0x53 sets background colour 3
    let src = [0x90u8, 0x53, 0x1B, 0x28, 0x30, 0x22];
    let (utf16, fmt) = decode_caption(&kanji_map(), &src, caption_flags()).unwrap();
    assert_eq!(String::from_utf16_lossy(&utf16), "あ");
    assert_eq!(fmt.len(), 1);
    assert_eq!(fmt[0].pos, 0);
    assert_eq!(fmt[0].back_color_index, 3);
    // the character colour keeps its caption default 7
    assert_eq!(fmt[0].char_color_index, 7);
}

#[test]
fn test_decode_caption_col_foreground() {
    // COL (0x90) 0x45 sets character colour 5
    let src = [0x90u8, 0x45, 0x1B, 0x28, 0x30, 0x22];
    let (_, fmt) = decode_caption(&kanji_map(), &src, caption_flags()).unwrap();
    assert_eq!(fmt.len(), 1);
    assert_eq!(fmt[0].char_color_index, 5);
}

#[test]
fn test_decode_caption_col_def_palette() {
    // COL 0x20 0x01 selects palette 1; then 0x82 (colour 2) gives 0x12
    let src = [0x90u8, 0x20, 0x01, 0x82, 0x1B, 0x28, 0x30, 0x22];
    let (_, fmt) = decode_caption(&kanji_map(), &src, caption_flags()).unwrap();
    assert_eq!(fmt.len(), 1);
    assert_eq!(fmt[0].char_color_index, 0x12);
}

#[test]
fn test_decode_caption_same_pos_overwrites() {
    // two colours at position 0: one entry, with the last colour
    let src = [0x81u8, 0x83, 0x1B, 0x28, 0x30, 0x22];
    let (_, fmt) = decode_caption(&kanji_map(), &src, caption_flags()).unwrap();
    assert_eq!(fmt.len(), 1);
    assert_eq!(fmt[0].char_color_index, 3);
}

#[test]
fn test_decode_caption_multiple_positions() {
    // 'あ' (0), colour 4 (1), 'い' (1..2), small size (2)
    let src = [
        0x1Bu8, 0x28, 0x30, 0x22, // G0 = hiragana, 'あ'
        0x84, // colour 4 at position 1
        0x24, // 'い'
        0x88, // small size at position 2
    ];
    let (utf16, fmt) = decode_caption(&kanji_map(), &src, caption_flags()).unwrap();
    assert_eq!(String::from_utf16_lossy(&utf16), "あい");
    assert_eq!(fmt.len(), 2);
    assert_eq!(fmt[0].pos, 1);
    assert_eq!(fmt[0].char_color_index, 4);
    assert_eq!(fmt[1].pos, 2);
    assert_eq!(fmt[1].size, CharSize::Small);
}

#[test]
fn test_decode_does_not_emit_format() {
    // a plain decoding gives the text whatever colour codes it holds
    let src = [0x81u8, 0x1B, 0x28, 0x30, 0x22];
    let result = decode_to_string(&kanji_map(), &src, caption_flags()).unwrap();
    assert_eq!(result, "あ");
}

#[test]
fn test_symbols_additional_first() {
    // ESC 0x28 0x3B designates the additional symbols to G0; 0x7A21 is U+26CC
    let src = [0x1Bu8, 0x28, 0x3B, 0x7A, 0x21];
    let result = decode_to_string(&kanji_map(), &src, flags_default()).unwrap();
    assert_eq!(result, "\u{26cc}");
}

#[test]
fn test_gr_area_hiragana() {
    // GR holds G2 = hiragana; 0xA2 & 0x7F = 0x22 is 'あ'
    let src = [0xA2u8];
    let result = decode_to_string(&kanji_map(), &src, flags_default()).unwrap();
    assert_eq!(result, "あ");
}

#[test]
fn test_decode_to_string_api() {
    let src = [0x1Bu8, 0x28, 0x30, 0x22];
    let s = decode_to_string(&kanji_map(), &src, flags_default()).unwrap();
    assert_eq!(s, "あ");
}

#[test]
fn test_kanji_g0_decode() {
    // G0 = kanji by default; 0x2421 (row 0x24, cell 0x21) is U+3041
    let src = [0x24u8, 0x21];
    let result = decode_to_string(&kanji_map(), &src, flags_default()).unwrap();
    assert_eq!(result, "ぁ");
}

#[test]
fn test_locking_shift_ls2() {
    // ESC 0x6E (LS2) invokes G2 = hiragana into GL; 0x22 is 'あ'
    let src = [0x1Bu8, 0x6E, 0x22];
    let result = decode_to_string(&kanji_map(), &src, flags_default()).unwrap();
    assert_eq!(result, "あ");
}

#[test]
fn test_char_size_small_space() {
    // SSZ (0x88) then a space: half-width
    let src = [0x88u8, 0x20];
    let result = decode_to_string(&kanji_map(), &src, flags_default()).unwrap();
    assert_eq!(result, " ");
}

#[test]
fn test_kanji_map_sizes() {
    assert!(KanjiMap::new(vec![0; 94 * 94], vec![0; 15 * 94], vec![0; 17 * 94]).is_some());
    assert!(KanjiMap::new(vec![0; 94 * 93], vec![0; 15 * 94], vec![0; 17 * 94]).is_none());
    assert!(KanjiMap::new(vec![0; 94 * 94], vec![0; 14 * 94], vec![0; 17 * 94]).is_none());
    assert!(KanjiMap::new(vec![0; 94 * 94], vec![0; 15 * 94], vec![0; 16 * 94]).is_none());
}

#[test]
fn test_kanji_ligature_and_plane2() {
    let mut plane1 = vec![0u32; 94 * 94];
    // a ligature of U+304B and U+309A at 4-87 of plane 1
    plane1[3 * 94 + 86] = 0x309A_304B;
    let mut low = vec![0u32; 15 * 94];
    low[0] = 0x20089;
    let mut high = vec![0u32; 17 * 94];
    high[94 + 1] = 0x4E02;
    let m = KanjiMap::new(plane1, low, high).unwrap();
    assert_eq!(jisx0213_kanji_to_utf16(&m, 1, 0x2477), vec![0x304B, 0x309A]);
    assert_eq!(jisx0213_kanji_to_utf16(&m, 2, 0x2121), vec![0xD840, 0xDC89]);
    assert_eq!(jisx0213_kanji_to_utf16(&m, 2, 0x6F22), vec![0x4E02]);
    // rows 16 to 77 of plane 2 are not in the coding
    assert_eq!(get_kanji_code(&m, 2, 0x3021), 0);
    // a kanji the map does not hold is a white square
    assert_eq!(decode_to_string(&m, &[0x30, 0x21], flags_default()).unwrap(), "\u{25a1}");
    assert_eq!(decode_to_string(&m, &[0x24, 0x77], flags_default()).unwrap(), "\u{304b}\u{309a}");
}

#[test]
fn test_truncated_two_byte_character_fails() {
    assert!(decode(&kanji_map(), &[0x24], flags_default()).is_none());
    assert!(decode_caption(&kanji_map(), &[0x20, 0xB0], flags_default()).is_some());
    // kanji designated to G2, which GR holds, needs two bytes
    assert!(decode(&kanji_map(), &[0x1B, 0x2A, 0x42, 0xB0], flags_default()).is_none());
}

#[test]
fn test_gr_kanji() {
    // ESC 0x2A 0x42 designates kanji to G2, which GR holds; 0xA4 0xA2 is 0x2422
    let src = [0x1Bu8, 0x2A, 0x42, 0xA4, 0xA2];
    assert_eq!(decode_to_string(&kanji_map(), &src, flags_default()).unwrap(), "あ");
}

#[test]
fn test_medium_size_half_width_alphanumerics() {
    let flags = DecodeFlags { use_char_size: true, ..Default::default() };
    // MSZ (0x89), then the full-width 'Ａ' (0x2341) and the ideographic space (0x2121)
    let src = [0x89u8, 0x23, 0x41, 0x21, 0x21, 0x21, 0x2A];
    assert_eq!(decode_to_string(&kanji_map(), &src, flags).unwrap(), "A !");
    // without the character size in use, the kanji map decides
    assert_eq!(decode_to_string(&kanji_map(), &[0x89u8, 0x21, 0x21], flags_default()).unwrap(), "\u{3000}");
}

#[test]
fn test_additional_symbols_as_text_or_unicode() {
    let src = [0x1Bu8, 0x28, 0x3B, 0x7A, 0x50];
    assert_eq!(decode_to_string(&kanji_map(), &src, flags_default()).unwrap(), "[HV]");
    let flags = DecodeFlags { unicode_symbol: true, ..Default::default() };
    assert_eq!(decode_to_string(&kanji_map(), &src, flags).unwrap(), "\u{1f14a}");
    // a kanji code from row 85 on is an additional kanji
    assert_eq!(decode_to_string(&kanji_map(), &[0x75, 0x21], flags_default()).unwrap(), "\u{3402}");
    // an additional symbol that has none
    assert_eq!(decode_to_string(&kanji_map(), &[0x1B, 0x28, 0x3B, 0x7A, 0x27], flags_default()).unwrap(), "\u{25a1}");
    assert_eq!(put_symbols_char(0x7C21, false), Some("→"));
    assert_eq!(put_symbols_char(0x7C21, true), Some("\u{27a1}"));
    assert_eq!(put_symbols_char(0x7A27, false), None);
    assert_eq!(put_symbols_char(0x7F21, false), None);
}

#[test]
fn test_put_alphanumeric_char_widths() {
    assert_eq!(put_alphanumeric_char(0x41, false, CharSize::Normal, false), "Ａ");
    assert_eq!(put_alphanumeric_char(0x41, true, CharSize::Medium, false), "A");
    assert_eq!(put_alphanumeric_char(0x41, false, CharSize::Medium, false), "Ａ");
    assert_eq!(put_alphanumeric_char(0x41, false, CharSize::Normal, true), "A");
    assert_eq!(put_alphanumeric_char(0x80, false, CharSize::Normal, true), "\u{3000}");
}

#[test]
fn test_drcs_designation_gives_white_square() {
    // ESC 0x28 0x20 0x41 designates DRCS-1 to G0
    let src = [0x1Bu8, 0x28, 0x20, 0x41, 0x21];
    assert_eq!(decode_to_string(&kanji_map(), &src, flags_default()).unwrap(), "\u{25a1}");
    // a one-segment caption starts with DRCS-1 in GL
    let flags = DecodeFlags { caption: true, one_seg: true, ..Default::default() };
    assert_eq!(decode_to_string(&kanji_map(), &[0x21], flags).unwrap(), "\u{25a1}");
}

#[test]
fn test_latin_sets() {
    let flags = DecodeFlags { latin: true, ..Default::default() };
    // GR holds G2 = Latin extension; SS3 gives G3 = Latin special
    assert_eq!(decode_to_string(&kanji_map(), &[0xA1], flags).unwrap(), "\u{a1}");
    assert_eq!(decode_to_string(&kanji_map(), &[0x1D, 0x21], flags).unwrap(), "\u{266a}");
}

#[test]
fn test_ucs_text() {
    let flags = DecodeFlags { ucs: true, ..Default::default() };
    assert_eq!(decode_to_string(&kanji_map(), &[0x41, 0xE3, 0x81, 0x82], flags).unwrap(), "Aあ");
    // 0xC2 0xA0 is a control code: a half-width space
    assert_eq!(decode_to_string(&kanji_map(), &[0x41, 0xC2, 0xA0, 0x42], flags).unwrap(), "A B");
    // 0xC2 0x98 0x03 repeats the next character three times
    assert_eq!(decode_to_string(&kanji_map(), &[0xC2, 0x98, 0x03, 0x41], flags).unwrap(), "AAA");
    // a lone 0xC2 at the end is an ill-formed sequence
    assert_eq!(decode_to_string(&kanji_map(), &[0x41, 0xC2], flags).unwrap(), "A\u{25a1}");
    // an ill-formed sequence is a white square; a byte 0xFE fails
    assert_eq!(decode_to_string(&kanji_map(), &[0xE3, 0x41], flags).unwrap(), "\u{25a1}A");
    assert!(decode(&kanji_map(), &[0xFE, 0xFF], flags).is_none());
    // the private area of DRCS
    assert_eq!(decode_to_string(&kanji_map(), &[0xEE, 0xB0, 0x80], flags).unwrap(), "\u{25a1}");
}

#[test]
fn test_control_sequences_skipped() {
    // CSI (0x9B) parameters up to the final byte, then 'あ' in GR
    assert_eq!(decode_to_string(&kanji_map(), &[0x9B, 0x31, 0x3B, 0x53, 0xA2], flags_default()).unwrap(), "あ");
    // TIME (0x9D) 0x20 and its parameter
    assert_eq!(decode_to_string(&kanji_map(), &[0x9D, 0x20, 0x05, 0xA2], flags_default()).unwrap(), "あ");
    // APS (0x1C) takes two parameter bytes
    assert_eq!(decode_to_string(&kanji_map(), &[0x1C, 0x41, 0x41, 0xA2], flags_default()).unwrap(), "あ");
    // MACRO (0x95) up to 0x4F
    assert_eq!(decode_to_string(&kanji_map(), &[0x95, 0x40, 0x4F, 0xA2], flags_default()).unwrap(), "あ");
}

#[test]
fn test_decode_caption_to_string_api() {
    let src = [0x81u8, 0x1B, 0x28, 0x30, 0x22, 0x8B, 0x60];
    let (s, fmt) = decode_caption_to_string(&kanji_map(), &src, caption_flags()).unwrap();
    assert_eq!(s, "あ");
    assert_eq!(fmt.len(), 2);
    assert_eq!(fmt[1].pos, 1);
    assert_eq!(fmt[1].size, CharSize::Micro);
}

#[test]
fn test_utf16_to_string_lossy() {
    assert_eq!(utf16_to_string(&[0x41, 0xD83D, 0xDE00]), "A\u{1f600}");
    assert_eq!(utf16_to_string(&[0xD800, 0x41]), "\u{fffd}A");
    assert_eq!(utf16_to_string(&[0xDC00]), "\u{fffd}");
    assert_eq!(utf16_to_string(&[]), "");
}

#[test]
fn test_caption_without_format_codes_has_no_formats() {
    // escape sequences, shifts, repetition, spaces and line feeds record no format
    let src = [0x1Bu8, 0x28, 0x30, 0x22, 0x98, 0x03, 0x24, 0x20, 0x0D, 0x0E, 0x41, 0xA2, 0x9B, 0x31, 0x53];
    let (utf16, fmt) = decode_caption(&kanji_map(), &src, caption_flags()).unwrap();
    assert_eq!(String::from_utf16_lossy(&utf16), "あいいい\u{3000}\nＡあ");
    assert!(fmt.is_empty());
}
