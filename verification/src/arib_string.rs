//! The characters of the ARIB STD-B24 8-unit coding: its code sets, UTF-8
//! and UTF-16 code units, ligature codes, and the tables of the code sets.
use vstd::prelude::*;

verus! {

/// The code sets of the ARIB 8-unit character coding.
#[allow(non_camel_case_types)]
#[derive(Clone, Copy, PartialEq, Eq, Structural, Debug)]
pub enum CodeSet {
    Kanji,
    Alphanumeric,
    Hiragana,
    Katakana,
    Mosaic_A,
    Mosaic_B,
    Mosaic_C,
    Mosaic_D,
    ProportionalAlphanumeric,
    ProportionalHiragana,
    ProportionalKatakana,
    JIS_X0201_Katakana,
    JIS_KanjiPlane1,
    JIS_KanjiPlane2,
    AdditionalSymbols,
    LatinExtension,
    LatinSpecial,
    Macro,
    DRCS_0,
    DRCS_1,
    DRCS_2,
    DRCS_3,
    DRCS_4,
    DRCS_5,
    DRCS_6,
    DRCS_7,
    DRCS_8,
    DRCS_9,
    DRCS_10,
    DRCS_11,
    DRCS_12,
    DRCS_13,
    DRCS_14,
    DRCS_15,
    Unknown,
}

/// Whether a code set has two-byte codes.
pub open spec fn double_byte_set(set: CodeSet) -> bool {
    match set {
        CodeSet::Kanji | CodeSet::JIS_KanjiPlane1 | CodeSet::JIS_KanjiPlane2 | CodeSet::AdditionalSymbols
        | CodeSet::DRCS_0 => true,
        _ => false,
    }
}

/// Whether a code set has two-byte codes.
pub fn is_double_byte_code_set(set: CodeSet) -> (r: bool)
    ensures
        r == double_byte_set(set),
{
    match set {
        CodeSet::Kanji | CodeSet::JIS_KanjiPlane1 | CodeSet::JIS_KanjiPlane2 | CodeSet::AdditionalSymbols
        | CodeSet::DRCS_0 => true,
        _ => false,
    }
}

/// How a string is to be decoded.
#[derive(Clone, Copy)]
pub struct DecodeFlags {
    /// A caption: G3 starts as the macro set and captions start coloured.
    pub caption: bool,
    /// A caption of one-segment broadcasting: G1 starts as DRCS-1.
    pub one_seg: bool,
    /// Latin text: alphanumerics, Latin extension and Latin special sets.
    pub latin: bool,
    /// UCS (UTF-8) text.
    pub ucs: bool,
    /// Whether the character size decides between full and half width.
    pub use_char_size: bool,
    /// Whether additional symbols are given as Unicode symbols rather than
    /// as text.
    pub unicode_symbol: bool,
}

/// The flags of plain text: none set.
pub open spec fn default_decode_flags() -> DecodeFlags {
    DecodeFlags {
        caption: false,
        one_seg: false,
        latin: false,
        ucs: false,
        use_char_size: false,
        unicode_symbol: false,
    }
}

impl Default for DecodeFlags {
    fn default() -> (r: DecodeFlags)
        ensures
            r == default_decode_flags(),
    {
        DecodeFlags {
            caption: false,
            one_seg: false,
            latin: false,
            ucs: false,
            use_char_size: false,
            unicode_symbol: false,
        }
    }
}

/// The character sizes of ARIB captions.
#[derive(Clone, Copy, PartialEq, Eq, Structural, Debug)]
pub enum CharSize {
    Normal,
    Medium,
    Small,
    Micro,
    HighW,
    WidthW,
    SizeW,
    Special1,
    Special2,
}

impl Default for CharSize {
    fn default() -> (r: CharSize)
        ensures
            r == CharSize::Normal,
    {
        CharSize::Normal
    }
}

/// The format of a caption from a position of the decoded text on.
#[derive(Clone, Copy, PartialEq, Eq, Structural, Debug)]
pub struct FormatInfo {
    /// The position in the decoded text, in UTF-16 code units.
    pub pos: usize,
    pub size: CharSize,
    pub char_color_index: u8,
    pub back_color_index: u8,
    pub raster_color_index: u8,
}


/// Whether a code of the kanji map stands for two characters (a ligature):
/// a value above the last Unicode code point.
pub fn is_ligature(code: u32) -> (r: bool)
    ensures
        r == (code > 0x10FFFF),
{
    code > 0x10FFFF
}

/// Whether `b` is a UTF-8 continuation byte.
pub open spec fn continuation(b: u8) -> bool {
    0x80 <= b < 0xC0
}

/// The code point and length of the UTF-8 sequence at the start of `d`:
/// `(0, 0)` for no bytes; `(0, n)` for a well-formed sequence of `n` bytes
/// that encodes a surrogate or a value above U+10FFFF; `(0, 1)` for a byte
/// that starts no well-formed sequence (overlong forms included).
pub open spec fn utf8_decode(d: Seq<u8>) -> (u32, int) {
    if d.len() == 0 {
        (0, 0)
    } else if d[0] < 0x80 {
        (d[0] as u32, 1)
    } else if 0xC2 <= d[0] < 0xE0 && d.len() >= 2 && continuation(d[1]) {
        (((d[0] as int % 0x20) * 0x40 + d[1] as int % 0x40) as u32, 2)
    } else if 0xE0 <= d[0] < 0xF0 && d.len() >= 3 && continuation(d[1]) && continuation(d[2])
        && (d[0] as int % 0x10 != 0 || d[1] as int % 0x40 >= 0x20) {
        let cp = (d[0] as int % 0x10) * 0x1000 + (d[1] as int % 0x40) * 0x40 + d[2] as int % 0x40;
        (if cp < 0xD800 || cp >= 0xE000 { cp as u32 } else { 0 }, 3)
    } else if 0xF0 <= d[0] < 0xF8 && d.len() >= 4 && continuation(d[1]) && continuation(d[2])
        && continuation(d[3]) && (d[0] as int % 0x08 != 0 || d[1] as int % 0x40 >= 0x10) {
        let cp = (d[0] as int % 0x08) * 0x40000 + (d[1] as int % 0x40) * 0x1000 + (d[2] as int % 0x40)
            * 0x40 + d[3] as int % 0x40;
        (if cp < 0x110000 { cp as u32 } else { 0 }, 4)
    } else {
        (0, 1)
    }
}

/// Decodes the UTF-8 sequence at the start of `data`: its code point and
/// length (see `utf8_decode`).
pub fn utf8_to_codepoint(data: &[u8]) -> (r: (u32, usize))
    ensures
        (r.0, r.1 as int) == utf8_decode(data@),
{
    if data.len() == 0 {
        return (0, 0);
    }
    let b0 = data[0] as u32;
    if b0 < 0x80 {
        return (b0, 1);
    }
    if b0 >= 0xC2 && b0 < 0xE0 && data.len() >= 2 {
        let b1 = data[1] as u32;
        if b1 >= 0x80 && b1 < 0xC0 {
            let cp = ((b0 & 0x1F) << 6) | (b1 & 0x3F);
            assert(cp == (b0 % 0x20) * 0x40 + b1 % 0x40) by (bit_vector)
                requires
                    b0 < 0x100,
                    b1 < 0x100,
                    cp == ((b0 & 0x1F) << 6) | (b1 & 0x3F),
            ;
            return (cp, 2);
        }
    }
    if b0 >= 0xE0 && b0 < 0xF0 && data.len() >= 3 {
        let b1 = data[1] as u32;
        let b2 = data[2] as u32;
        if b1 >= 0x80 && b1 < 0xC0 && b2 >= 0x80 && b2 < 0xC0 && ((b0 & 0x0F) != 0 || (b1 & 0x20) != 0) {
            let cp = ((b0 & 0x0F) << 12) | ((b1 & 0x3F) << 6) | (b2 & 0x3F);
            assert(cp == (b0 % 0x10) * 0x1000 + (b1 % 0x40) * 0x40 + b2 % 0x40) by (bit_vector)
                requires
                    b0 < 0x100,
                    b1 < 0x100,
                    b2 < 0x100,
                    cp == ((b0 & 0x0F) << 12) | ((b1 & 0x3F) << 6) | (b2 & 0x3F),
            ;
            assert((b0 & 0x0F) != 0 <==> b0 % 0x10 != 0) by (bit_vector);
            assert((b1 & 0x20) != 0 <==> b1 % 0x40 >= 0x20) by (bit_vector)
                requires
                    0x80 <= b1 < 0xC0,
            ;
            if cp < 0xD800 || cp >= 0xE000 {
                return (cp, 3);
            }
            return (0, 3);
        }
        proof {
            assert((b0 & 0x0F) != 0 <==> b0 % 0x10 != 0) by (bit_vector);
            assert(0x80 <= b1 < 0xC0 ==> ((b1 & 0x20) != 0 <==> b1 % 0x40 >= 0x20)) by (bit_vector);
        }
    }
    if b0 >= 0xF0 && b0 < 0xF8 && data.len() >= 4 {
        let b1 = data[1] as u32;
        let b2 = data[2] as u32;
        let b3 = data[3] as u32;
        if b1 >= 0x80 && b1 < 0xC0 && b2 >= 0x80 && b2 < 0xC0 && b3 >= 0x80 && b3 < 0xC0
            && ((b0 & 0x07) != 0 || (b1 & 0x30) != 0) {
            let cp = ((b0 & 0x07) << 18) | ((b1 & 0x3F) << 12) | ((b2 & 0x3F) << 6) | (b3 & 0x3F);
            assert(cp == (b0 % 0x08) * 0x40000 + (b1 % 0x40) * 0x1000 + (b2 % 0x40) * 0x40 + b3 % 0x40)
                by (bit_vector)
                requires
                    b0 < 0x100,
                    b1 < 0x100,
                    b2 < 0x100,
                    b3 < 0x100,
                    cp == ((b0 & 0x07) << 18) | ((b1 & 0x3F) << 12) | ((b2 & 0x3F) << 6) | (b3 & 0x3F),
            ;
            assert((b0 & 0x07) != 0 <==> b0 % 0x08 != 0) by (bit_vector);
            assert((b1 & 0x30) != 0 <==> b1 % 0x40 >= 0x10) by (bit_vector)
                requires
                    0x80 <= b1 < 0xC0,
            ;
            if cp < 0x110000 {
                return (cp, 4);
            }
            return (0, 4);
        }
        proof {
            assert((b0 & 0x07) != 0 <==> b0 % 0x08 != 0) by (bit_vector);
            assert(0x80 <= b1 < 0xC0 ==> ((b1 & 0x30) != 0 <==> b1 % 0x40 >= 0x10)) by (bit_vector);
        }
    }
    (0, 1)
}

/// The UTF-16 code units of a code point below U+110000: one unit below
/// U+10000, else a surrogate pair.
pub open spec fn utf16_units(cp: int) -> Seq<u16> {
    if cp < 0x10000 {
        seq![cp as u16]
    } else {
        seq![(0xD800 + (cp - 0x10000) / 0x400) as u16, (0xDC00 + (cp - 0x10000) % 0x400) as u16]
    }
}

/// The UTF-16 code units of the code point `cp`. Above U+10FFFF the bits of
/// the high surrogate beyond its ten are kept as they are.
pub fn code_point_to_utf16(cp: u32) -> (r: Vec<u16>)
    ensures
        cp < 0x110000 ==> r@ == utf16_units(cp as int),
        cp >= 0x10000 ==> r@ == seq![
            0xD800u16 | (((cp - 0x10000) as u32 >> 10u32) as u16),
            0xDC00u16 | (((cp - 0x10000) as u32 & 0x03FFu32) as u16),
        ],
{
    let mut r: Vec<u16> = Vec::new();
    if cp < 0x10000 {
        r.push(cp as u16);
    } else {
        let c = cp - 0x10000;
        let hi = 0xD800u16 | (c >> 10) as u16;
        let lo = 0xDC00u16 | (c & 0x03FF) as u16;
        proof {
            if cp < 0x110000 {
                assert(c < 0x100000);
                assert(hi == 0xD800 + c / 0x400) by (bit_vector)
                    requires
                        c < 0x100000,
                        hi == 0xD800u16 | (c >> 10) as u16,
                ;
                assert(lo == 0xDC00 + c % 0x400) by (bit_vector)
                    requires
                        lo == 0xDC00u16 | (c & 0x03FF) as u16,
                ;
            }
        }
        r.push(hi);
        r.push(lo);
    }
    proof {
        assert(r@ =~= (if cp < 0x10000 { seq![cp as u16] } else { r@ }));
    }
    r
}

/// The index in a code set table of the code `code`: codes below 0x20 take
/// entry 0.
pub open spec fn gl_index(code: u16) -> u16 {
    if code < 0x20 {
        0
    } else {
        (code - 0x20) as u16
    }
}

/// The character of hiragana table entry `i`; a full-width space past the end.
pub open spec fn hiragana_char(i: u16) -> char {
    match i {
        0 => '\u{3000}',
        1 => 'ぁ',
        2 => 'あ',
        3 => 'ぃ',
        4 => 'い',
        5 => 'ぅ',
        6 => 'う',
        7 => 'ぇ',
        8 => 'え',
        9 => 'ぉ',
        10 => 'お',
        11 => 'か',
        12 => 'が',
        13 => 'き',
        14 => 'ぎ',
        15 => 'く',
        16 => 'ぐ',
        17 => 'け',
        18 => 'げ',
        19 => 'こ',
        20 => 'ご',
        21 => 'さ',
        22 => 'ざ',
        23 => 'し',
        24 => 'じ',
        25 => 'す',
        26 => 'ず',
        27 => 'せ',
        28 => 'ぜ',
        29 => 'そ',
        30 => 'ぞ',
        31 => 'た',
        32 => 'だ',
        33 => 'ち',
        34 => 'ぢ',
        35 => 'っ',
        36 => 'つ',
        37 => 'づ',
        38 => 'て',
        39 => 'で',
        40 => 'と',
        41 => 'ど',
        42 => 'な',
        43 => 'に',
        44 => 'ぬ',
        45 => 'ね',
        46 => 'の',
        47 => 'は',
        48 => 'ば',
        49 => 'ぱ',
        50 => 'ひ',
        51 => 'び',
        52 => 'ぴ',
        53 => 'ふ',
        54 => 'ぶ',
        55 => 'ぷ',
        56 => 'へ',
        57 => 'べ',
        58 => 'ぺ',
        59 => 'ほ',
        60 => 'ぼ',
        61 => 'ぽ',
        62 => 'ま',
        63 => 'み',
        64 => 'む',
        65 => 'め',
        66 => 'も',
        67 => 'ゃ',
        68 => 'や',
        69 => 'ゅ',
        70 => 'ゆ',
        71 => 'ょ',
        72 => 'よ',
        73 => 'ら',
        74 => 'り',
        75 => 'る',
        76 => 'れ',
        77 => 'ろ',
        78 => 'ゎ',
        79 => 'わ',
        80 => 'ゐ',
        81 => 'ゑ',
        82 => 'を',
        83 => 'ん',
        84 => '\u{3000}',
        85 => '\u{3000}',
        86 => '\u{3000}',
        87 => 'ゝ',
        88 => 'ゞ',
        89 => 'ー',
        90 => '。',
        91 => '「',
        92 => '」',
        93 => '、',
        94 => '・',
        95 => '\u{3000}',
        _ => '\u{3000}',
    }
}

/// The hiragana character with code `code`; a full-width space outside the table.
pub fn put_hiragana_char(code: u16) -> (r: &'static str)
    ensures
        r@ == seq![hiragana_char(gl_index(code))],
{
    let idx: u16 = if code < 0x20 { 0 } else { code - 0x20 };
    match idx {
        0 => { proof { reveal_strlit("\u{3000}"); } "\u{3000}" },
        1 => { proof { reveal_strlit("ぁ"); } "ぁ" },
        2 => { proof { reveal_strlit("あ"); } "あ" },
        3 => { proof { reveal_strlit("ぃ"); } "ぃ" },
        4 => { proof { reveal_strlit("い"); } "い" },
        5 => { proof { reveal_strlit("ぅ"); } "ぅ" },
        6 => { proof { reveal_strlit("う"); } "う" },
        7 => { proof { reveal_strlit("ぇ"); } "ぇ" },
        8 => { proof { reveal_strlit("え"); } "え" },
        9 => { proof { reveal_strlit("ぉ"); } "ぉ" },
        10 => { proof { reveal_strlit("お"); } "お" },
        11 => { proof { reveal_strlit("か"); } "か" },
        12 => { proof { reveal_strlit("が"); } "が" },
        13 => { proof { reveal_strlit("き"); } "き" },
        14 => { proof { reveal_strlit("ぎ"); } "ぎ" },
        15 => { proof { reveal_strlit("く"); } "く" },
        16 => { proof { reveal_strlit("ぐ"); } "ぐ" },
        17 => { proof { reveal_strlit("け"); } "け" },
        18 => { proof { reveal_strlit("げ"); } "げ" },
        19 => { proof { reveal_strlit("こ"); } "こ" },
        20 => { proof { reveal_strlit("ご"); } "ご" },
        21 => { proof { reveal_strlit("さ"); } "さ" },
        22 => { proof { reveal_strlit("ざ"); } "ざ" },
        23 => { proof { reveal_strlit("し"); } "し" },
        24 => { proof { reveal_strlit("じ"); } "じ" },
        25 => { proof { reveal_strlit("す"); } "す" },
        26 => { proof { reveal_strlit("ず"); } "ず" },
        27 => { proof { reveal_strlit("せ"); } "せ" },
        28 => { proof { reveal_strlit("ぜ"); } "ぜ" },
        29 => { proof { reveal_strlit("そ"); } "そ" },
        30 => { proof { reveal_strlit("ぞ"); } "ぞ" },
        31 => { proof { reveal_strlit("た"); } "た" },
        32 => { proof { reveal_strlit("だ"); } "だ" },
        33 => { proof { reveal_strlit("ち"); } "ち" },
        34 => { proof { reveal_strlit("ぢ"); } "ぢ" },
        35 => { proof { reveal_strlit("っ"); } "っ" },
        36 => { proof { reveal_strlit("つ"); } "つ" },
        37 => { proof { reveal_strlit("づ"); } "づ" },
        38 => { proof { reveal_strlit("て"); } "て" },
        39 => { proof { reveal_strlit("で"); } "で" },
        40 => { proof { reveal_strlit("と"); } "と" },
        41 => { proof { reveal_strlit("ど"); } "ど" },
        42 => { proof { reveal_strlit("な"); } "な" },
        43 => { proof { reveal_strlit("に"); } "に" },
        44 => { proof { reveal_strlit("ぬ"); } "ぬ" },
        45 => { proof { reveal_strlit("ね"); } "ね" },
        46 => { proof { reveal_strlit("の"); } "の" },
        47 => { proof { reveal_strlit("は"); } "は" },
        48 => { proof { reveal_strlit("ば"); } "ば" },
        49 => { proof { reveal_strlit("ぱ"); } "ぱ" },
        50 => { proof { reveal_strlit("ひ"); } "ひ" },
        51 => { proof { reveal_strlit("び"); } "び" },
        52 => { proof { reveal_strlit("ぴ"); } "ぴ" },
        53 => { proof { reveal_strlit("ふ"); } "ふ" },
        54 => { proof { reveal_strlit("ぶ"); } "ぶ" },
        55 => { proof { reveal_strlit("ぷ"); } "ぷ" },
        56 => { proof { reveal_strlit("へ"); } "へ" },
        57 => { proof { reveal_strlit("べ"); } "べ" },
        58 => { proof { reveal_strlit("ぺ"); } "ぺ" },
        59 => { proof { reveal_strlit("ほ"); } "ほ" },
        60 => { proof { reveal_strlit("ぼ"); } "ぼ" },
        61 => { proof { reveal_strlit("ぽ"); } "ぽ" },
        62 => { proof { reveal_strlit("ま"); } "ま" },
        63 => { proof { reveal_strlit("み"); } "み" },
        64 => { proof { reveal_strlit("む"); } "む" },
        65 => { proof { reveal_strlit("め"); } "め" },
        66 => { proof { reveal_strlit("も"); } "も" },
        67 => { proof { reveal_strlit("ゃ"); } "ゃ" },
        68 => { proof { reveal_strlit("や"); } "や" },
        69 => { proof { reveal_strlit("ゅ"); } "ゅ" },
        70 => { proof { reveal_strlit("ゆ"); } "ゆ" },
        71 => { proof { reveal_strlit("ょ"); } "ょ" },
        72 => { proof { reveal_strlit("よ"); } "よ" },
        73 => { proof { reveal_strlit("ら"); } "ら" },
        74 => { proof { reveal_strlit("り"); } "り" },
        75 => { proof { reveal_strlit("る"); } "る" },
        76 => { proof { reveal_strlit("れ"); } "れ" },
        77 => { proof { reveal_strlit("ろ"); } "ろ" },
        78 => { proof { reveal_strlit("ゎ"); } "ゎ" },
        79 => { proof { reveal_strlit("わ"); } "わ" },
        80 => { proof { reveal_strlit("ゐ"); } "ゐ" },
        81 => { proof { reveal_strlit("ゑ"); } "ゑ" },
        82 => { proof { reveal_strlit("を"); } "を" },
        83 => { proof { reveal_strlit("ん"); } "ん" },
        84 => { proof { reveal_strlit("\u{3000}"); } "\u{3000}" },
        85 => { proof { reveal_strlit("\u{3000}"); } "\u{3000}" },
        86 => { proof { reveal_strlit("\u{3000}"); } "\u{3000}" },
        87 => { proof { reveal_strlit("ゝ"); } "ゝ" },
        88 => { proof { reveal_strlit("ゞ"); } "ゞ" },
        89 => { proof { reveal_strlit("ー"); } "ー" },
        90 => { proof { reveal_strlit("。"); } "。" },
        91 => { proof { reveal_strlit("「"); } "「" },
        92 => { proof { reveal_strlit("」"); } "」" },
        93 => { proof { reveal_strlit("、"); } "、" },
        94 => { proof { reveal_strlit("・"); } "・" },
        95 => { proof { reveal_strlit("\u{3000}"); } "\u{3000}" },
        _ => { proof { reveal_strlit("\u{3000}"); } "\u{3000}" },
    }
}

/// The character of katakana table entry `i`; a full-width space past the end.
pub open spec fn katakana_char(i: u16) -> char {
    match i {
        0 => '\u{3000}',
        1 => 'ァ',
        2 => 'ア',
        3 => 'ィ',
        4 => 'イ',
        5 => 'ゥ',
        6 => 'ウ',
        7 => 'ェ',
        8 => 'エ',
        9 => 'ォ',
        10 => 'オ',
        11 => 'カ',
        12 => 'ガ',
        13 => 'キ',
        14 => 'ギ',
        15 => 'ク',
        16 => 'グ',
        17 => 'ケ',
        18 => 'ゲ',
        19 => 'コ',
        20 => 'ゴ',
        21 => 'サ',
        22 => 'ザ',
        23 => 'シ',
        24 => 'ジ',
        25 => 'ス',
        26 => 'ズ',
        27 => 'セ',
        28 => 'ゼ',
        29 => 'ソ',
        30 => 'ゾ',
        31 => 'タ',
        32 => 'ダ',
        33 => 'チ',
        34 => 'ヂ',
        35 => 'ッ',
        36 => 'ツ',
        37 => 'ヅ',
        38 => 'テ',
        39 => 'デ',
        40 => 'ト',
        41 => 'ド',
        42 => 'ナ',
        43 => 'ニ',
        44 => 'ヌ',
        45 => 'ネ',
        46 => 'ノ',
        47 => 'ハ',
        48 => 'バ',
        49 => 'パ',
        50 => 'ヒ',
        51 => 'ビ',
        52 => 'ピ',
        53 => 'フ',
        54 => 'ブ',
        55 => 'プ',
        56 => 'ヘ',
        57 => 'ベ',
        58 => 'ペ',
        59 => 'ホ',
        60 => 'ボ',
        61 => 'ポ',
        62 => 'マ',
        63 => 'ミ',
        64 => 'ム',
        65 => 'メ',
        66 => 'モ',
        67 => 'ャ',
        68 => 'ヤ',
        69 => 'ュ',
        70 => 'ユ',
        71 => 'ョ',
        72 => 'ヨ',
        73 => 'ラ',
        74 => 'リ',
        75 => 'ル',
        76 => 'レ',
        77 => 'ロ',
        78 => 'ヮ',
        79 => 'ワ',
        80 => 'ヰ',
        81 => 'ヱ',
        82 => 'ヲ',
        83 => 'ン',
        84 => 'ヴ',
        85 => 'ヵ',
        86 => 'ヶ',
        87 => 'ヽ',
        88 => 'ヾ',
        89 => 'ー',
        90 => '。',
        91 => '「',
        92 => '」',
        93 => '、',
        94 => '・',
        95 => '\u{3000}',
        _ => '\u{3000}',
    }
}

/// The katakana character with code `code`; a full-width space outside the table.
pub fn put_katakana_char(code: u16) -> (r: &'static str)
    ensures
        r@ == seq![katakana_char(gl_index(code))],
{
    let idx: u16 = if code < 0x20 { 0 } else { code - 0x20 };
    match idx {
        0 => { proof { reveal_strlit("\u{3000}"); } "\u{3000}" },
        1 => { proof { reveal_strlit("ァ"); } "ァ" },
        2 => { proof { reveal_strlit("ア"); } "ア" },
        3 => { proof { reveal_strlit("ィ"); } "ィ" },
        4 => { proof { reveal_strlit("イ"); } "イ" },
        5 => { proof { reveal_strlit("ゥ"); } "ゥ" },
        6 => { proof { reveal_strlit("ウ"); } "ウ" },
        7 => { proof { reveal_strlit("ェ"); } "ェ" },
        8 => { proof { reveal_strlit("エ"); } "エ" },
        9 => { proof { reveal_strlit("ォ"); } "ォ" },
        10 => { proof { reveal_strlit("オ"); } "オ" },
        11 => { proof { reveal_strlit("カ"); } "カ" },
        12 => { proof { reveal_strlit("ガ"); } "ガ" },
        13 => { proof { reveal_strlit("キ"); } "キ" },
        14 => { proof { reveal_strlit("ギ"); } "ギ" },
        15 => { proof { reveal_strlit("ク"); } "ク" },
        16 => { proof { reveal_strlit("グ"); } "グ" },
        17 => { proof { reveal_strlit("ケ"); } "ケ" },
        18 => { proof { reveal_strlit("ゲ"); } "ゲ" },
        19 => { proof { reveal_strlit("コ"); } "コ" },
        20 => { proof { reveal_strlit("ゴ"); } "ゴ" },
        21 => { proof { reveal_strlit("サ"); } "サ" },
        22 => { proof { reveal_strlit("ザ"); } "ザ" },
        23 => { proof { reveal_strlit("シ"); } "シ" },
        24 => { proof { reveal_strlit("ジ"); } "ジ" },
        25 => { proof { reveal_strlit("ス"); } "ス" },
        26 => { proof { reveal_strlit("ズ"); } "ズ" },
        27 => { proof { reveal_strlit("セ"); } "セ" },
        28 => { proof { reveal_strlit("ゼ"); } "ゼ" },
        29 => { proof { reveal_strlit("ソ"); } "ソ" },
        30 => { proof { reveal_strlit("ゾ"); } "ゾ" },
        31 => { proof { reveal_strlit("タ"); } "タ" },
        32 => { proof { reveal_strlit("ダ"); } "ダ" },
        33 => { proof { reveal_strlit("チ"); } "チ" },
        34 => { proof { reveal_strlit("ヂ"); } "ヂ" },
        35 => { proof { reveal_strlit("ッ"); } "ッ" },
        36 => { proof { reveal_strlit("ツ"); } "ツ" },
        37 => { proof { reveal_strlit("ヅ"); } "ヅ" },
        38 => { proof { reveal_strlit("テ"); } "テ" },
        39 => { proof { reveal_strlit("デ"); } "デ" },
        40 => { proof { reveal_strlit("ト"); } "ト" },
        41 => { proof { reveal_strlit("ド"); } "ド" },
        42 => { proof { reveal_strlit("ナ"); } "ナ" },
        43 => { proof { reveal_strlit("ニ"); } "ニ" },
        44 => { proof { reveal_strlit("ヌ"); } "ヌ" },
        45 => { proof { reveal_strlit("ネ"); } "ネ" },
        46 => { proof { reveal_strlit("ノ"); } "ノ" },
        47 => { proof { reveal_strlit("ハ"); } "ハ" },
        48 => { proof { reveal_strlit("バ"); } "バ" },
        49 => { proof { reveal_strlit("パ"); } "パ" },
        50 => { proof { reveal_strlit("ヒ"); } "ヒ" },
        51 => { proof { reveal_strlit("ビ"); } "ビ" },
        52 => { proof { reveal_strlit("ピ"); } "ピ" },
        53 => { proof { reveal_strlit("フ"); } "フ" },
        54 => { proof { reveal_strlit("ブ"); } "ブ" },
        55 => { proof { reveal_strlit("プ"); } "プ" },
        56 => { proof { reveal_strlit("ヘ"); } "ヘ" },
        57 => { proof { reveal_strlit("ベ"); } "ベ" },
        58 => { proof { reveal_strlit("ペ"); } "ペ" },
        59 => { proof { reveal_strlit("ホ"); } "ホ" },
        60 => { proof { reveal_strlit("ボ"); } "ボ" },
        61 => { proof { reveal_strlit("ポ"); } "ポ" },
        62 => { proof { reveal_strlit("マ"); } "マ" },
        63 => { proof { reveal_strlit("ミ"); } "ミ" },
        64 => { proof { reveal_strlit("ム"); } "ム" },
        65 => { proof { reveal_strlit("メ"); } "メ" },
        66 => { proof { reveal_strlit("モ"); } "モ" },
        67 => { proof { reveal_strlit("ャ"); } "ャ" },
        68 => { proof { reveal_strlit("ヤ"); } "ヤ" },
        69 => { proof { reveal_strlit("ュ"); } "ュ" },
        70 => { proof { reveal_strlit("ユ"); } "ユ" },
        71 => { proof { reveal_strlit("ョ"); } "ョ" },
        72 => { proof { reveal_strlit("ヨ"); } "ヨ" },
        73 => { proof { reveal_strlit("ラ"); } "ラ" },
        74 => { proof { reveal_strlit("リ"); } "リ" },
        75 => { proof { reveal_strlit("ル"); } "ル" },
        76 => { proof { reveal_strlit("レ"); } "レ" },
        77 => { proof { reveal_strlit("ロ"); } "ロ" },
        78 => { proof { reveal_strlit("ヮ"); } "ヮ" },
        79 => { proof { reveal_strlit("ワ"); } "ワ" },
        80 => { proof { reveal_strlit("ヰ"); } "ヰ" },
        81 => { proof { reveal_strlit("ヱ"); } "ヱ" },
        82 => { proof { reveal_strlit("ヲ"); } "ヲ" },
        83 => { proof { reveal_strlit("ン"); } "ン" },
        84 => { proof { reveal_strlit("ヴ"); } "ヴ" },
        85 => { proof { reveal_strlit("ヵ"); } "ヵ" },
        86 => { proof { reveal_strlit("ヶ"); } "ヶ" },
        87 => { proof { reveal_strlit("ヽ"); } "ヽ" },
        88 => { proof { reveal_strlit("ヾ"); } "ヾ" },
        89 => { proof { reveal_strlit("ー"); } "ー" },
        90 => { proof { reveal_strlit("。"); } "。" },
        91 => { proof { reveal_strlit("「"); } "「" },
        92 => { proof { reveal_strlit("」"); } "」" },
        93 => { proof { reveal_strlit("、"); } "、" },
        94 => { proof { reveal_strlit("・"); } "・" },
        95 => { proof { reveal_strlit("\u{3000}"); } "\u{3000}" },
        _ => { proof { reveal_strlit("\u{3000}"); } "\u{3000}" },
    }
}

/// The character of JIS X 0201 katakana table entry `i`; a full-width space past the end.
pub open spec fn jis_katakana_char(i: u16) -> char {
    match i {
        0 => '\u{3000}',
        1 => '。',
        2 => '「',
        3 => '」',
        4 => '、',
        5 => '・',
        6 => 'ヲ',
        7 => 'ァ',
        8 => 'ィ',
        9 => 'ゥ',
        10 => 'ェ',
        11 => 'ォ',
        12 => 'ャ',
        13 => 'ュ',
        14 => 'ョ',
        15 => 'ッ',
        16 => 'ー',
        17 => 'ア',
        18 => 'イ',
        19 => 'ウ',
        20 => 'エ',
        21 => 'オ',
        22 => 'カ',
        23 => 'キ',
        24 => 'ク',
        25 => 'ケ',
        26 => 'コ',
        27 => 'サ',
        28 => 'シ',
        29 => 'ス',
        30 => 'セ',
        31 => 'ソ',
        32 => 'タ',
        33 => 'チ',
        34 => 'ツ',
        35 => 'テ',
        36 => 'ト',
        37 => 'ナ',
        38 => 'ニ',
        39 => 'ヌ',
        40 => 'ネ',
        41 => 'ノ',
        42 => 'ハ',
        43 => 'ヒ',
        44 => 'フ',
        45 => 'ヘ',
        46 => 'ホ',
        47 => 'マ',
        48 => 'ミ',
        49 => 'ム',
        50 => 'メ',
        51 => 'モ',
        52 => 'ヤ',
        53 => 'ユ',
        54 => 'ヨ',
        55 => 'ラ',
        56 => 'リ',
        57 => 'ル',
        58 => 'レ',
        59 => 'ロ',
        60 => 'ワ',
        61 => 'ン',
        62 => '゛',
        63 => '゜',
        _ => '\u{3000}',
    }
}

/// The JIS X 0201 katakana character with code `code`; a full-width space outside the table.
pub fn put_jis_katakana_char(code: u16) -> (r: &'static str)
    ensures
        r@ == seq![jis_katakana_char(gl_index(code))],
{
    let idx: u16 = if code < 0x20 { 0 } else { code - 0x20 };
    match idx {
        0 => { proof { reveal_strlit("\u{3000}"); } "\u{3000}" },
        1 => { proof { reveal_strlit("。"); } "。" },
        2 => { proof { reveal_strlit("「"); } "「" },
        3 => { proof { reveal_strlit("」"); } "」" },
        4 => { proof { reveal_strlit("、"); } "、" },
        5 => { proof { reveal_strlit("・"); } "・" },
        6 => { proof { reveal_strlit("ヲ"); } "ヲ" },
        7 => { proof { reveal_strlit("ァ"); } "ァ" },
        8 => { proof { reveal_strlit("ィ"); } "ィ" },
        9 => { proof { reveal_strlit("ゥ"); } "ゥ" },
        10 => { proof { reveal_strlit("ェ"); } "ェ" },
        11 => { proof { reveal_strlit("ォ"); } "ォ" },
        12 => { proof { reveal_strlit("ャ"); } "ャ" },
        13 => { proof { reveal_strlit("ュ"); } "ュ" },
        14 => { proof { reveal_strlit("ョ"); } "ョ" },
        15 => { proof { reveal_strlit("ッ"); } "ッ" },
        16 => { proof { reveal_strlit("ー"); } "ー" },
        17 => { proof { reveal_strlit("ア"); } "ア" },
        18 => { proof { reveal_strlit("イ"); } "イ" },
        19 => { proof { reveal_strlit("ウ"); } "ウ" },
        20 => { proof { reveal_strlit("エ"); } "エ" },
        21 => { proof { reveal_strlit("オ"); } "オ" },
        22 => { proof { reveal_strlit("カ"); } "カ" },
        23 => { proof { reveal_strlit("キ"); } "キ" },
        24 => { proof { reveal_strlit("ク"); } "ク" },
        25 => { proof { reveal_strlit("ケ"); } "ケ" },
        26 => { proof { reveal_strlit("コ"); } "コ" },
        27 => { proof { reveal_strlit("サ"); } "サ" },
        28 => { proof { reveal_strlit("シ"); } "シ" },
        29 => { proof { reveal_strlit("ス"); } "ス" },
        30 => { proof { reveal_strlit("セ"); } "セ" },
        31 => { proof { reveal_strlit("ソ"); } "ソ" },
        32 => { proof { reveal_strlit("タ"); } "タ" },
        33 => { proof { reveal_strlit("チ"); } "チ" },
        34 => { proof { reveal_strlit("ツ"); } "ツ" },
        35 => { proof { reveal_strlit("テ"); } "テ" },
        36 => { proof { reveal_strlit("ト"); } "ト" },
        37 => { proof { reveal_strlit("ナ"); } "ナ" },
        38 => { proof { reveal_strlit("ニ"); } "ニ" },
        39 => { proof { reveal_strlit("ヌ"); } "ヌ" },
        40 => { proof { reveal_strlit("ネ"); } "ネ" },
        41 => { proof { reveal_strlit("ノ"); } "ノ" },
        42 => { proof { reveal_strlit("ハ"); } "ハ" },
        43 => { proof { reveal_strlit("ヒ"); } "ヒ" },
        44 => { proof { reveal_strlit("フ"); } "フ" },
        45 => { proof { reveal_strlit("ヘ"); } "ヘ" },
        46 => { proof { reveal_strlit("ホ"); } "ホ" },
        47 => { proof { reveal_strlit("マ"); } "マ" },
        48 => { proof { reveal_strlit("ミ"); } "ミ" },
        49 => { proof { reveal_strlit("ム"); } "ム" },
        50 => { proof { reveal_strlit("メ"); } "メ" },
        51 => { proof { reveal_strlit("モ"); } "モ" },
        52 => { proof { reveal_strlit("ヤ"); } "ヤ" },
        53 => { proof { reveal_strlit("ユ"); } "ユ" },
        54 => { proof { reveal_strlit("ヨ"); } "ヨ" },
        55 => { proof { reveal_strlit("ラ"); } "ラ" },
        56 => { proof { reveal_strlit("リ"); } "リ" },
        57 => { proof { reveal_strlit("ル"); } "ル" },
        58 => { proof { reveal_strlit("レ"); } "レ" },
        59 => { proof { reveal_strlit("ロ"); } "ロ" },
        60 => { proof { reveal_strlit("ワ"); } "ワ" },
        61 => { proof { reveal_strlit("ン"); } "ン" },
        62 => { proof { reveal_strlit("゛"); } "゛" },
        63 => { proof { reveal_strlit("゜"); } "゜" },
        _ => { proof { reveal_strlit("\u{3000}"); } "\u{3000}" },
    }
}

/// The character of full-width alphanumeric table entry `i`; a full-width space past the end.
pub open spec fn fullwidth_alphanumeric_char(i: u16) -> char {
    match i {
        0 => '\u{3000}',
        1 => '！',
        2 => '"',
        3 => '＃',
        4 => '＄',
        5 => '％',
        6 => '＆',
        7 => '\'',
        8 => '（',
        9 => '）',
        10 => '＊',
        11 => '＋',
        12 => '，',
        13 => '－',
        14 => '．',
        15 => '／',
        16 => '０',
        17 => '１',
        18 => '２',
        19 => '３',
        20 => '４',
        21 => '５',
        22 => '６',
        23 => '７',
        24 => '８',
        25 => '９',
        26 => '：',
        27 => '；',
        28 => '＜',
        29 => '＝',
        30 => '＞',
        31 => '？',
        32 => '＠',
        33 => 'Ａ',
        34 => 'Ｂ',
        35 => 'Ｃ',
        36 => 'Ｄ',
        37 => 'Ｅ',
        38 => 'Ｆ',
        39 => 'Ｇ',
        40 => 'Ｈ',
        41 => 'Ｉ',
        42 => 'Ｊ',
        43 => 'Ｋ',
        44 => 'Ｌ',
        45 => 'Ｍ',
        46 => 'Ｎ',
        47 => 'Ｏ',
        48 => 'Ｐ',
        49 => 'Ｑ',
        50 => 'Ｒ',
        51 => 'Ｓ',
        52 => 'Ｔ',
        53 => 'Ｕ',
        54 => 'Ｖ',
        55 => 'Ｗ',
        56 => 'Ｘ',
        57 => 'Ｙ',
        58 => 'Ｚ',
        59 => '［',
        60 => '￥',
        61 => '］',
        62 => '＾',
        63 => '＿',
        64 => '｀',
        65 => 'ａ',
        66 => 'ｂ',
        67 => 'ｃ',
        68 => 'ｄ',
        69 => 'ｅ',
        70 => 'ｆ',
        71 => 'ｇ',
        72 => 'ｈ',
        73 => 'ｉ',
        74 => 'ｊ',
        75 => 'ｋ',
        76 => 'ｌ',
        77 => 'ｍ',
        78 => 'ｎ',
        79 => 'ｏ',
        80 => 'ｐ',
        81 => 'ｑ',
        82 => 'ｒ',
        83 => 'ｓ',
        84 => 'ｔ',
        85 => 'ｕ',
        86 => 'ｖ',
        87 => 'ｗ',
        88 => 'ｘ',
        89 => 'ｙ',
        90 => 'ｚ',
        91 => '｛',
        92 => '｜',
        93 => '｝',
        94 => '￣',
        95 => '\u{3000}',
        _ => '\u{3000}',
    }
}

/// The full-width alphanumeric character with code `code`; a full-width space outside the table.
pub fn put_fullwidth_alphanumeric_char(code: u16) -> (r: &'static str)
    ensures
        r@ == seq![fullwidth_alphanumeric_char(gl_index(code))],
{
    let idx: u16 = if code < 0x20 { 0 } else { code - 0x20 };
    match idx {
        0 => { proof { reveal_strlit("\u{3000}"); } "\u{3000}" },
        1 => { proof { reveal_strlit("！"); } "！" },
        2 => { proof { reveal_strlit("\""); } "\"" },
        3 => { proof { reveal_strlit("＃"); } "＃" },
        4 => { proof { reveal_strlit("＄"); } "＄" },
        5 => { proof { reveal_strlit("％"); } "％" },
        6 => { proof { reveal_strlit("＆"); } "＆" },
        7 => { proof { reveal_strlit("'"); } "'" },
        8 => { proof { reveal_strlit("（"); } "（" },
        9 => { proof { reveal_strlit("）"); } "）" },
        10 => { proof { reveal_strlit("＊"); } "＊" },
        11 => { proof { reveal_strlit("＋"); } "＋" },
        12 => { proof { reveal_strlit("，"); } "，" },
        13 => { proof { reveal_strlit("－"); } "－" },
        14 => { proof { reveal_strlit("．"); } "．" },
        15 => { proof { reveal_strlit("／"); } "／" },
        16 => { proof { reveal_strlit("０"); } "０" },
        17 => { proof { reveal_strlit("１"); } "１" },
        18 => { proof { reveal_strlit("２"); } "２" },
        19 => { proof { reveal_strlit("３"); } "３" },
        20 => { proof { reveal_strlit("４"); } "４" },
        21 => { proof { reveal_strlit("５"); } "５" },
        22 => { proof { reveal_strlit("６"); } "６" },
        23 => { proof { reveal_strlit("７"); } "７" },
        24 => { proof { reveal_strlit("８"); } "８" },
        25 => { proof { reveal_strlit("９"); } "９" },
        26 => { proof { reveal_strlit("："); } "：" },
        27 => { proof { reveal_strlit("；"); } "；" },
        28 => { proof { reveal_strlit("＜"); } "＜" },
        29 => { proof { reveal_strlit("＝"); } "＝" },
        30 => { proof { reveal_strlit("＞"); } "＞" },
        31 => { proof { reveal_strlit("？"); } "？" },
        32 => { proof { reveal_strlit("＠"); } "＠" },
        33 => { proof { reveal_strlit("Ａ"); } "Ａ" },
        34 => { proof { reveal_strlit("Ｂ"); } "Ｂ" },
        35 => { proof { reveal_strlit("Ｃ"); } "Ｃ" },
        36 => { proof { reveal_strlit("Ｄ"); } "Ｄ" },
        37 => { proof { reveal_strlit("Ｅ"); } "Ｅ" },
        38 => { proof { reveal_strlit("Ｆ"); } "Ｆ" },
        39 => { proof { reveal_strlit("Ｇ"); } "Ｇ" },
        40 => { proof { reveal_strlit("Ｈ"); } "Ｈ" },
        41 => { proof { reveal_strlit("Ｉ"); } "Ｉ" },
        42 => { proof { reveal_strlit("Ｊ"); } "Ｊ" },
        43 => { proof { reveal_strlit("Ｋ"); } "Ｋ" },
        44 => { proof { reveal_strlit("Ｌ"); } "Ｌ" },
        45 => { proof { reveal_strlit("Ｍ"); } "Ｍ" },
        46 => { proof { reveal_strlit("Ｎ"); } "Ｎ" },
        47 => { proof { reveal_strlit("Ｏ"); } "Ｏ" },
        48 => { proof { reveal_strlit("Ｐ"); } "Ｐ" },
        49 => { proof { reveal_strlit("Ｑ"); } "Ｑ" },
        50 => { proof { reveal_strlit("Ｒ"); } "Ｒ" },
        51 => { proof { reveal_strlit("Ｓ"); } "Ｓ" },
        52 => { proof { reveal_strlit("Ｔ"); } "Ｔ" },
        53 => { proof { reveal_strlit("Ｕ"); } "Ｕ" },
        54 => { proof { reveal_strlit("Ｖ"); } "Ｖ" },
        55 => { proof { reveal_strlit("Ｗ"); } "Ｗ" },
        56 => { proof { reveal_strlit("Ｘ"); } "Ｘ" },
        57 => { proof { reveal_strlit("Ｙ"); } "Ｙ" },
        58 => { proof { reveal_strlit("Ｚ"); } "Ｚ" },
        59 => { proof { reveal_strlit("［"); } "［" },
        60 => { proof { reveal_strlit("￥"); } "￥" },
        61 => { proof { reveal_strlit("］"); } "］" },
        62 => { proof { reveal_strlit("＾"); } "＾" },
        63 => { proof { reveal_strlit("＿"); } "＿" },
        64 => { proof { reveal_strlit("｀"); } "｀" },
        65 => { proof { reveal_strlit("ａ"); } "ａ" },
        66 => { proof { reveal_strlit("ｂ"); } "ｂ" },
        67 => { proof { reveal_strlit("ｃ"); } "ｃ" },
        68 => { proof { reveal_strlit("ｄ"); } "ｄ" },
        69 => { proof { reveal_strlit("ｅ"); } "ｅ" },
        70 => { proof { reveal_strlit("ｆ"); } "ｆ" },
        71 => { proof { reveal_strlit("ｇ"); } "ｇ" },
        72 => { proof { reveal_strlit("ｈ"); } "ｈ" },
        73 => { proof { reveal_strlit("ｉ"); } "ｉ" },
        74 => { proof { reveal_strlit("ｊ"); } "ｊ" },
        75 => { proof { reveal_strlit("ｋ"); } "ｋ" },
        76 => { proof { reveal_strlit("ｌ"); } "ｌ" },
        77 => { proof { reveal_strlit("ｍ"); } "ｍ" },
        78 => { proof { reveal_strlit("ｎ"); } "ｎ" },
        79 => { proof { reveal_strlit("ｏ"); } "ｏ" },
        80 => { proof { reveal_strlit("ｐ"); } "ｐ" },
        81 => { proof { reveal_strlit("ｑ"); } "ｑ" },
        82 => { proof { reveal_strlit("ｒ"); } "ｒ" },
        83 => { proof { reveal_strlit("ｓ"); } "ｓ" },
        84 => { proof { reveal_strlit("ｔ"); } "ｔ" },
        85 => { proof { reveal_strlit("ｕ"); } "ｕ" },
        86 => { proof { reveal_strlit("ｖ"); } "ｖ" },
        87 => { proof { reveal_strlit("ｗ"); } "ｗ" },
        88 => { proof { reveal_strlit("ｘ"); } "ｘ" },
        89 => { proof { reveal_strlit("ｙ"); } "ｙ" },
        90 => { proof { reveal_strlit("ｚ"); } "ｚ" },
        91 => { proof { reveal_strlit("｛"); } "｛" },
        92 => { proof { reveal_strlit("｜"); } "｜" },
        93 => { proof { reveal_strlit("｝"); } "｝" },
        94 => { proof { reveal_strlit("￣"); } "￣" },
        95 => { proof { reveal_strlit("\u{3000}"); } "\u{3000}" },
        _ => { proof { reveal_strlit("\u{3000}"); } "\u{3000}" },
    }
}

/// The character of half-width alphanumeric table entry `i`; a full-width space past the end.
pub open spec fn halfwidth_alphanumeric_char(i: u16) -> char {
    match i {
        0 => ' ',
        1 => '!',
        2 => '"',
        3 => '#',
        4 => '$',
        5 => '%',
        6 => '&',
        7 => '\'',
        8 => '(',
        9 => ')',
        10 => '*',
        11 => '+',
        12 => ',',
        13 => '-',
        14 => '.',
        15 => '/',
        16 => '0',
        17 => '1',
        18 => '2',
        19 => '3',
        20 => '4',
        21 => '5',
        22 => '6',
        23 => '7',
        24 => '8',
        25 => '9',
        26 => ':',
        27 => ';',
        28 => '<',
        29 => '=',
        30 => '>',
        31 => '?',
        32 => '@',
        33 => 'A',
        34 => 'B',
        35 => 'C',
        36 => 'D',
        37 => 'E',
        38 => 'F',
        39 => 'G',
        40 => 'H',
        41 => 'I',
        42 => 'J',
        43 => 'K',
        44 => 'L',
        45 => 'M',
        46 => 'N',
        47 => 'O',
        48 => 'P',
        49 => 'Q',
        50 => 'R',
        51 => 'S',
        52 => 'T',
        53 => 'U',
        54 => 'V',
        55 => 'W',
        56 => 'X',
        57 => 'Y',
        58 => 'Z',
        59 => '[',
        60 => '¥',
        61 => ']',
        62 => '^',
        63 => '_',
        64 => '`',
        65 => 'a',
        66 => 'b',
        67 => 'c',
        68 => 'd',
        69 => 'e',
        70 => 'f',
        71 => 'g',
        72 => 'h',
        73 => 'i',
        74 => 'j',
        75 => 'k',
        76 => 'l',
        77 => 'm',
        78 => 'n',
        79 => 'o',
        80 => 'p',
        81 => 'q',
        82 => 'r',
        83 => 's',
        84 => 't',
        85 => 'u',
        86 => 'v',
        87 => 'w',
        88 => 'x',
        89 => 'y',
        90 => 'z',
        91 => '{',
        92 => '|',
        93 => '}',
        94 => '‾',
        95 => ' ',
        _ => '\u{3000}',
    }
}

/// The half-width alphanumeric character with code `code`; a full-width space outside the table.
pub fn put_halfwidth_alphanumeric_char(code: u16) -> (r: &'static str)
    ensures
        r@ == seq![halfwidth_alphanumeric_char(gl_index(code))],
{
    let idx: u16 = if code < 0x20 { 0 } else { code - 0x20 };
    match idx {
        0 => { proof { reveal_strlit(" "); } " " },
        1 => { proof { reveal_strlit("!"); } "!" },
        2 => { proof { reveal_strlit("\""); } "\"" },
        3 => { proof { reveal_strlit("#"); } "#" },
        4 => { proof { reveal_strlit("$"); } "$" },
        5 => { proof { reveal_strlit("%"); } "%" },
        6 => { proof { reveal_strlit("&"); } "&" },
        7 => { proof { reveal_strlit("'"); } "'" },
        8 => { proof { reveal_strlit("("); } "(" },
        9 => { proof { reveal_strlit(")"); } ")" },
        10 => { proof { reveal_strlit("*"); } "*" },
        11 => { proof { reveal_strlit("+"); } "+" },
        12 => { proof { reveal_strlit(","); } "," },
        13 => { proof { reveal_strlit("-"); } "-" },
        14 => { proof { reveal_strlit("."); } "." },
        15 => { proof { reveal_strlit("/"); } "/" },
        16 => { proof { reveal_strlit("0"); } "0" },
        17 => { proof { reveal_strlit("1"); } "1" },
        18 => { proof { reveal_strlit("2"); } "2" },
        19 => { proof { reveal_strlit("3"); } "3" },
        20 => { proof { reveal_strlit("4"); } "4" },
        21 => { proof { reveal_strlit("5"); } "5" },
        22 => { proof { reveal_strlit("6"); } "6" },
        23 => { proof { reveal_strlit("7"); } "7" },
        24 => { proof { reveal_strlit("8"); } "8" },
        25 => { proof { reveal_strlit("9"); } "9" },
        26 => { proof { reveal_strlit(":"); } ":" },
        27 => { proof { reveal_strlit(";"); } ";" },
        28 => { proof { reveal_strlit("<"); } "<" },
        29 => { proof { reveal_strlit("="); } "=" },
        30 => { proof { reveal_strlit(">"); } ">" },
        31 => { proof { reveal_strlit("?"); } "?" },
        32 => { proof { reveal_strlit("@"); } "@" },
        33 => { proof { reveal_strlit("A"); } "A" },
        34 => { proof { reveal_strlit("B"); } "B" },
        35 => { proof { reveal_strlit("C"); } "C" },
        36 => { proof { reveal_strlit("D"); } "D" },
        37 => { proof { reveal_strlit("E"); } "E" },
        38 => { proof { reveal_strlit("F"); } "F" },
        39 => { proof { reveal_strlit("G"); } "G" },
        40 => { proof { reveal_strlit("H"); } "H" },
        41 => { proof { reveal_strlit("I"); } "I" },
        42 => { proof { reveal_strlit("J"); } "J" },
        43 => { proof { reveal_strlit("K"); } "K" },
        44 => { proof { reveal_strlit("L"); } "L" },
        45 => { proof { reveal_strlit("M"); } "M" },
        46 => { proof { reveal_strlit("N"); } "N" },
        47 => { proof { reveal_strlit("O"); } "O" },
        48 => { proof { reveal_strlit("P"); } "P" },
        49 => { proof { reveal_strlit("Q"); } "Q" },
        50 => { proof { reveal_strlit("R"); } "R" },
        51 => { proof { reveal_strlit("S"); } "S" },
        52 => { proof { reveal_strlit("T"); } "T" },
        53 => { proof { reveal_strlit("U"); } "U" },
        54 => { proof { reveal_strlit("V"); } "V" },
        55 => { proof { reveal_strlit("W"); } "W" },
        56 => { proof { reveal_strlit("X"); } "X" },
        57 => { proof { reveal_strlit("Y"); } "Y" },
        58 => { proof { reveal_strlit("Z"); } "Z" },
        59 => { proof { reveal_strlit("["); } "[" },
        60 => { proof { reveal_strlit("¥"); } "¥" },
        61 => { proof { reveal_strlit("]"); } "]" },
        62 => { proof { reveal_strlit("^"); } "^" },
        63 => { proof { reveal_strlit("_"); } "_" },
        64 => { proof { reveal_strlit("`"); } "`" },
        65 => { proof { reveal_strlit("a"); } "a" },
        66 => { proof { reveal_strlit("b"); } "b" },
        67 => { proof { reveal_strlit("c"); } "c" },
        68 => { proof { reveal_strlit("d"); } "d" },
        69 => { proof { reveal_strlit("e"); } "e" },
        70 => { proof { reveal_strlit("f"); } "f" },
        71 => { proof { reveal_strlit("g"); } "g" },
        72 => { proof { reveal_strlit("h"); } "h" },
        73 => { proof { reveal_strlit("i"); } "i" },
        74 => { proof { reveal_strlit("j"); } "j" },
        75 => { proof { reveal_strlit("k"); } "k" },
        76 => { proof { reveal_strlit("l"); } "l" },
        77 => { proof { reveal_strlit("m"); } "m" },
        78 => { proof { reveal_strlit("n"); } "n" },
        79 => { proof { reveal_strlit("o"); } "o" },
        80 => { proof { reveal_strlit("p"); } "p" },
        81 => { proof { reveal_strlit("q"); } "q" },
        82 => { proof { reveal_strlit("r"); } "r" },
        83 => { proof { reveal_strlit("s"); } "s" },
        84 => { proof { reveal_strlit("t"); } "t" },
        85 => { proof { reveal_strlit("u"); } "u" },
        86 => { proof { reveal_strlit("v"); } "v" },
        87 => { proof { reveal_strlit("w"); } "w" },
        88 => { proof { reveal_strlit("x"); } "x" },
        89 => { proof { reveal_strlit("y"); } "y" },
        90 => { proof { reveal_strlit("z"); } "z" },
        91 => { proof { reveal_strlit("{"); } "{" },
        92 => { proof { reveal_strlit("|"); } "|" },
        93 => { proof { reveal_strlit("}"); } "}" },
        94 => { proof { reveal_strlit("‾"); } "‾" },
        95 => { proof { reveal_strlit(" "); } " " },
        _ => { proof { reveal_strlit("\u{3000}"); } "\u{3000}" },
    }
}

/// The character of Latin extension table entry `i`; a space past the end.
pub open spec fn latin_extension_char(i: u16) -> char {
    match i {
        0 => ' ',
        1 => '¡',
        2 => '¢',
        3 => '£',
        4 => '€',
        5 => '¥',
        6 => 'Š',
        7 => '§',
        8 => 'š',
        9 => '©',
        10 => 'ª',
        11 => '«',
        12 => '¬',
        13 => 'ÿ',
        14 => '®',
        15 => '¯',
        16 => '°',
        17 => '±',
        18 => '²',
        19 => '³',
        20 => 'Ž',
        21 => 'μ',
        22 => '¶',
        23 => '·',
        24 => 'ž',
        25 => '¹',
        26 => 'º',
        27 => '»',
        28 => 'Œ',
        29 => 'œ',
        30 => 'Ÿ',
        31 => '¿',
        32 => 'À',
        33 => 'Á',
        34 => 'Â',
        35 => 'Ã',
        36 => 'Ä',
        37 => 'Å',
        38 => 'Æ',
        39 => 'Ç',
        40 => 'È',
        41 => 'É',
        42 => 'Ê',
        43 => 'Ë',
        44 => 'Ì',
        45 => 'Í',
        46 => 'Î',
        47 => 'Ï',
        48 => 'Ð',
        49 => 'Ñ',
        50 => 'Ò',
        51 => 'Ó',
        52 => 'Ô',
        53 => 'Õ',
        54 => 'Ö',
        55 => '×',
        56 => 'Ø',
        57 => 'Ù',
        58 => 'Ú',
        59 => 'Û',
        60 => 'Ü',
        61 => 'Ý',
        62 => 'Þ',
        63 => 'ß',
        64 => 'à',
        65 => 'á',
        66 => 'â',
        67 => 'ã',
        68 => 'ä',
        69 => 'å',
        70 => 'æ',
        71 => 'ç',
        72 => 'è',
        73 => 'é',
        74 => 'ê',
        75 => 'ë',
        76 => 'ì',
        77 => 'í',
        78 => 'î',
        79 => 'ï',
        80 => 'ð',
        81 => 'ñ',
        82 => 'ò',
        83 => 'ó',
        84 => 'ô',
        85 => 'õ',
        86 => 'ö',
        87 => '÷',
        88 => 'ø',
        89 => 'ù',
        90 => 'ú',
        91 => 'û',
        92 => 'ü',
        93 => 'ý',
        94 => 'þ',
        95 => ' ',
        _ => ' ',
    }
}

/// The Latin extension character with code `code`; a space outside the table.
pub fn put_latin_extension_char(code: u16) -> (r: &'static str)
    ensures
        r@ == seq![latin_extension_char(gl_index(code))],
{
    let idx: u16 = if code < 0x20 { 0 } else { code - 0x20 };
    match idx {
        0 => { proof { reveal_strlit(" "); } " " },
        1 => { proof { reveal_strlit("¡"); } "¡" },
        2 => { proof { reveal_strlit("¢"); } "¢" },
        3 => { proof { reveal_strlit("£"); } "£" },
        4 => { proof { reveal_strlit("€"); } "€" },
        5 => { proof { reveal_strlit("¥"); } "¥" },
        6 => { proof { reveal_strlit("Š"); } "Š" },
        7 => { proof { reveal_strlit("§"); } "§" },
        8 => { proof { reveal_strlit("š"); } "š" },
        9 => { proof { reveal_strlit("©"); } "©" },
        10 => { proof { reveal_strlit("ª"); } "ª" },
        11 => { proof { reveal_strlit("«"); } "«" },
        12 => { proof { reveal_strlit("¬"); } "¬" },
        13 => { proof { reveal_strlit("ÿ"); } "ÿ" },
        14 => { proof { reveal_strlit("®"); } "®" },
        15 => { proof { reveal_strlit("¯"); } "¯" },
        16 => { proof { reveal_strlit("°"); } "°" },
        17 => { proof { reveal_strlit("±"); } "±" },
        18 => { proof { reveal_strlit("²"); } "²" },
        19 => { proof { reveal_strlit("³"); } "³" },
        20 => { proof { reveal_strlit("Ž"); } "Ž" },
        21 => { proof { reveal_strlit("μ"); } "μ" },
        22 => { proof { reveal_strlit("¶"); } "¶" },
        23 => { proof { reveal_strlit("·"); } "·" },
        24 => { proof { reveal_strlit("ž"); } "ž" },
        25 => { proof { reveal_strlit("¹"); } "¹" },
        26 => { proof { reveal_strlit("º"); } "º" },
        27 => { proof { reveal_strlit("»"); } "»" },
        28 => { proof { reveal_strlit("Œ"); } "Œ" },
        29 => { proof { reveal_strlit("œ"); } "œ" },
        30 => { proof { reveal_strlit("Ÿ"); } "Ÿ" },
        31 => { proof { reveal_strlit("¿"); } "¿" },
        32 => { proof { reveal_strlit("À"); } "À" },
        33 => { proof { reveal_strlit("Á"); } "Á" },
        34 => { proof { reveal_strlit("Â"); } "Â" },
        35 => { proof { reveal_strlit("Ã"); } "Ã" },
        36 => { proof { reveal_strlit("Ä"); } "Ä" },
        37 => { proof { reveal_strlit("Å"); } "Å" },
        38 => { proof { reveal_strlit("Æ"); } "Æ" },
        39 => { proof { reveal_strlit("Ç"); } "Ç" },
        40 => { proof { reveal_strlit("È"); } "È" },
        41 => { proof { reveal_strlit("É"); } "É" },
        42 => { proof { reveal_strlit("Ê"); } "Ê" },
        43 => { proof { reveal_strlit("Ë"); } "Ë" },
        44 => { proof { reveal_strlit("Ì"); } "Ì" },
        45 => { proof { reveal_strlit("Í"); } "Í" },
        46 => { proof { reveal_strlit("Î"); } "Î" },
        47 => { proof { reveal_strlit("Ï"); } "Ï" },
        48 => { proof { reveal_strlit("Ð"); } "Ð" },
        49 => { proof { reveal_strlit("Ñ"); } "Ñ" },
        50 => { proof { reveal_strlit("Ò"); } "Ò" },
        51 => { proof { reveal_strlit("Ó"); } "Ó" },
        52 => { proof { reveal_strlit("Ô"); } "Ô" },
        53 => { proof { reveal_strlit("Õ"); } "Õ" },
        54 => { proof { reveal_strlit("Ö"); } "Ö" },
        55 => { proof { reveal_strlit("×"); } "×" },
        56 => { proof { reveal_strlit("Ø"); } "Ø" },
        57 => { proof { reveal_strlit("Ù"); } "Ù" },
        58 => { proof { reveal_strlit("Ú"); } "Ú" },
        59 => { proof { reveal_strlit("Û"); } "Û" },
        60 => { proof { reveal_strlit("Ü"); } "Ü" },
        61 => { proof { reveal_strlit("Ý"); } "Ý" },
        62 => { proof { reveal_strlit("Þ"); } "Þ" },
        63 => { proof { reveal_strlit("ß"); } "ß" },
        64 => { proof { reveal_strlit("à"); } "à" },
        65 => { proof { reveal_strlit("á"); } "á" },
        66 => { proof { reveal_strlit("â"); } "â" },
        67 => { proof { reveal_strlit("ã"); } "ã" },
        68 => { proof { reveal_strlit("ä"); } "ä" },
        69 => { proof { reveal_strlit("å"); } "å" },
        70 => { proof { reveal_strlit("æ"); } "æ" },
        71 => { proof { reveal_strlit("ç"); } "ç" },
        72 => { proof { reveal_strlit("è"); } "è" },
        73 => { proof { reveal_strlit("é"); } "é" },
        74 => { proof { reveal_strlit("ê"); } "ê" },
        75 => { proof { reveal_strlit("ë"); } "ë" },
        76 => { proof { reveal_strlit("ì"); } "ì" },
        77 => { proof { reveal_strlit("í"); } "í" },
        78 => { proof { reveal_strlit("î"); } "î" },
        79 => { proof { reveal_strlit("ï"); } "ï" },
        80 => { proof { reveal_strlit("ð"); } "ð" },
        81 => { proof { reveal_strlit("ñ"); } "ñ" },
        82 => { proof { reveal_strlit("ò"); } "ò" },
        83 => { proof { reveal_strlit("ó"); } "ó" },
        84 => { proof { reveal_strlit("ô"); } "ô" },
        85 => { proof { reveal_strlit("õ"); } "õ" },
        86 => { proof { reveal_strlit("ö"); } "ö" },
        87 => { proof { reveal_strlit("÷"); } "÷" },
        88 => { proof { reveal_strlit("ø"); } "ø" },
        89 => { proof { reveal_strlit("ù"); } "ù" },
        90 => { proof { reveal_strlit("ú"); } "ú" },
        91 => { proof { reveal_strlit("û"); } "û" },
        92 => { proof { reveal_strlit("ü"); } "ü" },
        93 => { proof { reveal_strlit("ý"); } "ý" },
        94 => { proof { reveal_strlit("þ"); } "þ" },
        95 => { proof { reveal_strlit(" "); } " " },
        _ => { proof { reveal_strlit(" "); } " " },
    }
}

/// The character of Latin special table entry `i`; a space past the end.
pub open spec fn latin_special_char(i: u16) -> char {
    match i {
        0 => ' ',
        1 => '♪',
        2 => ' ',
        3 => ' ',
        4 => ' ',
        5 => ' ',
        6 => ' ',
        7 => ' ',
        8 => ' ',
        9 => ' ',
        10 => ' ',
        11 => ' ',
        12 => ' ',
        13 => ' ',
        14 => ' ',
        15 => ' ',
        16 => '¤',
        17 => '¦',
        18 => '¨',
        19 => '´',
        20 => '¸',
        21 => '¼',
        22 => '½',
        23 => '¾',
        24 => ' ',
        25 => ' ',
        26 => ' ',
        27 => ' ',
        28 => ' ',
        29 => ' ',
        30 => ' ',
        31 => ' ',
        32 => '…',
        33 => '█',
        34 => '‘',
        35 => '’',
        36 => '“',
        37 => '”',
        38 => '•',
        39 => '™',
        40 => '⅛',
        41 => '⅜',
        42 => '⅝',
        43 => '⅞',
        44 => ' ',
        45 => ' ',
        46 => ' ',
        47 => ' ',
        _ => ' ',
    }
}

/// The Latin special character with code `code`; a space outside the table.
pub fn put_latin_special_char(code: u16) -> (r: &'static str)
    ensures
        r@ == seq![latin_special_char(gl_index(code))],
{
    let idx: u16 = if code < 0x20 { 0 } else { code - 0x20 };
    match idx {
        0 => { proof { reveal_strlit(" "); } " " },
        1 => { proof { reveal_strlit("♪"); } "♪" },
        2 => { proof { reveal_strlit(" "); } " " },
        3 => { proof { reveal_strlit(" "); } " " },
        4 => { proof { reveal_strlit(" "); } " " },
        5 => { proof { reveal_strlit(" "); } " " },
        6 => { proof { reveal_strlit(" "); } " " },
        7 => { proof { reveal_strlit(" "); } " " },
        8 => { proof { reveal_strlit(" "); } " " },
        9 => { proof { reveal_strlit(" "); } " " },
        10 => { proof { reveal_strlit(" "); } " " },
        11 => { proof { reveal_strlit(" "); } " " },
        12 => { proof { reveal_strlit(" "); } " " },
        13 => { proof { reveal_strlit(" "); } " " },
        14 => { proof { reveal_strlit(" "); } " " },
        15 => { proof { reveal_strlit(" "); } " " },
        16 => { proof { reveal_strlit("¤"); } "¤" },
        17 => { proof { reveal_strlit("¦"); } "¦" },
        18 => { proof { reveal_strlit("¨"); } "¨" },
        19 => { proof { reveal_strlit("´"); } "´" },
        20 => { proof { reveal_strlit("¸"); } "¸" },
        21 => { proof { reveal_strlit("¼"); } "¼" },
        22 => { proof { reveal_strlit("½"); } "½" },
        23 => { proof { reveal_strlit("¾"); } "¾" },
        24 => { proof { reveal_strlit(" "); } " " },
        25 => { proof { reveal_strlit(" "); } " " },
        26 => { proof { reveal_strlit(" "); } " " },
        27 => { proof { reveal_strlit(" "); } " " },
        28 => { proof { reveal_strlit(" "); } " " },
        29 => { proof { reveal_strlit(" "); } " " },
        30 => { proof { reveal_strlit(" "); } " " },
        31 => { proof { reveal_strlit(" "); } " " },
        32 => { proof { reveal_strlit("…"); } "…" },
        33 => { proof { reveal_strlit("█"); } "█" },
        34 => { proof { reveal_strlit("‘"); } "‘" },
        35 => { proof { reveal_strlit("’"); } "’" },
        36 => { proof { reveal_strlit("“"); } "“" },
        37 => { proof { reveal_strlit("”"); } "”" },
        38 => { proof { reveal_strlit("•"); } "•" },
        39 => { proof { reveal_strlit("™"); } "™" },
        40 => { proof { reveal_strlit("⅛"); } "⅛" },
        41 => { proof { reveal_strlit("⅜"); } "⅜" },
        42 => { proof { reveal_strlit("⅝"); } "⅝" },
        43 => { proof { reveal_strlit("⅞"); } "⅞" },
        44 => { proof { reveal_strlit(" "); } " " },
        45 => { proof { reveal_strlit(" "); } " " },
        46 => { proof { reveal_strlit(" "); } " " },
        47 => { proof { reveal_strlit(" "); } " " },
        _ => { proof { reveal_strlit(" "); } " " },
    }
}

/// The entry `i` of the table of additional kanji of row 85.
pub open spec fn additional_kanji_1(i: u16) -> Seq<char> {
    match i {
        0 => seq!['㐂'],
        1 => seq!['𠅘'],
        2 => seq!['份'],
        3 => seq!['仿'],
        4 => seq!['侚'],
        5 => seq!['俉'],
        6 => seq!['傜'],
        7 => seq!['儞'],
        8 => seq!['冼'],
        9 => seq!['㔟'],
        10 => seq!['匇'],
        11 => seq!['卡'],
        12 => seq!['卬'],
        13 => seq!['詹'],
        14 => seq!['𠮷'],
        15 => seq!['呍'],
        16 => seq!['咖'],
        17 => seq!['咜'],
        18 => seq!['咩'],
        19 => seq!['唎'],
        20 => seq!['啊'],
        21 => seq!['噲'],
        22 => seq!['囤'],
        23 => seq!['圳'],
        24 => seq!['圴'],
        25 => seq!['塚'],
        26 => seq!['墀'],
        27 => seq!['姤'],
        28 => seq!['娣'],
        29 => seq!['婕'],
        30 => seq!['寬'],
        31 => seq!['﨑'],
        32 => seq!['㟢'],
        33 => seq!['庬'],
        34 => seq!['弴'],
        35 => seq!['彅'],
        36 => seq!['德'],
        37 => seq!['怗'],
        38 => seq!['恵'],
        39 => seq!['愰'],
        40 => seq!['昤'],
        41 => seq!['曈'],
        42 => seq!['曙'],
        43 => seq!['曺'],
        44 => seq!['曻'],
        45 => seq!['桒'],
        46 => seq!['鿄'],
        47 => seq!['椑'],
        48 => seq!['椻'],
        49 => seq!['橅'],
        50 => seq!['檑'],
        51 => seq!['櫛'],
        52 => seq!['𣏌'],
        53 => seq!['𣏾'],
        54 => seq!['𣗄'],
        55 => seq!['毱'],
        56 => seq!['泠'],
        57 => seq!['洮'],
        58 => seq!['海'],
        59 => seq!['涿'],
        60 => seq!['淊'],
        61 => seq!['淸'],
        62 => seq!['渚'],
        63 => seq!['潞'],
        64 => seq!['濹'],
        65 => seq!['灤'],
        66 => seq!['𤋮'],
        67 => seq!['𤋮'],
        68 => seq!['煇'],
        69 => seq!['燁'],
        70 => seq!['爀'],
        71 => seq!['玟'],
        72 => seq!['玨'],
        73 => seq!['珉'],
        74 => seq!['珖'],
        75 => seq!['琛'],
        76 => seq!['琡'],
        77 => seq!['琢'],
        78 => seq!['琦'],
        79 => seq!['琪'],
        80 => seq!['琬'],
        81 => seq!['琹'],
        82 => seq!['瑋'],
        83 => seq!['㻚'],
        84 => seq!['畵'],
        85 => seq!['疁'],
        86 => seq!['睲'],
        87 => seq!['䂓'],
        88 => seq!['磈'],
        89 => seq!['磠'],
        90 => seq!['祇'],
        91 => seq!['禮'],
        92 => seq!['鿆'],
        93 => seq!['䄃'],
        _ => Seq::<char>::empty(),
    }
}

/// The entry `i` of the table of additional kanji of row 85.
fn additional_kanji_1_str(i: u16) -> (r: &'static str)
    requires
        i < 94,
    ensures
        r@ == additional_kanji_1(i),
{
    match i {
        0 => { proof { reveal_strlit("㐂"); } "㐂" },
        1 => { proof { reveal_strlit("𠅘"); } "𠅘" },
        2 => { proof { reveal_strlit("份"); } "份" },
        3 => { proof { reveal_strlit("仿"); } "仿" },
        4 => { proof { reveal_strlit("侚"); } "侚" },
        5 => { proof { reveal_strlit("俉"); } "俉" },
        6 => { proof { reveal_strlit("傜"); } "傜" },
        7 => { proof { reveal_strlit("儞"); } "儞" },
        8 => { proof { reveal_strlit("冼"); } "冼" },
        9 => { proof { reveal_strlit("㔟"); } "㔟" },
        10 => { proof { reveal_strlit("匇"); } "匇" },
        11 => { proof { reveal_strlit("卡"); } "卡" },
        12 => { proof { reveal_strlit("卬"); } "卬" },
        13 => { proof { reveal_strlit("詹"); } "詹" },
        14 => { proof { reveal_strlit("𠮷"); } "𠮷" },
        15 => { proof { reveal_strlit("呍"); } "呍" },
        16 => { proof { reveal_strlit("咖"); } "咖" },
        17 => { proof { reveal_strlit("咜"); } "咜" },
        18 => { proof { reveal_strlit("咩"); } "咩" },
        19 => { proof { reveal_strlit("唎"); } "唎" },
        20 => { proof { reveal_strlit("啊"); } "啊" },
        21 => { proof { reveal_strlit("噲"); } "噲" },
        22 => { proof { reveal_strlit("囤"); } "囤" },
        23 => { proof { reveal_strlit("圳"); } "圳" },
        24 => { proof { reveal_strlit("圴"); } "圴" },
        25 => { proof { reveal_strlit("塚"); } "塚" },
        26 => { proof { reveal_strlit("墀"); } "墀" },
        27 => { proof { reveal_strlit("姤"); } "姤" },
        28 => { proof { reveal_strlit("娣"); } "娣" },
        29 => { proof { reveal_strlit("婕"); } "婕" },
        30 => { proof { reveal_strlit("寬"); } "寬" },
        31 => { proof { reveal_strlit("﨑"); } "﨑" },
        32 => { proof { reveal_strlit("㟢"); } "㟢" },
        33 => { proof { reveal_strlit("庬"); } "庬" },
        34 => { proof { reveal_strlit("弴"); } "弴" },
        35 => { proof { reveal_strlit("彅"); } "彅" },
        36 => { proof { reveal_strlit("德"); } "德" },
        37 => { proof { reveal_strlit("怗"); } "怗" },
        38 => { proof { reveal_strlit("恵"); } "恵" },
        39 => { proof { reveal_strlit("愰"); } "愰" },
        40 => { proof { reveal_strlit("昤"); } "昤" },
        41 => { proof { reveal_strlit("曈"); } "曈" },
        42 => { proof { reveal_strlit("曙"); } "曙" },
        43 => { proof { reveal_strlit("曺"); } "曺" },
        44 => { proof { reveal_strlit("曻"); } "曻" },
        45 => { proof { reveal_strlit("桒"); } "桒" },
        46 => { proof { reveal_strlit("鿄"); } "鿄" },
        47 => { proof { reveal_strlit("椑"); } "椑" },
        48 => { proof { reveal_strlit("椻"); } "椻" },
        49 => { proof { reveal_strlit("橅"); } "橅" },
        50 => { proof { reveal_strlit("檑"); } "檑" },
        51 => { proof { reveal_strlit("櫛"); } "櫛" },
        52 => { proof { reveal_strlit("𣏌"); } "𣏌" },
        53 => { proof { reveal_strlit("𣏾"); } "𣏾" },
        54 => { proof { reveal_strlit("𣗄"); } "𣗄" },
        55 => { proof { reveal_strlit("毱"); } "毱" },
        56 => { proof { reveal_strlit("泠"); } "泠" },
        57 => { proof { reveal_strlit("洮"); } "洮" },
        58 => { proof { reveal_strlit("海"); } "海" },
        59 => { proof { reveal_strlit("涿"); } "涿" },
        60 => { proof { reveal_strlit("淊"); } "淊" },
        61 => { proof { reveal_strlit("淸"); } "淸" },
        62 => { proof { reveal_strlit("渚"); } "渚" },
        63 => { proof { reveal_strlit("潞"); } "潞" },
        64 => { proof { reveal_strlit("濹"); } "濹" },
        65 => { proof { reveal_strlit("灤"); } "灤" },
        66 => { proof { reveal_strlit("𤋮"); } "𤋮" },
        67 => { proof { reveal_strlit("𤋮"); } "𤋮" },
        68 => { proof { reveal_strlit("煇"); } "煇" },
        69 => { proof { reveal_strlit("燁"); } "燁" },
        70 => { proof { reveal_strlit("爀"); } "爀" },
        71 => { proof { reveal_strlit("玟"); } "玟" },
        72 => { proof { reveal_strlit("玨"); } "玨" },
        73 => { proof { reveal_strlit("珉"); } "珉" },
        74 => { proof { reveal_strlit("珖"); } "珖" },
        75 => { proof { reveal_strlit("琛"); } "琛" },
        76 => { proof { reveal_strlit("琡"); } "琡" },
        77 => { proof { reveal_strlit("琢"); } "琢" },
        78 => { proof { reveal_strlit("琦"); } "琦" },
        79 => { proof { reveal_strlit("琪"); } "琪" },
        80 => { proof { reveal_strlit("琬"); } "琬" },
        81 => { proof { reveal_strlit("琹"); } "琹" },
        82 => { proof { reveal_strlit("瑋"); } "瑋" },
        83 => { proof { reveal_strlit("㻚"); } "㻚" },
        84 => { proof { reveal_strlit("畵"); } "畵" },
        85 => { proof { reveal_strlit("疁"); } "疁" },
        86 => { proof { reveal_strlit("睲"); } "睲" },
        87 => { proof { reveal_strlit("䂓"); } "䂓" },
        88 => { proof { reveal_strlit("磈"); } "磈" },
        89 => { proof { reveal_strlit("磠"); } "磠" },
        90 => { proof { reveal_strlit("祇"); } "祇" },
        91 => { proof { reveal_strlit("禮"); } "禮" },
        92 => { proof { reveal_strlit("鿆"); } "鿆" },
        _ => { proof { reveal_strlit("䄃"); } "䄃" },
    }
}

/// The entry `i` of the table of additional kanji of row 86.
pub open spec fn additional_kanji_2(i: u16) -> Seq<char> {
    match i {
        0 => seq!['鿅'],
        1 => seq!['秚'],
        2 => seq!['稞'],
        3 => seq!['筿'],
        4 => seq!['簱'],
        5 => seq!['䉤'],
        6 => seq!['綋'],
        7 => seq!['羡'],
        8 => seq!['脘'],
        9 => seq!['脺'],
        10 => seq!['舘'],
        11 => seq!['芮'],
        12 => seq!['葛'],
        13 => seq!['蓜'],
        14 => seq!['蓬'],
        15 => seq!['蕙'],
        16 => seq!['藎'],
        17 => seq!['蝕'],
        18 => seq!['蟬'],
        19 => seq!['蠋'],
        20 => seq!['裵'],
        21 => seq!['角'],
        22 => seq!['諶'],
        23 => seq!['跎'],
        24 => seq!['辻'],
        25 => seq!['迶'],
        26 => seq!['郝'],
        27 => seq!['鄧'],
        28 => seq!['鄭'],
        29 => seq!['醲'],
        30 => seq!['鈳'],
        31 => seq!['銈'],
        32 => seq!['錡'],
        33 => seq!['鍈'],
        34 => seq!['閒'],
        35 => seq!['雞'],
        36 => seq!['餃'],
        37 => seq!['饀'],
        38 => seq!['髙'],
        39 => seq!['鯖'],
        40 => seq!['鷗'],
        41 => seq!['麴'],
        42 => seq!['麵'],
        _ => Seq::<char>::empty(),
    }
}

/// The entry `i` of the table of additional kanji of row 86.
fn additional_kanji_2_str(i: u16) -> (r: &'static str)
    requires
        i < 43,
    ensures
        r@ == additional_kanji_2(i),
{
    match i {
        0 => { proof { reveal_strlit("鿅"); } "鿅" },
        1 => { proof { reveal_strlit("秚"); } "秚" },
        2 => { proof { reveal_strlit("稞"); } "稞" },
        3 => { proof { reveal_strlit("筿"); } "筿" },
        4 => { proof { reveal_strlit("簱"); } "簱" },
        5 => { proof { reveal_strlit("䉤"); } "䉤" },
        6 => { proof { reveal_strlit("綋"); } "綋" },
        7 => { proof { reveal_strlit("羡"); } "羡" },
        8 => { proof { reveal_strlit("脘"); } "脘" },
        9 => { proof { reveal_strlit("脺"); } "脺" },
        10 => { proof { reveal_strlit("舘"); } "舘" },
        11 => { proof { reveal_strlit("芮"); } "芮" },
        12 => { proof { reveal_strlit("葛"); } "葛" },
        13 => { proof { reveal_strlit("蓜"); } "蓜" },
        14 => { proof { reveal_strlit("蓬"); } "蓬" },
        15 => { proof { reveal_strlit("蕙"); } "蕙" },
        16 => { proof { reveal_strlit("藎"); } "藎" },
        17 => { proof { reveal_strlit("蝕"); } "蝕" },
        18 => { proof { reveal_strlit("蟬"); } "蟬" },
        19 => { proof { reveal_strlit("蠋"); } "蠋" },
        20 => { proof { reveal_strlit("裵"); } "裵" },
        21 => { proof { reveal_strlit("角"); } "角" },
        22 => { proof { reveal_strlit("諶"); } "諶" },
        23 => { proof { reveal_strlit("跎"); } "跎" },
        24 => { proof { reveal_strlit("辻"); } "辻" },
        25 => { proof { reveal_strlit("迶"); } "迶" },
        26 => { proof { reveal_strlit("郝"); } "郝" },
        27 => { proof { reveal_strlit("鄧"); } "鄧" },
        28 => { proof { reveal_strlit("鄭"); } "鄭" },
        29 => { proof { reveal_strlit("醲"); } "醲" },
        30 => { proof { reveal_strlit("鈳"); } "鈳" },
        31 => { proof { reveal_strlit("銈"); } "銈" },
        32 => { proof { reveal_strlit("錡"); } "錡" },
        33 => { proof { reveal_strlit("鍈"); } "鍈" },
        34 => { proof { reveal_strlit("閒"); } "閒" },
        35 => { proof { reveal_strlit("雞"); } "雞" },
        36 => { proof { reveal_strlit("餃"); } "餃" },
        37 => { proof { reveal_strlit("饀"); } "饀" },
        38 => { proof { reveal_strlit("髙"); } "髙" },
        39 => { proof { reveal_strlit("鯖"); } "鯖" },
        40 => { proof { reveal_strlit("鷗"); } "鷗" },
        41 => { proof { reveal_strlit("麴"); } "麴" },
        _ => { proof { reveal_strlit("麵"); } "麵" },
    }
}

/// The entry `i` of the table of additional symbols 90/01 to 90/40.
pub open spec fn symbols_90_01(i: u16) -> Option<Seq<char>> {
    match i {
        0 => Some(seq!['⛌']),
        1 => Some(seq!['⛍']),
        2 => Some(seq!['❗']),
        3 => Some(seq!['⛏']),
        4 => Some(seq!['⛐']),
        5 => Some(seq!['⛑']),
        6 => None,
        7 => Some(seq!['⛒']),
        8 => Some(seq!['⛕']),
        9 => Some(seq!['⛓']),
        10 => Some(seq!['⛔']),
        11 => None,
        12 => None,
        13 => None,
        14 => None,
        15 => Some(seq!['🅿']),
        16 => Some(seq!['🆊']),
        17 => None,
        18 => None,
        19 => Some(seq!['⛖']),
        20 => Some(seq!['⛗']),
        21 => Some(seq!['⛘']),
        22 => Some(seq!['⛙']),
        23 => Some(seq!['⛚']),
        24 => Some(seq!['⛛']),
        25 => Some(seq!['⛜']),
        26 => Some(seq!['⛝']),
        27 => Some(seq!['⛞']),
        28 => Some(seq!['⛟']),
        29 => Some(seq!['⛠']),
        30 => Some(seq!['⛡']),
        31 => Some(seq!['⭕']),
        32 => Some(seq!['㉈']),
        33 => Some(seq!['㉉']),
        34 => Some(seq!['㉊']),
        35 => Some(seq!['㉋']),
        36 => Some(seq!['㉌']),
        37 => Some(seq!['㉍']),
        38 => Some(seq!['㉎']),
        39 => Some(seq!['㉏']),
        _ => None,
    }
}

/// The entry `i` of the table of additional symbols 90/01 to 90/40.
fn symbols_90_01_str(i: u16) -> (r: Option<&'static str>)
    requires
        i < 40,
    ensures
        match r {
            Some(s) => symbols_90_01(i) == Some(s@),
            None => symbols_90_01(i) is None,
        },
{
    match i {
        0 => { proof { reveal_strlit("⛌"); } Some("⛌") },
        1 => { proof { reveal_strlit("⛍"); } Some("⛍") },
        2 => { proof { reveal_strlit("❗"); } Some("❗") },
        3 => { proof { reveal_strlit("⛏"); } Some("⛏") },
        4 => { proof { reveal_strlit("⛐"); } Some("⛐") },
        5 => { proof { reveal_strlit("⛑"); } Some("⛑") },
        6 => None,
        7 => { proof { reveal_strlit("⛒"); } Some("⛒") },
        8 => { proof { reveal_strlit("⛕"); } Some("⛕") },
        9 => { proof { reveal_strlit("⛓"); } Some("⛓") },
        10 => { proof { reveal_strlit("⛔"); } Some("⛔") },
        11 => None,
        12 => None,
        13 => None,
        14 => None,
        15 => { proof { reveal_strlit("🅿"); } Some("🅿") },
        16 => { proof { reveal_strlit("🆊"); } Some("🆊") },
        17 => None,
        18 => None,
        19 => { proof { reveal_strlit("⛖"); } Some("⛖") },
        20 => { proof { reveal_strlit("⛗"); } Some("⛗") },
        21 => { proof { reveal_strlit("⛘"); } Some("⛘") },
        22 => { proof { reveal_strlit("⛙"); } Some("⛙") },
        23 => { proof { reveal_strlit("⛚"); } Some("⛚") },
        24 => { proof { reveal_strlit("⛛"); } Some("⛛") },
        25 => { proof { reveal_strlit("⛜"); } Some("⛜") },
        26 => { proof { reveal_strlit("⛝"); } Some("⛝") },
        27 => { proof { reveal_strlit("⛞"); } Some("⛞") },
        28 => { proof { reveal_strlit("⛟"); } Some("⛟") },
        29 => { proof { reveal_strlit("⛠"); } Some("⛠") },
        30 => { proof { reveal_strlit("⛡"); } Some("⛡") },
        31 => { proof { reveal_strlit("⭕"); } Some("⭕") },
        32 => { proof { reveal_strlit("㉈"); } Some("㉈") },
        33 => { proof { reveal_strlit("㉉"); } Some("㉉") },
        34 => { proof { reveal_strlit("㉊"); } Some("㉊") },
        35 => { proof { reveal_strlit("㉋"); } Some("㉋") },
        36 => { proof { reveal_strlit("㉌"); } Some("㉌") },
        37 => { proof { reveal_strlit("㉍"); } Some("㉍") },
        38 => { proof { reveal_strlit("㉎"); } Some("㉎") },
        39 => { proof { reveal_strlit("㉏"); } Some("㉏") },
        _ => None,
    }
}

/// The entry `i` of the table of additional symbols 90/45 to 90/84, as text.
pub open spec fn symbols_90_45(i: u16) -> Seq<char> {
    match i {
        0 => seq!['1', '0', '.'],
        1 => seq!['1', '1', '.'],
        2 => seq!['1', '2', '.'],
        3 => seq!['[', 'H', 'V', ']'],
        4 => seq!['[', 'S', 'D', ']'],
        5 => seq!['[', 'Ｐ', ']'],
        6 => seq!['[', 'Ｗ', ']'],
        7 => seq!['[', 'M', 'V', ']'],
        8 => seq!['[', '手', ']'],
        9 => seq!['[', '字', ']'],
        10 => seq!['[', '双', ']'],
        11 => seq!['[', 'デ', ']'],
        12 => seq!['[', 'Ｓ', ']'],
        13 => seq!['[', '二', ']'],
        14 => seq!['[', '多', ']'],
        15 => seq!['[', '解', ']'],
        16 => seq!['[', 'S', 'S', ']'],
        17 => seq!['[', 'Ｂ', ']'],
        18 => seq!['[', 'Ｎ', ']'],
        19 => seq!['■'],
        20 => seq!['●'],
        21 => seq!['[', '天', ']'],
        22 => seq!['[', '交', ']'],
        23 => seq!['[', '映', ']'],
        24 => seq!['[', '無', ']'],
        25 => seq!['[', '料', ']'],
        26 => seq!['[', '年', '齢', '制', '限', ']'],
        27 => seq!['[', '前', ']'],
        28 => seq!['[', '後', ']'],
        29 => seq!['[', '再', ']'],
        30 => seq!['[', '新', ']'],
        31 => seq!['[', '初', ']'],
        32 => seq!['[', '終', ']'],
        33 => seq!['[', '生', ']'],
        34 => seq!['[', '販', ']'],
        35 => seq!['[', '声', ']'],
        36 => seq!['[', '吹', ']'],
        37 => seq!['[', 'P', 'P', 'V', ']'],
        38 => seq!['(', '秘', ')'],
        39 => seq!['ほ', 'か'],
        _ => Seq::<char>::empty(),
    }
}

/// The entry `i` of the table of additional symbols 90/45 to 90/84, as text.
fn symbols_90_45_str(i: u16) -> (r: &'static str)
    requires
        i < 40,
    ensures
        r@ == symbols_90_45(i),
{
    match i {
        0 => { proof { reveal_strlit("10."); } "10." },
        1 => { proof { reveal_strlit("11."); } "11." },
        2 => { proof { reveal_strlit("12."); } "12." },
        3 => { proof { reveal_strlit("[HV]"); } "[HV]" },
        4 => { proof { reveal_strlit("[SD]"); } "[SD]" },
        5 => { proof { reveal_strlit("[Ｐ]"); } "[Ｐ]" },
        6 => { proof { reveal_strlit("[Ｗ]"); } "[Ｗ]" },
        7 => { proof { reveal_strlit("[MV]"); } "[MV]" },
        8 => { proof { reveal_strlit("[手]"); } "[手]" },
        9 => { proof { reveal_strlit("[字]"); } "[字]" },
        10 => { proof { reveal_strlit("[双]"); } "[双]" },
        11 => { proof { reveal_strlit("[デ]"); } "[デ]" },
        12 => { proof { reveal_strlit("[Ｓ]"); } "[Ｓ]" },
        13 => { proof { reveal_strlit("[二]"); } "[二]" },
        14 => { proof { reveal_strlit("[多]"); } "[多]" },
        15 => { proof { reveal_strlit("[解]"); } "[解]" },
        16 => { proof { reveal_strlit("[SS]"); } "[SS]" },
        17 => { proof { reveal_strlit("[Ｂ]"); } "[Ｂ]" },
        18 => { proof { reveal_strlit("[Ｎ]"); } "[Ｎ]" },
        19 => { proof { reveal_strlit("■"); } "■" },
        20 => { proof { reveal_strlit("●"); } "●" },
        21 => { proof { reveal_strlit("[天]"); } "[天]" },
        22 => { proof { reveal_strlit("[交]"); } "[交]" },
        23 => { proof { reveal_strlit("[映]"); } "[映]" },
        24 => { proof { reveal_strlit("[無]"); } "[無]" },
        25 => { proof { reveal_strlit("[料]"); } "[料]" },
        26 => { proof { reveal_strlit("[年齢制限]"); } "[年齢制限]" },
        27 => { proof { reveal_strlit("[前]"); } "[前]" },
        28 => { proof { reveal_strlit("[後]"); } "[後]" },
        29 => { proof { reveal_strlit("[再]"); } "[再]" },
        30 => { proof { reveal_strlit("[新]"); } "[新]" },
        31 => { proof { reveal_strlit("[初]"); } "[初]" },
        32 => { proof { reveal_strlit("[終]"); } "[終]" },
        33 => { proof { reveal_strlit("[生]"); } "[生]" },
        34 => { proof { reveal_strlit("[販]"); } "[販]" },
        35 => { proof { reveal_strlit("[声]"); } "[声]" },
        36 => { proof { reveal_strlit("[吹]"); } "[吹]" },
        37 => { proof { reveal_strlit("[PPV]"); } "[PPV]" },
        38 => { proof { reveal_strlit("(秘)"); } "(秘)" },
        _ => { proof { reveal_strlit("ほか"); } "ほか" },
    }
}

/// The entry `i` of the table of additional symbols 90/45 to 90/84, as Unicode symbols.
pub open spec fn symbols_90_45_unicode(i: u16) -> Seq<char> {
    match i {
        0 => seq!['⒑'],
        1 => seq!['⒒'],
        2 => seq!['⒓'],
        3 => seq!['🅊'],
        4 => seq!['🅌'],
        5 => seq!['🄿'],
        6 => seq!['🅆'],
        7 => seq!['🅋'],
        8 => seq!['🈐'],
        9 => seq!['🈑'],
        10 => seq!['🈒'],
        11 => seq!['🈓'],
        12 => seq!['🅂'],
        13 => seq!['🈔'],
        14 => seq!['🈕'],
        15 => seq!['🈖'],
        16 => seq!['🅍'],
        17 => seq!['🄱'],
        18 => seq!['🄽'],
        19 => seq!['⬛'],
        20 => seq!['⬤'],
        21 => seq!['🈗'],
        22 => seq!['🈘'],
        23 => seq!['🈙'],
        24 => seq!['🈚'],
        25 => seq!['🈛'],
        26 => seq!['⚿'],
        27 => seq!['🈜'],
        28 => seq!['🈝'],
        29 => seq!['🈞'],
        30 => seq!['🈟'],
        31 => seq!['🈠'],
        32 => seq!['🈡'],
        33 => seq!['🈢'],
        34 => seq!['🈣'],
        35 => seq!['🈤'],
        36 => seq!['🈥'],
        37 => seq!['🅎'],
        38 => seq!['㊙'],
        39 => seq!['🈀'],
        _ => Seq::<char>::empty(),
    }
}

/// The entry `i` of the table of additional symbols 90/45 to 90/84, as Unicode symbols.
fn symbols_90_45_unicode_str(i: u16) -> (r: &'static str)
    requires
        i < 40,
    ensures
        r@ == symbols_90_45_unicode(i),
{
    match i {
        0 => { proof { reveal_strlit("⒑"); } "⒑" },
        1 => { proof { reveal_strlit("⒒"); } "⒒" },
        2 => { proof { reveal_strlit("⒓"); } "⒓" },
        3 => { proof { reveal_strlit("🅊"); } "🅊" },
        4 => { proof { reveal_strlit("🅌"); } "🅌" },
        5 => { proof { reveal_strlit("🄿"); } "🄿" },
        6 => { proof { reveal_strlit("🅆"); } "🅆" },
        7 => { proof { reveal_strlit("🅋"); } "🅋" },
        8 => { proof { reveal_strlit("🈐"); } "🈐" },
        9 => { proof { reveal_strlit("🈑"); } "🈑" },
        10 => { proof { reveal_strlit("🈒"); } "🈒" },
        11 => { proof { reveal_strlit("🈓"); } "🈓" },
        12 => { proof { reveal_strlit("🅂"); } "🅂" },
        13 => { proof { reveal_strlit("🈔"); } "🈔" },
        14 => { proof { reveal_strlit("🈕"); } "🈕" },
        15 => { proof { reveal_strlit("🈖"); } "🈖" },
        16 => { proof { reveal_strlit("🅍"); } "🅍" },
        17 => { proof { reveal_strlit("🄱"); } "🄱" },
        18 => { proof { reveal_strlit("🄽"); } "🄽" },
        19 => { proof { reveal_strlit("⬛"); } "⬛" },
        20 => { proof { reveal_strlit("⬤"); } "⬤" },
        21 => { proof { reveal_strlit("🈗"); } "🈗" },
        22 => { proof { reveal_strlit("🈘"); } "🈘" },
        23 => { proof { reveal_strlit("🈙"); } "🈙" },
        24 => { proof { reveal_strlit("🈚"); } "🈚" },
        25 => { proof { reveal_strlit("🈛"); } "🈛" },
        26 => { proof { reveal_strlit("⚿"); } "⚿" },
        27 => { proof { reveal_strlit("🈜"); } "🈜" },
        28 => { proof { reveal_strlit("🈝"); } "🈝" },
        29 => { proof { reveal_strlit("🈞"); } "🈞" },
        30 => { proof { reveal_strlit("🈟"); } "🈟" },
        31 => { proof { reveal_strlit("🈠"); } "🈠" },
        32 => { proof { reveal_strlit("🈡"); } "🈡" },
        33 => { proof { reveal_strlit("🈢"); } "🈢" },
        34 => { proof { reveal_strlit("🈣"); } "🈣" },
        35 => { proof { reveal_strlit("🈤"); } "🈤" },
        36 => { proof { reveal_strlit("🈥"); } "🈥" },
        37 => { proof { reveal_strlit("🅎"); } "🅎" },
        38 => { proof { reveal_strlit("㊙"); } "㊙" },
        _ => { proof { reveal_strlit("🈀"); } "🈀" },
    }
}

/// The entry `i` of the table of additional symbols of row 91.
pub open spec fn symbols_91(i: u16) -> Option<Seq<char>> {
    match i {
        0 => Some(seq!['⛣']),
        1 => Some(seq!['⭖']),
        2 => Some(seq!['⭗']),
        3 => Some(seq!['⭘']),
        4 => Some(seq!['⭙']),
        5 => Some(seq!['☓']),
        6 => Some(seq!['㊋']),
        7 => Some(seq!['〒']),
        8 => Some(seq!['⛨']),
        9 => Some(seq!['㉆']),
        10 => Some(seq!['㉅']),
        11 => Some(seq!['⛩']),
        12 => Some(seq!['࿖']),
        13 => Some(seq!['⛪']),
        14 => Some(seq!['⛫']),
        15 => Some(seq!['⛬']),
        16 => Some(seq!['♨']),
        17 => Some(seq!['⛭']),
        18 => Some(seq!['⛮']),
        19 => Some(seq!['⛯']),
        20 => Some(seq!['⚓']),
        21 => Some(seq!['✈']),
        22 => Some(seq!['⛰']),
        23 => Some(seq!['⛱']),
        24 => Some(seq!['⛲']),
        25 => Some(seq!['⛳']),
        26 => Some(seq!['⛴']),
        27 => Some(seq!['⛵']),
        28 => Some(seq!['🅗']),
        29 => Some(seq!['Ⓓ']),
        30 => Some(seq!['Ⓢ']),
        31 => Some(seq!['⛶']),
        32 => Some(seq!['🅟']),
        33 => Some(seq!['🆋']),
        34 => Some(seq!['🆍']),
        35 => Some(seq!['🆌']),
        36 => Some(seq!['🅹']),
        37 => Some(seq!['⛷']),
        38 => Some(seq!['⛸']),
        39 => Some(seq!['⛹']),
        40 => Some(seq!['⛺']),
        41 => Some(seq!['🅻']),
        42 => Some(seq!['☎']),
        43 => Some(seq!['⛻']),
        44 => Some(seq!['⛼']),
        45 => Some(seq!['⛽']),
        46 => Some(seq!['⛾']),
        47 => Some(seq!['🅼']),
        48 => Some(seq!['⛿']),
        _ => None,
    }
}

/// The entry `i` of the table of additional symbols of row 91.
fn symbols_91_str(i: u16) -> (r: Option<&'static str>)
    requires
        i < 49,
    ensures
        match r {
            Some(s) => symbols_91(i) == Some(s@),
            None => symbols_91(i) is None,
        },
{
    match i {
        0 => { proof { reveal_strlit("⛣"); } Some("⛣") },
        1 => { proof { reveal_strlit("⭖"); } Some("⭖") },
        2 => { proof { reveal_strlit("⭗"); } Some("⭗") },
        3 => { proof { reveal_strlit("⭘"); } Some("⭘") },
        4 => { proof { reveal_strlit("⭙"); } Some("⭙") },
        5 => { proof { reveal_strlit("☓"); } Some("☓") },
        6 => { proof { reveal_strlit("㊋"); } Some("㊋") },
        7 => { proof { reveal_strlit("〒"); } Some("〒") },
        8 => { proof { reveal_strlit("⛨"); } Some("⛨") },
        9 => { proof { reveal_strlit("㉆"); } Some("㉆") },
        10 => { proof { reveal_strlit("㉅"); } Some("㉅") },
        11 => { proof { reveal_strlit("⛩"); } Some("⛩") },
        12 => { proof { reveal_strlit("࿖"); } Some("࿖") },
        13 => { proof { reveal_strlit("⛪"); } Some("⛪") },
        14 => { proof { reveal_strlit("⛫"); } Some("⛫") },
        15 => { proof { reveal_strlit("⛬"); } Some("⛬") },
        16 => { proof { reveal_strlit("♨"); } Some("♨") },
        17 => { proof { reveal_strlit("⛭"); } Some("⛭") },
        18 => { proof { reveal_strlit("⛮"); } Some("⛮") },
        19 => { proof { reveal_strlit("⛯"); } Some("⛯") },
        20 => { proof { reveal_strlit("⚓"); } Some("⚓") },
        21 => { proof { reveal_strlit("✈"); } Some("✈") },
        22 => { proof { reveal_strlit("⛰"); } Some("⛰") },
        23 => { proof { reveal_strlit("⛱"); } Some("⛱") },
        24 => { proof { reveal_strlit("⛲"); } Some("⛲") },
        25 => { proof { reveal_strlit("⛳"); } Some("⛳") },
        26 => { proof { reveal_strlit("⛴"); } Some("⛴") },
        27 => { proof { reveal_strlit("⛵"); } Some("⛵") },
        28 => { proof { reveal_strlit("🅗"); } Some("🅗") },
        29 => { proof { reveal_strlit("Ⓓ"); } Some("Ⓓ") },
        30 => { proof { reveal_strlit("Ⓢ"); } Some("Ⓢ") },
        31 => { proof { reveal_strlit("⛶"); } Some("⛶") },
        32 => { proof { reveal_strlit("🅟"); } Some("🅟") },
        33 => { proof { reveal_strlit("🆋"); } Some("🆋") },
        34 => { proof { reveal_strlit("🆍"); } Some("🆍") },
        35 => { proof { reveal_strlit("🆌"); } Some("🆌") },
        36 => { proof { reveal_strlit("🅹"); } Some("🅹") },
        37 => { proof { reveal_strlit("⛷"); } Some("⛷") },
        38 => { proof { reveal_strlit("⛸"); } Some("⛸") },
        39 => { proof { reveal_strlit("⛹"); } Some("⛹") },
        40 => { proof { reveal_strlit("⛺"); } Some("⛺") },
        41 => { proof { reveal_strlit("🅻"); } Some("🅻") },
        42 => { proof { reveal_strlit("☎"); } Some("☎") },
        43 => { proof { reveal_strlit("⛻"); } Some("⛻") },
        44 => { proof { reveal_strlit("⛼"); } Some("⛼") },
        45 => { proof { reveal_strlit("⛽"); } Some("⛽") },
        46 => { proof { reveal_strlit("⛾"); } Some("⛾") },
        47 => { proof { reveal_strlit("🅼"); } Some("🅼") },
        48 => { proof { reveal_strlit("⛿"); } Some("⛿") },
        _ => None,
    }
}

/// The entry `i` of the table of additional symbols of row 92, as text.
pub open spec fn symbols_92(i: u16) -> Seq<char> {
    match i {
        0 => seq!['→'],
        1 => seq!['←'],
        2 => seq!['↑'],
        3 => seq!['↓'],
        4 => seq!['○'],
        5 => seq!['●'],
        6 => seq!['年'],
        7 => seq!['月'],
        8 => seq!['日'],
        9 => seq!['円'],
        10 => seq!['㎡'],
        11 => seq!['立', '方', 'ｍ'],
        12 => seq!['㎝'],
        13 => seq!['平', '方', '㎝'],
        14 => seq!['立', '方', '㎝'],
        15 => seq!['０', '.'],
        16 => seq!['１', '.'],
        17 => seq!['２', '.'],
        18 => seq!['３', '.'],
        19 => seq!['４', '.'],
        20 => seq!['５', '.'],
        21 => seq!['６', '.'],
        22 => seq!['７', '.'],
        23 => seq!['８', '.'],
        24 => seq!['９', '.'],
        25 => seq!['氏'],
        26 => seq!['副'],
        27 => seq!['元'],
        28 => seq!['故'],
        29 => seq!['前'],
        30 => seq!['新'],
        31 => seq!['０', ','],
        32 => seq!['１', ','],
        33 => seq!['２', ','],
        34 => seq!['３', ','],
        35 => seq!['４', ','],
        36 => seq!['５', ','],
        37 => seq!['６', ','],
        38 => seq!['７', ','],
        39 => seq!['８', ','],
        40 => seq!['９', ','],
        41 => seq!['(', '社', ')'],
        42 => seq!['(', '財', ')'],
        43 => seq!['(', '有', ')'],
        44 => seq!['(', '株', ')'],
        45 => seq!['(', '代', ')'],
        46 => seq!['(', '問', ')'],
        47 => seq!['＞'],
        48 => seq!['＜'],
        49 => seq!['【'],
        50 => seq!['】'],
        51 => seq!['◇'],
        52 => seq!['^', '2'],
        53 => seq!['^', '3'],
        54 => seq!['(', 'C', 'D', ')'],
        55 => seq!['(', 'v', 'n', ')'],
        56 => seq!['(', 'o', 'b', ')'],
        57 => seq!['(', 'c', 'b', ')'],
        58 => seq!['(', 'c', 'e'],
        59 => seq!['m', 'b', ')'],
        60 => seq!['(', 'h', 'p', ')'],
        61 => seq!['(', 'b', 'r', ')'],
        62 => seq!['(', 'p', ')'],
        63 => seq!['(', 's', ')'],
        64 => seq!['(', 'm', 's', ')'],
        65 => seq!['(', 't', ')'],
        66 => seq!['(', 'b', 's', ')'],
        67 => seq!['(', 'b', ')'],
        68 => seq!['(', 't', 'b', ')'],
        69 => seq!['(', 't', 'p', ')'],
        70 => seq!['(', 'd', 's', ')'],
        71 => seq!['(', 'a', 'g', ')'],
        72 => seq!['(', 'e', 'g', ')'],
        73 => seq!['(', 'v', 'o', ')'],
        74 => seq!['(', 'f', 'l', ')'],
        75 => seq!['(', 'k', 'e'],
        76 => seq!['y', ')'],
        77 => seq!['(', 's', 'a'],
        78 => seq!['x', ')'],
        79 => seq!['(', 's', 'y'],
        80 => seq!['n', ')'],
        81 => seq!['(', 'o', 'r'],
        82 => seq!['g', ')'],
        83 => seq!['(', 'p', 'e'],
        84 => seq!['r', ')'],
        85 => seq!['(', 'R', ')'],
        86 => seq!['(', 'C', ')'],
        87 => seq!['(', '箏', ')'],
        88 => seq!['D', 'J'],
        89 => seq!['[', '演', ']'],
        90 => seq!['F', 'a', 'x'],
        _ => Seq::<char>::empty(),
    }
}

/// The entry `i` of the table of additional symbols of row 92, as text.
fn symbols_92_str(i: u16) -> (r: &'static str)
    requires
        i < 91,
    ensures
        r@ == symbols_92(i),
{
    match i {
        0 => { proof { reveal_strlit("→"); } "→" },
        1 => { proof { reveal_strlit("←"); } "←" },
        2 => { proof { reveal_strlit("↑"); } "↑" },
        3 => { proof { reveal_strlit("↓"); } "↓" },
        4 => { proof { reveal_strlit("○"); } "○" },
        5 => { proof { reveal_strlit("●"); } "●" },
        6 => { proof { reveal_strlit("年"); } "年" },
        7 => { proof { reveal_strlit("月"); } "月" },
        8 => { proof { reveal_strlit("日"); } "日" },
        9 => { proof { reveal_strlit("円"); } "円" },
        10 => { proof { reveal_strlit("㎡"); } "㎡" },
        11 => { proof { reveal_strlit("立方ｍ"); } "立方ｍ" },
        12 => { proof { reveal_strlit("㎝"); } "㎝" },
        13 => { proof { reveal_strlit("平方㎝"); } "平方㎝" },
        14 => { proof { reveal_strlit("立方㎝"); } "立方㎝" },
        15 => { proof { reveal_strlit("０."); } "０." },
        16 => { proof { reveal_strlit("１."); } "１." },
        17 => { proof { reveal_strlit("２."); } "２." },
        18 => { proof { reveal_strlit("３."); } "３." },
        19 => { proof { reveal_strlit("４."); } "４." },
        20 => { proof { reveal_strlit("５."); } "５." },
        21 => { proof { reveal_strlit("６."); } "６." },
        22 => { proof { reveal_strlit("７."); } "７." },
        23 => { proof { reveal_strlit("８."); } "８." },
        24 => { proof { reveal_strlit("９."); } "９." },
        25 => { proof { reveal_strlit("氏"); } "氏" },
        26 => { proof { reveal_strlit("副"); } "副" },
        27 => { proof { reveal_strlit("元"); } "元" },
        28 => { proof { reveal_strlit("故"); } "故" },
        29 => { proof { reveal_strlit("前"); } "前" },
        30 => { proof { reveal_strlit("新"); } "新" },
        31 => { proof { reveal_strlit("０,"); } "０," },
        32 => { proof { reveal_strlit("１,"); } "１," },
        33 => { proof { reveal_strlit("２,"); } "２," },
        34 => { proof { reveal_strlit("３,"); } "３," },
        35 => { proof { reveal_strlit("４,"); } "４," },
        36 => { proof { reveal_strlit("５,"); } "５," },
        37 => { proof { reveal_strlit("６,"); } "６," },
        38 => { proof { reveal_strlit("７,"); } "７," },
        39 => { proof { reveal_strlit("８,"); } "８," },
        40 => { proof { reveal_strlit("９,"); } "９," },
        41 => { proof { reveal_strlit("(社)"); } "(社)" },
        42 => { proof { reveal_strlit("(財)"); } "(財)" },
        43 => { proof { reveal_strlit("(有)"); } "(有)" },
        44 => { proof { reveal_strlit("(株)"); } "(株)" },
        45 => { proof { reveal_strlit("(代)"); } "(代)" },
        46 => { proof { reveal_strlit("(問)"); } "(問)" },
        47 => { proof { reveal_strlit("＞"); } "＞" },
        48 => { proof { reveal_strlit("＜"); } "＜" },
        49 => { proof { reveal_strlit("【"); } "【" },
        50 => { proof { reveal_strlit("】"); } "】" },
        51 => { proof { reveal_strlit("◇"); } "◇" },
        52 => { proof { reveal_strlit("^2"); } "^2" },
        53 => { proof { reveal_strlit("^3"); } "^3" },
        54 => { proof { reveal_strlit("(CD)"); } "(CD)" },
        55 => { proof { reveal_strlit("(vn)"); } "(vn)" },
        56 => { proof { reveal_strlit("(ob)"); } "(ob)" },
        57 => { proof { reveal_strlit("(cb)"); } "(cb)" },
        58 => { proof { reveal_strlit("(ce"); } "(ce" },
        59 => { proof { reveal_strlit("mb)"); } "mb)" },
        60 => { proof { reveal_strlit("(hp)"); } "(hp)" },
        61 => { proof { reveal_strlit("(br)"); } "(br)" },
        62 => { proof { reveal_strlit("(p)"); } "(p)" },
        63 => { proof { reveal_strlit("(s)"); } "(s)" },
        64 => { proof { reveal_strlit("(ms)"); } "(ms)" },
        65 => { proof { reveal_strlit("(t)"); } "(t)" },
        66 => { proof { reveal_strlit("(bs)"); } "(bs)" },
        67 => { proof { reveal_strlit("(b)"); } "(b)" },
        68 => { proof { reveal_strlit("(tb)"); } "(tb)" },
        69 => { proof { reveal_strlit("(tp)"); } "(tp)" },
        70 => { proof { reveal_strlit("(ds)"); } "(ds)" },
        71 => { proof { reveal_strlit("(ag)"); } "(ag)" },
        72 => { proof { reveal_strlit("(eg)"); } "(eg)" },
        73 => { proof { reveal_strlit("(vo)"); } "(vo)" },
        74 => { proof { reveal_strlit("(fl)"); } "(fl)" },
        75 => { proof { reveal_strlit("(ke"); } "(ke" },
        76 => { proof { reveal_strlit("y)"); } "y)" },
        77 => { proof { reveal_strlit("(sa"); } "(sa" },
        78 => { proof { reveal_strlit("x)"); } "x)" },
        79 => { proof { reveal_strlit("(sy"); } "(sy" },
        80 => { proof { reveal_strlit("n)"); } "n)" },
        81 => { proof { reveal_strlit("(or"); } "(or" },
        82 => { proof { reveal_strlit("g)"); } "g)" },
        83 => { proof { reveal_strlit("(pe"); } "(pe" },
        84 => { proof { reveal_strlit("r)"); } "r)" },
        85 => { proof { reveal_strlit("(R)"); } "(R)" },
        86 => { proof { reveal_strlit("(C)"); } "(C)" },
        87 => { proof { reveal_strlit("(箏)"); } "(箏)" },
        88 => { proof { reveal_strlit("DJ"); } "DJ" },
        89 => { proof { reveal_strlit("[演]"); } "[演]" },
        _ => { proof { reveal_strlit("Fax"); } "Fax" },
    }
}

/// The entry `i` of the table of additional symbols of row 92, as Unicode symbols.
pub open spec fn symbols_92_unicode(i: u16) -> Seq<char> {
    match i {
        0 => seq!['➡'],
        1 => seq!['⬅'],
        2 => seq!['⬆'],
        3 => seq!['⬇'],
        4 => seq!['⬯'],
        5 => seq!['⬮'],
        6 => seq!['年'],
        7 => seq!['月'],
        8 => seq!['日'],
        9 => seq!['円'],
        10 => seq!['㎡'],
        11 => seq!['㎥'],
        12 => seq!['㎝'],
        13 => seq!['㎠'],
        14 => seq!['㎤'],
        15 => seq!['🄀'],
        16 => seq!['⒈'],
        17 => seq!['⒉'],
        18 => seq!['⒊'],
        19 => seq!['⒋'],
        20 => seq!['⒌'],
        21 => seq!['⒍'],
        22 => seq!['⒎'],
        23 => seq!['⒏'],
        24 => seq!['⒐'],
        25 => seq!['氏'],
        26 => seq!['副'],
        27 => seq!['元'],
        28 => seq!['故'],
        29 => seq!['前'],
        30 => seq!['新'],
        31 => seq!['🄁'],
        32 => seq!['🄂'],
        33 => seq!['🄃'],
        34 => seq!['🄄'],
        35 => seq!['🄅'],
        36 => seq!['🄆'],
        37 => seq!['🄇'],
        38 => seq!['🄈'],
        39 => seq!['🄉'],
        40 => seq!['🄊'],
        41 => seq!['㈳'],
        42 => seq!['㈶'],
        43 => seq!['㈲'],
        44 => seq!['㈱'],
        45 => seq!['㈹'],
        46 => seq!['㉄'],
        47 => seq!['▶'],
        48 => seq!['◀'],
        49 => seq!['〖'],
        50 => seq!['〗'],
        51 => seq!['⟐'],
        52 => seq!['²'],
        53 => seq!['³'],
        54 => seq!['🄭'],
        55 => seq!['(', 'v', 'n', ')'],
        56 => seq!['(', 'o', 'b', ')'],
        57 => seq!['(', 'c', 'b', ')'],
        58 => seq!['(', 'c', 'e'],
        59 => seq!['m', 'b', ')'],
        60 => seq!['(', 'h', 'p', ')'],
        61 => seq!['(', 'b', 'r', ')'],
        62 => seq!['(', 'p', ')'],
        63 => seq!['(', 's', ')'],
        64 => seq!['(', 'm', 's', ')'],
        65 => seq!['(', 't', ')'],
        66 => seq!['(', 'b', 's', ')'],
        67 => seq!['(', 'b', ')'],
        68 => seq!['(', 't', 'b', ')'],
        69 => seq!['(', 't', 'p', ')'],
        70 => seq!['(', 'd', 's', ')'],
        71 => seq!['(', 'a', 'g', ')'],
        72 => seq!['(', 'e', 'g', ')'],
        73 => seq!['(', 'v', 'o', ')'],
        74 => seq!['(', 'f', 'l', ')'],
        75 => seq!['(', 'k', 'e'],
        76 => seq!['y', ')'],
        77 => seq!['(', 's', 'a'],
        78 => seq!['x', ')'],
        79 => seq!['(', 's', 'y'],
        80 => seq!['n', ')'],
        81 => seq!['(', 'o', 'r'],
        82 => seq!['g', ')'],
        83 => seq!['(', 'p', 'e'],
        84 => seq!['r', ')'],
        85 => seq!['🄬'],
        86 => seq!['🄫'],
        87 => seq!['㉇'],
        88 => seq!['🆐'],
        89 => seq!['🈦'],
        90 => seq!['℻'],
        _ => Seq::<char>::empty(),
    }
}

/// The entry `i` of the table of additional symbols of row 92, as Unicode symbols.
fn symbols_92_unicode_str(i: u16) -> (r: &'static str)
    requires
        i < 91,
    ensures
        r@ == symbols_92_unicode(i),
{
    match i {
        0 => { proof { reveal_strlit("➡"); } "➡" },
        1 => { proof { reveal_strlit("⬅"); } "⬅" },
        2 => { proof { reveal_strlit("⬆"); } "⬆" },
        3 => { proof { reveal_strlit("⬇"); } "⬇" },
        4 => { proof { reveal_strlit("⬯"); } "⬯" },
        5 => { proof { reveal_strlit("⬮"); } "⬮" },
        6 => { proof { reveal_strlit("年"); } "年" },
        7 => { proof { reveal_strlit("月"); } "月" },
        8 => { proof { reveal_strlit("日"); } "日" },
        9 => { proof { reveal_strlit("円"); } "円" },
        10 => { proof { reveal_strlit("㎡"); } "㎡" },
        11 => { proof { reveal_strlit("㎥"); } "㎥" },
        12 => { proof { reveal_strlit("㎝"); } "㎝" },
        13 => { proof { reveal_strlit("㎠"); } "㎠" },
        14 => { proof { reveal_strlit("㎤"); } "㎤" },
        15 => { proof { reveal_strlit("🄀"); } "🄀" },
        16 => { proof { reveal_strlit("⒈"); } "⒈" },
        17 => { proof { reveal_strlit("⒉"); } "⒉" },
        18 => { proof { reveal_strlit("⒊"); } "⒊" },
        19 => { proof { reveal_strlit("⒋"); } "⒋" },
        20 => { proof { reveal_strlit("⒌"); } "⒌" },
        21 => { proof { reveal_strlit("⒍"); } "⒍" },
        22 => { proof { reveal_strlit("⒎"); } "⒎" },
        23 => { proof { reveal_strlit("⒏"); } "⒏" },
        24 => { proof { reveal_strlit("⒐"); } "⒐" },
        25 => { proof { reveal_strlit("氏"); } "氏" },
        26 => { proof { reveal_strlit("副"); } "副" },
        27 => { proof { reveal_strlit("元"); } "元" },
        28 => { proof { reveal_strlit("故"); } "故" },
        29 => { proof { reveal_strlit("前"); } "前" },
        30 => { proof { reveal_strlit("新"); } "新" },
        31 => { proof { reveal_strlit("🄁"); } "🄁" },
        32 => { proof { reveal_strlit("🄂"); } "🄂" },
        33 => { proof { reveal_strlit("🄃"); } "🄃" },
        34 => { proof { reveal_strlit("🄄"); } "🄄" },
        35 => { proof { reveal_strlit("🄅"); } "🄅" },
        36 => { proof { reveal_strlit("🄆"); } "🄆" },
        37 => { proof { reveal_strlit("🄇"); } "🄇" },
        38 => { proof { reveal_strlit("🄈"); } "🄈" },
        39 => { proof { reveal_strlit("🄉"); } "🄉" },
        40 => { proof { reveal_strlit("🄊"); } "🄊" },
        41 => { proof { reveal_strlit("㈳"); } "㈳" },
        42 => { proof { reveal_strlit("㈶"); } "㈶" },
        43 => { proof { reveal_strlit("㈲"); } "㈲" },
        44 => { proof { reveal_strlit("㈱"); } "㈱" },
        45 => { proof { reveal_strlit("㈹"); } "㈹" },
        46 => { proof { reveal_strlit("㉄"); } "㉄" },
        47 => { proof { reveal_strlit("▶"); } "▶" },
        48 => { proof { reveal_strlit("◀"); } "◀" },
        49 => { proof { reveal_strlit("〖"); } "〖" },
        50 => { proof { reveal_strlit("〗"); } "〗" },
        51 => { proof { reveal_strlit("⟐"); } "⟐" },
        52 => { proof { reveal_strlit("²"); } "²" },
        53 => { proof { reveal_strlit("³"); } "³" },
        54 => { proof { reveal_strlit("🄭"); } "🄭" },
        55 => { proof { reveal_strlit("(vn)"); } "(vn)" },
        56 => { proof { reveal_strlit("(ob)"); } "(ob)" },
        57 => { proof { reveal_strlit("(cb)"); } "(cb)" },
        58 => { proof { reveal_strlit("(ce"); } "(ce" },
        59 => { proof { reveal_strlit("mb)"); } "mb)" },
        60 => { proof { reveal_strlit("(hp)"); } "(hp)" },
        61 => { proof { reveal_strlit("(br)"); } "(br)" },
        62 => { proof { reveal_strlit("(p)"); } "(p)" },
        63 => { proof { reveal_strlit("(s)"); } "(s)" },
        64 => { proof { reveal_strlit("(ms)"); } "(ms)" },
        65 => { proof { reveal_strlit("(t)"); } "(t)" },
        66 => { proof { reveal_strlit("(bs)"); } "(bs)" },
        67 => { proof { reveal_strlit("(b)"); } "(b)" },
        68 => { proof { reveal_strlit("(tb)"); } "(tb)" },
        69 => { proof { reveal_strlit("(tp)"); } "(tp)" },
        70 => { proof { reveal_strlit("(ds)"); } "(ds)" },
        71 => { proof { reveal_strlit("(ag)"); } "(ag)" },
        72 => { proof { reveal_strlit("(eg)"); } "(eg)" },
        73 => { proof { reveal_strlit("(vo)"); } "(vo)" },
        74 => { proof { reveal_strlit("(fl)"); } "(fl)" },
        75 => { proof { reveal_strlit("(ke"); } "(ke" },
        76 => { proof { reveal_strlit("y)"); } "y)" },
        77 => { proof { reveal_strlit("(sa"); } "(sa" },
        78 => { proof { reveal_strlit("x)"); } "x)" },
        79 => { proof { reveal_strlit("(sy"); } "(sy" },
        80 => { proof { reveal_strlit("n)"); } "n)" },
        81 => { proof { reveal_strlit("(or"); } "(or" },
        82 => { proof { reveal_strlit("g)"); } "g)" },
        83 => { proof { reveal_strlit("(pe"); } "(pe" },
        84 => { proof { reveal_strlit("r)"); } "r)" },
        85 => { proof { reveal_strlit("🄬"); } "🄬" },
        86 => { proof { reveal_strlit("🄫"); } "🄫" },
        87 => { proof { reveal_strlit("㉇"); } "㉇" },
        88 => { proof { reveal_strlit("🆐"); } "🆐" },
        89 => { proof { reveal_strlit("🈦"); } "🈦" },
        _ => { proof { reveal_strlit("℻"); } "℻" },
    }
}

/// The entry `i` of the table of additional symbols of row 93, as text.
pub open spec fn symbols_93(i: u16) -> Option<Seq<char>> {
    match i {
        0 => Some(seq!['(', '月', ')']),
        1 => Some(seq!['(', '火', ')']),
        2 => Some(seq!['(', '水', ')']),
        3 => Some(seq!['(', '木', ')']),
        4 => Some(seq!['(', '金', ')']),
        5 => Some(seq!['(', '土', ')']),
        6 => Some(seq!['(', '日', ')']),
        7 => Some(seq!['(', '祝', ')']),
        8 => Some(seq!['㍾']),
        9 => Some(seq!['㍽']),
        10 => Some(seq!['㍼']),
        11 => Some(seq!['㍻']),
        12 => Some(seq!['№']),
        13 => Some(seq!['℡']),
        14 => Some(seq!['(', '〒', ')']),
        15 => Some(seq!['○']),
        16 => Some(seq!['〔', '本', '〕']),
        17 => Some(seq!['〔', '三', '〕']),
        18 => Some(seq!['〔', '二', '〕']),
        19 => Some(seq!['〔', '安', '〕']),
        20 => Some(seq!['〔', '点', '〕']),
        21 => Some(seq!['〔', '打', '〕']),
        22 => Some(seq!['〔', '盗', '〕']),
        23 => Some(seq!['〔', '勝', '〕']),
        24 => Some(seq!['〔', '敗', '〕']),
        25 => Some(seq!['〔', 'Ｓ', '〕']),
        26 => Some(seq!['［', '投', '］']),
        27 => Some(seq!['［', '捕', '］']),
        28 => Some(seq!['［', '一', '］']),
        29 => Some(seq!['［', '二', '］']),
        30 => Some(seq!['［', '三', '］']),
        31 => Some(seq!['［', '遊', '］']),
        32 => Some(seq!['［', '左', '］']),
        33 => Some(seq!['［', '中', '］']),
        34 => Some(seq!['［', '右', '］']),
        35 => Some(seq!['［', '指', '］']),
        36 => Some(seq!['［', '走', '］']),
        37 => Some(seq!['［', '打', '］']),
        38 => Some(seq!['㍑']),
        39 => Some(seq!['㎏']),
        40 => Some(seq!['H', 'z']),
        41 => Some(seq!['h', 'a']),
        42 => Some(seq!['k', 'm']),
        43 => Some(seq!['平', '方', 'k', 'm']),
        44 => Some(seq!['h', 'P', 'a']),
        45 => None,
        46 => None,
        47 => Some(seq!['1', '/', '2']),
        48 => Some(seq!['0', '/', '3']),
        49 => Some(seq!['1', '/', '3']),
        50 => Some(seq!['2', '/', '3']),
        51 => Some(seq!['1', '/', '4']),
        52 => Some(seq!['3', '/', '4']),
        53 => Some(seq!['1', '/', '5']),
        54 => Some(seq!['2', '/', '5']),
        55 => Some(seq!['3', '/', '5']),
        56 => Some(seq!['4', '/', '5']),
        57 => Some(seq!['1', '/', '6']),
        58 => Some(seq!['5', '/', '6']),
        59 => Some(seq!['1', '/', '7']),
        60 => Some(seq!['1', '/', '8']),
        61 => Some(seq!['1', '/', '9']),
        62 => Some(seq!['1', '/', '1', '0']),
        63 => Some(seq!['晴', 'れ']),
        64 => Some(seq!['曇', 'り']),
        65 => Some(seq!['雨']),
        66 => Some(seq!['雪']),
        67 => Some(seq!['△']),
        68 => Some(seq!['▲']),
        69 => Some(seq!['▽']),
        70 => Some(seq!['▼']),
        71 => Some(seq!['◆']),
        72 => Some(seq!['・']),
        73 => Some(seq!['・']),
        74 => Some(seq!['・']),
        75 => Some(seq!['◇']),
        76 => Some(seq!['◎']),
        77 => Some(seq!['!', '!']),
        78 => Some(seq!['!', '?']),
        79 => Some(seq!['曇', '/', '晴']),
        80 => Some(seq!['雨']),
        81 => Some(seq!['雨']),
        82 => Some(seq!['雪']),
        83 => Some(seq!['大', '雪']),
        84 => Some(seq!['雷']),
        85 => Some(seq!['雷', '雨']),
        86 => Some(seq!['\u{3000}']),
        87 => Some(seq!['・']),
        88 => Some(seq!['・']),
        89 => Some(seq!['♪']),
        90 => Some(seq!['℡']),
        _ => None,
    }
}

/// The entry `i` of the table of additional symbols of row 93, as text.
fn symbols_93_str(i: u16) -> (r: Option<&'static str>)
    requires
        i < 91,
    ensures
        match r {
            Some(s) => symbols_93(i) == Some(s@),
            None => symbols_93(i) is None,
        },
{
    match i {
        0 => { proof { reveal_strlit("(月)"); } Some("(月)") },
        1 => { proof { reveal_strlit("(火)"); } Some("(火)") },
        2 => { proof { reveal_strlit("(水)"); } Some("(水)") },
        3 => { proof { reveal_strlit("(木)"); } Some("(木)") },
        4 => { proof { reveal_strlit("(金)"); } Some("(金)") },
        5 => { proof { reveal_strlit("(土)"); } Some("(土)") },
        6 => { proof { reveal_strlit("(日)"); } Some("(日)") },
        7 => { proof { reveal_strlit("(祝)"); } Some("(祝)") },
        8 => { proof { reveal_strlit("㍾"); } Some("㍾") },
        9 => { proof { reveal_strlit("㍽"); } Some("㍽") },
        10 => { proof { reveal_strlit("㍼"); } Some("㍼") },
        11 => { proof { reveal_strlit("㍻"); } Some("㍻") },
        12 => { proof { reveal_strlit("№"); } Some("№") },
        13 => { proof { reveal_strlit("℡"); } Some("℡") },
        14 => { proof { reveal_strlit("(〒)"); } Some("(〒)") },
        15 => { proof { reveal_strlit("○"); } Some("○") },
        16 => { proof { reveal_strlit("〔本〕"); } Some("〔本〕") },
        17 => { proof { reveal_strlit("〔三〕"); } Some("〔三〕") },
        18 => { proof { reveal_strlit("〔二〕"); } Some("〔二〕") },
        19 => { proof { reveal_strlit("〔安〕"); } Some("〔安〕") },
        20 => { proof { reveal_strlit("〔点〕"); } Some("〔点〕") },
        21 => { proof { reveal_strlit("〔打〕"); } Some("〔打〕") },
        22 => { proof { reveal_strlit("〔盗〕"); } Some("〔盗〕") },
        23 => { proof { reveal_strlit("〔勝〕"); } Some("〔勝〕") },
        24 => { proof { reveal_strlit("〔敗〕"); } Some("〔敗〕") },
        25 => { proof { reveal_strlit("〔Ｓ〕"); } Some("〔Ｓ〕") },
        26 => { proof { reveal_strlit("［投］"); } Some("［投］") },
        27 => { proof { reveal_strlit("［捕］"); } Some("［捕］") },
        28 => { proof { reveal_strlit("［一］"); } Some("［一］") },
        29 => { proof { reveal_strlit("［二］"); } Some("［二］") },
        30 => { proof { reveal_strlit("［三］"); } Some("［三］") },
        31 => { proof { reveal_strlit("［遊］"); } Some("［遊］") },
        32 => { proof { reveal_strlit("［左］"); } Some("［左］") },
        33 => { proof { reveal_strlit("［中］"); } Some("［中］") },
        34 => { proof { reveal_strlit("［右］"); } Some("［右］") },
        35 => { proof { reveal_strlit("［指］"); } Some("［指］") },
        36 => { proof { reveal_strlit("［走］"); } Some("［走］") },
        37 => { proof { reveal_strlit("［打］"); } Some("［打］") },
        38 => { proof { reveal_strlit("㍑"); } Some("㍑") },
        39 => { proof { reveal_strlit("㎏"); } Some("㎏") },
        40 => { proof { reveal_strlit("Hz"); } Some("Hz") },
        41 => { proof { reveal_strlit("ha"); } Some("ha") },
        42 => { proof { reveal_strlit("km"); } Some("km") },
        43 => { proof { reveal_strlit("平方km"); } Some("平方km") },
        44 => { proof { reveal_strlit("hPa"); } Some("hPa") },
        45 => None,
        46 => None,
        47 => { proof { reveal_strlit("1/2"); } Some("1/2") },
        48 => { proof { reveal_strlit("0/3"); } Some("0/3") },
        49 => { proof { reveal_strlit("1/3"); } Some("1/3") },
        50 => { proof { reveal_strlit("2/3"); } Some("2/3") },
        51 => { proof { reveal_strlit("1/4"); } Some("1/4") },
        52 => { proof { reveal_strlit("3/4"); } Some("3/4") },
        53 => { proof { reveal_strlit("1/5"); } Some("1/5") },
        54 => { proof { reveal_strlit("2/5"); } Some("2/5") },
        55 => { proof { reveal_strlit("3/5"); } Some("3/5") },
        56 => { proof { reveal_strlit("4/5"); } Some("4/5") },
        57 => { proof { reveal_strlit("1/6"); } Some("1/6") },
        58 => { proof { reveal_strlit("5/6"); } Some("5/6") },
        59 => { proof { reveal_strlit("1/7"); } Some("1/7") },
        60 => { proof { reveal_strlit("1/8"); } Some("1/8") },
        61 => { proof { reveal_strlit("1/9"); } Some("1/9") },
        62 => { proof { reveal_strlit("1/10"); } Some("1/10") },
        63 => { proof { reveal_strlit("晴れ"); } Some("晴れ") },
        64 => { proof { reveal_strlit("曇り"); } Some("曇り") },
        65 => { proof { reveal_strlit("雨"); } Some("雨") },
        66 => { proof { reveal_strlit("雪"); } Some("雪") },
        67 => { proof { reveal_strlit("△"); } Some("△") },
        68 => { proof { reveal_strlit("▲"); } Some("▲") },
        69 => { proof { reveal_strlit("▽"); } Some("▽") },
        70 => { proof { reveal_strlit("▼"); } Some("▼") },
        71 => { proof { reveal_strlit("◆"); } Some("◆") },
        72 => { proof { reveal_strlit("・"); } Some("・") },
        73 => { proof { reveal_strlit("・"); } Some("・") },
        74 => { proof { reveal_strlit("・"); } Some("・") },
        75 => { proof { reveal_strlit("◇"); } Some("◇") },
        76 => { proof { reveal_strlit("◎"); } Some("◎") },
        77 => { proof { reveal_strlit("!!"); } Some("!!") },
        78 => { proof { reveal_strlit("!?"); } Some("!?") },
        79 => { proof { reveal_strlit("曇/晴"); } Some("曇/晴") },
        80 => { proof { reveal_strlit("雨"); } Some("雨") },
        81 => { proof { reveal_strlit("雨"); } Some("雨") },
        82 => { proof { reveal_strlit("雪"); } Some("雪") },
        83 => { proof { reveal_strlit("大雪"); } Some("大雪") },
        84 => { proof { reveal_strlit("雷"); } Some("雷") },
        85 => { proof { reveal_strlit("雷雨"); } Some("雷雨") },
        86 => { proof { reveal_strlit("\u{3000}"); } Some("\u{3000}") },
        87 => { proof { reveal_strlit("・"); } Some("・") },
        88 => { proof { reveal_strlit("・"); } Some("・") },
        89 => { proof { reveal_strlit("♪"); } Some("♪") },
        90 => { proof { reveal_strlit("℡"); } Some("℡") },
        _ => None,
    }
}

/// The entry `i` of the table of additional symbols of row 93, as Unicode symbols.
pub open spec fn symbols_93_unicode(i: u16) -> Option<Seq<char>> {
    match i {
        0 => Some(seq!['㈪']),
        1 => Some(seq!['㈫']),
        2 => Some(seq!['㈬']),
        3 => Some(seq!['㈭']),
        4 => Some(seq!['㈮']),
        5 => Some(seq!['㈯']),
        6 => Some(seq!['㈰']),
        7 => Some(seq!['㈷']),
        8 => Some(seq!['㍾']),
        9 => Some(seq!['㍽']),
        10 => Some(seq!['㍼']),
        11 => Some(seq!['㍻']),
        12 => Some(seq!['№']),
        13 => Some(seq!['℡']),
        14 => Some(seq!['〶']),
        15 => Some(seq!['⚾']),
        16 => Some(seq!['🉀']),
        17 => Some(seq!['🉁']),
        18 => Some(seq!['🉂']),
        19 => Some(seq!['🉃']),
        20 => Some(seq!['🉄']),
        21 => Some(seq!['🉅']),
        22 => Some(seq!['🉆']),
        23 => Some(seq!['🉇']),
        24 => Some(seq!['🉈']),
        25 => Some(seq!['🄪']),
        26 => Some(seq!['🈧']),
        27 => Some(seq!['🈨']),
        28 => Some(seq!['🈩']),
        29 => Some(seq!['🈔']),
        30 => Some(seq!['🈪']),
        31 => Some(seq!['🈫']),
        32 => Some(seq!['🈬']),
        33 => Some(seq!['🈭']),
        34 => Some(seq!['🈮']),
        35 => Some(seq!['🈯']),
        36 => Some(seq!['🈰']),
        37 => Some(seq!['🈱']),
        38 => Some(seq!['ℓ']),
        39 => Some(seq!['㎏']),
        40 => Some(seq!['㎐']),
        41 => Some(seq!['㏊']),
        42 => Some(seq!['㎞']),
        43 => Some(seq!['㎢']),
        44 => Some(seq!['㍱']),
        45 => None,
        46 => None,
        47 => Some(seq!['½']),
        48 => Some(seq!['↉']),
        49 => Some(seq!['⅓']),
        50 => Some(seq!['⅔']),
        51 => Some(seq!['¼']),
        52 => Some(seq!['¾']),
        53 => Some(seq!['⅕']),
        54 => Some(seq!['⅖']),
        55 => Some(seq!['⅗']),
        56 => Some(seq!['⅘']),
        57 => Some(seq!['⅙']),
        58 => Some(seq!['⅚']),
        59 => Some(seq!['⅐']),
        60 => Some(seq!['⅛']),
        61 => Some(seq!['⅑']),
        62 => Some(seq!['⅒']),
        63 => Some(seq!['☀']),
        64 => Some(seq!['☁']),
        65 => Some(seq!['☂']),
        66 => Some(seq!['⛄']),
        67 => Some(seq!['☖']),
        68 => Some(seq!['☗']),
        69 => Some(seq!['⛉']),
        70 => Some(seq!['⛊']),
        71 => Some(seq!['♦']),
        72 => Some(seq!['♥']),
        73 => Some(seq!['♣']),
        74 => Some(seq!['♠']),
        75 => Some(seq!['⛋']),
        76 => Some(seq!['⨀']),
        77 => Some(seq!['‼']),
        78 => Some(seq!['⁉']),
        79 => Some(seq!['⛅']),
        80 => Some(seq!['☔']),
        81 => Some(seq!['⛆']),
        82 => Some(seq!['☃']),
        83 => Some(seq!['⛇']),
        84 => Some(seq!['⚡']),
        85 => Some(seq!['⛈']),
        86 => Some(seq!['\u{3000}']),
        87 => Some(seq!['⚞']),
        88 => Some(seq!['⚟']),
        89 => Some(seq!['♬']),
        90 => Some(seq!['☎']),
        _ => None,
    }
}

/// The entry `i` of the table of additional symbols of row 93, as Unicode symbols.
fn symbols_93_unicode_str(i: u16) -> (r: Option<&'static str>)
    requires
        i < 91,
    ensures
        match r {
            Some(s) => symbols_93_unicode(i) == Some(s@),
            None => symbols_93_unicode(i) is None,
        },
{
    match i {
        0 => { proof { reveal_strlit("㈪"); } Some("㈪") },
        1 => { proof { reveal_strlit("㈫"); } Some("㈫") },
        2 => { proof { reveal_strlit("㈬"); } Some("㈬") },
        3 => { proof { reveal_strlit("㈭"); } Some("㈭") },
        4 => { proof { reveal_strlit("㈮"); } Some("㈮") },
        5 => { proof { reveal_strlit("㈯"); } Some("㈯") },
        6 => { proof { reveal_strlit("㈰"); } Some("㈰") },
        7 => { proof { reveal_strlit("㈷"); } Some("㈷") },
        8 => { proof { reveal_strlit("㍾"); } Some("㍾") },
        9 => { proof { reveal_strlit("㍽"); } Some("㍽") },
        10 => { proof { reveal_strlit("㍼"); } Some("㍼") },
        11 => { proof { reveal_strlit("㍻"); } Some("㍻") },
        12 => { proof { reveal_strlit("№"); } Some("№") },
        13 => { proof { reveal_strlit("℡"); } Some("℡") },
        14 => { proof { reveal_strlit("〶"); } Some("〶") },
        15 => { proof { reveal_strlit("⚾"); } Some("⚾") },
        16 => { proof { reveal_strlit("🉀"); } Some("🉀") },
        17 => { proof { reveal_strlit("🉁"); } Some("🉁") },
        18 => { proof { reveal_strlit("🉂"); } Some("🉂") },
        19 => { proof { reveal_strlit("🉃"); } Some("🉃") },
        20 => { proof { reveal_strlit("🉄"); } Some("🉄") },
        21 => { proof { reveal_strlit("🉅"); } Some("🉅") },
        22 => { proof { reveal_strlit("🉆"); } Some("🉆") },
        23 => { proof { reveal_strlit("🉇"); } Some("🉇") },
        24 => { proof { reveal_strlit("🉈"); } Some("🉈") },
        25 => { proof { reveal_strlit("🄪"); } Some("🄪") },
        26 => { proof { reveal_strlit("🈧"); } Some("🈧") },
        27 => { proof { reveal_strlit("🈨"); } Some("🈨") },
        28 => { proof { reveal_strlit("🈩"); } Some("🈩") },
        29 => { proof { reveal_strlit("🈔"); } Some("🈔") },
        30 => { proof { reveal_strlit("🈪"); } Some("🈪") },
        31 => { proof { reveal_strlit("🈫"); } Some("🈫") },
        32 => { proof { reveal_strlit("🈬"); } Some("🈬") },
        33 => { proof { reveal_strlit("🈭"); } Some("🈭") },
        34 => { proof { reveal_strlit("🈮"); } Some("🈮") },
        35 => { proof { reveal_strlit("🈯"); } Some("🈯") },
        36 => { proof { reveal_strlit("🈰"); } Some("🈰") },
        37 => { proof { reveal_strlit("🈱"); } Some("🈱") },
        38 => { proof { reveal_strlit("ℓ"); } Some("ℓ") },
        39 => { proof { reveal_strlit("㎏"); } Some("㎏") },
        40 => { proof { reveal_strlit("㎐"); } Some("㎐") },
        41 => { proof { reveal_strlit("㏊"); } Some("㏊") },
        42 => { proof { reveal_strlit("㎞"); } Some("㎞") },
        43 => { proof { reveal_strlit("㎢"); } Some("㎢") },
        44 => { proof { reveal_strlit("㍱"); } Some("㍱") },
        45 => None,
        46 => None,
        47 => { proof { reveal_strlit("½"); } Some("½") },
        48 => { proof { reveal_strlit("↉"); } Some("↉") },
        49 => { proof { reveal_strlit("⅓"); } Some("⅓") },
        50 => { proof { reveal_strlit("⅔"); } Some("⅔") },
        51 => { proof { reveal_strlit("¼"); } Some("¼") },
        52 => { proof { reveal_strlit("¾"); } Some("¾") },
        53 => { proof { reveal_strlit("⅕"); } Some("⅕") },
        54 => { proof { reveal_strlit("⅖"); } Some("⅖") },
        55 => { proof { reveal_strlit("⅗"); } Some("⅗") },
        56 => { proof { reveal_strlit("⅘"); } Some("⅘") },
        57 => { proof { reveal_strlit("⅙"); } Some("⅙") },
        58 => { proof { reveal_strlit("⅚"); } Some("⅚") },
        59 => { proof { reveal_strlit("⅐"); } Some("⅐") },
        60 => { proof { reveal_strlit("⅛"); } Some("⅛") },
        61 => { proof { reveal_strlit("⅑"); } Some("⅑") },
        62 => { proof { reveal_strlit("⅒"); } Some("⅒") },
        63 => { proof { reveal_strlit("☀"); } Some("☀") },
        64 => { proof { reveal_strlit("☁"); } Some("☁") },
        65 => { proof { reveal_strlit("☂"); } Some("☂") },
        66 => { proof { reveal_strlit("⛄"); } Some("⛄") },
        67 => { proof { reveal_strlit("☖"); } Some("☖") },
        68 => { proof { reveal_strlit("☗"); } Some("☗") },
        69 => { proof { reveal_strlit("⛉"); } Some("⛉") },
        70 => { proof { reveal_strlit("⛊"); } Some("⛊") },
        71 => { proof { reveal_strlit("♦"); } Some("♦") },
        72 => { proof { reveal_strlit("♥"); } Some("♥") },
        73 => { proof { reveal_strlit("♣"); } Some("♣") },
        74 => { proof { reveal_strlit("♠"); } Some("♠") },
        75 => { proof { reveal_strlit("⛋"); } Some("⛋") },
        76 => { proof { reveal_strlit("⨀"); } Some("⨀") },
        77 => { proof { reveal_strlit("‼"); } Some("‼") },
        78 => { proof { reveal_strlit("⁉"); } Some("⁉") },
        79 => { proof { reveal_strlit("⛅"); } Some("⛅") },
        80 => { proof { reveal_strlit("☔"); } Some("☔") },
        81 => { proof { reveal_strlit("⛆"); } Some("⛆") },
        82 => { proof { reveal_strlit("☃"); } Some("☃") },
        83 => { proof { reveal_strlit("⛇"); } Some("⛇") },
        84 => { proof { reveal_strlit("⚡"); } Some("⚡") },
        85 => { proof { reveal_strlit("⛈"); } Some("⛈") },
        86 => { proof { reveal_strlit("\u{3000}"); } Some("\u{3000}") },
        87 => { proof { reveal_strlit("⚞"); } Some("⚞") },
        88 => { proof { reveal_strlit("⚟"); } Some("⚟") },
        89 => { proof { reveal_strlit("♬"); } Some("♬") },
        90 => { proof { reveal_strlit("☎"); } Some("☎") },
        _ => None,
    }
}

/// The entry `i` of the table of additional symbols of row 94, as text.
pub open spec fn symbols_94(i: u16) -> Seq<char> {
    match i {
        0 => seq!['Ⅰ'],
        1 => seq!['Ⅱ'],
        2 => seq!['Ⅲ'],
        3 => seq!['Ⅳ'],
        4 => seq!['Ⅴ'],
        5 => seq!['Ⅵ'],
        6 => seq!['Ⅶ'],
        7 => seq!['Ⅷ'],
        8 => seq!['Ⅸ'],
        9 => seq!['Ⅹ'],
        10 => seq!['X', 'I'],
        11 => seq!['X', 'Ⅱ'],
        12 => seq!['⑰'],
        13 => seq!['⑱'],
        14 => seq!['⑲'],
        15 => seq!['⑳'],
        16 => seq!['(', '1', ')'],
        17 => seq!['(', '2', ')'],
        18 => seq!['(', '3', ')'],
        19 => seq!['(', '4', ')'],
        20 => seq!['(', '5', ')'],
        21 => seq!['(', '6', ')'],
        22 => seq!['(', '7', ')'],
        23 => seq!['(', '8', ')'],
        24 => seq!['(', '9', ')'],
        25 => seq!['(', '1', '0', ')'],
        26 => seq!['(', '1', '1', ')'],
        27 => seq!['(', '1', '2', ')'],
        28 => seq!['(', '2', '1', ')'],
        29 => seq!['(', '2', '2', ')'],
        30 => seq!['(', '2', '3', ')'],
        31 => seq!['(', '2', '4', ')'],
        32 => seq!['(', 'A', ')'],
        33 => seq!['(', 'B', ')'],
        34 => seq!['(', 'C', ')'],
        35 => seq!['(', 'D', ')'],
        36 => seq!['(', 'E', ')'],
        37 => seq!['(', 'F', ')'],
        38 => seq!['(', 'G', ')'],
        39 => seq!['(', 'H', ')'],
        40 => seq!['(', 'I', ')'],
        41 => seq!['(', 'J', ')'],
        42 => seq!['(', 'K', ')'],
        43 => seq!['(', 'L', ')'],
        44 => seq!['(', 'M', ')'],
        45 => seq!['(', 'N', ')'],
        46 => seq!['(', 'O', ')'],
        47 => seq!['(', 'P', ')'],
        48 => seq!['(', 'Q', ')'],
        49 => seq!['(', 'R', ')'],
        50 => seq!['(', 'S', ')'],
        51 => seq!['(', 'T', ')'],
        52 => seq!['(', 'U', ')'],
        53 => seq!['(', 'V', ')'],
        54 => seq!['(', 'W', ')'],
        55 => seq!['(', 'X', ')'],
        56 => seq!['(', 'Y', ')'],
        57 => seq!['(', 'Z', ')'],
        58 => seq!['(', '2', '5', ')'],
        59 => seq!['(', '2', '6', ')'],
        60 => seq!['(', '2', '7', ')'],
        61 => seq!['(', '2', '8', ')'],
        62 => seq!['(', '2', '9', ')'],
        63 => seq!['(', '3', '0', ')'],
        64 => seq!['①'],
        65 => seq!['②'],
        66 => seq!['③'],
        67 => seq!['④'],
        68 => seq!['⑤'],
        69 => seq!['⑥'],
        70 => seq!['⑦'],
        71 => seq!['⑧'],
        72 => seq!['⑨'],
        73 => seq!['⑩'],
        74 => seq!['⑪'],
        75 => seq!['⑫'],
        76 => seq!['⑬'],
        77 => seq!['⑭'],
        78 => seq!['⑮'],
        79 => seq!['⑯'],
        80 => seq!['①'],
        81 => seq!['②'],
        82 => seq!['③'],
        83 => seq!['④'],
        84 => seq!['⑤'],
        85 => seq!['⑥'],
        86 => seq!['⑦'],
        87 => seq!['⑧'],
        88 => seq!['⑨'],
        89 => seq!['⑩'],
        90 => seq!['⑪'],
        91 => seq!['⑫'],
        92 => seq!['(', '3', '1', ')'],
        _ => Seq::<char>::empty(),
    }
}

/// The entry `i` of the table of additional symbols of row 94, as text.
fn symbols_94_str(i: u16) -> (r: &'static str)
    requires
        i < 93,
    ensures
        r@ == symbols_94(i),
{
    match i {
        0 => { proof { reveal_strlit("Ⅰ"); } "Ⅰ" },
        1 => { proof { reveal_strlit("Ⅱ"); } "Ⅱ" },
        2 => { proof { reveal_strlit("Ⅲ"); } "Ⅲ" },
        3 => { proof { reveal_strlit("Ⅳ"); } "Ⅳ" },
        4 => { proof { reveal_strlit("Ⅴ"); } "Ⅴ" },
        5 => { proof { reveal_strlit("Ⅵ"); } "Ⅵ" },
        6 => { proof { reveal_strlit("Ⅶ"); } "Ⅶ" },
        7 => { proof { reveal_strlit("Ⅷ"); } "Ⅷ" },
        8 => { proof { reveal_strlit("Ⅸ"); } "Ⅸ" },
        9 => { proof { reveal_strlit("Ⅹ"); } "Ⅹ" },
        10 => { proof { reveal_strlit("XI"); } "XI" },
        11 => { proof { reveal_strlit("XⅡ"); } "XⅡ" },
        12 => { proof { reveal_strlit("⑰"); } "⑰" },
        13 => { proof { reveal_strlit("⑱"); } "⑱" },
        14 => { proof { reveal_strlit("⑲"); } "⑲" },
        15 => { proof { reveal_strlit("⑳"); } "⑳" },
        16 => { proof { reveal_strlit("(1)"); } "(1)" },
        17 => { proof { reveal_strlit("(2)"); } "(2)" },
        18 => { proof { reveal_strlit("(3)"); } "(3)" },
        19 => { proof { reveal_strlit("(4)"); } "(4)" },
        20 => { proof { reveal_strlit("(5)"); } "(5)" },
        21 => { proof { reveal_strlit("(6)"); } "(6)" },
        22 => { proof { reveal_strlit("(7)"); } "(7)" },
        23 => { proof { reveal_strlit("(8)"); } "(8)" },
        24 => { proof { reveal_strlit("(9)"); } "(9)" },
        25 => { proof { reveal_strlit("(10)"); } "(10)" },
        26 => { proof { reveal_strlit("(11)"); } "(11)" },
        27 => { proof { reveal_strlit("(12)"); } "(12)" },
        28 => { proof { reveal_strlit("(21)"); } "(21)" },
        29 => { proof { reveal_strlit("(22)"); } "(22)" },
        30 => { proof { reveal_strlit("(23)"); } "(23)" },
        31 => { proof { reveal_strlit("(24)"); } "(24)" },
        32 => { proof { reveal_strlit("(A)"); } "(A)" },
        33 => { proof { reveal_strlit("(B)"); } "(B)" },
        34 => { proof { reveal_strlit("(C)"); } "(C)" },
        35 => { proof { reveal_strlit("(D)"); } "(D)" },
        36 => { proof { reveal_strlit("(E)"); } "(E)" },
        37 => { proof { reveal_strlit("(F)"); } "(F)" },
        38 => { proof { reveal_strlit("(G)"); } "(G)" },
        39 => { proof { reveal_strlit("(H)"); } "(H)" },
        40 => { proof { reveal_strlit("(I)"); } "(I)" },
        41 => { proof { reveal_strlit("(J)"); } "(J)" },
        42 => { proof { reveal_strlit("(K)"); } "(K)" },
        43 => { proof { reveal_strlit("(L)"); } "(L)" },
        44 => { proof { reveal_strlit("(M)"); } "(M)" },
        45 => { proof { reveal_strlit("(N)"); } "(N)" },
        46 => { proof { reveal_strlit("(O)"); } "(O)" },
        47 => { proof { reveal_strlit("(P)"); } "(P)" },
        48 => { proof { reveal_strlit("(Q)"); } "(Q)" },
        49 => { proof { reveal_strlit("(R)"); } "(R)" },
        50 => { proof { reveal_strlit("(S)"); } "(S)" },
        51 => { proof { reveal_strlit("(T)"); } "(T)" },
        52 => { proof { reveal_strlit("(U)"); } "(U)" },
        53 => { proof { reveal_strlit("(V)"); } "(V)" },
        54 => { proof { reveal_strlit("(W)"); } "(W)" },
        55 => { proof { reveal_strlit("(X)"); } "(X)" },
        56 => { proof { reveal_strlit("(Y)"); } "(Y)" },
        57 => { proof { reveal_strlit("(Z)"); } "(Z)" },
        58 => { proof { reveal_strlit("(25)"); } "(25)" },
        59 => { proof { reveal_strlit("(26)"); } "(26)" },
        60 => { proof { reveal_strlit("(27)"); } "(27)" },
        61 => { proof { reveal_strlit("(28)"); } "(28)" },
        62 => { proof { reveal_strlit("(29)"); } "(29)" },
        63 => { proof { reveal_strlit("(30)"); } "(30)" },
        64 => { proof { reveal_strlit("①"); } "①" },
        65 => { proof { reveal_strlit("②"); } "②" },
        66 => { proof { reveal_strlit("③"); } "③" },
        67 => { proof { reveal_strlit("④"); } "④" },
        68 => { proof { reveal_strlit("⑤"); } "⑤" },
        69 => { proof { reveal_strlit("⑥"); } "⑥" },
        70 => { proof { reveal_strlit("⑦"); } "⑦" },
        71 => { proof { reveal_strlit("⑧"); } "⑧" },
        72 => { proof { reveal_strlit("⑨"); } "⑨" },
        73 => { proof { reveal_strlit("⑩"); } "⑩" },
        74 => { proof { reveal_strlit("⑪"); } "⑪" },
        75 => { proof { reveal_strlit("⑫"); } "⑫" },
        76 => { proof { reveal_strlit("⑬"); } "⑬" },
        77 => { proof { reveal_strlit("⑭"); } "⑭" },
        78 => { proof { reveal_strlit("⑮"); } "⑮" },
        79 => { proof { reveal_strlit("⑯"); } "⑯" },
        80 => { proof { reveal_strlit("①"); } "①" },
        81 => { proof { reveal_strlit("②"); } "②" },
        82 => { proof { reveal_strlit("③"); } "③" },
        83 => { proof { reveal_strlit("④"); } "④" },
        84 => { proof { reveal_strlit("⑤"); } "⑤" },
        85 => { proof { reveal_strlit("⑥"); } "⑥" },
        86 => { proof { reveal_strlit("⑦"); } "⑦" },
        87 => { proof { reveal_strlit("⑧"); } "⑧" },
        88 => { proof { reveal_strlit("⑨"); } "⑨" },
        89 => { proof { reveal_strlit("⑩"); } "⑩" },
        90 => { proof { reveal_strlit("⑪"); } "⑪" },
        91 => { proof { reveal_strlit("⑫"); } "⑫" },
        _ => { proof { reveal_strlit("(31)"); } "(31)" },
    }
}

/// The entry `i` of the table of additional symbols of row 94, as Unicode symbols.
pub open spec fn symbols_94_unicode(i: u16) -> Seq<char> {
    match i {
        0 => seq!['Ⅰ'],
        1 => seq!['Ⅱ'],
        2 => seq!['Ⅲ'],
        3 => seq!['Ⅳ'],
        4 => seq!['Ⅴ'],
        5 => seq!['Ⅵ'],
        6 => seq!['Ⅶ'],
        7 => seq!['Ⅷ'],
        8 => seq!['Ⅸ'],
        9 => seq!['Ⅹ'],
        10 => seq!['Ⅺ'],
        11 => seq!['Ⅻ'],
        12 => seq!['⑰'],
        13 => seq!['⑱'],
        14 => seq!['⑲'],
        15 => seq!['⑳'],
        16 => seq!['⑴'],
        17 => seq!['⑵'],
        18 => seq!['⑶'],
        19 => seq!['⑷'],
        20 => seq!['⑸'],
        21 => seq!['⑹'],
        22 => seq!['⑺'],
        23 => seq!['⑻'],
        24 => seq!['⑼'],
        25 => seq!['⑽'],
        26 => seq!['⑾'],
        27 => seq!['⑿'],
        28 => seq!['㉑'],
        29 => seq!['㉒'],
        30 => seq!['㉓'],
        31 => seq!['㉔'],
        32 => seq!['🄐'],
        33 => seq!['🄑'],
        34 => seq!['🄒'],
        35 => seq!['🄓'],
        36 => seq!['🄔'],
        37 => seq!['🄕'],
        38 => seq!['🄖'],
        39 => seq!['🄗'],
        40 => seq!['🄘'],
        41 => seq!['🄙'],
        42 => seq!['🄚'],
        43 => seq!['🄛'],
        44 => seq!['🄜'],
        45 => seq!['🄝'],
        46 => seq!['🄞'],
        47 => seq!['🄟'],
        48 => seq!['🄠'],
        49 => seq!['🄡'],
        50 => seq!['🄢'],
        51 => seq!['🄣'],
        52 => seq!['🄤'],
        53 => seq!['🄥'],
        54 => seq!['🄦'],
        55 => seq!['🄧'],
        56 => seq!['🄨'],
        57 => seq!['🄩'],
        58 => seq!['㉕'],
        59 => seq!['㉖'],
        60 => seq!['㉗'],
        61 => seq!['㉘'],
        62 => seq!['㉙'],
        63 => seq!['㉚'],
        64 => seq!['①'],
        65 => seq!['②'],
        66 => seq!['③'],
        67 => seq!['④'],
        68 => seq!['⑤'],
        69 => seq!['⑥'],
        70 => seq!['⑦'],
        71 => seq!['⑧'],
        72 => seq!['⑨'],
        73 => seq!['⑩'],
        74 => seq!['⑪'],
        75 => seq!['⑫'],
        76 => seq!['⑬'],
        77 => seq!['⑭'],
        78 => seq!['⑮'],
        79 => seq!['⑯'],
        80 => seq!['❶'],
        81 => seq!['❷'],
        82 => seq!['❸'],
        83 => seq!['❹'],
        84 => seq!['❺'],
        85 => seq!['❻'],
        86 => seq!['❼'],
        87 => seq!['❽'],
        88 => seq!['❾'],
        89 => seq!['❿'],
        90 => seq!['⓫'],
        91 => seq!['⓬'],
        92 => seq!['㉛'],
        _ => Seq::<char>::empty(),
    }
}

/// The entry `i` of the table of additional symbols of row 94, as Unicode symbols.
fn symbols_94_unicode_str(i: u16) -> (r: &'static str)
    requires
        i < 93,
    ensures
        r@ == symbols_94_unicode(i),
{
    match i {
        0 => { proof { reveal_strlit("Ⅰ"); } "Ⅰ" },
        1 => { proof { reveal_strlit("Ⅱ"); } "Ⅱ" },
        2 => { proof { reveal_strlit("Ⅲ"); } "Ⅲ" },
        3 => { proof { reveal_strlit("Ⅳ"); } "Ⅳ" },
        4 => { proof { reveal_strlit("Ⅴ"); } "Ⅴ" },
        5 => { proof { reveal_strlit("Ⅵ"); } "Ⅵ" },
        6 => { proof { reveal_strlit("Ⅶ"); } "Ⅶ" },
        7 => { proof { reveal_strlit("Ⅷ"); } "Ⅷ" },
        8 => { proof { reveal_strlit("Ⅸ"); } "Ⅸ" },
        9 => { proof { reveal_strlit("Ⅹ"); } "Ⅹ" },
        10 => { proof { reveal_strlit("Ⅺ"); } "Ⅺ" },
        11 => { proof { reveal_strlit("Ⅻ"); } "Ⅻ" },
        12 => { proof { reveal_strlit("⑰"); } "⑰" },
        13 => { proof { reveal_strlit("⑱"); } "⑱" },
        14 => { proof { reveal_strlit("⑲"); } "⑲" },
        15 => { proof { reveal_strlit("⑳"); } "⑳" },
        16 => { proof { reveal_strlit("⑴"); } "⑴" },
        17 => { proof { reveal_strlit("⑵"); } "⑵" },
        18 => { proof { reveal_strlit("⑶"); } "⑶" },
        19 => { proof { reveal_strlit("⑷"); } "⑷" },
        20 => { proof { reveal_strlit("⑸"); } "⑸" },
        21 => { proof { reveal_strlit("⑹"); } "⑹" },
        22 => { proof { reveal_strlit("⑺"); } "⑺" },
        23 => { proof { reveal_strlit("⑻"); } "⑻" },
        24 => { proof { reveal_strlit("⑼"); } "⑼" },
        25 => { proof { reveal_strlit("⑽"); } "⑽" },
        26 => { proof { reveal_strlit("⑾"); } "⑾" },
        27 => { proof { reveal_strlit("⑿"); } "⑿" },
        28 => { proof { reveal_strlit("㉑"); } "㉑" },
        29 => { proof { reveal_strlit("㉒"); } "㉒" },
        30 => { proof { reveal_strlit("㉓"); } "㉓" },
        31 => { proof { reveal_strlit("㉔"); } "㉔" },
        32 => { proof { reveal_strlit("🄐"); } "🄐" },
        33 => { proof { reveal_strlit("🄑"); } "🄑" },
        34 => { proof { reveal_strlit("🄒"); } "🄒" },
        35 => { proof { reveal_strlit("🄓"); } "🄓" },
        36 => { proof { reveal_strlit("🄔"); } "🄔" },
        37 => { proof { reveal_strlit("🄕"); } "🄕" },
        38 => { proof { reveal_strlit("🄖"); } "🄖" },
        39 => { proof { reveal_strlit("🄗"); } "🄗" },
        40 => { proof { reveal_strlit("🄘"); } "🄘" },
        41 => { proof { reveal_strlit("🄙"); } "🄙" },
        42 => { proof { reveal_strlit("🄚"); } "🄚" },
        43 => { proof { reveal_strlit("🄛"); } "🄛" },
        44 => { proof { reveal_strlit("🄜"); } "🄜" },
        45 => { proof { reveal_strlit("🄝"); } "🄝" },
        46 => { proof { reveal_strlit("🄞"); } "🄞" },
        47 => { proof { reveal_strlit("🄟"); } "🄟" },
        48 => { proof { reveal_strlit("🄠"); } "🄠" },
        49 => { proof { reveal_strlit("🄡"); } "🄡" },
        50 => { proof { reveal_strlit("🄢"); } "🄢" },
        51 => { proof { reveal_strlit("🄣"); } "🄣" },
        52 => { proof { reveal_strlit("🄤"); } "🄤" },
        53 => { proof { reveal_strlit("🄥"); } "🄥" },
        54 => { proof { reveal_strlit("🄦"); } "🄦" },
        55 => { proof { reveal_strlit("🄧"); } "🄧" },
        56 => { proof { reveal_strlit("🄨"); } "🄨" },
        57 => { proof { reveal_strlit("🄩"); } "🄩" },
        58 => { proof { reveal_strlit("㉕"); } "㉕" },
        59 => { proof { reveal_strlit("㉖"); } "㉖" },
        60 => { proof { reveal_strlit("㉗"); } "㉗" },
        61 => { proof { reveal_strlit("㉘"); } "㉘" },
        62 => { proof { reveal_strlit("㉙"); } "㉙" },
        63 => { proof { reveal_strlit("㉚"); } "㉚" },
        64 => { proof { reveal_strlit("①"); } "①" },
        65 => { proof { reveal_strlit("②"); } "②" },
        66 => { proof { reveal_strlit("③"); } "③" },
        67 => { proof { reveal_strlit("④"); } "④" },
        68 => { proof { reveal_strlit("⑤"); } "⑤" },
        69 => { proof { reveal_strlit("⑥"); } "⑥" },
        70 => { proof { reveal_strlit("⑦"); } "⑦" },
        71 => { proof { reveal_strlit("⑧"); } "⑧" },
        72 => { proof { reveal_strlit("⑨"); } "⑨" },
        73 => { proof { reveal_strlit("⑩"); } "⑩" },
        74 => { proof { reveal_strlit("⑪"); } "⑪" },
        75 => { proof { reveal_strlit("⑫"); } "⑫" },
        76 => { proof { reveal_strlit("⑬"); } "⑬" },
        77 => { proof { reveal_strlit("⑭"); } "⑭" },
        78 => { proof { reveal_strlit("⑮"); } "⑮" },
        79 => { proof { reveal_strlit("⑯"); } "⑯" },
        80 => { proof { reveal_strlit("❶"); } "❶" },
        81 => { proof { reveal_strlit("❷"); } "❷" },
        82 => { proof { reveal_strlit("❸"); } "❸" },
        83 => { proof { reveal_strlit("❹"); } "❹" },
        84 => { proof { reveal_strlit("❺"); } "❺" },
        85 => { proof { reveal_strlit("❻"); } "❻" },
        86 => { proof { reveal_strlit("❼"); } "❼" },
        87 => { proof { reveal_strlit("❽"); } "❽" },
        88 => { proof { reveal_strlit("❾"); } "❾" },
        89 => { proof { reveal_strlit("❿"); } "❿" },
        90 => { proof { reveal_strlit("⓫"); } "⓫" },
        91 => { proof { reveal_strlit("⓬"); } "⓬" },
        _ => { proof { reveal_strlit("㉛"); } "㉛" },
    }
}

/// Whether alphanumerics are shown half-width: in Latin text, or at
/// medium size when the character size is in use.
pub open spec fn half_width(use_char_size: bool, char_size: CharSize, is_latin: bool) -> bool {
    is_latin || (use_char_size && char_size == CharSize::Medium)
}

/// The alphanumeric character with code `code`.
pub open spec fn alphanumeric_text(code: u16, use_char_size: bool, char_size: CharSize, is_latin: bool) -> Seq<char> {
    if half_width(use_char_size, char_size, is_latin) {
        seq![halfwidth_alphanumeric_char(gl_index(code))]
    } else {
        seq![fullwidth_alphanumeric_char(gl_index(code))]
    }
}

/// The alphanumeric character with code `code`: half-width in Latin text
/// or at medium size when the character size is in use, else full-width.
pub fn put_alphanumeric_char(code: u16, use_char_size: bool, char_size: CharSize, is_latin: bool) -> (r: &'static str)
    ensures
        r@ == alphanumeric_text(code, use_char_size, char_size, is_latin),
{
    let medium = match char_size {
        CharSize::Medium => true,
        _ => false,
    };
    if is_latin || (use_char_size && medium) {
        put_halfwidth_alphanumeric_char(code)
    } else {
        put_fullwidth_alphanumeric_char(code)
    }
}

/// The text of the additional symbol or kanji with code `code`, if it has
/// one.
pub open spec fn symbol_text(code: u16, unicode_symbol: bool) -> Option<Seq<char>> {
    if 0x7521 <= code <= 0x757E {
        Some(additional_kanji_1((code - 0x7521) as u16))
    } else if 0x7621 <= code <= 0x764B {
        Some(additional_kanji_2((code - 0x7621) as u16))
    } else if 0x7A21 <= code <= 0x7A48 {
        symbols_90_01((code - 0x7A21) as u16)
    } else if 0x7A4D <= code <= 0x7A74 {
        Some(if unicode_symbol { symbols_90_45_unicode((code - 0x7A4D) as u16) } else { symbols_90_45((code - 0x7A4D) as u16) })
    } else if 0x7B21 <= code <= 0x7B51 {
        symbols_91((code - 0x7B21) as u16)
    } else if 0x7C21 <= code <= 0x7C7B {
        Some(if unicode_symbol { symbols_92_unicode((code - 0x7C21) as u16) } else { symbols_92((code - 0x7C21) as u16) })
    } else if 0x7D21 <= code <= 0x7D7B {
        if unicode_symbol { symbols_93_unicode((code - 0x7D21) as u16) } else { symbols_93((code - 0x7D21) as u16) }
    } else if 0x7E21 <= code <= 0x7E7D {
        Some(if unicode_symbol { symbols_94_unicode((code - 0x7E21) as u16) } else { symbols_94((code - 0x7E21) as u16) })
    } else {
        None
    }
}

/// The text of the additional symbol or kanji with code `code`, if it has
/// one; symbols come as Unicode symbols or as text.
pub fn put_symbols_char(code: u16, unicode_symbol: bool) -> (r: Option<&'static str>)
    ensures
        match r {
            Some(s) => symbol_text(code, unicode_symbol) == Some(s@),
            None => symbol_text(code, unicode_symbol) is None,
        },
{
    if 0x7521 <= code && code <= 0x757E {
        Some(additional_kanji_1_str(code - 0x7521))
    } else if 0x7621 <= code && code <= 0x764B {
        Some(additional_kanji_2_str(code - 0x7621))
    } else if 0x7A21 <= code && code <= 0x7A48 {
        symbols_90_01_str(code - 0x7A21)
    } else if 0x7A4D <= code && code <= 0x7A74 {
        Some(if unicode_symbol { symbols_90_45_unicode_str(code - 0x7A4D) } else { symbols_90_45_str(code - 0x7A4D) })
    } else if 0x7B21 <= code && code <= 0x7B51 {
        symbols_91_str(code - 0x7B21)
    } else if 0x7C21 <= code && code <= 0x7C7B {
        Some(if unicode_symbol { symbols_92_unicode_str(code - 0x7C21) } else { symbols_92_str(code - 0x7C21) })
    } else if 0x7D21 <= code && code <= 0x7D7B {
        if unicode_symbol { symbols_93_unicode_str(code - 0x7D21) } else { symbols_93_str(code - 0x7D21) }
    } else if 0x7E21 <= code && code <= 0x7E7D {
        Some(if unicode_symbol { symbols_94_unicode_str(code - 0x7E21) } else { symbols_94_str(code - 0x7E21) })
    } else {
        None
    }
}

} // verus!
