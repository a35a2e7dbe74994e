//! The ARIB STD-B24 8-unit character decoder: code sets designated and
//! invoked by escape sequences and shifts, control codes, repeated
//! characters, UCS text, and the format changes of captions.
//!
//! The JIS X 0213 kanji map is data the decoder is given: a `KanjiMap`
//! holds the Unicode value of each cell of plane 1 and of the rows of
//! plane 2 that the coding uses.
use vstd::prelude::*;
use crate::arib_string::{
    alphanumeric_text, code_point_to_utf16, double_byte_set, gl_index, hiragana_char,
    is_double_byte_code_set, jis_katakana_char, katakana_char, latin_extension_char,
    latin_special_char, put_alphanumeric_char, put_hiragana_char, put_jis_katakana_char,
    put_katakana_char, put_latin_extension_char, put_latin_special_char, put_symbols_char,
    symbol_text, utf16_units, utf8_decode, utf8_to_codepoint, CharSize, CodeSet, DecodeFlags,
    FormatInfo,
};
use crate::ts_info::push_char;
use crate::utilities::sub_slice;

verus! {

/// The number of cells in a row of a JIS X 0213 plane.
pub const KANJI_ROW_CELLS: usize = 94;

/// The JIS X 0213 kanji map: for each cell, the Unicode code point it
/// stands for (0 where there is none; above U+10FFFF, two BMP characters
/// packed as low and high halves). Plane 1 has rows 1 to 94; plane 2 the
/// rows 1 to 15 and 78 to 94.
pub struct KanjiMap {
    plane1: Vec<u32>,
    plane2_low: Vec<u32>,
    plane2_high: Vec<u32>,
}

impl KanjiMap {
    /// The cells of plane 1, row by row.
    pub closed spec fn plane1(&self) -> Seq<u32> {
        self.plane1@
    }

    /// The cells of rows 1 to 15 of plane 2, row by row.
    pub closed spec fn plane2_low(&self) -> Seq<u32> {
        self.plane2_low@
    }

    /// The cells of rows 78 to 94 of plane 2, row by row.
    pub closed spec fn plane2_high(&self) -> Seq<u32> {
        self.plane2_high@
    }

    pub open spec fn wf(&self) -> bool {
        &&& self.plane1().len() == 94 * 94
        &&& self.plane2_low().len() == 15 * 94
        &&& self.plane2_high().len() == 17 * 94
    }

    /// A map from its planes, row by row; `None` unless plane 1 has 94
    /// rows, and the two parts of plane 2 have 15 and 17 rows, of 94 cells.
    pub fn new(plane1: Vec<u32>, plane2_low: Vec<u32>, plane2_high: Vec<u32>) -> (r: Option<KanjiMap>)
        ensures
            r is Some <==> (plane1@.len() == 94 * 94 && plane2_low@.len() == 15 * 94 && plane2_high@.len() == 17 * 94),
            r matches Some(m) ==> {
                &&& m.wf()
                &&& m.plane1() == plane1@
                &&& m.plane2_low() == plane2_low@
                &&& m.plane2_high() == plane2_high@
            },
    {
        if plane1.len() == 94 * 94 && plane2_low.len() == 15 * 94 && plane2_high.len() == 17 * 94 {
            Some(KanjiMap { plane1, plane2_low, plane2_high })
        } else {
            None
        }
    }
}

/// The Unicode value of the kanji `code` (row byte and cell byte) of a
/// plane: 0 outside the rows and cells of the coding and for a plane other
/// than 1 and 2.
pub open spec fn kanji_code(m: KanjiMap, plane: u8, code: u16) -> u32 {
    let row = code / 256;
    let cell = code % 256;
    if row < 0x21 || row > 0x7E || cell < 0x21 || cell > 0x7E {
        0
    } else if plane == 1 {
        m.plane1()[(row - 0x21) * 94 + (cell - 0x21)]
    } else if plane == 2 && row <= 0x2F {
        m.plane2_low()[(row - 0x21) * 94 + (cell - 0x21)]
    } else if plane == 2 && row >= 0x6E {
        m.plane2_high()[(row - 0x6E) * 94 + (cell - 0x21)]
    } else {
        0
    }
}

/// The Unicode value of the kanji `code` of a plane (see `kanji_code`).
pub fn get_kanji_code(m: &KanjiMap, plane: u8, code: u16) -> (r: u32)
    requires
        m.wf(),
    ensures
        r == kanji_code(*m, plane, code),
{
    let row: usize = (code >> 8) as usize;
    let cell: usize = (code & 0xFF) as usize;
    assert(row == code / 256 && cell == code % 256) by (bit_vector)
        requires
            row == (code >> 8) as usize,
            cell == (code & 0xFF) as usize,
    ;
    if row < 0x21 || row > 0x7E || cell < 0x21 || cell > 0x7E {
        return 0;
    }
    let r = row - 0x21;
    let c = cell - 0x21;
    if plane == 1 {
        return m.plane1[r * 94 + c];
    }
    if plane == 2 {
        if row <= 0x2F {
            return m.plane2_low[r * 94 + c];
        }
        if row >= 0x6E {
            let r2 = row - 0x6E;
            if r2 < 17 {
                return m.plane2_high[r2 * 94 + c];
            }
        }
    }
    0
}

/// The UTF-16 code units of a value of the kanji map: none for 0; the low
/// then the high half of a ligature (a value above U+10FFFF); else the
/// units of the code point.
pub open spec fn kanji_units(u: u32) -> Seq<u16> {
    if u == 0 {
        Seq::empty()
    } else if u > 0x10FFFF {
        seq![(u % 0x10000) as u16, (u / 0x10000) as u16]
    } else {
        utf16_units(u as int)
    }
}

/// The UTF-16 code units of the kanji `code` of plane `plane`; none where
/// the map has no character.
pub fn jisx0213_kanji_to_utf16(m: &KanjiMap, plane: u8, code: u16) -> (r: Vec<u16>)
    requires
        m.wf(),
    ensures
        r@ == kanji_units(kanji_code(*m, plane, code)),
{
    let unicode = get_kanji_code(m, plane, code);
    if unicode == 0 {
        return Vec::new();
    }
    if unicode > 0x10FFFF {
        let lo = (unicode & 0xFFFF) as u16;
        let hi = (unicode >> 16) as u16;
        assert(lo == unicode % 0x10000 && hi == unicode / 0x10000) by (bit_vector)
            requires
                lo == (unicode & 0xFFFF) as u16,
                hi == (unicode >> 16) as u16,
        ;
        let mut v: Vec<u16> = Vec::new();
        v.push(lo);
        v.push(hi);
        assert(v@ =~= seq![lo, hi]);
        return v;
    }
    code_point_to_utf16(unicode)
}

/// The UTF-16 code units of a text.
pub open spec fn text_utf16(cs: Seq<char>) -> Seq<u16>
    decreases cs.len(),
{
    if cs.len() == 0 {
        Seq::empty()
    } else {
        text_utf16(cs.drop_last()) + utf16_units(cs.last() as int)
    }
}

/// Appends `s` to `v`.
fn extend_units(v: &mut Vec<u16>, s: &[u16])
    ensures
        final(v)@ == old(v)@ + s@,
{
    v.extend_from_slice(s);
    assert(final(v)@ =~= old(v)@ + s@);
}

/// Appends the UTF-16 code units of `s` to `dst`.
fn push_text(dst: &mut Vec<u16>, s: &str)
    ensures
        final(dst)@ == old(dst)@ + text_utf16(s@),
{
    let n = s.unicode_len();
    let mut i: usize = 0;
    while i < n
        invariant
            n == s@.len(),
            i <= n,
            dst@ == old(dst)@ + text_utf16(s@.take(i as int)),
        decreases n - i,
    {
        let c = s.get_char(i);
        let units = code_point_to_utf16(c as u32);
        proof {
            assert(s@.take(i + 1).drop_last() =~= s@.take(i as int));
            assert(s@.take(i + 1).last() == c);
        }
        extend_units(dst, units.as_slice());
        assert(dst@ =~= old(dst)@ + text_utf16(s@.take(i + 1)));
        i = i + 1;
    }
    assert(s@.take(n as int) =~= s@);
}

/// `chunk` `n` times over; once when `n` is at most 1.
pub open spec fn repeated(chunk: Seq<u16>, n: int) -> Seq<u16>
    decreases n,
{
    if n <= 1 {
        chunk
    } else {
        repeated(chunk, n - 1) + chunk
    }
}

/// Appends `units` `rpc` times over (once when `rpc` is at most 1).
fn emit_repeated(dst: &mut Vec<u16>, units: &Vec<u16>, rpc: u8)
    ensures
        final(dst)@ == old(dst)@ + repeated(units@, rpc as int),
{
    extend_units(dst, units.as_slice());
    let mut k: u8 = 1;
    while k < rpc
        invariant
            1 <= k,
            k <= rpc || k == 1,
            dst@ == old(dst)@ + repeated(units@, k as int),
        decreases rpc - k,
    {
        extend_units(dst, units.as_slice());
        k = k + 1;
        assert(dst@ =~= old(dst)@ + repeated(units@, k as int));
    }
}

/// The state of the decoder: the code sets designated to G0 to G3, which
/// of them are invoked into GL and GR (and a single shift into GL), the
/// escape sequence being read, the repetition count, and the current
/// character size and colours.
#[derive(Clone, Copy)]
pub struct DecoderState {
    pub g0: CodeSet,
    pub g1: CodeSet,
    pub g2: CodeSet,
    pub g3: CodeSet,
    pub locking_gl: usize,
    pub locking_gr: usize,
    /// The set invoked into GL for the next character only, or -1.
    pub single_gl: i32,
    /// How many bytes of an escape sequence have been read; 0 outside one.
    pub esc_seq_count: u8,
    /// The G set an escape sequence designates to.
    pub esc_seq_index: usize,
    pub is_esc_seq_drcs: bool,
    pub char_size: CharSize,
    /// How many times the next character is written.
    pub rpc: u8,
    pub is_latin: bool,
    pub is_ucs: bool,
    pub use_char_size: bool,
    pub unicode_symbol: bool,
    pub char_color_index: u8,
    pub back_color_index: u8,
    pub raster_color_index: u8,
    pub def_palette: u8,
}

/// The code set designated to G`i`.
pub open spec fn code_set_of(st: DecoderState, i: int) -> CodeSet {
    if i == 0 {
        st.g0
    } else if i == 1 {
        st.g1
    } else if i == 2 {
        st.g2
    } else {
        st.g3
    }
}

/// The state with `set` designated to G`i`.
pub open spec fn with_code_set(st: DecoderState, i: int, set: CodeSet) -> DecoderState {
    if i == 0 {
        DecoderState { g0: set, ..st }
    } else if i == 1 {
        DecoderState { g1: set, ..st }
    } else if i == 2 {
        DecoderState { g2: set, ..st }
    } else {
        DecoderState { g3: set, ..st }
    }
}

/// The limits that the state's indices and counters keep.
pub open spec fn state_wf(st: DecoderState) -> bool {
    &&& st.locking_gl < 4
    &&& st.locking_gr < 4
    &&& -1 <= st.single_gl < 4
    &&& st.esc_seq_index < 4
    &&& st.esc_seq_count <= 4
}

/// The state a decoding starts in.
pub open spec fn initial_state(f: DecodeFlags) -> DecoderState {
    let one_seg_caption = !f.latin && f.caption && f.one_seg;
    DecoderState {
        g0: if f.latin { CodeSet::Alphanumeric } else { CodeSet::Kanji },
        g1: if one_seg_caption { CodeSet::DRCS_1 } else { CodeSet::Alphanumeric },
        g2: if f.latin { CodeSet::LatinExtension } else { CodeSet::Hiragana },
        g3: if f.latin {
            CodeSet::LatinSpecial
        } else if f.caption {
            CodeSet::Macro
        } else {
            CodeSet::Katakana
        },
        locking_gl: if one_seg_caption { 1 } else { 0 },
        locking_gr: if one_seg_caption { 0 } else { 2 },
        single_gl: -1i32,
        esc_seq_count: 0,
        esc_seq_index: 0,
        is_esc_seq_drcs: false,
        char_size: if f.latin { CharSize::Medium } else { CharSize::Normal },
        rpc: 1,
        is_latin: f.latin,
        is_ucs: f.ucs,
        use_char_size: f.use_char_size,
        unicode_symbol: f.unicode_symbol,
        char_color_index: if f.caption { 7 } else { 0 },
        back_color_index: if f.caption { 8 } else { 0 },
        raster_color_index: if f.caption { 8 } else { 0 },
        def_palette: 0,
    }
}

impl DecoderState {
    /// The state a decoding with the flags `flags` starts in.
    pub fn new(flags: &DecodeFlags) -> (r: DecoderState)
        ensures
            r == initial_state(*flags),
            state_wf(r),
    {
        let is_caption = flags.caption;
        let is_latin = flags.latin;
        let is_1seg = flags.one_seg;
        let mut st = DecoderState {
            g0: CodeSet::Kanji,
            g1: CodeSet::Alphanumeric,
            g2: CodeSet::Hiragana,
            g3: if is_caption { CodeSet::Macro } else { CodeSet::Katakana },
            locking_gl: 0,
            locking_gr: 2,
            single_gl: -1,
            esc_seq_count: 0,
            esc_seq_index: 0,
            is_esc_seq_drcs: false,
            char_size: if is_latin { CharSize::Medium } else { CharSize::Normal },
            rpc: 1,
            is_latin,
            is_ucs: flags.ucs,
            use_char_size: flags.use_char_size,
            unicode_symbol: flags.unicode_symbol,
            char_color_index: if is_caption { 7 } else { 0 },
            back_color_index: if is_caption { 8 } else { 0 },
            raster_color_index: if is_caption { 8 } else { 0 },
            def_palette: 0,
        };
        if is_latin {
            st.g0 = CodeSet::Alphanumeric;
            st.g2 = CodeSet::LatinExtension;
            st.g3 = CodeSet::LatinSpecial;
        } else if is_caption && is_1seg {
            st.g1 = CodeSet::DRCS_1;
            st.locking_gl = 1;
            st.locking_gr = 0;
        }
        st
    }

    /// The code set designated to G`i`.
    pub fn code_set(&self, i: usize) -> (r: CodeSet)
        ensures
            r == code_set_of(*self, i as int),
    {
        if i == 0 {
            self.g0
        } else if i == 1 {
            self.g1
        } else if i == 2 {
            self.g2
        } else {
            self.g3
        }
    }

    /// Designates `set` to G`i`.
    pub fn set_code_set(&mut self, i: usize, set: CodeSet)
        ensures
            *final(self) == with_code_set(*old(self), i as int, set),
    {
        if i == 0 {
            self.g0 = set;
        } else if i == 1 {
            self.g1 = set;
        } else if i == 2 {
            self.g2 = set;
        } else {
            self.g3 = set;
        }
    }
}

/// The graphic set that the final byte `code` of a designation names.
pub open spec fn designated_set(code: u8) -> Option<CodeSet> {
    match code {
        0x42 => Some(CodeSet::Kanji),
        0x4A => Some(CodeSet::Alphanumeric),
        0x30 => Some(CodeSet::Hiragana),
        0x31 => Some(CodeSet::Katakana),
        0x32 => Some(CodeSet::Mosaic_A),
        0x33 => Some(CodeSet::Mosaic_B),
        0x34 => Some(CodeSet::Mosaic_C),
        0x35 => Some(CodeSet::Mosaic_D),
        0x36 => Some(CodeSet::ProportionalAlphanumeric),
        0x37 => Some(CodeSet::ProportionalHiragana),
        0x38 => Some(CodeSet::ProportionalKatakana),
        0x49 => Some(CodeSet::JIS_X0201_Katakana),
        0x4B => Some(CodeSet::LatinExtension),
        0x4C => Some(CodeSet::LatinSpecial),
        0x39 => Some(CodeSet::JIS_KanjiPlane1),
        0x3A => Some(CodeSet::JIS_KanjiPlane2),
        0x3B => Some(CodeSet::AdditionalSymbols),
        _ => None,
    }
}

/// The DRCS set number `n` (0 to 15).
pub open spec fn drcs_set(n: u8) -> CodeSet {
    match n {
        0 => CodeSet::DRCS_0,
        1 => CodeSet::DRCS_1,
        2 => CodeSet::DRCS_2,
        3 => CodeSet::DRCS_3,
        4 => CodeSet::DRCS_4,
        5 => CodeSet::DRCS_5,
        6 => CodeSet::DRCS_6,
        7 => CodeSet::DRCS_7,
        8 => CodeSet::DRCS_8,
        9 => CodeSet::DRCS_9,
        10 => CodeSet::DRCS_10,
        11 => CodeSet::DRCS_11,
        12 => CodeSet::DRCS_12,
        13 => CodeSet::DRCS_13,
        14 => CodeSet::DRCS_14,
        _ => CodeSet::DRCS_15,
    }
}

/// The DRCS or macro set that the final byte `code` of a designation names.
pub open spec fn designated_drcs(code: u8) -> Option<CodeSet> {
    if 0x40 <= code <= 0x4F {
        Some(drcs_set((code - 0x40) as u8))
    } else if code == 0x70 {
        Some(CodeSet::Macro)
    } else {
        None
    }
}

/// Designates the graphic set named by `code` to G`index_g`; false, with
/// nothing changed, when `code` names none.
fn designation_gset(st: &mut DecoderState, index_g: usize, code: u8) -> (r: bool)
    ensures
        r == designated_set(code) is Some,
        *final(st) == match designated_set(code) {
            Some(set) => with_code_set(*old(st), index_g as int, set),
            None => *old(st),
        },
{
    let set = match code {
        0x42 => CodeSet::Kanji,
        0x4A => CodeSet::Alphanumeric,
        0x30 => CodeSet::Hiragana,
        0x31 => CodeSet::Katakana,
        0x32 => CodeSet::Mosaic_A,
        0x33 => CodeSet::Mosaic_B,
        0x34 => CodeSet::Mosaic_C,
        0x35 => CodeSet::Mosaic_D,
        0x36 => CodeSet::ProportionalAlphanumeric,
        0x37 => CodeSet::ProportionalHiragana,
        0x38 => CodeSet::ProportionalKatakana,
        0x49 => CodeSet::JIS_X0201_Katakana,
        0x4B => CodeSet::LatinExtension,
        0x4C => CodeSet::LatinSpecial,
        0x39 => CodeSet::JIS_KanjiPlane1,
        0x3A => CodeSet::JIS_KanjiPlane2,
        0x3B => CodeSet::AdditionalSymbols,
        _ => {
            return false;
        },
    };
    st.set_code_set(index_g, set);
    true
}

/// Designates the DRCS or macro set named by `code` to G`index_g`; false,
/// with nothing changed, when `code` names none.
fn designation_drcs(st: &mut DecoderState, index_g: usize, code: u8) -> (r: bool)
    ensures
        r == designated_drcs(code) is Some,
        *final(st) == match designated_drcs(code) {
            Some(set) => with_code_set(*old(st), index_g as int, set),
            None => *old(st),
        },
{
    if 0x40 <= code && code <= 0x4F {
        let n: u8 = code - 0x40;
        let set = match n {
            0 => CodeSet::DRCS_0,
            1 => CodeSet::DRCS_1,
            2 => CodeSet::DRCS_2,
            3 => CodeSet::DRCS_3,
            4 => CodeSet::DRCS_4,
            5 => CodeSet::DRCS_5,
            6 => CodeSet::DRCS_6,
            7 => CodeSet::DRCS_7,
            8 => CodeSet::DRCS_8,
            9 => CodeSet::DRCS_9,
            10 => CodeSet::DRCS_10,
            11 => CodeSet::DRCS_11,
            12 => CodeSet::DRCS_12,
            13 => CodeSet::DRCS_13,
            14 => CodeSet::DRCS_14,
            _ => CodeSet::DRCS_15,
        };
        st.set_code_set(index_g, set);
        true
    } else if code == 0x70 {
        st.set_code_set(index_g, CodeSet::Macro);
        true
    } else {
        false
    }
}

/// The state after `code` as the second byte of an escape sequence: a
/// locking shift (LS2, LS3, LS1R, LS2R, LS3R), or the G set that a
/// designation goes to.
pub open spec fn esc_first(st: DecoderState, code: u8) -> DecoderState {
    let done = DecoderState { esc_seq_count: 0, ..st };
    let next = DecoderState { esc_seq_count: 2, ..st };
    if code == 0x6E {
        DecoderState { locking_gl: 2, ..done }
    } else if code == 0x6F {
        DecoderState { locking_gl: 3, ..done }
    } else if code == 0x7E {
        DecoderState { locking_gr: 1, ..done }
    } else if code == 0x7D {
        DecoderState { locking_gr: 2, ..done }
    } else if code == 0x7C {
        DecoderState { locking_gr: 3, ..done }
    } else if code == 0x24 || code == 0x28 {
        DecoderState { esc_seq_index: 0, ..next }
    } else if code == 0x29 {
        DecoderState { esc_seq_index: 1, ..next }
    } else if code == 0x2A {
        DecoderState { esc_seq_index: 2, ..next }
    } else if code == 0x2B {
        DecoderState { esc_seq_index: 3, ..next }
    } else {
        done
    }
}

/// The locking shifts of an escape sequence (the byte after ESC): 0x6E
/// (LS2) and 0x6F (LS3) invoke G2 and G3 into GL; 0x7E (LS1R), 0x7D (LS2R)
/// and 0x7C (LS3R) invoke G1, G2 and G3 into GR. The sequence ends there,
/// the other area keeps its set, and no designation changes; so the area
/// shifted into decodes in the set designated to the G set named.
pub proof fn lemma_locking_shifts(st: DecoderState, code: u8)
    requires
        st.esc_seq_count == 1,
        code == 0x6E || code == 0x6F || code == 0x7E || code == 0x7D || code == 0x7C,
    ensures
        ({
            let s2 = esc_step(st, code);
            let gl = if code == 0x6E { 2int } else if code == 0x6F { 3int } else { st.locking_gl as int };
            let gr = if code == 0x7E { 1int } else if code == 0x7D { 2int } else if code == 0x7C { 3int } else { st.locking_gr as int };
            &&& s2.esc_seq_count == 0
            &&& s2.locking_gl == gl
            &&& s2.locking_gr == gr
            &&& s2.g0 == st.g0 && s2.g1 == st.g1 && s2.g2 == st.g2 && s2.g3 == st.g3
            &&& s2.single_gl == st.single_gl
            &&& s2.rpc == st.rpc
            &&& s2.is_ucs == st.is_ucs
            &&& code_set_of(s2, s2.locking_gl as int) == code_set_of(st, gl)
            &&& code_set_of(s2, s2.locking_gr as int) == code_set_of(st, gr)
        }),
{
}

/// After ESC 0x7C (LS3R), a one-byte character in the GR area (0xA1 to
/// 0xFE) decodes in the set designated to G3: the decoder reads the byte's
/// low seven bits in that set.
pub proof fn lemma_gr_byte_after_ls3r(
    m: KanjiMap,
    src: Seq<u8>,
    pos: int,
    st: DecoderState,
    dst: Seq<u16>,
    fmt: Seq<FormatInfo>,
)
    requires
        st.esc_seq_count == 1,
        !st.is_ucs,
        0 <= pos < src.len(),
        0xA1 <= src[pos] <= 0xFE,
        !double_byte_set(st.g3),
    ensures
        ({
            let s2 = esc_step(st, 0x7C);
            step(m, src, pos, s2, dst, fmt) == DecodeStep::Next(
                pos + 1,
                DecoderState { rpc: 1, ..s2 },
                dst + repeated(char_units(m, (src[pos] % 0x80) as u16, st.g3, s2), st.rpc as int),
                fmt,
            )
        }),
{
    reveal(step);
    lemma_locking_shifts(st, 0x7C);
}

/// The state after `code` as the third byte of an escape sequence: a
/// graphic set designated, or the G set and kind of a longer designation.
pub open spec fn esc_second(st: DecoderState, code: u8) -> DecoderState {
    let done = DecoderState { esc_seq_count: 0, ..st };
    let next = DecoderState { esc_seq_count: 3, ..st };
    match designated_set(code) {
        Some(set) => with_code_set(done, st.esc_seq_index as int, set),
        None => if code == 0x20 {
            DecoderState { is_esc_seq_drcs: true, ..next }
        } else if code == 0x28 {
            DecoderState { is_esc_seq_drcs: true, esc_seq_index: 0, ..next }
        } else if code == 0x29 {
            DecoderState { is_esc_seq_drcs: false, esc_seq_index: 1, ..next }
        } else if code == 0x2A {
            DecoderState { is_esc_seq_drcs: false, esc_seq_index: 2, ..next }
        } else if code == 0x2B {
            DecoderState { is_esc_seq_drcs: false, esc_seq_index: 3, ..next }
        } else {
            done
        },
    }
}

/// The state after `code` as the fourth byte of an escape sequence.
pub open spec fn esc_third(st: DecoderState, code: u8) -> DecoderState {
    let done = DecoderState { esc_seq_count: 0, ..st };
    let found = if st.is_esc_seq_drcs { designated_drcs(code) } else { designated_set(code) };
    match found {
        Some(set) => with_code_set(done, st.esc_seq_index as int, set),
        None => if code == 0x20 {
            DecoderState { is_esc_seq_drcs: true, esc_seq_count: 4, ..st }
        } else {
            done
        },
    }
}

/// The state after `code` as the fifth byte of an escape sequence.
pub open spec fn esc_fourth(st: DecoderState, code: u8) -> DecoderState {
    let done = DecoderState { esc_seq_count: 0, ..st };
    match designated_drcs(code) {
        Some(set) => with_code_set(done, st.esc_seq_index as int, set),
        None => done,
    }
}

/// The state after the byte `code` of an escape sequence.
pub open spec fn esc_step(st: DecoderState, code: u8) -> DecoderState {
    if st.esc_seq_count == 1 {
        esc_first(st, code)
    } else if st.esc_seq_count == 2 {
        esc_second(st, code)
    } else if st.esc_seq_count == 3 {
        esc_third(st, code)
    } else if st.esc_seq_count == 4 {
        esc_fourth(st, code)
    } else {
        DecoderState { esc_seq_count: (st.esc_seq_count + 1) as u8, ..st }
    }
}

fn escape_first(st: &mut DecoderState, code: u8)
    ensures
        *final(st) == esc_first(*old(st), code),
{
    if code == 0x6E {
        st.locking_gl = 2;
        st.esc_seq_count = 0;
    } else if code == 0x6F {
        st.locking_gl = 3;
        st.esc_seq_count = 0;
    } else if code == 0x7E {
        st.locking_gr = 1;
        st.esc_seq_count = 0;
    } else if code == 0x7D {
        st.locking_gr = 2;
        st.esc_seq_count = 0;
    } else if code == 0x7C {
        st.locking_gr = 3;
        st.esc_seq_count = 0;
    } else if code == 0x24 || code == 0x28 {
        st.esc_seq_index = 0;
        st.esc_seq_count = 2;
    } else if code == 0x29 {
        st.esc_seq_index = 1;
        st.esc_seq_count = 2;
    } else if code == 0x2A {
        st.esc_seq_index = 2;
        st.esc_seq_count = 2;
    } else if code == 0x2B {
        st.esc_seq_index = 3;
        st.esc_seq_count = 2;
    } else {
        st.esc_seq_count = 0;
    }
}

fn escape_second(st: &mut DecoderState, code: u8)
    ensures
        *final(st) == esc_second(*old(st), code),
{
    let index = st.esc_seq_index;
    st.esc_seq_count = 0;
    if designation_gset(st, index, code) {
        return;
    }
    if code == 0x20 {
        st.is_esc_seq_drcs = true;
        st.esc_seq_count = 3;
    } else if code == 0x28 {
        st.is_esc_seq_drcs = true;
        st.esc_seq_index = 0;
        st.esc_seq_count = 3;
    } else if code == 0x29 {
        st.is_esc_seq_drcs = false;
        st.esc_seq_index = 1;
        st.esc_seq_count = 3;
    } else if code == 0x2A {
        st.is_esc_seq_drcs = false;
        st.esc_seq_index = 2;
        st.esc_seq_count = 3;
    } else if code == 0x2B {
        st.is_esc_seq_drcs = false;
        st.esc_seq_index = 3;
        st.esc_seq_count = 3;
    }
}

fn escape_third(st: &mut DecoderState, code: u8)
    ensures
        *final(st) == esc_third(*old(st), code),
{
    let index = st.esc_seq_index;
    st.esc_seq_count = 0;
    let designated = if !st.is_esc_seq_drcs {
        designation_gset(st, index, code)
    } else {
        designation_drcs(st, index, code)
    };
    if !designated && code == 0x20 {
        st.is_esc_seq_drcs = true;
        st.esc_seq_count = 4;
    }
}

/// Reads the byte `code` of an escape sequence.
fn process_escape_seq(st: &mut DecoderState, code: u8)
    requires
        state_wf(*old(st)),
        old(st).esc_seq_count != 0,
    ensures
        *final(st) == esc_step(*old(st), code),
        state_wf(*final(st)),
{
    let count = st.esc_seq_count;
    if count == 1 {
        escape_first(st, code);
    } else if count == 2 {
        escape_second(st, code);
    } else if count == 3 {
        escape_third(st, code);
    } else {
        let index = st.esc_seq_index;
        st.esc_seq_count = 0;
        designation_drcs(st, index, code);
    }
}

/// The UTF-16 code unit of the white square that stands for a character
/// the decoder cannot show.
pub open spec fn box_units() -> Seq<u16> {
    seq![0x25A1u16]
}

/// The half-width alphanumeric that a full-width punctuation kanji of row
/// 1 (cell byte `second`) becomes at medium size; 0 for none.
pub open spec fn punctuation_alphanumeric(second: u8) -> u8 {
    match second {
        0x21 => 0x20,
        0x24 => 0x2C,
        0x25 => 0x2E,
        0x27 => 0x3A,
        0x28 => 0x3B,
        0x29 => 0x3F,
        0x2A => 0x21,
        0x2E => 0x60,
        0x30 => 0x5E,
        0x31 => 0x7E,
        0x32 => 0x5F,
        0x3F => 0x2F,
        0x43 => 0x7C,
        0x4A => 0x28,
        0x4B => 0x29,
        0x4E => 0x5B,
        0x4F => 0x5D,
        0x50 => 0x7B,
        0x51 => 0x7D,
        0x5C => 0x2B,
        0x61 => 0x3D,
        0x63 => 0x3C,
        0x64 => 0x3E,
        0x6F => 0x5C,
        0x70 => 0x24,
        0x73 => 0x25,
        0x74 => 0x23,
        0x75 => 0x26,
        0x76 => 0x2A,
        0x77 => 0x40,
        _ => 0,
    }
}

/// The alphanumeric that the plane 1 kanji `code` becomes at medium size:
/// the digits and letters of row 3 and the punctuation of row 1; 0 for
/// none.
pub open spec fn half_alphanumeric_code(code: u16) -> u8 {
    let first = code / 256;
    let second = (code % 256) as u8;
    if first == 0x23 && ((0x30 <= second <= 0x39) || (0x41 <= second <= 0x5A) || (0x61 <= second <= 0x7A)) {
        second
    } else if first == 0x21 {
        punctuation_alphanumeric(second)
    } else {
        0
    }
}

/// The units of the kanji `code` of a plane: the additional symbols and
/// kanji from row 85 of plane 1 on; half-width alphanumerics at medium
/// size; else the kanji map, or a white square where it has nothing.
pub open spec fn kanji_char_units(m: KanjiMap, code: u16, plane: u8, st: DecoderState) -> Seq<u16> {
    if plane == 1 && code >= 0x7521 {
        match symbol_text(code, st.unicode_symbol) {
            Some(t) => text_utf16(t),
            None => box_units(),
        }
    } else if st.use_char_size && st.char_size == CharSize::Medium && plane == 1 && half_alphanumeric_code(code) != 0 {
        text_utf16(alphanumeric_text(half_alphanumeric_code(code) as u16, true, CharSize::Medium, false))
    } else if kanji_units(kanji_code(m, plane, code)).len() == 0 {
        box_units()
    } else {
        kanji_units(kanji_code(m, plane, code))
    }
}

/// The UTF-16 code units of the character `code` of the code set `set`.
pub open spec fn char_units(m: KanjiMap, code: u16, set: CodeSet, st: DecoderState) -> Seq<u16> {
    match set {
        CodeSet::Kanji | CodeSet::JIS_KanjiPlane1 => kanji_char_units(m, code, 1, st),
        CodeSet::JIS_KanjiPlane2 => kanji_char_units(m, code, 2, st),
        CodeSet::Alphanumeric | CodeSet::ProportionalAlphanumeric => text_utf16(
            alphanumeric_text(code, st.use_char_size, st.char_size, st.is_latin),
        ),
        CodeSet::Hiragana | CodeSet::ProportionalHiragana => text_utf16(seq![hiragana_char(gl_index(code))]),
        CodeSet::Katakana | CodeSet::ProportionalKatakana => text_utf16(seq![katakana_char(gl_index(code))]),
        CodeSet::JIS_X0201_Katakana => text_utf16(seq![jis_katakana_char(gl_index(code))]),
        CodeSet::LatinExtension => text_utf16(seq![latin_extension_char(gl_index(code))]),
        CodeSet::LatinSpecial => text_utf16(seq![latin_special_char(gl_index(code))]),
        CodeSet::AdditionalSymbols => match symbol_text(code, st.unicode_symbol) {
            Some(t) => text_utf16(t),
            None => box_units(),
        },
        _ => box_units(),
    }
}

/// The units of the kanji `code` of plane `plane`.
fn decode_kanji(m: &KanjiMap, code: u16, plane: u8, st: &DecoderState) -> (r: Vec<u16>)
    requires
        m.wf(),
    ensures
        r@ == kanji_char_units(*m, code, plane, *st),
{
    let mut dst: Vec<u16> = Vec::new();
    if plane == 1 && code >= 0x7521 {
        match put_symbols_char(code, st.unicode_symbol) {
            Some(s) => push_text(&mut dst, s),
            None => dst.push(0x25A1),
        }
        assert(dst@ =~= kanji_char_units(*m, code, plane, *st));
        return dst;
    }
    let medium = match st.char_size {
        CharSize::Medium => true,
        _ => false,
    };
    if st.use_char_size && medium && plane == 1 {
        let first: u16 = code >> 8;
        let second: u8 = (code & 0xFF) as u8;
        assert(first == code / 256 && second == code % 256) by (bit_vector)
            requires
                first == code >> 8,
                second == (code & 0xFF) as u8,
        ;
        let alnm: u8 = if first == 0x23 && ((second >= 0x30 && second <= 0x39) || (second >= 0x41 && second
            <= 0x5A) || (second >= 0x61 && second <= 0x7A)) {
            second
        } else if first == 0x21 {
            match second {
                0x21 => 0x20,
                0x24 => 0x2C,
                0x25 => 0x2E,
                0x27 => 0x3A,
                0x28 => 0x3B,
                0x29 => 0x3F,
                0x2A => 0x21,
                0x2E => 0x60,
                0x30 => 0x5E,
                0x31 => 0x7E,
                0x32 => 0x5F,
                0x3F => 0x2F,
                0x43 => 0x7C,
                0x4A => 0x28,
                0x4B => 0x29,
                0x4E => 0x5B,
                0x4F => 0x5D,
                0x50 => 0x7B,
                0x51 => 0x7D,
                0x5C => 0x2B,
                0x61 => 0x3D,
                0x63 => 0x3C,
                0x64 => 0x3E,
                0x6F => 0x5C,
                0x70 => 0x24,
                0x73 => 0x25,
                0x74 => 0x23,
                0x75 => 0x26,
                0x76 => 0x2A,
                0x77 => 0x40,
                _ => 0,
            }
        } else {
            0
        };
        assert(alnm == half_alphanumeric_code(code));
        if alnm != 0 {
            let s = put_alphanumeric_char(alnm as u16, true, CharSize::Medium, false);
            push_text(&mut dst, s);
            assert(dst@ =~= kanji_char_units(*m, code, plane, *st));
            return dst;
        }
    }
    let units = jisx0213_kanji_to_utf16(m, plane, code);
    if units.len() == 0 {
        dst.push(0x25A1);
        assert(dst@ =~= kanji_char_units(*m, code, plane, *st));
        dst
    } else {
        units
    }
}

/// The units of the character `code` of the code set `set`.
fn decode_char_to_utf16(m: &KanjiMap, code: u16, set: CodeSet, st: &DecoderState) -> (r: Vec<u16>)
    requires
        m.wf(),
    ensures
        r@ == char_units(*m, code, set, *st),
{
    let mut dst: Vec<u16> = Vec::new();
    match set {
        CodeSet::Kanji | CodeSet::JIS_KanjiPlane1 => {
            return decode_kanji(m, code, 1, st);
        },
        CodeSet::JIS_KanjiPlane2 => {
            return decode_kanji(m, code, 2, st);
        },
        CodeSet::Alphanumeric | CodeSet::ProportionalAlphanumeric => {
            push_text(&mut dst, put_alphanumeric_char(code, st.use_char_size, st.char_size, st.is_latin));
        },
        CodeSet::Hiragana | CodeSet::ProportionalHiragana => {
            push_text(&mut dst, put_hiragana_char(code));
        },
        CodeSet::Katakana | CodeSet::ProportionalKatakana => {
            push_text(&mut dst, put_katakana_char(code));
        },
        CodeSet::JIS_X0201_Katakana => {
            push_text(&mut dst, put_jis_katakana_char(code));
        },
        CodeSet::LatinExtension => {
            push_text(&mut dst, put_latin_extension_char(code));
        },
        CodeSet::LatinSpecial => {
            push_text(&mut dst, put_latin_special_char(code));
        },
        CodeSet::AdditionalSymbols => {
            match put_symbols_char(code, st.unicode_symbol) {
                Some(s) => push_text(&mut dst, s),
                None => dst.push(0x25A1),
            }
        },
        _ => {
            dst.push(0x25A1);
        },
    }
    assert(dst@ =~= char_units(*m, code, set, *st));
    dst
}

/// The format of a caption from the position `pos` on, in the state `st`.
pub open spec fn format_of(st: DecoderState, pos: usize) -> FormatInfo {
    FormatInfo {
        pos,
        size: st.char_size,
        char_color_index: st.char_color_index,
        back_color_index: st.back_color_index,
        raster_color_index: st.raster_color_index,
    }
}

/// The format list with the format of `st` recorded at `pos`: it replaces
/// the last entry when that one is at the same position.
pub open spec fn record_format(fmt: Seq<FormatInfo>, st: DecoderState, pos: usize) -> Seq<FormatInfo> {
    if fmt.len() > 0 && fmt.last().pos == pos {
        fmt.update(fmt.len() - 1, format_of(st, pos))
    } else {
        fmt.push(format_of(st, pos))
    }
}

/// Records the format of `st` at `pos`.
fn set_format(format_list: &mut Vec<FormatInfo>, st: &DecoderState, pos: usize)
    ensures
        final(format_list)@ == record_format(old(format_list)@, *st, pos),
{
    let format = FormatInfo {
        pos,
        size: st.char_size,
        char_color_index: st.char_color_index,
        back_color_index: st.back_color_index,
        raster_color_index: st.raster_color_index,
    };
    let n = format_list.len();
    if n > 0 && format_list[n - 1].pos == pos {
        format_list.set(n - 1, format);
    } else {
        format_list.push(format);
    }
}

/// Where a control sequence of variable length ends.
#[derive(Clone, Copy, PartialEq, Eq, Structural)]
pub enum SkipUntil {
    /// At the 0x4F that ends a macro definition.
    MacroEnd,
    /// At the final byte, above 0x3B, of a control sequence.
    SequenceEnd,
    /// At the byte 0x40 to 0x43 that ends a time control.
    TimeControlEnd,
}

/// Whether `b` ends a control sequence of kind `t`.
pub open spec fn stops(t: SkipUntil, b: u8) -> bool {
    match t {
        SkipUntil::MacroEnd => b == 0x4F,
        SkipUntil::SequenceEnd => b > 0x3B,
        SkipUntil::TimeControlEnd => 0x40 <= b <= 0x43,
    }
}

/// The first position from `q` on whose byte ends a control sequence of
/// kind `t`; the end of `src` when there is none.
pub open spec fn skip_until(src: Seq<u8>, q: int, t: SkipUntil) -> int
    decreases src.len() - q,
{
    if q < 0 || q >= src.len() || stops(t, src[q]) {
        q
    } else {
        skip_until(src, q + 1, t)
    }
}

fn stops_at(t: SkipUntil, b: u8) -> (r: bool)
    ensures
        r == stops(t, b),
{
    match t {
        SkipUntil::MacroEnd => b == 0x4F,
        SkipUntil::SequenceEnd => b > 0x3B,
        SkipUntil::TimeControlEnd => 0x40 <= b && b <= 0x43,
    }
}

/// The first position from `q` on whose byte ends a control sequence of
/// kind `t`.
fn skip_bytes(src: &[u8], q: usize, t: SkipUntil) -> (r: usize)
    requires
        q <= src@.len(),
    ensures
        r as int == skip_until(src@, q as int, t),
        r <= src@.len(),
{
    let mut i = q;
    while i < src.len() && !stops_at(t, src[i])
        invariant
            q <= i <= src@.len(),
            skip_until(src@, i as int, t) == skip_until(src@, q as int, t),
        decreases src@.len() - i,
    {
        i = i + 1;
    }
    i
}

/// The position after `q`, within `src` of length `len`.
pub open spec fn next_pos(len: int, q: int) -> int {
    if q + 1 < len {
        q + 1
    } else {
        len
    }
}

fn next_after(len: usize, q: usize) -> (r: usize)
    requires
        q <= len,
    ensures
        r as int == next_pos(len as int, q as int),
{
    if q < len && q + 1 < len {
        q + 1
    } else {
        len
    }
}

/// The character size that the byte `b` after SZX names.
pub open spec fn szx_size(b: u8, current: CharSize) -> CharSize {
    if b == 0x60 {
        CharSize::Micro
    } else if b == 0x41 {
        CharSize::HighW
    } else if b == 0x44 {
        CharSize::WidthW
    } else if b == 0x45 {
        CharSize::SizeW
    } else if b == 0x6B {
        CharSize::Special1
    } else if b == 0x64 {
        CharSize::Special2
    } else {
        current
    }
}

/// The effect of the control code `ctrl` at position `p`: the position of
/// the last byte it takes, and the state, text and formats after it.
pub open spec fn control_step(src: Seq<u8>, p: int, ctrl: u8, st: DecoderState, dst: Seq<u16>, fmt: Seq<FormatInfo>) -> (int, DecoderState, Seq<u16>, Seq<FormatInfo>) {
    let here = dst.len() as usize;
    let q = p + 1;
    if ctrl == 0x0D {
        (p, st, dst.push(0x0A), fmt)
    } else if ctrl == 0x0F {
        (p, DecoderState { locking_gl: 0, ..st }, dst, fmt)
    } else if ctrl == 0x0E {
        (p, DecoderState { locking_gl: 1, ..st }, dst, fmt)
    } else if ctrl == 0x19 {
        (p, DecoderState { single_gl: 2, ..st }, dst, fmt)
    } else if ctrl == 0x1D {
        (p, DecoderState { single_gl: 3, ..st }, dst, fmt)
    } else if ctrl == 0x1B {
        (p, DecoderState { esc_seq_count: 1, ..st }, dst, fmt)
    } else if ctrl == 0x20 {
        (p, st, dst.push(if st.char_size == CharSize::Small || st.char_size == CharSize::Micro { 0x20u16 } else { 0x3000u16 }), fmt)
    } else if ctrl == 0xA0 {
        (p, st, dst.push(0x20), fmt)
    } else if 0x80 <= ctrl <= 0x87 {
        let st2 = DecoderState { char_color_index: (st.def_palette << 4u8) | (ctrl & 0x0Fu8), ..st };
        (p, st2, dst, record_format(fmt, st2, here))
    } else if ctrl == 0x88 || ctrl == 0x89 || ctrl == 0x8A {
        let size = if ctrl == 0x88 { CharSize::Small } else if ctrl == 0x89 { CharSize::Medium } else { CharSize::Normal };
        let st2 = DecoderState { char_size: size, ..st };
        (p, st2, dst, record_format(fmt, st2, here))
    } else if ctrl == 0x8B {
        let st2 = if q < src.len() { DecoderState { char_size: szx_size(src[q], st.char_size), ..st } } else { st };
        (q, st2, dst, record_format(fmt, st2, here))
    } else if ctrl == 0x0C {
        (p, st, dst.push(0x0C), fmt)
    } else if ctrl == 0x16 || ctrl == 0x91 || ctrl == 0x93 || ctrl == 0x94 || ctrl == 0x97 {
        (q, st, dst, fmt)
    } else if ctrl == 0x1C {
        (p + 2, st, dst, fmt)
    } else if ctrl == 0x90 {
        if q < src.len() {
            if src[q] == 0x20 {
                let st2 = if q + 1 < src.len() { DecoderState { def_palette: src[q + 1] & 0x0F, ..st } } else { st };
                (q + 1, st2, dst, fmt)
            } else {
                let b = src[q];
                let st2 = if b & 0xF0 == 0x40 {
                    DecoderState { char_color_index: b & 0x0F, ..st }
                } else if b & 0xF0 == 0x50 {
                    DecoderState { back_color_index: b & 0x0F, ..st }
                } else {
                    st
                };
                (q, st2, dst, record_format(fmt, st2, here))
            }
        } else {
            (q, st, dst, fmt)
        }
    } else if ctrl == 0x95 {
        (skip_until(src, q, SkipUntil::MacroEnd), st, dst, fmt)
    } else if ctrl == 0x98 {
        (q, if q < src.len() { DecoderState { rpc: src[q] & 0x3F, ..st } } else { st }, dst, fmt)
    } else if ctrl == 0x9B {
        (skip_until(src, q, SkipUntil::SequenceEnd), st, dst, fmt)
    } else if ctrl == 0x9D {
        if q < src.len() {
            if src[q] == 0x20 {
                (q + 1, st, dst, fmt)
            } else {
                (skip_until(src, q, SkipUntil::TimeControlEnd), st, dst, fmt)
            }
        } else {
            (q, st, dst, fmt)
        }
    } else {
        (p, st, dst, fmt)
    }
}

/// What one step of the decoder does.
pub enum DecodeStep {
    /// The text cannot be decoded.
    Fail,
    /// The text ends here.
    Stop,
    /// Decoding goes on at the position, with the state, text and formats.
    Next(int, DecoderState, Seq<u16>, Seq<FormatInfo>),
}

/// Whether the byte at `pos` starts a UCS (UTF-8) character rather than a
/// control code.
pub open spec fn ucs_char_start(src: Seq<u8>, pos: int) -> bool {
    let b = src[pos];
    (0x21 <= b <= 0x7E) || (b >= 0x80 && !(b == 0xC2 && src.len() - pos >= 2 && 0x80 <= src[pos + 1] < 0xA1))
}

/// The UTF-16 code units of a decoded UCS code point: a white square for
/// an ill-formed sequence and for the private area of DRCS.
pub open spec fn ucs_units(cp: u32) -> Seq<u16> {
    if cp == 0 || (0xEC00 <= cp <= 0xF8FF) {
        box_units()
    } else {
        utf16_units(cp as int)
    }
}

/// One step of the decoder at `pos` (within `src`).
#[verifier::opaque]
pub open spec fn step(m: KanjiMap, src: Seq<u8>, pos: int, st: DecoderState, dst: Seq<u16>, fmt: Seq<FormatInfo>) -> DecodeStep {
    let len = src.len() as int;
    let b = src[pos];
    if st.esc_seq_count != 0 {
        DecodeStep::Next(pos + 1, esc_step(st, b), dst, fmt)
    } else if st.is_ucs && ucs_char_start(src, pos) {
        if b >= 0xFE {
            DecodeStep::Fail
        } else {
            let d = utf8_decode(src.subrange(pos, len));
            DecodeStep::Next(pos + d.1, DecoderState { rpc: 1, ..st }, dst + repeated(ucs_units(d.0), st.rpc as int), fmt)
        }
    } else if !st.is_ucs && 0x21 <= b <= 0x7E {
        let idx = if st.single_gl >= 0 { st.single_gl as int } else { st.locking_gl as int };
        let st1 = DecoderState { single_gl: -1i32, ..st };
        let set = code_set_of(st, idx);
        if double_byte_set(set) {
            if len - pos < 2 {
                DecodeStep::Fail
            } else {
                let code = (b as int * 256 + src[pos + 1] as int) as u16;
                DecodeStep::Next(pos + 2, DecoderState { rpc: 1, ..st1 }, dst + repeated(char_units(m, code, set, st1), st.rpc as int), fmt)
            }
        } else {
            DecodeStep::Next(pos + 1, DecoderState { rpc: 1, ..st1 }, dst + repeated(char_units(m, b as u16, set, st1), st.rpc as int), fmt)
        }
    } else if !st.is_ucs && 0xA1 <= b <= 0xFE {
        let set = code_set_of(st, st.locking_gr as int);
        if double_byte_set(set) {
            if len - pos < 2 {
                DecodeStep::Fail
            } else {
                let code = ((b as int % 0x80) * 256 + src[pos + 1] as int % 0x80) as u16;
                DecodeStep::Next(pos + 2, DecoderState { rpc: 1, ..st }, dst + repeated(char_units(m, code, set, st), st.rpc as int), fmt)
            }
        } else {
            DecodeStep::Next(pos + 1, DecoderState { rpc: 1, ..st }, dst + repeated(char_units(m, (b as int % 0x80) as u16, set, st), st.rpc as int), fmt)
        }
    } else if st.is_ucs && b == 0xC2 {
        if pos + 1 >= len {
            DecodeStep::Stop
        } else {
            let c = control_step(src, pos + 1, src[pos + 1], st, dst, fmt);
            DecodeStep::Next(next_pos(len, c.0), c.1, c.2, c.3)
        }
    } else {
        let c = control_step(src, pos, b, st, dst, fmt);
        DecodeStep::Next(next_pos(len, c.0), c.1, c.2, c.3)
    }
}

/// The text and caption formats that decoding `src` from `pos` on gives,
/// in the state `st` and after the text `dst` and formats `fmt`; `None`
/// when it fails.
pub open spec fn decode_from(m: KanjiMap, src: Seq<u8>, pos: int, st: DecoderState, dst: Seq<u16>, fmt: Seq<FormatInfo>) -> Option<(Seq<u16>, Seq<FormatInfo>)>
    decreases src.len() - pos,
{
    if pos < 0 || pos >= src.len() {
        Some((dst, fmt))
    } else {
        match step(m, src, pos, st, dst, fmt) {
            DecodeStep::Fail => None,
            DecodeStep::Stop => Some((dst, fmt)),
            DecodeStep::Next(p2, st2, d2, f2) => if pos < p2 <= src.len() {
                decode_from(m, src, p2, st2, d2, f2)
            } else {
                None
            },
        }
    }
}

/// Decoding ESC 0x7C (LS3R) followed by a one-byte character in the GR
/// area gives that character in the set designated to G3, and goes on after
/// it with GR locked to G3 and nothing else of the state changed.
pub proof fn lemma_ls3r_decodes_in_g3(
    m: KanjiMap,
    src: Seq<u8>,
    pos: int,
    st: DecoderState,
    dst: Seq<u16>,
    fmt: Seq<FormatInfo>,
)
    requires
        !st.is_ucs,
        st.esc_seq_count == 0,
        0 <= pos,
        pos + 2 < src.len(),
        src[pos] == 0x1B,
        src[pos + 1] == 0x7C,
        0xA1 <= src[pos + 2] <= 0xFE,
        !double_byte_set(st.g3),
    ensures
        ({
            let s3 = DecoderState { locking_gr: 3, rpc: 1, esc_seq_count: 0, ..st };
            let s2 = DecoderState { locking_gr: 3, esc_seq_count: 0, ..st };
            decode_from(m, src, pos, st, dst, fmt) == decode_from(
                m,
                src,
                pos + 3,
                s3,
                dst + repeated(char_units(m, (src[pos + 2] % 0x80) as u16, st.g3, s2), st.rpc as int),
                fmt,
            )
        }),
{
    reveal(step);
    let s1 = DecoderState { esc_seq_count: 1, ..st };
    let s2 = esc_step(s1, 0x7C);
    assert(step(m, src, pos, st, dst, fmt) == DecodeStep::Next(pos + 1, s1, dst, fmt));
    assert(step(m, src, pos + 1, s1, dst, fmt) == DecodeStep::Next(pos + 2, s2, dst, fmt));
    assert(s2 == DecoderState { locking_gr: 3, esc_seq_count: 0, ..st });
    lemma_gr_byte_after_ls3r(m, src, pos + 2, s1, dst, fmt);
    assert(decode_from(m, src, pos, st, dst, fmt) == decode_from(m, src, pos + 1, s1, dst, fmt));
    assert(decode_from(m, src, pos + 1, s1, dst, fmt) == decode_from(m, src, pos + 2, s2, dst, fmt));
}

/// The shift controls: SI (0x0F) and SO (0x0E) lock G0 and G1 into GL,
/// SS2 (0x19) and SS3 (0x1D) shift G2 and G3 into GL for one character,
/// and ESC (0x1B) starts an escape sequence; none of them changes a
/// designation, writes text or moves past the control byte.
pub proof fn lemma_shift_controls(src: Seq<u8>, p: int, ctrl: u8, st: DecoderState, dst: Seq<u16>, fmt: Seq<FormatInfo>)
    requires
        ctrl == 0x0F || ctrl == 0x0E || ctrl == 0x19 || ctrl == 0x1D || ctrl == 0x1B,
    ensures
        ({
            let (q, s2, d2, f2) = control_step(src, p, ctrl, st, dst, fmt);
            &&& q == p
            &&& d2 == dst
            &&& f2 == fmt
            &&& s2.g0 == st.g0 && s2.g1 == st.g1 && s2.g2 == st.g2 && s2.g3 == st.g3
            &&& s2.locking_gr == st.locking_gr
            &&& s2.locking_gl == (if ctrl == 0x0F { 0 } else if ctrl == 0x0E { 1 } else { st.locking_gl })
            &&& s2.single_gl == (if ctrl == 0x19 { 2 } else if ctrl == 0x1D { 3 } else { st.single_gl })
            &&& s2.esc_seq_count == (if ctrl == 0x1B { 1 } else { st.esc_seq_count })
        }),
{
}

/// A designation: ESC, then 0x28, 0x29, 0x2A or 0x2B naming G0 to G3, then
/// a final byte that names a graphic set, designates that set to the G set
/// named and ends the sequence; the other designations and the invocations
/// stay.
pub proof fn lemma_designation(st: DecoderState, inter: u8, fin: u8)
    requires
        st.esc_seq_count == 1,
        0x28 <= inter <= 0x2B,
        designated_set(fin) is Some,
    ensures
        ({
            let s3 = esc_step(esc_step(st, inter), fin);
            let i = inter - 0x28;
            &&& s3.esc_seq_count == 0
            &&& code_set_of(s3, i) == designated_set(fin).unwrap()
            &&& forall|k: int| 0 <= k < 4 && k != i ==> code_set_of(s3, k) == code_set_of(st, k)
            &&& s3.locking_gl == st.locking_gl
            &&& s3.locking_gr == st.locking_gr
        }),
{
}

/// The text and caption formats that decoding `src` with `flags` gives;
/// `None` for no bytes and when decoding fails.
pub open spec fn decoded(m: KanjiMap, src: Seq<u8>, flags: DecodeFlags) -> Option<(Seq<u16>, Seq<FormatInfo>)> {
    if src.len() == 0 {
        None
    } else {
        decode_from(m, src, 0, initial_state(flags), Seq::empty(), Seq::empty())
    }
}

/// The first stop of a skip is not before where it starts.
proof fn lemma_skip_until_bounds(src: Seq<u8>, q: int, t: SkipUntil)
    requires
        0 <= q,
    ensures
        q <= skip_until(src, q, t),
        q <= src.len() ==> skip_until(src, q, t) <= src.len(),
    decreases src.len() - q,
{
    if q < src.len() && !stops(t, src[q]) {
        lemma_skip_until_bounds(src, q + 1, t);
    }
}

/// A UTF-8 step over some bytes takes at least one and at most all of them,
/// and gives a code point below U+110000.
proof fn lemma_utf8_decode_bounds(d: Seq<u8>)
    requires
        d.len() > 0,
    ensures
        1 <= utf8_decode(d).1 <= d.len(),
        utf8_decode(d).0 < 0x110000,
{
}

/// A control code takes the byte it stands at, and perhaps more.
proof fn lemma_control_step_bounds(src: Seq<u8>, p: int, ctrl: u8, st: DecoderState, dst: Seq<u16>, fmt: Seq<FormatInfo>)
    requires
        0 <= p < src.len(),
    ensures
        p <= control_step(src, p, ctrl, st, dst, fmt).0,
{
    lemma_skip_until_bounds(src, p + 1, SkipUntil::MacroEnd);
    lemma_skip_until_bounds(src, p + 1, SkipUntil::SequenceEnd);
    lemma_skip_until_bounds(src, p + 1, SkipUntil::TimeControlEnd);
}

/// Each step of the decoder moves forward.
pub proof fn lemma_step_advances(m: KanjiMap, src: Seq<u8>, pos: int, st: DecoderState, dst: Seq<u16>, fmt: Seq<FormatInfo>)
    requires
        0 <= pos < src.len(),
    ensures
        step(m, src, pos, st, dst, fmt) matches DecodeStep::Next(p2, _, _, _) ==> pos < p2 <= src.len(),
{
    reveal(step);
    let len = src.len() as int;
    lemma_utf8_decode_bounds(src.subrange(pos, len));
    if pos + 1 < len {
        lemma_control_step_bounds(src, pos + 1, src[pos + 1], st, dst, fmt);
    }
    lemma_control_step_bounds(src, pos, src[pos], st, dst, fmt);
}

/// Handles the control code `ctrl` at position `p`; the position after
/// the bytes it takes.
fn control(src: &[u8], p: usize, ctrl: u8, st: &mut DecoderState, dst: &mut Vec<u16>, fmt: &mut Vec<FormatInfo>) -> (next: usize)
    requires
        p < src@.len(),
        state_wf(*old(st)),
    ensures
        ({
            let c = control_step(src@, p as int, ctrl, *old(st), old(dst)@, old(fmt)@);
            &&& next as int == next_pos(src@.len() as int, c.0)
            &&& *final(st) == c.1
            &&& final(dst)@ == c.2
            &&& final(fmt)@ == c.3
        }),
        state_wf(*final(st)),
{
    let len = src.len();
    let here = dst.len();
    if ctrl == 0x0D {
        dst.push(0x0A);
    } else if ctrl == 0x0F {
        st.locking_gl = 0;
    } else if ctrl == 0x0E {
        st.locking_gl = 1;
    } else if ctrl == 0x19 {
        st.single_gl = 2;
    } else if ctrl == 0x1D {
        st.single_gl = 3;
    } else if ctrl == 0x1B {
        st.esc_seq_count = 1;
    } else if ctrl == 0x20 {
        let small = match st.char_size {
            CharSize::Small | CharSize::Micro => true,
            _ => false,
        };
        dst.push(if small { 0x20 } else { 0x3000 });
    } else if ctrl == 0xA0 {
        dst.push(0x20);
    } else if 0x80 <= ctrl && ctrl <= 0x87 {
        st.char_color_index = (st.def_palette << 4u8) | (ctrl & 0x0F);
        set_format(fmt, st, here);
    } else if ctrl == 0x88 || ctrl == 0x89 || ctrl == 0x8A {
        st.char_size = if ctrl == 0x88 {
            CharSize::Small
        } else if ctrl == 0x89 {
            CharSize::Medium
        } else {
            CharSize::Normal
        };
        set_format(fmt, st, here);
    } else if ctrl == 0x8B {
        let q = p + 1;
        if q < len {
            let b = src[q];
            st.char_size = if b == 0x60 {
                CharSize::Micro
            } else if b == 0x41 {
                CharSize::HighW
            } else if b == 0x44 {
                CharSize::WidthW
            } else if b == 0x45 {
                CharSize::SizeW
            } else if b == 0x6B {
                CharSize::Special1
            } else if b == 0x64 {
                CharSize::Special2
            } else {
                st.char_size
            };
        }
        set_format(fmt, st, here);
        return next_after(len, q);
    } else if ctrl == 0x0C {
        dst.push(0x0C);
    } else if ctrl == 0x16 || ctrl == 0x91 || ctrl == 0x93 || ctrl == 0x94 || ctrl == 0x97 {
        return next_after(len, p + 1);
    } else if ctrl == 0x1C {
        if len - p > 2 {
            return next_after(len, p + 2);
        } else {
            return len;
        }
    } else if ctrl == 0x90 {
        let q = p + 1;
        if q < len {
            if src[q] == 0x20 {
                if q + 1 < len {
                    st.def_palette = src[q + 1] & 0x0F;
                }
                return next_after(len, q + 1);
            } else {
                let b = src[q];
                if b & 0xF0 == 0x40 {
                    st.char_color_index = b & 0x0F;
                } else if b & 0xF0 == 0x50 {
                    st.back_color_index = b & 0x0F;
                }
                set_format(fmt, st, here);
            }
        }
        return next_after(len, q);
    } else if ctrl == 0x95 {
        let q = skip_bytes(src, p + 1, SkipUntil::MacroEnd);
        return next_after(len, q);
    } else if ctrl == 0x98 {
        let q = p + 1;
        if q < len {
            st.rpc = src[q] & 0x3F;
        }
        return next_after(len, q);
    } else if ctrl == 0x9B {
        let q = skip_bytes(src, p + 1, SkipUntil::SequenceEnd);
        return next_after(len, q);
    } else if ctrl == 0x9D {
        let q = p + 1;
        if q < len {
            if src[q] == 0x20 {
                return next_after(len, q + 1);
            } else {
                let r = skip_bytes(src, q, SkipUntil::TimeControlEnd);
                return next_after(len, r);
            }
        }
        return next_after(len, q);
    }
    next_after(len, p)
}

/// Whether the byte at `pos` starts a UCS character rather than a control
/// code.
fn is_ucs_char_start(src: &[u8], pos: usize) -> (r: bool)
    requires
        pos < src@.len(),
    ensures
        r == ucs_char_start(src@, pos as int),
{
    let b = src[pos];
    (0x21 <= b && b <= 0x7E) || (b >= 0x80 && !(b == 0xC2 && src.len() - pos >= 2 && src[pos + 1] >= 0x80
        && src[pos + 1] < 0xA1))
}

/// What one step of the decoder did.
pub enum StepOutcome {
    Failed,
    Stopped,
    /// Decoding goes on at the position.
    Continue(usize),
}

/// Whether the outcome `r` of a step from the state `st`, text `dst` and
/// formats `fmt` to `st2`, `dst2` and `fmt2` is the step `s`.
pub open spec fn outcome_is(
    s: DecodeStep,
    r: StepOutcome,
    dst: Seq<u16>,
    fmt: Seq<FormatInfo>,
    st2: DecoderState,
    dst2: Seq<u16>,
    fmt2: Seq<FormatInfo>,
) -> bool {
    match r {
        StepOutcome::Failed => s is Fail,
        StepOutcome::Stopped => s is Stop && dst2 == dst && fmt2 == fmt,
        StepOutcome::Continue(p) => s == DecodeStep::Next(p as int, st2, dst2, fmt2),
    }
}

/// A UCS character at `pos`.
fn ucs_step(src: &[u8], pos: usize, st: &mut DecoderState, dst: &mut Vec<u16>) -> (r: StepOutcome)
    requires
        pos < src@.len(),
        state_wf(*old(st)),
        old(st).esc_seq_count == 0,
        old(st).is_ucs && ucs_char_start(src@, pos as int),
    ensures
        forall|m: KanjiMap, fmt: Seq<FormatInfo>|
            outcome_is(#[trigger] step(m, src@, pos as int, *old(st), old(dst)@, fmt), r, old(dst)@, fmt, *final(st), final(dst)@, fmt),
        state_wf(*final(st)),
        r matches StepOutcome::Continue(p) ==> p <= src@.len(),
{
    reveal(step);
    let len = src.len();
    let b = src[pos];
    if b >= 0xFE {
        return StepOutcome::Failed;
    }
    let (cp, clen) = utf8_to_codepoint(sub_slice(src, pos, len));
    proof {
        lemma_utf8_decode_bounds(src@.subrange(pos as int, len as int));
    }
    let units = if cp == 0 || (0xEC00 <= cp && cp <= 0xF8FF) {
        let mut v: Vec<u16> = Vec::new();
        v.push(0x25A1);
        assert(v@ =~= box_units());
        v
    } else {
        code_point_to_utf16(cp)
    };
    let rpc = st.rpc;
    emit_repeated(dst, &units, rpc);
    st.rpc = 1;
    StepOutcome::Continue(pos + clen)
}

/// A character of the set invoked into GL, at `pos`.
fn gl_step(m: &KanjiMap, src: &[u8], pos: usize, st: &mut DecoderState, dst: &mut Vec<u16>) -> (r: StepOutcome)
    requires
        m.wf(),
        pos < src@.len(),
        state_wf(*old(st)),
        old(st).esc_seq_count == 0,
        !old(st).is_ucs,
        0x21 <= src@[pos as int] <= 0x7E,
    ensures
        forall|fmt: Seq<FormatInfo>|
            outcome_is(#[trigger] step(*m, src@, pos as int, *old(st), old(dst)@, fmt), r, old(dst)@, fmt, *final(st), final(dst)@, fmt),
        state_wf(*final(st)),
        r matches StepOutcome::Continue(p) ==> p <= src@.len(),
{
    reveal(step);
    let len = src.len();
    let b = src[pos];
    let idx: usize = if st.single_gl >= 0 {
        st.single_gl as usize
    } else {
        st.locking_gl
    };
    let rpc = st.rpc;
    st.single_gl = -1;
    let set = st.code_set(idx);
    let next;
    let units = if is_double_byte_code_set(set) {
        if len - pos < 2 {
            return StepOutcome::Failed;
        }
        let b2 = src[pos + 1];
        let code: u16 = ((b as u16) << 8u16) | (b2 as u16);
        assert(code == (b as int * 256 + b2 as int) as u16) by (bit_vector)
            requires
                code == ((b as u16) << 8u16) | (b2 as u16),
        ;
        next = pos + 2;
        decode_char_to_utf16(m, code, set, st)
    } else {
        next = pos + 1;
        decode_char_to_utf16(m, b as u16, set, st)
    };
    emit_repeated(dst, &units, rpc);
    st.rpc = 1;
    StepOutcome::Continue(next)
}

/// A character of the set invoked into GR, at `pos`.
fn gr_step(m: &KanjiMap, src: &[u8], pos: usize, st: &mut DecoderState, dst: &mut Vec<u16>) -> (r: StepOutcome)
    requires
        m.wf(),
        pos < src@.len(),
        state_wf(*old(st)),
        old(st).esc_seq_count == 0,
        !old(st).is_ucs,
        !(0x21 <= src@[pos as int] <= 0x7E),
        0xA1 <= src@[pos as int] <= 0xFE,
    ensures
        forall|fmt: Seq<FormatInfo>|
            outcome_is(#[trigger] step(*m, src@, pos as int, *old(st), old(dst)@, fmt), r, old(dst)@, fmt, *final(st), final(dst)@, fmt),
        state_wf(*final(st)),
        r matches StepOutcome::Continue(p) ==> p <= src@.len(),
{
    reveal(step);
    let len = src.len();
    let b = src[pos];
    let rpc = st.rpc;
    let set = st.code_set(st.locking_gr);
    let next;
    let units = if is_double_byte_code_set(set) {
        if len - pos < 2 {
            return StepOutcome::Failed;
        }
        let b2 = src[pos + 1];
        let code: u16 = (((b as u16) << 8u16) | (b2 as u16)) & 0x7F7F;
        assert(code == ((b as int % 0x80) * 256 + b2 as int % 0x80) as u16) by (bit_vector)
            requires
                code == (((b as u16) << 8u16) | (b2 as u16)) & 0x7F7F,
        ;
        next = pos + 2;
        decode_char_to_utf16(m, code, set, st)
    } else {
        let code: u16 = (b & 0x7F) as u16;
        assert(code == (b as int % 0x80) as u16) by (bit_vector)
            requires
                code == (b & 0x7F) as u16,
        ;
        next = pos + 1;
        decode_char_to_utf16(m, code, set, st)
    };
    emit_repeated(dst, &units, rpc);
    st.rpc = 1;
    StepOutcome::Continue(next)
}

/// A control code at `pos` (or after the 0xC2 that introduces it in UCS
/// text).
fn control_code_step(
    src: &[u8],
    pos: usize,
    st: &mut DecoderState,
    dst: &mut Vec<u16>,
    fmt: &mut Vec<FormatInfo>,
) -> (r: StepOutcome)
    requires
        pos < src@.len(),
        state_wf(*old(st)),
        old(st).esc_seq_count == 0,
        !(old(st).is_ucs && ucs_char_start(src@, pos as int)),
        !(!old(st).is_ucs && 0x21 <= src@[pos as int] <= 0x7E),
        !(!old(st).is_ucs && 0xA1 <= src@[pos as int] <= 0xFE),
    ensures
        forall|m: KanjiMap|
            outcome_is(#[trigger] step(m, src@, pos as int, *old(st), old(dst)@, old(fmt)@), r, old(dst)@, old(fmt)@, *final(st), final(dst)@, final(fmt)@),
        state_wf(*final(st)),
        r matches StepOutcome::Continue(p) ==> p <= src@.len(),
{
    reveal(step);
    let len = src.len();
    let b = src[pos];
    if st.is_ucs && b == 0xC2 {
        if pos + 1 >= len {
            return StepOutcome::Stopped;
        }
        StepOutcome::Continue(control(src, pos + 1, src[pos + 1], st, dst, fmt))
    } else {
        StepOutcome::Continue(control(src, pos, b, st, dst, fmt))
    }
}

/// One step of the decoder at `pos`.
fn decode_step(
    m: &KanjiMap,
    src: &[u8],
    pos: usize,
    st: &mut DecoderState,
    dst: &mut Vec<u16>,
    fmt: &mut Vec<FormatInfo>,
) -> (r: StepOutcome)
    requires
        m.wf(),
        pos < src@.len(),
        state_wf(*old(st)),
    ensures
        outcome_is(step(*m, src@, pos as int, *old(st), old(dst)@, old(fmt)@), r, old(dst)@, old(fmt)@, *final(st), final(dst)@, final(fmt)@),
        state_wf(*final(st)),
        r matches StepOutcome::Continue(p) ==> p <= src@.len(),
{
    let b = src[pos];
    if st.esc_seq_count != 0 {
        let ghost st0 = *st;
        process_escape_seq(st, b);
        assert(step(*m, src@, pos as int, st0, dst@, fmt@) == DecodeStep::Next(pos + 1, *st, dst@, fmt@)) by {
            reveal(step);
        }
        StepOutcome::Continue(pos + 1)
    } else if st.is_ucs && is_ucs_char_start(src, pos) {
        ucs_step(src, pos, st, dst)
    } else if !st.is_ucs && 0x21 <= b && b <= 0x7E {
        gl_step(m, src, pos, st, dst)
    } else if !st.is_ucs && 0xA1 <= b && b <= 0xFE {
        gr_step(m, src, pos, st, dst)
    } else {
        control_code_step(src, pos, st, dst, fmt)
    }
}

/// Decodes `src` from the state `st`, recording caption formats in `fmt`.
fn decode_string(m: &KanjiMap, src: &[u8], st: &mut DecoderState, fmt: &mut Vec<FormatInfo>) -> (r: Option<Vec<u16>>)
    requires
        m.wf(),
        state_wf(*old(st)),
    ensures
        match decode_from(*m, src@, 0, *old(st), Seq::empty(), old(fmt)@) {
            None => r is None,
            Some(res) => r matches Some(v) && v@ == res.0 && final(fmt)@ == res.1,
        },
{
    let ghost target = decode_from(*m, src@, 0, *st, Seq::empty(), fmt@);
    let mut dst: Vec<u16> = Vec::new();
    assert(dst@ =~= Seq::<u16>::empty());
    let len = src.len();
    let mut pos: usize = 0;
    while pos < len
        invariant
            m.wf(),
            len == src@.len(),
            pos <= len,
            state_wf(*st),
            decode_from(*m, src@, pos as int, *st, dst@, fmt@) == target,
            target == decode_from(*m, src@, 0, *old(st), Seq::empty(), old(fmt)@),
        decreases len - pos,
    {
        let ghost st0 = *st;
        let ghost d0 = dst@;
        let ghost f0 = fmt@;
        proof {
            lemma_step_advances(*m, src@, pos as int, st0, d0, f0);
        }
        let outcome = decode_step(m, src, pos, st, &mut dst, fmt);
        assert(decode_from(*m, src@, pos as int, st0, d0, f0) == match step(*m, src@, pos as int, st0, d0, f0) {
            DecodeStep::Fail => None,
            DecodeStep::Stop => Some((d0, f0)),
            DecodeStep::Next(p2, st2, d2, f2) => if pos < p2 <= src@.len() {
                decode_from(*m, src@, p2, st2, d2, f2)
            } else {
                None
            },
        });
        match outcome {
            StepOutcome::Failed => {
                return None;
            },
            StepOutcome::Stopped => {
                return Some(dst);
            },
            StepOutcome::Continue(p) => {
                pos = p;
            },
        }
    }
    Some(dst)
}

/// Decodes ARIB 8-unit coded text `src` into UTF-16; `None` for no bytes,
/// and when a two-byte character or a UCS sequence cannot be read.
pub fn decode(m: &KanjiMap, src: &[u8], flags: DecodeFlags) -> (r: Option<Vec<u16>>)
    requires
        m.wf(),
    ensures
        match decoded(*m, src@, flags) {
            None => r is None,
            Some(res) => r matches Some(v) && v@ == res.0,
        },
{
    if src.len() == 0 {
        return None;
    }
    let mut state = DecoderState::new(&flags);
    let mut format_list: Vec<FormatInfo> = Vec::new();
    assert(format_list@ =~= Seq::<FormatInfo>::empty());
    decode_string(m, src, &mut state, &mut format_list)
}

/// Decodes a caption: the UTF-16 text and the formats (character size and
/// colours) from each position where a control code changed them.
pub fn decode_caption(m: &KanjiMap, src: &[u8], flags: DecodeFlags) -> (r: Option<(Vec<u16>, Vec<FormatInfo>)>)
    requires
        m.wf(),
    ensures
        match decoded(*m, src@, flags) {
            None => r is None,
            Some(res) => r matches Some(v) && v.0@ == res.0 && v.1@ == res.1,
        },
{
    if src.len() == 0 {
        return None;
    }
    let mut state = DecoderState::new(&flags);
    let mut format_list: Vec<FormatInfo> = Vec::new();
    assert(format_list@ =~= Seq::<FormatInfo>::empty());
    match decode_string(m, src, &mut state, &mut format_list) {
        Some(dst) => Some((dst, format_list)),
        None => None,
    }
}

/// Whether a byte is a control code that records a caption format: a
/// colour (0x80 to 0x87), a size (0x88 to 0x8B) or COL (0x90).
pub open spec fn format_code(b: u8) -> bool {
    (0x80 <= b <= 0x8B) || b == 0x90
}

/// A step over text without format codes records no format.
proof fn lemma_step_keeps_formats(m: KanjiMap, src: Seq<u8>, pos: int, st: DecoderState, dst: Seq<u16>, fmt: Seq<FormatInfo>)
    requires
        0 <= pos < src.len(),
        forall|i: int| 0 <= i < src.len() ==> !format_code(#[trigger] src[i]),
    ensures
        step(m, src, pos, st, dst, fmt) matches DecodeStep::Next(_, _, _, f2) ==> f2 == fmt,
{
    reveal(step);
    assert(!format_code(src[pos]));
    if pos + 1 < src.len() {
        assert(!format_code(src[pos + 1]));
    }
}

/// Decoding text without format codes records no format.
proof fn lemma_decode_from_keeps_formats(m: KanjiMap, src: Seq<u8>, pos: int, st: DecoderState, dst: Seq<u16>, fmt: Seq<FormatInfo>)
    requires
        0 <= pos,
        forall|i: int| 0 <= i < src.len() ==> !format_code(#[trigger] src[i]),
    ensures
        decode_from(m, src, pos, st, dst, fmt) matches Some(res) ==> res.1 == fmt,
    decreases src.len() - pos,
{
    if pos < src.len() {
        lemma_step_keeps_formats(m, src, pos, st, dst, fmt);
        match step(m, src, pos, st, dst, fmt) {
            DecodeStep::Next(p2, st2, d2, f2) => {
                if pos < p2 <= src.len() {
                    lemma_decode_from_keeps_formats(m, src, p2, st2, d2, f2);
                }
            },
            _ => {},
        }
    }
}

/// A caption without colour, size or COL control codes decodes with no
/// format entries.
pub proof fn lemma_no_format_codes_no_formats(m: KanjiMap, src: Seq<u8>, flags: DecodeFlags)
    requires
        forall|i: int| 0 <= i < src.len() ==> !format_code(#[trigger] src[i]),
    ensures
        decoded(m, src, flags) matches Some(res) ==> res.1 == Seq::<FormatInfo>::empty(),
{
    lemma_decode_from_keeps_formats(m, src, 0, initial_state(flags), Seq::empty(), Seq::empty());
}

/// The characters of UTF-16 code units: a surrogate pair gives one
/// character, and each unit of an unpaired surrogate gives U+FFFD.
pub open spec fn utf16_lossy(u: Seq<u16>) -> Seq<char>
    decreases u.len(),
{
    if u.len() == 0 {
        Seq::empty()
    } else if 0xD800 <= u[0] < 0xDC00 && u.len() >= 2 && 0xDC00 <= u[1] < 0xE000 {
        seq![((0x10000 + (u[0] - 0xD800) * 0x400 + (u[1] - 0xDC00)) as u32) as char] + utf16_lossy(
            u.subrange(2, u.len() as int),
        )
    } else if 0xD800 <= u[0] < 0xE000 {
        seq!['\u{FFFD}'] + utf16_lossy(u.subrange(1, u.len() as int))
    } else {
        seq![(u[0] as u32) as char] + utf16_lossy(u.subrange(1, u.len() as int))
    }
}

/// `std`'s `char::from_u32`: the character with the code point `v` when
/// `v` is one (at most U+10FFFF and not a surrogate), else `None`.
#[verifier::external_body]
fn char_from_u32(v: u32) -> (r: Option<char>)
    ensures
        r is Some <==> (v < 0xD800 || (0xE000 <= v && v <= 0x10FFFF)),
        r matches Some(c) ==> c == v as char,
{
    char::from_u32(v)
}

/// The string of UTF-16 code units, with U+FFFD for each unit of an
/// unpaired surrogate.
pub fn utf16_to_string(units: &[u16]) -> (r: String)
    ensures
        r@ == utf16_lossy(units@),
{
    let mut s = String::new();
    let n = units.len();
    let mut i: usize = 0;
    assert(units@.subrange(0, n as int) =~= units@);
    assert(s@ + utf16_lossy(units@) =~= utf16_lossy(units@));
    while i < n
        invariant
            n == units@.len(),
            i <= n,
            s@ + utf16_lossy(units@.subrange(i as int, n as int)) == utf16_lossy(units@),
        decreases n - i,
    {
        let ghost rest = units@.subrange(i as int, n as int);
        let u = units[i];
        if 0xD800 <= u && u < 0xDC00 && n - i >= 2 && 0xDC00 <= units[i + 1] && units[i + 1] < 0xE000 {
            let v: u32 = 0x10000 + ((u - 0xD800) as u32) * 0x400 + ((units[i + 1] - 0xDC00) as u32);
            let c = char_from_u32(v);
            match c {
                Some(c) => push_char(&mut s, c),
                None => {},
            }
            assert(rest.subrange(2, rest.len() as int) =~= units@.subrange(i + 2, n as int));
            i = i + 2;
        } else if 0xD800 <= u && u < 0xE000 {
            push_char(&mut s, '\u{FFFD}');
            assert(rest.subrange(1, rest.len() as int) =~= units@.subrange(i + 1, n as int));
            i = i + 1;
        } else {
            match char_from_u32(u as u32) {
                Some(c) => push_char(&mut s, c),
                None => {},
            }
            assert(rest.subrange(1, rest.len() as int) =~= units@.subrange(i + 1, n as int));
            i = i + 1;
        }
    }
    assert(units@.subrange(n as int, n as int) =~= Seq::<u16>::empty());
    s
}

/// Decodes ARIB 8-unit coded text into a string (see `decode`).
pub fn decode_to_string(m: &KanjiMap, src: &[u8], flags: DecodeFlags) -> (r: Option<String>)
    requires
        m.wf(),
    ensures
        match decoded(*m, src@, flags) {
            None => r is None,
            Some(res) => r matches Some(t) && t@ == utf16_lossy(res.0),
        },
{
    match decode(m, src, flags) {
        Some(units) => Some(utf16_to_string(units.as_slice())),
        None => None,
    }
}

/// Decodes a caption into a string and its formats (see `decode_caption`).
pub fn decode_caption_to_string(m: &KanjiMap, src: &[u8], flags: DecodeFlags) -> (r: Option<(String, Vec<FormatInfo>)>)
    requires
        m.wf(),
    ensures
        match decoded(*m, src@, flags) {
            None => r is None,
            Some(res) => r matches Some(v) && v.0@ == utf16_lossy(res.0) && v.1@ == res.1,
        },
{
    match decode_caption(m, src, flags) {
        Some((units, formats)) => Some((utf16_to_string(units.as_slice()), formats)),
        None => None,
    }
}

} // verus!
