//! MPEG-2 video: emulation-prevention removal and sequence header extraction.
use vstd::prelude::*;

verus! {

// ---------------------------------------------------------------------------
// EBSP -> RBSP
// ---------------------------------------------------------------------------

/// Removal of emulation-prevention bytes from `src`, starting at `i` with `count`
/// zero bytes just seen and `out` produced so far. Returns whether the input is
/// well formed and the bytes produced up to where the scan stopped.
pub open spec fn rbsp_scan(src: Seq<u8>, i: int, count: int, out: Seq<u8>) -> (bool, Seq<u8>)
    decreases src.len() - i,
{
    if i >= src.len() {
        (true, out)
    } else {
        let byte = src[i];
        if count == 2 && byte < 0x03 {
            (false, out)
        } else if count == 2 && byte == 0x03 {
            if i < src.len() - 1 && src[i + 1] > 0x03 {
                (false, out)
            } else if i == src.len() - 1 {
                (true, out)
            } else {
                let next = src[i + 1];
                rbsp_scan(src, i + 2, if next == 0 { 1 } else { 0 }, out.push(next))
            }
        } else {
            rbsp_scan(src, i + 1, if byte == 0 { count + 1 } else { 0 }, out.push(byte))
        }
    }
}

/// Removes emulation-prevention bytes (`00 00 03`) in place. Returns the new length,
/// or `None` when the input holds a forbidden sequence; in that case the bytes
/// produced so far have overwritten the start of `data`.
pub fn ebsp_to_rbsp(data: &mut Vec<u8>) -> (r: Option<usize>)
    ensures
        ({
            let (ok, out) = rbsp_scan(old(data)@, 0, 0, Seq::empty());
            if ok {
                &&& r == Some(out.len() as usize)
                &&& final(data)@ == out
            } else {
                &&& r is None
                &&& final(data)@ == out + old(data)@.subrange(out.len() as int, old(data)@.len() as int)
            }
        }),
{
    let ghost src = data@;
    let src_len = data.len();
    let mut dst: usize = 0;
    let mut count: usize = 0;
    let mut i: usize = 0;
    let ghost mut out: Seq<u8> = Seq::empty();
    assert(data@ =~= out + src.subrange(0, src.len() as int));
    while i < src_len
        invariant
            src_len == src.len(),
            src == old(data)@,
            dst == out.len(),
            dst <= i,
            count <= 2,
            data@ =~= out + src.subrange(dst as int, src.len() as int),
            rbsp_scan(src, i as int, count as int, out) == rbsp_scan(src, 0, 0, Seq::empty()),
        ensures
            rbsp_scan(src, i as int, count as int, out) == (true, out),
        decreases src_len - i,
    {
        let byte = data[i];
        assert(byte == src[i as int]);
        if count == 2 {
            if byte < 0x03 {
                assert(rbsp_scan(src, i as int, count as int, out) == (false, out));
                return None;
            }
            if byte == 0x03 {
                if i < src_len - 1 && data[i + 1] > 0x03 {
                    assert(rbsp_scan(src, i as int, count as int, out) == (false, out));
                    return None;
                }
                if i == src_len - 1 {
                    assert(rbsp_scan(src, i as int, count as int, out) == (true, out));
                    break;
                }
                let next = data[i + 1];
                assert(next == src[i + 1]);
                data.set(dst, next);
                dst = dst + 1;
                proof {
                    out = out.push(next);
                }
                count = if next == 0 { 1 } else { 0 };
                i = i + 2;
                continue;
            }
        }
        data.set(dst, byte);
        dst = dst + 1;
        proof {
            out = out.push(byte);
        }
        count = if byte == 0 { count + 1 } else { 0 };
        i = i + 1;
    }
    assert(rbsp_scan(src, i as int, count as int, out) == (true, out));
    data.truncate(dst);
    assert(data@ =~= out);
    Some(dst)
}


// ---------------------------------------------------------------------------
// Sequence header
// ---------------------------------------------------------------------------

/// Fields of a sequence extension.
#[derive(Debug, Clone, Copy, Default, PartialEq, Eq, Structural)]
pub struct SequenceExtension {
    pub is_valid: bool,
    pub profile_and_level: u8,
    pub progressive: bool,
    pub chroma_format: u8,
    pub low_delay: bool,
    pub frame_rate_ext_n: u8,
    pub frame_rate_ext_d: u8,
}

/// Colour description of a sequence display extension.
#[derive(Debug, Clone, Copy, Default, PartialEq, Eq, Structural)]
pub struct DisplayColor {
    pub color_primaries: u8,
    pub transfer_characteristics: u8,
    pub matrix_coefficients: u8,
}

/// Fields of a sequence display extension.
#[derive(Debug, Clone, Copy, Default, PartialEq, Eq, Structural)]
pub struct DisplayExtension {
    pub is_valid: bool,
    pub video_format: u8,
    pub color_description: bool,
    pub color: DisplayColor,
    pub display_horizontal_size: u16,
    pub display_vertical_size: u16,
}

/// Fields of a sequence header with its extensions.
#[derive(Debug, Clone, Copy, Default, PartialEq, Eq, Structural)]
pub struct SequenceHeader {
    pub horizontal_size: u16,
    pub vertical_size: u16,
    pub aspect_ratio_info: u8,
    pub frame_rate_code: u8,
    pub bit_rate: u32,
    pub marker_bit: bool,
    pub vbv_buffer_size: u32,
    pub constrained_parameters_flag: bool,
    pub load_intra_quantiser_matrix: bool,
    pub load_non_intra_quantiser_matrix: bool,
    pub ext_sequence: SequenceExtension,
    pub ext_display: DisplayExtension,
}

/// An all-zero sequence header.
pub open spec fn zero_sequence_header() -> SequenceHeader {
    SequenceHeader {
        horizontal_size: 0,
        vertical_size: 0,
        aspect_ratio_info: 0,
        frame_rate_code: 0,
        bit_rate: 0,
        marker_bit: false,
        vbv_buffer_size: 0,
        constrained_parameters_flag: false,
        load_intra_quantiser_matrix: false,
        load_non_intra_quantiser_matrix: false,
        ext_sequence: SequenceExtension {
            is_valid: false,
            profile_and_level: 0,
            progressive: false,
            chroma_format: 0,
            low_delay: false,
            frame_rate_ext_n: 0,
            frame_rate_ext_d: 0,
        },
        ext_display: DisplayExtension {
            is_valid: false,
            video_format: 0,
            color_description: false,
            color: DisplayColor { color_primaries: 0, transfer_characteristics: 0, matrix_coefficients: 0 },
            display_horizontal_size: 0,
            display_vertical_size: 0,
        },
    }
}

fn new_sequence_header() -> (r: SequenceHeader)
    ensures
        r == zero_sequence_header(),
{
    SequenceHeader {
        horizontal_size: 0,
        vertical_size: 0,
        aspect_ratio_info: 0,
        frame_rate_code: 0,
        bit_rate: 0,
        marker_bit: false,
        vbv_buffer_size: 0,
        constrained_parameters_flag: false,
        load_intra_quantiser_matrix: false,
        load_non_intra_quantiser_matrix: false,
        ext_sequence: SequenceExtension {
            is_valid: false,
            profile_and_level: 0,
            progressive: false,
            chroma_format: 0,
            low_delay: false,
            frame_rate_ext_n: 0,
            frame_rate_ext_d: 0,
        },
        ext_display: DisplayExtension {
            is_valid: false,
            video_format: 0,
            color_description: false,
            color: DisplayColor { color_primaries: 0, transfer_characteristics: 0, matrix_coefficients: 0 },
            display_horizontal_size: 0,
            display_vertical_size: 0,
        },
    }
}

/// The fixed 12-byte part of a sequence header in `d` (no extensions).
pub open spec fn base_header(d: Seq<u8>) -> SequenceHeader {
    SequenceHeader {
        horizontal_size: ((d[4] as u16) << 4u16) | ((d[5] as u16 & 0xF0) >> 4u16),
        vertical_size: ((d[5] as u16 & 0x0F) << 8u16) | d[6] as u16,
        aspect_ratio_info: (d[7] & 0xF0) >> 4u8,
        frame_rate_code: d[7] & 0x0F,
        bit_rate: ((d[8] as u32) << 10u32) | ((d[9] as u32) << 2u32) | ((d[10] as u32 & 0xC0) >> 6u32),
        marker_bit: (d[10] & 0x20) != 0,
        vbv_buffer_size: (((d[10] & 0x1F) as u32) << 5u32) | ((d[11] & 0xF8) as u32 >> 3u32),
        constrained_parameters_flag: (d[11] & 0x04) != 0,
        load_intra_quantiser_matrix: (d[11] & 0x02) != 0,
        load_non_intra_quantiser_matrix: (d[11] & 0x01) != 0,
        ..zero_sequence_header()
    }
}

/// Where the fields of the fixed part of a sequence header are: the
/// horizontal size is byte 4 and the high four bits of byte 5, the vertical
/// size the low four bits of byte 5 and byte 6; the aspect ratio and frame
/// rate codes are the two halves of byte 7; the bit rate is bytes 8 and 9
/// and bits 7..6 of byte 10, the marker bit bit 5 of byte 10, the VBV
/// buffer size bits 4..0 of byte 10 and bits 7..3 of byte 11, and the
/// constrained parameters and quantiser matrix flags bits 2, 1 and 0 of
/// byte 11.
pub proof fn lemma_sequence_header_layout(d: Seq<u8>)
    requires
        d.len() >= 12,
    ensures
        ({
            let h = base_header(d);
            &&& h.horizontal_size == d[4] * 16 + d[5] / 16
            &&& h.vertical_size == (d[5] % 16) * 0x100 + d[6]
            &&& h.aspect_ratio_info == d[7] / 16
            &&& h.frame_rate_code == d[7] % 16
            &&& h.bit_rate == d[8] * 0x400 + d[9] * 4 + d[10] / 64
            &&& h.marker_bit == ((d[10] / 32) % 2 == 1)
            &&& h.vbv_buffer_size == (d[10] % 32) * 32 + d[11] / 8
            &&& h.constrained_parameters_flag == ((d[11] / 4) % 2 == 1)
            &&& h.load_intra_quantiser_matrix == ((d[11] / 2) % 2 == 1)
            &&& h.load_non_intra_quantiser_matrix == (d[11] % 2 == 1)
        }),
{
    let (b4, b5, b6, b7, b8, b9, b10, b11) = (d[4], d[5], d[6], d[7], d[8], d[9], d[10], d[11]);
    assert(((b4 as u16) << 4u16) | ((b5 as u16 & 0xF0) >> 4u16) == b4 * 16 + b5 / 16
        && ((b5 as u16 & 0x0F) << 8u16) | b6 as u16 == (b5 % 16) * 0x100 + b6
        && (b7 & 0xF0) >> 4u8 == b7 / 16 && b7 & 0x0F == b7 % 16
        && ((b8 as u32) << 10u32) | ((b9 as u32) << 2u32) | ((b10 as u32 & 0xC0) >> 6u32) == b8 * 0x400 + b9 * 4 + b10 / 64
        && ((b10 & 0x20) != 0) == ((b10 / 32) % 2 == 1)
        && (((b10 & 0x1F) as u32) << 5u32) | ((b11 & 0xF8) as u32 >> 3u32) == (b10 % 32) * 32 + b11 / 8
        && ((b11 & 0x04) != 0) == ((b11 / 4) % 2 == 1) && ((b11 & 0x02) != 0) == ((b11 / 2) % 2 == 1)
        && ((b11 & 0x01) != 0) == (b11 % 2 == 1)) by (bit_vector);
}

/// Length of the sequence header proper (with its quantiser matrices).
pub open spec fn header_size(h: SequenceHeader) -> int {
    12 + (if h.load_intra_quantiser_matrix { 64int } else { 0 }) + (if h.load_non_intra_quantiser_matrix { 64int } else { 0 })
}

/// Whether the fixed fields of a sequence header are acceptable.
pub open spec fn base_header_valid(h: SequenceHeader) -> bool {
    &&& h.horizontal_size != 0
    &&& h.vertical_size != 0
    &&& 1 <= h.aspect_ratio_info <= 4
    &&& 1 <= h.frame_rate_code <= 8
    &&& h.marker_bit
    &&& !h.constrained_parameters_flag
}

/// The fields set by a sequence extension at `j` before its marker bit is checked.
pub open spec fn seq_ext_first(d: Seq<u8>, j: int, h: SequenceHeader) -> SequenceHeader {
    let h_ext = (((d[j + 1] & 0x01) as u16) << 1u16) | ((d[j + 2] & 0x80) as u16 >> 7u16);
    let v_ext = ((d[j + 2] & 0x60) as u16) >> 5u16;
    SequenceHeader {
        horizontal_size: h.horizontal_size | (h_ext << 12u16),
        vertical_size: h.vertical_size | (v_ext << 12u16),
        bit_rate: h.bit_rate | (((d[j + 2] & 0x1F) as u32) << 7u32 | ((d[j + 3] as u32) >> 1u32) << 18u32),
        ext_sequence: SequenceExtension {
            profile_and_level: ((d[j] & 0x0F) << 4u8) | (d[j + 1] >> 4u8),
            progressive: (d[j + 1] & 0x08) != 0,
            chroma_format: (d[j + 1] & 0x06) >> 1u8,
            ..h.ext_sequence
        },
        ..h
    }
}

/// Where a sequence extension at `j` keeps its fields: the profile and
/// level are the low four bits of byte `j` and the high four of byte
/// `j + 1`; progressive_sequence is bit 3 of byte `j + 1` and the chroma
/// format its bits 2..1; the two extension bits of the horizontal size are
/// bit 0 of byte `j + 1` and bit 7 of byte `j + 2`, and those of the
/// vertical size bits 6..5 of byte `j + 2`, both placed above the twelve
/// bits of the base header.
pub proof fn lemma_sequence_extension_layout(d: Seq<u8>, j: int, h: SequenceHeader)
    requires
        0 <= j,
        j + 3 < d.len(),
        h.horizontal_size < 0x1000,
        h.vertical_size < 0x1000,
    ensures
        ({
            let r = seq_ext_first(d, j, h);
            &&& r.ext_sequence.profile_and_level == (d[j] % 16) * 16 + d[j + 1] / 16
            &&& r.ext_sequence.progressive == ((d[j + 1] / 8) % 2 == 1)
            &&& r.ext_sequence.chroma_format == (d[j + 1] / 2) % 4
            &&& r.horizontal_size == h.horizontal_size + ((d[j + 1] % 2) * 2 + d[j + 2] / 128) * 0x1000
            &&& r.vertical_size == h.vertical_size + ((d[j + 2] / 32) % 4) * 0x1000
            &&& r.aspect_ratio_info == h.aspect_ratio_info
            &&& r.frame_rate_code == h.frame_rate_code
            &&& r.ext_sequence.is_valid == h.ext_sequence.is_valid
        }),
{
    let (b0, b1, b2) = (d[j], d[j + 1], d[j + 2]);
    let (hs, vs) = (h.horizontal_size, h.vertical_size);
    assert(((b0 & 0x0F) << 4u8) | (b1 >> 4u8) == (b0 % 16) * 16 + b1 / 16
        && ((b1 & 0x08) != 0) == ((b1 / 8) % 2 == 1)
        && (b1 & 0x06) >> 1u8 == (b1 / 2) % 4
        && hs | (((((b1 & 0x01) as u16) << 1u16) | ((b2 & 0x80) as u16 >> 7u16)) << 12u16)
            == hs + ((b1 % 2) * 2 + b2 / 128) * 0x1000
        && vs | ((((b2 & 0x60) as u16) >> 5u16) << 12u16) == vs + ((b2 / 32) % 4) * 0x1000) by (bit_vector)
        requires
            hs < 0x1000,
            vs < 0x1000;
}

/// The fields set by a sequence extension at `j` once its marker bit is present.
pub open spec fn seq_ext_rest(d: Seq<u8>, j: int, h: SequenceHeader) -> SequenceHeader {
    SequenceHeader {
        vbv_buffer_size: h.vbv_buffer_size | ((d[j + 4] as u32) << 10u32),
        ext_sequence: SequenceExtension {
            low_delay: (d[j + 5] & 0x80) != 0,
            frame_rate_ext_n: (d[j + 5] & 0x60) >> 5u8,
            frame_rate_ext_d: (d[j + 5] & 0x18) >> 3u8,
            is_valid: true,
            ..h.ext_sequence
        },
        ..h
    }
}

/// The fields set by the start of a display extension at `j`.
pub open spec fn disp_ext_first(d: Seq<u8>, j: int, h: SequenceHeader) -> SequenceHeader {
    SequenceHeader {
        ext_display: DisplayExtension {
            video_format: (d[j] & 0x0E) >> 1u8,
            color_description: (d[j] & 0x01) != 0,
            ..h.ext_display
        },
        ..h
    }
}

/// The colour description of a display extension at `j`.
pub open spec fn disp_ext_color(d: Seq<u8>, j: int, h: SequenceHeader) -> SequenceHeader {
    SequenceHeader {
        ext_display: DisplayExtension {
            color: DisplayColor {
                color_primaries: d[j + 1],
                transfer_characteristics: d[j + 2],
                matrix_coefficients: d[j + 3],
            },
            ..h.ext_display
        },
        ..h
    }
}

/// The display size of a display extension whose size fields start at `k`.
pub open spec fn disp_ext_size(d: Seq<u8>, k: int, h: SequenceHeader) -> SequenceHeader {
    SequenceHeader {
        ext_display: DisplayExtension {
            display_horizontal_size: ((d[k + 1] as u16) << 6u16) | ((d[k + 2] & 0xFC) as u16 >> 2u16),
            display_vertical_size: (((d[k + 2] & 0x01) as u16) << 13u16) | ((d[k + 3] as u16) << 5u16) | ((d[k + 4] & 0xF8) as u16 >> 3u16),
            is_valid: true,
            ..h.ext_display
        },
        ..h
    }
}

/// One extension found right after an extension start code, with its body at `j`.
/// Returns whether scanning goes on, where it resumes, and the header so far.
pub open spec fn ext_step(d: Seq<u8>, j: int, h: SequenceHeader) -> (bool, int, SequenceHeader) {
    let ext_id = d[j] >> 4u8;
    if ext_id == 1 {
        if j + 6 > d.len() {
            (false, j, h)
        } else {
            let h1 = seq_ext_first(d, j, h);
            if d[j + 3] & 0x01 == 0 {
                (false, j, h1)
            } else {
                (true, j + 6, seq_ext_rest(d, j, h1))
            }
        }
    } else if ext_id == 2 {
        if j + 5 > d.len() {
            (false, j, h)
        } else {
            let h1 = disp_ext_first(d, j, h);
            if h1.ext_display.color_description && j + 8 > d.len() {
                (false, j, h1)
            } else {
                let h2 = if h1.ext_display.color_description { disp_ext_color(d, j, h1) } else { h1 };
                let k = if h1.ext_display.color_description { j + 3 } else { j };
                if d[k + 2] & 0x02 == 0 || d[k + 4] & 0x07 != 0 {
                    (false, k, h2)
                } else {
                    (true, k + 5, disp_ext_size(d, k, h2))
                }
            }
        }
    } else {
        (true, j, h)
    }
}

/// Scanning `d` from `i` up to `end` for extension start codes.
pub open spec fn scan_extensions(d: Seq<u8>, i: int, end: int, sync: u32, h: SequenceHeader) -> SequenceHeader
    decreases end - i,
{
    if i >= end || i < 0 {
        h
    } else {
        let sync2 = (sync << 8u32) | (d[i] as u32);
        if sync2 == 0x0000_01B5 {
            let (cont, next, h2) = ext_step(d, i + 1, h);
            if cont && i < next < end {
                scan_extensions(d, next, end, sync2, h2)
            } else {
                h2
            }
        } else {
            scan_extensions(d, i + 1, end, sync2, h)
        }
    }
}

/// The sequence header in `d`, if `d` starts with a valid one.
pub open spec fn parse_sequence_header(d: Seq<u8>) -> Option<SequenceHeader> {
    if d.len() < 12 {
        None
    } else if d[0] != 0x00 || d[1] != 0x00 || d[2] != 0x01 || d[3] != 0xB3 {
        None
    } else {
        let h = base_header(d);
        let size = header_size(h);
        if d.len() < size || !base_header_valid(h) {
            None
        } else {
            let end = if d.len() - 1 < size + 1024 { d.len() - 1 } else { size + 1024 };
            Some(scan_extensions(d, size, end, 0xFFFF_FFFF, h))
        }
    }
}

fn seq_ext_first_exec(d: &[u8], j: usize, h: SequenceHeader) -> (r: SequenceHeader)
    requires
        j + 6 <= d@.len(),
    ensures
        r == seq_ext_first(d@, j as int, h),
{
    let _len = d.len();
    let h_ext = (((d[j + 1] & 0x01) as u16) << 1u16) | ((d[j + 2] & 0x80) as u16 >> 7u16);
    let v_ext = ((d[j + 2] & 0x60) as u16) >> 5u16;
    SequenceHeader {
        horizontal_size: h.horizontal_size | (h_ext << 12u16),
        vertical_size: h.vertical_size | (v_ext << 12u16),
        bit_rate: h.bit_rate | (((d[j + 2] & 0x1F) as u32) << 7u32 | ((d[j + 3] as u32) >> 1u32) << 18u32),
        ext_sequence: SequenceExtension {
            profile_and_level: ((d[j] & 0x0F) << 4u8) | (d[j + 1] >> 4u8),
            progressive: (d[j + 1] & 0x08) != 0,
            chroma_format: (d[j + 1] & 0x06) >> 1u8,
            ..h.ext_sequence
        },
        ..h
    }
}

fn seq_ext_rest_exec(d: &[u8], j: usize, h: SequenceHeader) -> (r: SequenceHeader)
    requires
        j + 6 <= d@.len(),
    ensures
        r == seq_ext_rest(d@, j as int, h),
{
    let _len = d.len();
    SequenceHeader {
        vbv_buffer_size: h.vbv_buffer_size | ((d[j + 4] as u32) << 10u32),
        ext_sequence: SequenceExtension {
            low_delay: (d[j + 5] & 0x80) != 0,
            frame_rate_ext_n: (d[j + 5] & 0x60) >> 5u8,
            frame_rate_ext_d: (d[j + 5] & 0x18) >> 3u8,
            is_valid: true,
            ..h.ext_sequence
        },
        ..h
    }
}

fn disp_ext_first_exec(d: &[u8], j: usize, h: SequenceHeader) -> (r: SequenceHeader)
    requires
        j < d@.len(),
    ensures
        r == disp_ext_first(d@, j as int, h),
{
    SequenceHeader {
        ext_display: DisplayExtension {
            video_format: (d[j] & 0x0E) >> 1u8,
            color_description: (d[j] & 0x01) != 0,
            ..h.ext_display
        },
        ..h
    }
}

fn disp_ext_color_exec(d: &[u8], j: usize, h: SequenceHeader) -> (r: SequenceHeader)
    requires
        j + 4 <= d@.len(),
    ensures
        r == disp_ext_color(d@, j as int, h),
{
    let _len = d.len();
    SequenceHeader {
        ext_display: DisplayExtension {
            color: DisplayColor {
                color_primaries: d[j + 1],
                transfer_characteristics: d[j + 2],
                matrix_coefficients: d[j + 3],
            },
            ..h.ext_display
        },
        ..h
    }
}

fn disp_ext_size_exec(d: &[u8], k: usize, h: SequenceHeader) -> (r: SequenceHeader)
    requires
        k + 5 <= d@.len(),
    ensures
        r == disp_ext_size(d@, k as int, h),
{
    let _len = d.len();
    SequenceHeader {
        ext_display: DisplayExtension {
            display_horizontal_size: ((d[k + 1] as u16) << 6u16) | ((d[k + 2] & 0xFC) as u16 >> 2u16),
            display_vertical_size: (((d[k + 2] & 0x01) as u16) << 13u16) | ((d[k + 3] as u16) << 5u16) | ((d[k + 4] & 0xF8) as u16 >> 3u16),
            is_valid: true,
            ..h.ext_display
        },
        ..h
    }
}

fn ext_step_exec(d: &[u8], i: usize, h: SequenceHeader) -> (r: (bool, usize, SequenceHeader))
    requires
        i < d@.len(),
    ensures
        ({
            let (cont, next, h2) = ext_step(d@, i as int, h);
            r.0 == cont && r.1 as int == next && r.2 == h2
        }),
        r.1 <= d@.len(),
        r.1 >= i,
{
    let len = d.len();
    let ext_id = d[i] >> 4u8;
    if ext_id == 1 {
        if len - i < 6 {
            return (false, i, h);
        }
        let h1 = seq_ext_first_exec(d, i, h);
        if (d[i + 3] & 0x01) == 0 {
            return (false, i, h1);
        }
        (true, i + 6, seq_ext_rest_exec(d, i, h1))
    } else if ext_id == 2 {
        if len - i < 5 {
            return (false, i, h);
        }
        let h1 = disp_ext_first_exec(d, i, h);
        let color = h1.ext_display.color_description;
        if color && len - i < 8 {
            return (false, i, h1);
        }
        let h2 = if color { disp_ext_color_exec(d, i, h1) } else { h1 };
        let k = if color { i + 3 } else { i };
        if (d[k + 2] & 0x02) == 0 || (d[k + 4] & 0x07) != 0 {
            return (false, k, h2);
        }
        (true, k + 5, disp_ext_size_exec(d, k, h2))
    } else {
        (true, i, h)
    }
}

/// An MPEG-2 sequence: the raw bytes from a sequence start code, and the header parsed from them.
#[derive(Debug)]
pub struct Mpeg2Sequence {
    data: Vec<u8>,
    pub header: SequenceHeader,
}

impl Clone for Mpeg2Sequence {
    fn clone(&self) -> (r: Self)
        ensures
            r.bytes() == self.bytes(),
            r.seq_header() == self.seq_header(),
    {
        Mpeg2Sequence { data: self.data.clone(), header: self.header }
    }
}

impl Default for Mpeg2Sequence {
    fn default() -> (r: Self)
        ensures
            r.bytes() == Seq::<u8>::empty(),
            r.seq_header() == zero_sequence_header(),
    {
        Mpeg2Sequence::new()
    }
}

impl Mpeg2Sequence {
    /// The raw bytes held.
    pub closed spec fn bytes(&self) -> Seq<u8> {
        self.data@
    }

    /// The parsed header.
    pub closed spec fn seq_header(&self) -> SequenceHeader {
        self.header
    }

    /// An empty sequence.
    pub fn new() -> (r: Self)
        ensures
            r.bytes() == Seq::<u8>::empty(),
            r.seq_header() == zero_sequence_header(),
    {
        Mpeg2Sequence { data: Vec::new(), header: new_sequence_header() }
    }

    /// The raw bytes held.
    pub fn get_data(&self) -> (r: &[u8])
        ensures
            r@ == self.bytes(),
    {
        self.data.as_slice()
    }

    /// The number of raw bytes held.
    pub fn get_size(&self) -> (r: usize)
        ensures
            r == self.bytes().len(),
    {
        self.data.len()
    }

    /// Drops the raw bytes (the header is kept).
    pub fn clear_size(&mut self)
        ensures
            final(self).bytes() == Seq::<u8>::empty(),
            final(self).seq_header() == old(self).seq_header(),
    {
        self.data.clear();
    }

    /// Replaces the raw bytes.
    pub fn set_data(&mut self, bytes: &[u8])
        ensures
            final(self).bytes() == bytes@,
            final(self).seq_header() == old(self).seq_header(),
    {
        self.data.clear();
        self.data.extend_from_slice(bytes);
    }

    /// Appends raw bytes and returns the new size.
    pub fn add_data(&mut self, bytes: &[u8]) -> (r: usize)
        ensures
            final(self).bytes() == old(self).bytes() + bytes@,
            final(self).seq_header() == old(self).seq_header(),
            r == final(self).bytes().len(),
    {
        self.data.extend_from_slice(bytes);
        self.data.len()
    }

    /// Drops the last `n` raw bytes (all of them when fewer are held).
    pub fn trim_tail(&mut self, n: usize)
        ensures
            final(self).bytes() == if n <= old(self).bytes().len() {
                old(self).bytes().subrange(0, old(self).bytes().len() - n)
            } else {
                Seq::<u8>::empty()
            },
            final(self).seq_header() == old(self).seq_header(),
    {
        let len = self.data.len();
        if n <= len {
            self.data.truncate(len - n);
        } else {
            self.data.clear();
        }
    }

    /// Parses the sequence header held in the raw bytes. On success the header is
    /// replaced; on failure it is left as it was.
    pub fn parse_header(&mut self) -> (r: bool)
        ensures
            final(self).bytes() == old(self).bytes(),
            r == parse_sequence_header(old(self).bytes()) is Some,
            match parse_sequence_header(old(self).bytes()) {
                Some(h) => final(self).seq_header() == h,
                None => final(self).seq_header() == old(self).seq_header(),
            },
    {
        let d = &self.data;
        let len = d.len();
        let mut header_size: usize = 12;
        if len < header_size {
            return false;
        }
        if d[0] != 0x00 || d[1] != 0x00 || d[2] != 0x01 || d[3] != 0xB3 {
            return false;
        }
        let mut h = new_sequence_header();
        h.horizontal_size = ((d[4] as u16) << 4u16) | ((d[5] as u16 & 0xF0) >> 4u16);
        h.vertical_size = ((d[5] as u16 & 0x0F) << 8u16) | d[6] as u16;
        h.aspect_ratio_info = (d[7] & 0xF0) >> 4u8;
        h.frame_rate_code = d[7] & 0x0F;
        h.bit_rate = ((d[8] as u32) << 10u32) | ((d[9] as u32) << 2u32) | ((d[10] as u32 & 0xC0) >> 6u32);
        h.marker_bit = (d[10] & 0x20) != 0;
        h.vbv_buffer_size = (((d[10] & 0x1F) as u32) << 5u32) | ((d[11] & 0xF8) as u32 >> 3u32);
        h.constrained_parameters_flag = (d[11] & 0x04) != 0;
        h.load_intra_quantiser_matrix = (d[11] & 0x02) != 0;
        h.load_non_intra_quantiser_matrix = (d[11] & 0x01) != 0;
        assert(h == base_header(d@));
        if h.load_intra_quantiser_matrix {
            header_size = header_size + 64;
            if len < header_size {
                return false;
            }
        }
        if h.load_non_intra_quantiser_matrix {
            header_size = header_size + 64;
            if len < header_size {
                return false;
            }
        }
        if h.horizontal_size == 0 || h.vertical_size == 0 {
            return false;
        }
        if h.aspect_ratio_info == 0 || h.aspect_ratio_info > 4 {
            return false;
        }
        if h.frame_rate_code == 0 || h.frame_rate_code > 8 {
            return false;
        }
        if !h.marker_bit {
            return false;
        }
        if h.constrained_parameters_flag {
            return false;
        }
        let scan_end = if len - 1 < header_size + 1024 { len - 1 } else { header_size + 1024 };
        let ghost h0 = h;
        let mut sync_state: u32 = 0xFFFF_FFFF;
        let mut i = header_size;
        while i < scan_end
            invariant_except_break
                scan_extensions(d@, i as int, scan_end as int, sync_state, h) == scan_extensions(
                    d@,
                    header_size as int,
                    scan_end as int,
                    0xFFFF_FFFF,
                    h0,
                ),
            invariant
                d@ == old(self).bytes(),
                len == d@.len(),
                scan_end < len,
                header_size <= i <= len,
            ensures
                scan_extensions(d@, header_size as int, scan_end as int, 0xFFFF_FFFF, h0) == h,
            decreases len - i,
        {
            let ghost i0 = i;
            let ghost sync0 = sync_state;
            sync_state = (sync_state << 8u32) | d[i] as u32;
            i = i + 1;
            if sync_state == 0x0000_01B5 {
                let (cont, next, h2) = ext_step_exec(d.as_slice(), i, h);
                h = h2;
                if !cont {
                    break;
                }
                i = next;
            }
        }
        self.header = h;
        true
    }

    /// Clears the raw bytes and the header.
    pub fn reset(&mut self)
        ensures
            final(self).bytes() == Seq::<u8>::empty(),
            final(self).seq_header() == zero_sequence_header(),
    {
        self.data.clear();
        self.header = new_sequence_header();
    }

    /// The display aspect ratio for the header's aspect ratio code, if defined.
    pub fn get_aspect_ratio(&self) -> (r: Option<(u8, u8)>)
        ensures
            r == match self.seq_header().aspect_ratio_info {
                1 => Some((1u8, 1u8)),
                2 => Some((4u8, 3u8)),
                3 => Some((16u8, 9u8)),
                4 => Some((221u8, 100u8)),
                _ => None,
            },
    {
        match self.header.aspect_ratio_info {
            1 => Some((1, 1)),
            2 => Some((4, 3)),
            3 => Some((16, 9)),
            4 => Some((221, 100)),
            _ => None,
        }
    }

    /// The frame rate (numerator, denominator) for the header's frame rate code, if defined.
    pub fn get_frame_rate(&self) -> (r: Option<(u32, u32)>)
        ensures
            r == match self.seq_header().frame_rate_code {
                1 => Some((24000u32, 1001u32)),
                2 => Some((24u32, 1u32)),
                3 => Some((25u32, 1u32)),
                4 => Some((30000u32, 1001u32)),
                5 => Some((30u32, 1u32)),
                6 => Some((50u32, 1u32)),
                7 => Some((60000u32, 1001u32)),
                8 => Some((60u32, 1u32)),
                _ => None,
            },
    {
        match self.header.frame_rate_code {
            1 => Some((24000, 1001)),
            2 => Some((24, 1)),
            3 => Some((25, 1)),
            4 => Some((30000, 1001)),
            5 => Some((30, 1)),
            6 => Some((50, 1)),
            7 => Some((60000, 1001)),
            8 => Some((60, 1)),
            _ => None,
        }
    }
}

// ---------------------------------------------------------------------------
// Elementary stream scanning
// ---------------------------------------------------------------------------

/// State of the video parser: the start-code shift register and the sequence being collected.
pub struct VideoParserModel {
    pub sync: u32,
    pub bytes: Seq<u8>,
    pub header: SequenceHeader,
}

/// Scans `data` from `q` for a sequence start code: returns where scanning
/// stopped (just past the code, or the end) and the shift register there.
pub open spec fn scan_start_code(data: Seq<u8>, q: int, sync: u32) -> (int, u32)
    decreases data.len() - q,
{
    if q >= data.len() || q < 0 {
        (q, sync)
    } else {
        let s2 = (sync << 8u32) | (data[q] as u32);
        if s2 == 0x0000_01B3 {
            (q + 1, s2)
        } else {
            scan_start_code(data, q + 1, s2)
        }
    }
}

/// The collected bytes once a new start code is seen `start` bytes into the chunk at `pos`.
pub open spec fn completed_bytes(buf: Seq<u8>, data: Seq<u8>, pos: int, start: int) -> Seq<u8> {
    if start > 4 {
        buf + data.subrange(pos, pos + start - 4)
    } else if start < 4 {
        if 4 - start <= buf.len() { buf.subrange(0, buf.len() - (4 - start)) } else { Seq::empty() }
    } else {
        buf
    }
}

/// The four bytes of a sequence start code.
pub open spec fn start_code_bytes() -> Seq<u8> {
    seq![0x00u8, 0x00u8, 0x01u8, 0xB3u8]
}

/// Feeding `data` from `pos` on: the final state, whether a sequence end was seen,
/// and the sequences (bytes and parsed header) handed out, in order.
pub open spec fn feed_video(
    data: Seq<u8>,
    pos: int,
    st: VideoParserModel,
    found: bool,
    out: Seq<(Seq<u8>, SequenceHeader)>,
) -> (VideoParserModel, bool, Seq<(Seq<u8>, SequenceHeader)>)
    decreases data.len() - pos,
{
    if pos >= data.len() || pos < 0 {
        (st, found, out)
    } else {
        let (q, s2) = scan_start_code(data, pos, st.sync);
        if q < data.len() && q > pos {
            let (hdr, found1, out1) = if st.bytes.len() >= 4 {
                let b = completed_bytes(st.bytes, data, pos, q - pos);
                match parse_sequence_header(b) {
                    Some(h) => (h, true, out.push((b, h))),
                    None => (st.header, true, out),
                }
            } else {
                (st.header, found, out)
            };
            feed_video(
                data,
                q,
                VideoParserModel { sync: 0xFFFF_FFFF, bytes: start_code_bytes(), header: hdr },
                found1,
                out1,
            )
        } else {
            let b = if st.bytes.len() >= 4 {
                let b1 = st.bytes + data.subrange(pos, data.len() as int);
                if b1.len() >= 0x100_0000 { Seq::empty() } else { b1 }
            } else {
                st.bytes
            };
            (VideoParserModel { sync: s2, bytes: b, header: st.header }, found, out)
        }
    }
}

proof fn lemma_scan_start_code_bounds(data: Seq<u8>, q: int, sync: u32)
    requires
        0 <= q,
    ensures
        q <= scan_start_code(data, q, sync).0,
        q < data.len() ==> q < scan_start_code(data, q, sync).0 <= data.len(),
        scan_start_code(data, q, sync).0 < data.len() ==> scan_start_code(data, q, sync).1 == 0x0000_01B3,
    decreases data.len() - q,
{
    if q < data.len() {
        let s2 = (sync << 8u32) | (data[q] as u32);
        if s2 != 0x0000_01B3 {
            lemma_scan_start_code_bounds(data, q + 1, s2);
        }
    }
}

/// Finds MPEG-2 sequences in an elementary stream.
#[derive(Debug)]
pub struct Mpeg2VideoParser {
    sync_state: u32,
    sequence: Mpeg2Sequence,
}

impl Default for Mpeg2VideoParser {
    fn default() -> (r: Self)
        ensures
            r.model() == (VideoParserModel { sync: 0xFFFF_FFFF, bytes: Seq::empty(), header: zero_sequence_header() }),
    {
        Mpeg2VideoParser::new()
    }
}

/// Whether `handler` was handed each sequence of `out`: there are sequences
/// with the bytes and headers of `out`, in order, and the handler was called
/// with each of them.
pub open spec fn sequences_handed<F: FnMut(&Mpeg2Sequence)>(handler: F, out: Seq<(Seq<u8>, SequenceHeader)>) -> bool {
    exists|given: Seq<Mpeg2Sequence>| #[trigger] sequences_handed_all(handler, out, given)
}

/// `given` holds, in order, sequences with the bytes and headers of `out`,
/// and the handler was called with each of them.
pub open spec fn sequences_handed_all<F: FnMut(&Mpeg2Sequence)>(handler: F, out: Seq<(Seq<u8>, SequenceHeader)>, given: Seq<Mpeg2Sequence>) -> bool {
    &&& given.len() == out.len()
    &&& forall|k: int| 0 <= k < out.len() ==> (#[trigger] given[k]).bytes() == out[k].0 && given[k].seq_header() == out[k].1
    &&& forall|k: int| 0 <= k < given.len() ==> #[trigger] call_ensures(handler, (&given[k],), ())
}

impl Mpeg2VideoParser {
    /// The parser's state.
    pub closed spec fn model(&self) -> VideoParserModel {
        VideoParserModel { sync: self.sync_state, bytes: self.sequence.bytes(), header: self.sequence.seq_header() }
    }

    /// A parser with nothing collected.
    pub fn new() -> (r: Self)
        ensures
            r.model() == (VideoParserModel { sync: 0xFFFF_FFFF, bytes: Seq::empty(), header: zero_sequence_header() }),
    {
        Mpeg2VideoParser { sync_state: 0xFFFF_FFFF, sequence: Mpeg2Sequence::new() }
    }

    /// Forgets everything collected.
    pub fn reset(&mut self)
        ensures
            final(self).model() == (VideoParserModel { sync: 0xFFFF_FFFF, bytes: Seq::empty(), header: zero_sequence_header() }),
    {
        self.sync_state = 0xFFFF_FFFF;
        self.sequence.reset();
    }

    /// Feeds a chunk of the elementary stream. Returns whether a sequence ended in
    /// it, and the sequences whose header parsed, in order.
    pub fn store_es_collect(&mut self, data: &[u8]) -> (r: (bool, Vec<Mpeg2Sequence>))
        ensures
            ({
                let (st, found, out) = feed_video(data@, 0, old(self).model(), false, Seq::empty());
                &&& final(self).model() == st
                &&& r.0 == found
                &&& r.1@.len() == out.len()
                &&& forall|k: int| 0 <= k < out.len() ==> (#[trigger] r.1@[k]).bytes() == out[k].0
                    && r.1@[k].seq_header() == out[k].1
            }),
    {
        let mut emitted: Vec<Mpeg2Sequence> = Vec::new();
        let mut found_sequence = false;
        let mut sync_state = self.sync_state;
        let size = data.len();
        let mut pos: usize = 0;
        let ghost mut out: Seq<(Seq<u8>, SequenceHeader)> = Seq::empty();
        let ghost target = feed_video(data@, 0, old(self).model(), false, Seq::empty());
        while pos < size
            invariant_except_break
                feed_video(data@, pos as int, VideoParserModel { sync: sync_state, ..self.model() }, found_sequence, out) == target,
            invariant
                size == data@.len(),
                pos <= size,
                emitted@.len() == out.len(),
                forall|k: int| 0 <= k < out.len() ==> (#[trigger] emitted@[k]).bytes() == out[k].0
                    && emitted@[k].seq_header() == out[k].1,
            ensures
                target == (VideoParserModel { sync: sync_state, ..self.model() }, found_sequence, out),
            decreases size - pos,
        {
            let ghost st0 = VideoParserModel { sync: sync_state, ..self.model() };
            let ghost sync0 = sync_state;
            let remain = size - pos;
            let mut start: usize = 0;
            proof {
                lemma_scan_start_code_bounds(data@, pos as int, sync0);
            }
            while start < remain
                invariant_except_break
                    scan_start_code(data@, (pos + start) as int, sync_state) == scan_start_code(data@, pos as int, sync0),
                invariant
                    remain == size - pos,
                    pos < size,
                    size == data@.len(),
                    start <= remain,
                    start > 0 || sync_state == sync0,
                ensures
                    start <= remain,
                    start > 0,
                    scan_start_code(data@, pos as int, sync0) == ((pos + start) as int, sync_state),
                decreases remain - start,
            {
                sync_state = (sync_state << 8u32) | data[pos + start] as u32;
                start = start + 1;
                if sync_state == 0x0000_01B3 {
                    break;
                }
            }
            if start < remain {
                if self.sequence.get_size() >= 4 {
                    if start > 4 {
                        let chunk = slice_range_u8(data, pos, pos + start - 4);
                        self.sequence.add_data(chunk);
                    } else if start < 4 {
                        self.sequence.trim_tail(4 - start);
                    }
                    if self.sequence.parse_header() {
                        let copy = self.sequence.clone();
                        emitted.push(copy);
                        proof {
                            out = out.push((copy.bytes(), copy.seq_header()));
                        }
                    }
                    self.sequence.clear_size();
                    found_sequence = true;
                }
                let sc_bytes: [u8; 4] = [0x00, 0x00, 0x01, 0xB3];
                self.sequence.set_data(&sc_bytes);
                assert(self.sequence.bytes() =~= start_code_bytes());
                sync_state = 0xFFFF_FFFF;
                pos = pos + start;
            } else {
                if self.sequence.get_size() >= 4 {
                    let rest = slice_range_u8(data, pos, size);
                    let added = self.sequence.add_data(rest);
                    if added >= 0x100_0000 {
                        self.sequence.clear_size();
                    }
                }
                break;
            }
        }
        self.sync_state = sync_state;
        (found_sequence, emitted)
    }

    /// Feeds a chunk of the elementary stream, handing each sequence whose header
    /// parsed to `handler`. Returns whether a sequence ended in the chunk.
    pub fn store_es<F: FnMut(&Mpeg2Sequence)>(&mut self, data: &[u8], handler: &mut F) -> (r: bool)
        requires
            forall|s: &Mpeg2Sequence| #[trigger] call_requires(*old(handler), (s,)),
        ensures
            ({
                let (st, found, out) = feed_video(data@, 0, old(self).model(), false, Seq::empty());
                &&& final(self).model() == st
                &&& r == found
                &&& sequences_handed(*old(handler), out)
            }),
            *final(handler) == *old(handler),
    {
        let (found, seqs) = self.store_es_collect(data);
        let mut k: usize = 0;
        while k < seqs.len()
            invariant
                k <= seqs@.len(),
                *handler == *old(handler),
                forall|s: &Mpeg2Sequence| #[trigger] call_requires(*handler, (s,)),
                forall|j: int| 0 <= j < k ==> #[trigger] call_ensures(*old(handler), (&seqs@[j],), ()),
            decreases seqs.len() - k,
        {
            handler(&seqs[k]);
            k = k + 1;
        }
        proof {
            let out = feed_video(data@, 0, old(self).model(), false, Seq::empty()).2;
            assert(sequences_handed_all(*old(handler), out, seqs@));
        }
        found
    }
}

fn slice_range_u8(s: &[u8], start: usize, end: usize) -> (r: &[u8])
    requires
        start <= end <= s@.len(),
    ensures
        r@ == s@.subrange(start as int, end as int),
{
    &s[start..end]
}

} // verus!
