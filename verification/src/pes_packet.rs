//! PES packets: header parsing and reassembly from transport stream packets.
use vstd::prelude::*;
use crate::ts_packet::{TsPacket, payload_start};
use crate::ts_packet::TSPacketHeader;
use crate::utilities::{extend_bytes, sub_slice};

verus! {

/// PTS clock frequency (90 kHz).
pub const PTS_CLOCK: i64 = 90000;

/// Whether a PES packet with this stream id carries the optional PES header.
pub open spec fn has_additional_header(id: u8) -> bool {
    id != 0xBC && id != 0xBE && id != 0xBF && id != 0xF0 && id != 0xF1 && id != 0xFF && id != 0xF2 && id != 0xF8
}

fn is_additional_header_stream_id(id: u8) -> (r: bool)
    ensures
        r == has_additional_header(id),
{
    id != 0xBC && id != 0xBE && id != 0xBF && id != 0xF0 && id != 0xF1 && id != 0xFF && id != 0xF2 && id != 0xF8
}

/// The 33-bit time stamp encoded in five bytes.
pub open spec fn pts_of(p: Seq<u8>) -> i64 {
    let high = ((((p[0] as u32) & 0x0E) << 14u32) | ((p[1] as u32) << 7u32) | ((p[2] as u32) >> 1u32)) as i64;
    let low = (((p[3] as u32) << 7u32) | ((p[4] as u32) >> 1u32)) as i64;
    (high << 15i64) | low
}

/// How a 33-bit time stamp is laid out in five bytes: bits 3..1 of byte 0
/// hold bits 32..30, byte 1 bits 29..22, bits 7..1 of byte 2 bits 21..15,
/// byte 3 bits 14..7 and bits 7..1 of byte 4 bits 6..0; the other bits
/// (prefix and marker bits) are not read. The stamp is below 2 to the 33.
pub proof fn lemma_pts_layout(p: Seq<u8>)
    requires
        p.len() >= 5,
    ensures
        pts_of(p) == ((p[0] / 2) % 8) * 0x4000_0000 + p[1] * 0x40_0000 + (p[2] / 2) * 0x8000 + p[3] * 0x80 + p[4] / 2,
        0 <= pts_of(p) < 0x2_0000_0000,
{
    let (b0, b1, b2, b3, b4) = (p[0], p[1], p[2], p[3], p[4]);
    let high = ((((b0 as u32) & 0x0E) << 14u32) | ((b1 as u32) << 7u32) | ((b2 as u32) >> 1u32)) as i64;
    let low = (((b3 as u32) << 7u32) | ((b4 as u32) >> 1u32)) as i64;
    assert((high << 15i64) | low == ((b0 / 2) % 8) * 0x4000_0000 + b1 * 0x40_0000 + (b2 / 2) * 0x8000 + b3 * 0x80 + b4 / 2)
        by (bit_vector)
        requires
            high == ((((b0 as u32) & 0x0E) << 14u32) | ((b1 as u32) << 7u32) | ((b2 as u32) >> 1u32)) as i64,
            low == (((b3 as u32) << 7u32) | ((b4 as u32) >> 1u32)) as i64;
}

/// The five bytes of time stamp `t` with the four-bit `prefix` in front and
/// the marker bits set.
pub open spec fn pts_bytes(t: int, prefix: int) -> Seq<u8> {
    seq![
        (prefix * 16 + ((t / 0x4000_0000) % 8) * 2 + 1) as u8,
        ((t / 0x40_0000) % 0x100) as u8,
        (((t / 0x8000) % 0x80) * 2 + 1) as u8,
        ((t / 0x80) % 0x100) as u8,
        ((t % 0x80) * 2 + 1) as u8,
    ]
}

/// A time stamp written into five bytes reads back unchanged.
pub proof fn lemma_pts_round_trip(t: int, prefix: int)
    requires
        0 <= t < 0x2_0000_0000,
        0 <= prefix < 16,
    ensures
        pts_of(pts_bytes(t, prefix)) == t,
{
    let p = pts_bytes(t, prefix);
    lemma_pts_layout(p);
    assert(p[0] as int == prefix * 16 + ((t / 0x4000_0000) % 8) * 2 + 1);
    assert(p[1] as int == (t / 0x40_0000) % 0x100);
    assert(p[2] as int == ((t / 0x8000) % 0x80) * 2 + 1);
    assert(p[3] as int == (t / 0x80) % 0x100);
    assert(p[4] as int == (t % 0x80) * 2 + 1);
    assert((p[0] / 2) % 8 == (t / 0x4000_0000) % 8);
    assert(p[2] / 2 == (t / 0x8000) % 0x80);
    assert(p[4] / 2 == t % 0x80);
    assert(((t / 0x4000_0000) % 8) * 0x4000_0000 + ((t / 0x40_0000) % 0x100) * 0x40_0000
        + ((t / 0x8000) % 0x80) * 0x8000 + ((t / 0x80) % 0x100) * 0x80 + t % 0x80 == t) by (nonlinear_arith)
        requires
            0 <= t < 0x2_0000_0000;
}

/// Reads a 33-bit PTS/DTS value from a five-byte field.
pub fn get_pts(p: &[u8]) -> (r: i64)
    requires
        p@.len() >= 5,
    ensures
        r == pts_of(p@),
{
    let high = ((((p[0] as u32) & 0x0E) << 14u32) | ((p[1] as u32) << 7u32) | ((p[2] as u32) >> 1u32)) as i64;
    let low = (((p[3] as u32) << 7u32) | ((p[4] as u32) >> 1u32)) as i64;
    (high << 15i64) | low
}

/// Fields of a PES header.
#[derive(Debug, Clone, Copy, Default, PartialEq, Eq, Structural)]
pub struct PesHeader {
    pub stream_id: u8,
    pub packet_length: u16,
    pub scrambling_control: u8,
    pub priority: bool,
    pub data_alignment_indicator: bool,
    pub copyright: bool,
    pub original_or_copy: bool,
    pub pts_dts_flags: u8,
    pub escr_flag: bool,
    pub es_rate_flag: bool,
    pub dsm_trick_mode_flag: bool,
    pub additional_copy_info_flag: bool,
    pub crc_flag: bool,
    pub extension_flag: bool,
    pub header_data_length: u8,
}

/// The all-zero PES header.
pub open spec fn zero_pes_header() -> PesHeader {
    PesHeader {
        stream_id: 0,
        packet_length: 0,
        scrambling_control: 0,
        priority: false,
        data_alignment_indicator: false,
        copyright: false,
        original_or_copy: false,
        pts_dts_flags: 0,
        escr_flag: false,
        es_rate_flag: false,
        dsm_trick_mode_flag: false,
        additional_copy_info_flag: false,
        crc_flag: false,
        extension_flag: false,
        header_data_length: 0,
    }
}

fn new_pes_header() -> (r: PesHeader)
    ensures
        r == zero_pes_header(),
{
    PesHeader {
        stream_id: 0,
        packet_length: 0,
        scrambling_control: 0,
        priority: false,
        data_alignment_indicator: false,
        copyright: false,
        original_or_copy: false,
        pts_dts_flags: 0,
        escr_flag: false,
        es_rate_flag: false,
        dsm_trick_mode_flag: false,
        additional_copy_info_flag: false,
        crc_flag: false,
        extension_flag: false,
        header_data_length: 0,
    }
}

/// The optional-header fields of bytes 6..9 of `d`, on top of `h`.
pub open spec fn optional_fields(d: Seq<u8>, h: PesHeader) -> PesHeader {
    PesHeader {
        scrambling_control: (d[6] & 0x30) >> 4u8,
        priority: (d[6] & 0x08) != 0,
        data_alignment_indicator: (d[6] & 0x04) != 0,
        copyright: (d[6] & 0x02) != 0,
        original_or_copy: (d[6] & 0x01) != 0,
        pts_dts_flags: (d[7] & 0xC0) >> 6u8,
        escr_flag: (d[7] & 0x20) != 0,
        es_rate_flag: (d[7] & 0x10) != 0,
        dsm_trick_mode_flag: (d[7] & 0x08) != 0,
        additional_copy_info_flag: (d[7] & 0x04) != 0,
        crc_flag: (d[7] & 0x02) != 0,
        extension_flag: (d[7] & 0x01) != 0,
        header_data_length: d[8],
        ..h
    }
}

/// Where the optional-header fields are: the scrambling control, priority,
/// data alignment, copyright and original/copy bits are bits 5..4, 3, 2, 1
/// and 0 of byte 6; the PTS/DTS flags bits 7..6 of byte 7, then the ESCR,
/// ES rate, DSM trick mode, additional copy info, CRC and extension flags
/// its bits 5 to 0; and the header data length is byte 8.
pub proof fn lemma_optional_fields_layout(d: Seq<u8>, h: PesHeader)
    requires
        d.len() >= 9,
    ensures
        ({
            let f = optional_fields(d, h);
            &&& f.scrambling_control == (d[6] / 16) % 4
            &&& f.priority == ((d[6] / 8) % 2 == 1)
            &&& f.data_alignment_indicator == ((d[6] / 4) % 2 == 1)
            &&& f.copyright == ((d[6] / 2) % 2 == 1)
            &&& f.original_or_copy == (d[6] % 2 == 1)
            &&& f.pts_dts_flags == d[7] / 64
            &&& f.escr_flag == ((d[7] / 32) % 2 == 1)
            &&& f.es_rate_flag == ((d[7] / 16) % 2 == 1)
            &&& f.dsm_trick_mode_flag == ((d[7] / 8) % 2 == 1)
            &&& f.additional_copy_info_flag == ((d[7] / 4) % 2 == 1)
            &&& f.crc_flag == ((d[7] / 2) % 2 == 1)
            &&& f.extension_flag == (d[7] % 2 == 1)
            &&& f.header_data_length == d[8]
            &&& f.stream_id == h.stream_id
            &&& f.packet_length == h.packet_length
        }),
{
    let (b6, b7) = (d[6], d[7]);
    assert((b6 & 0x30) >> 4u8 == (b6 / 16) % 4 && ((b6 & 0x08) != 0) == ((b6 / 8) % 2 == 1)
        && ((b6 & 0x04) != 0) == ((b6 / 4) % 2 == 1) && ((b6 & 0x02) != 0) == ((b6 / 2) % 2 == 1)
        && ((b6 & 0x01) != 0) == (b6 % 2 == 1) && (b7 & 0xC0) >> 6u8 == b7 / 64
        && ((b7 & 0x20) != 0) == ((b7 / 32) % 2 == 1) && ((b7 & 0x10) != 0) == ((b7 / 16) % 2 == 1)
        && ((b7 & 0x08) != 0) == ((b7 / 8) % 2 == 1) && ((b7 & 0x04) != 0) == ((b7 / 4) % 2 == 1)
        && ((b7 & 0x02) != 0) == ((b7 / 2) % 2 == 1) && ((b7 & 0x01) != 0) == (b7 % 2 == 1)) by (bit_vector);
}

/// Parsing the PES header at the start of `d`: whether it is acceptable, and the fields read.
pub open spec fn parse_pes_header(d: Seq<u8>) -> (bool, PesHeader) {
    if d.len() < 6 || d[0] != 0x00 || d[1] != 0x00 || d[2] != 0x01 {
        (false, zero_pes_header())
    } else {
        let h = PesHeader {
            stream_id: d[3],
            packet_length: (d[4] as int * 0x100 + d[5] as int) as u16,
            ..zero_pes_header()
        };
        if !has_additional_header(h.stream_id) {
            (true, h)
        } else if d.len() < 9 || d[6] & 0xC0 != 0x80 {
            (false, h)
        } else {
            let h2 = optional_fields(d, h);
            (h2.scrambling_control == 0 && h2.pts_dts_flags != 1, h2)
        }
    }
}

/// Offset of the payload in a PES packet with header `h`.
pub open spec fn pes_payload_start(h: PesHeader) -> int {
    if has_additional_header(h.stream_id) { h.header_data_length as int + 9 } else { 6 }
}

/// Offset of the PES CRC field in a packet with header `h`.
pub open spec fn pes_crc_pos(h: PesHeader) -> int {
    9 + (if h.pts_dts_flags == 2 { 5int } else if h.pts_dts_flags == 3 { 10int } else { 0int })
        + (if h.escr_flag { 6int } else { 0int }) + (if h.es_rate_flag { 3int } else { 0int })
        + (if h.dsm_trick_mode_flag { 1int } else { 0int }) + (if h.additional_copy_info_flag { 1int } else { 0int })
}

/// A PES packet: raw bytes and the header parsed from them.
#[derive(Debug)]
pub struct PesPacket {
    pub data: Vec<u8>,
    header: PesHeader,
}

impl Clone for PesPacket {
    fn clone(&self) -> (r: Self)
        ensures
            r.bytes() == self.bytes(),
            r.header() == self.header(),
    {
        PesPacket { data: self.data.clone(), header: self.header }
    }
}

impl Default for PesPacket {
    fn default() -> (r: Self)
        ensures
            r.bytes() == Seq::<u8>::empty(),
            r.header() == zero_pes_header(),
    {
        PesPacket::new()
    }
}

impl PesPacket {
    /// The raw bytes held.
    pub closed spec fn bytes(&self) -> Seq<u8> {
        self.data@
    }

    /// The header as last parsed.
    pub closed spec fn header(&self) -> PesHeader {
        self.header
    }

    /// An empty packet.
    pub fn new() -> (r: Self)
        ensures
            r.bytes() == Seq::<u8>::empty(),
            r.header() == zero_pes_header(),
    {
        PesPacket { data: Vec::new(), header: new_pes_header() }
    }

    /// Parses the PES header at the start of the raw bytes.
    pub fn parse_header(&mut self) -> (r: bool)
        ensures
            final(self).bytes() == old(self).bytes(),
            (r, final(self).header()) == parse_pes_header(old(self).bytes()),
    {
        self.header = new_pes_header();
        let d = &self.data;
        if d.len() < 6 {
            return false;
        }
        if d[0] != 0x00 || d[1] != 0x00 || d[2] != 0x01 {
            return false;
        }
        self.header.stream_id = d[3];
        self.header.packet_length = (d[4] as u16) * 0x100 + d[5] as u16;
        if is_additional_header_stream_id(self.header.stream_id) {
            if d.len() < 9 {
                return false;
            }
            if d[6] & 0xC0 != 0x80 {
                return false;
            }
            let h = self.header;
            self.header = PesHeader {
                scrambling_control: (d[6] & 0x30) >> 4u8,
                priority: (d[6] & 0x08) != 0,
                data_alignment_indicator: (d[6] & 0x04) != 0,
                copyright: (d[6] & 0x02) != 0,
                original_or_copy: (d[6] & 0x01) != 0,
                pts_dts_flags: (d[7] & 0xC0) >> 6u8,
                escr_flag: (d[7] & 0x20) != 0,
                es_rate_flag: (d[7] & 0x10) != 0,
                dsm_trick_mode_flag: (d[7] & 0x08) != 0,
                additional_copy_info_flag: (d[7] & 0x04) != 0,
                crc_flag: (d[7] & 0x02) != 0,
                extension_flag: (d[7] & 0x01) != 0,
                header_data_length: d[8],
                ..h
            };
            if self.header.scrambling_control != 0 {
                return false;
            }
            if self.header.pts_dts_flags == 1 {
                return false;
            }
        }
        true
    }

    /// Clears the bytes and the header.
    pub fn reset(&mut self)
        ensures
            final(self).bytes() == Seq::<u8>::empty(),
            final(self).header() == zero_pes_header(),
    {
        self.data.clear();
        self.header = new_pes_header();
    }

    /// The PTS, when the header announces one and the bytes hold it.
    pub fn get_pts_count(&self) -> (r: Option<i64>)
        ensures
            r == if self.header().pts_dts_flags != 0 && self.bytes().len() >= 14 {
                Some(pts_of(self.bytes().subrange(9, 14)))
            } else {
                None
            },
    {
        if self.header.pts_dts_flags != 0 && self.data.len() >= 14 {
            Some(get_pts(sub_slice(self.data.as_slice(), 9, 14)))
        } else {
            None
        }
    }

    /// The packet CRC, or 0 when there is none or the bytes are too short.
    pub fn get_packet_crc(&self) -> (r: u16)
        ensures
            r as int == if !self.header().crc_flag || self.bytes().len() < pes_crc_pos(self.header()) + 2 {
                0
            } else {
                self.bytes()[pes_crc_pos(self.header())] as int * 0x100 + self.bytes()[pes_crc_pos(self.header()) + 1] as int
            },
    {
        if !self.header.crc_flag {
            return 0;
        }
        let mut pos: usize = 9;
        if self.header.pts_dts_flags == 2 {
            pos = pos + 5;
        } else if self.header.pts_dts_flags == 3 {
            pos = pos + 10;
        }
        if self.header.escr_flag {
            pos = pos + 6;
        }
        if self.header.es_rate_flag {
            pos = pos + 3;
        }
        if self.header.dsm_trick_mode_flag {
            pos = pos + 1;
        }
        if self.header.additional_copy_info_flag {
            pos = pos + 1;
        }
        if self.data.len() < pos + 2 {
            return 0;
        }
        (self.data[pos] as u16) * 0x100 + self.data[pos + 1] as u16
    }

    fn payload_start_pos(&self) -> (r: usize)
        ensures
            r == pes_payload_start(self.header()),
    {
        if is_additional_header_stream_id(self.header.stream_id) {
            self.header.header_data_length as usize + 9
        } else {
            6
        }
    }

    /// The payload bytes, when the packet extends past its header.
    pub fn get_payload_data(&self) -> (r: Option<&[u8]>)
        ensures
            self.bytes().len() <= pes_payload_start(self.header()) ==> r is None,
            self.bytes().len() > pes_payload_start(self.header()) ==> (r matches Some(s) && s@
                == self.bytes().subrange(pes_payload_start(self.header()), self.bytes().len() as int)),
    {
        let pos = self.payload_start_pos();
        if self.data.len() <= pos {
            return None;
        }
        Some(sub_slice(self.data.as_slice(), pos, self.data.len()))
    }

    /// The payload size in bytes.
    pub fn get_payload_size(&self) -> (r: usize)
        ensures
            r as int == if self.bytes().len() <= pes_payload_start(self.header()) {
                0
            } else {
                self.bytes().len() - pes_payload_start(self.header())
            },
    {
        let pos = self.payload_start_pos();
        if self.data.len() <= pos {
            0
        } else {
            self.data.len() - pos
        }
    }

    pub fn get_stream_id(&self) -> (r: u8)
        ensures
            r == self.header().stream_id,
    {
        self.header.stream_id
    }

    pub fn get_packet_length(&self) -> (r: u16)
        ensures
            r == self.header().packet_length,
    {
        self.header.packet_length
    }

    pub fn get_scrambling_control(&self) -> (r: u8)
        ensures
            r == self.header().scrambling_control,
    {
        self.header.scrambling_control
    }

    pub fn get_priority(&self) -> (r: bool)
        ensures
            r == self.header().priority,
    {
        self.header.priority
    }

    pub fn get_data_alignment_indicator(&self) -> (r: bool)
        ensures
            r == self.header().data_alignment_indicator,
    {
        self.header.data_alignment_indicator
    }

    pub fn get_copyright(&self) -> (r: bool)
        ensures
            r == self.header().copyright,
    {
        self.header.copyright
    }

    pub fn get_original_or_copy(&self) -> (r: bool)
        ensures
            r == self.header().original_or_copy,
    {
        self.header.original_or_copy
    }

    pub fn get_pts_dts_flags(&self) -> (r: u8)
        ensures
            r == self.header().pts_dts_flags,
    {
        self.header.pts_dts_flags
    }

    pub fn get_escr_flag(&self) -> (r: bool)
        ensures
            r == self.header().escr_flag,
    {
        self.header.escr_flag
    }

    pub fn get_es_rate_flag(&self) -> (r: bool)
        ensures
            r == self.header().es_rate_flag,
    {
        self.header.es_rate_flag
    }

    pub fn get_dsm_trick_mode_flag(&self) -> (r: bool)
        ensures
            r == self.header().dsm_trick_mode_flag,
    {
        self.header.dsm_trick_mode_flag
    }

    pub fn get_additional_copy_info_flag(&self) -> (r: bool)
        ensures
            r == self.header().additional_copy_info_flag,
    {
        self.header.additional_copy_info_flag
    }

    pub fn get_crc_flag(&self) -> (r: bool)
        ensures
            r == self.header().crc_flag,
    {
        self.header.crc_flag
    }

    pub fn get_extension_flag(&self) -> (r: bool)
        ensures
            r == self.header().extension_flag,
    {
        self.header.extension_flag
    }

    pub fn get_header_data_length(&self) -> (r: u8)
        ensures
            r == self.header().header_data_length,
    {
        self.header.header_data_length
    }

    /// The number of raw bytes held.
    pub fn get_size(&self) -> (r: usize)
        ensures
            r == self.bytes().len(),
    {
        self.data.len()
    }
}

/// State of a PES reassembler: the packet being collected, whether its header
/// was parsed, and the total size expected (0 when unbounded).
pub struct PesParserModel {
    pub bytes: Seq<u8>,
    pub header: PesHeader,
    pub storing: bool,
    pub store_size: int,
}

/// Collecting header bytes from `payload` (`remain` of them available):
/// the new state and how many bytes were used.
pub open spec fn pes_store_header(st: PesParserModel, payload: Seq<u8>, remain: int) -> (PesParserModel, int) {
    if st.storing {
        (st, 0)
    } else {
        let need = if st.bytes.len() < 9 { 9 - st.bytes.len() } else { 0 };
        if remain >= need {
            let b = st.bytes + payload.subrange(0, need);
            let (ok, h) = parse_pes_header(b);
            if ok {
                let size = if h.packet_length == 0 { 0 } else { h.packet_length as int + 6 };
                (PesParserModel { bytes: b, header: h, storing: true, store_size: size }, need)
            } else {
                (PesParserModel { bytes: Seq::empty(), header: zero_pes_header(), ..st }, remain)
            }
        } else {
            (PesParserModel { bytes: st.bytes + payload.subrange(0, remain), ..st }, remain)
        }
    }
}

/// Collecting body bytes from `payload` (`remain` of them available): the new
/// state, how many bytes were used, and the packet completed, if any.
pub open spec fn pes_store_payload(st: PesParserModel, payload: Seq<u8>, remain: int) -> (
    PesParserModel,
    int,
    Option<(Seq<u8>, PesHeader)>,
) {
    if !st.storing {
        (st, 0, None)
    } else {
        let need = if st.store_size != 0 {
            if st.store_size > st.bytes.len() { st.store_size - st.bytes.len() } else { 0 }
        } else {
            remain
        };
        if st.store_size != 0 && need <= remain {
            let b = st.bytes + payload.subrange(0, need);
            (
                PesParserModel { bytes: Seq::empty(), header: zero_pes_header(), storing: false, store_size: st.store_size },
                need,
                Some((b, st.header)),
            )
        } else {
            (PesParserModel { bytes: st.bytes + payload.subrange(0, remain), ..st }, remain, None)
        }
    }
}

/// The packets handed out, as a sequence.
pub open spec fn opt_seq<T>(o: Option<T>) -> Seq<T> {
    match o {
        Some(x) => seq![x],
        None => Seq::empty(),
    }
}

/// Feeding the payload of one transport packet (`pusi` = payload unit start):
/// the new state, and the PES packets completed, in order.
pub open spec fn pes_feed(st: PesParserModel, payload: Seq<u8>, pusi: bool) -> (
    PesParserModel,
    Seq<(Seq<u8>, PesHeader)>,
) {
    if pusi {
        let first = if st.storing && st.header.packet_length == 0 {
            seq![(st.bytes, st.header)]
        } else {
            Seq::empty()
        };
        let st1 = PesParserModel { bytes: Seq::empty(), storing: false, ..st };
        let (st2, used) = pes_store_header(st1, payload, payload.len() as int);
        let (st3, _, done) = pes_store_payload(st2, payload.subrange(used, payload.len() as int), payload.len() - used);
        (st3, first + opt_seq(done))
    } else {
        let (st2, used) = pes_store_header(st, payload, payload.len() as int);
        let (st3, _, done) = pes_store_payload(st2, payload.subrange(used, payload.len() as int), payload.len() - used);
        (st3, opt_seq(done))
    }
}

/// The size of a complete bounded PES packet: its declared length plus the six
/// bytes before it, but never less than the nine header bytes collected.
pub open spec fn bounded_pes_size(h: PesHeader) -> int {
    if h.packet_length as int + 6 > 9 { h.packet_length as int + 6 } else { 9 }
}

/// A consistent reassembler state: while no header is parsed, fewer than nine
/// bytes are held; once one is, the bytes held start with that header, the
/// expected size follows from its length, and a bounded packet has not grown
/// past its size.
pub open spec fn pes_model_ok(st: PesParserModel) -> bool {
    &&& !st.storing ==> st.bytes.len() < 9
    &&& st.storing ==> {
        &&& st.bytes.len() >= 9
        &&& parse_pes_header(st.bytes) == (true, st.header)
        &&& st.store_size == (if st.header.packet_length == 0 { 0 } else { st.header.packet_length as int + 6 })
        &&& st.store_size != 0 ==> st.bytes.len() <= bounded_pes_size(st.header)
    }
}

/// Whether every packet of `out` parses to the header it is handed out with,
/// and a bounded one has exactly its size.
pub open spec fn pes_packets_ok(out: Seq<(Seq<u8>, PesHeader)>) -> bool {
    forall|k: int|
        0 <= k < out.len() ==> {
            &&& parse_pes_header((#[trigger] out[k]).0) == (true, out[k].1)
            &&& out[k].1.packet_length != 0 ==> out[k].0.len() == bounded_pes_size(out[k].1)
        }
}

proof fn lemma_parse_extended(b: Seq<u8>, x: Seq<u8>)
    requires
        b.len() >= 9,
    ensures
        parse_pes_header(b + x) == parse_pes_header(b),
{
    let c = b + x;
    assert(c[0] == b[0] && c[1] == b[1] && c[2] == b[2] && c[3] == b[3] && c[4] == b[4]);
    assert(c[5] == b[5] && c[6] == b[6] && c[7] == b[7] && c[8] == b[8]);
}

proof fn lemma_store_header_ok(st: PesParserModel, payload: Seq<u8>, remain: int)
    requires
        pes_model_ok(st),
        0 <= remain <= payload.len(),
    ensures
        pes_model_ok(pes_store_header(st, payload, remain).0),
        0 <= pes_store_header(st, payload, remain).1 <= remain,
{
}

proof fn lemma_store_payload_ok(st: PesParserModel, payload: Seq<u8>, remain: int)
    requires
        pes_model_ok(st),
        0 <= remain <= payload.len(),
    ensures
        pes_model_ok(pes_store_payload(st, payload, remain).0),
        pes_packets_ok(opt_seq(pes_store_payload(st, payload, remain).2)),
{
    if st.storing {
        let need = if st.store_size != 0 {
            if st.store_size > st.bytes.len() { st.store_size - st.bytes.len() } else { 0 }
        } else {
            remain
        };
        if st.store_size != 0 && need <= remain {
            let b = st.bytes + payload.subrange(0, need);
            lemma_parse_extended(st.bytes, payload.subrange(0, need));
            let out = opt_seq(pes_store_payload(st, payload, remain).2);
            assert(out =~= seq![(b, st.header)]);
            assert(out[0] == (b, st.header));
        } else {
            lemma_parse_extended(st.bytes, payload.subrange(0, remain));
            assert(opt_seq(pes_store_payload(st, payload, remain).2) =~= Seq::<(Seq<u8>, PesHeader)>::empty());
        }
    } else {
        assert(opt_seq(pes_store_payload(st, payload, remain).2) =~= Seq::<(Seq<u8>, PesHeader)>::empty());
    }
}

/// Every PES packet the reassembler hands out for the payload of a
/// transport packet parses to the header it is handed out with, and a
/// bounded one has exactly its size (its declared length plus six bytes, at
/// least nine); a consistent state stays consistent.
pub proof fn lemma_fed_packets_parse(st: PesParserModel, payload: Seq<u8>, pusi: bool)
    requires
        pes_model_ok(st),
    ensures
        pes_model_ok(pes_feed(st, payload, pusi).0),
        pes_packets_ok(pes_feed(st, payload, pusi).1),
{
    let first = if pusi && st.storing && st.header.packet_length == 0 {
        seq![(st.bytes, st.header)]
    } else {
        Seq::empty()
    };
    let st1 = if pusi { PesParserModel { bytes: Seq::empty(), storing: false, ..st } } else { st };
    lemma_store_header_ok(st1, payload, payload.len() as int);
    let (st2, used) = pes_store_header(st1, payload, payload.len() as int);
    lemma_store_payload_ok(st2, payload.subrange(used, payload.len() as int), payload.len() - used);
    let done = opt_seq(pes_store_payload(st2, payload.subrange(used, payload.len() as int), payload.len() - used).2);
    let all = first + done;
    assert forall|k: int| 0 <= k < all.len() implies {
        &&& parse_pes_header((#[trigger] all[k]).0) == (true, all[k].1)
        &&& all[k].1.packet_length != 0 ==> all[k].0.len() == bounded_pes_size(all[k].1)
    } by {
        if k < first.len() {
            assert(all[k] == first[k]);
        } else {
            assert(all[k] == done[k - first.len()]);
        }
    }
    if pusi {
        assert(pes_feed(st, payload, pusi).1 == all);
    } else {
        assert(all =~= done);
    }
}

/// The payload of a transport packet as seen by the reassembler, if it has a non-empty one.
pub open spec fn ts_payload(pkt: TsPacket) -> Option<Seq<u8>> {
    match payload_start(pkt.header(), pkt.adaptation_field()) {
        Some(p) => if p < 188 { Some(pkt.bytes().subrange(p, 188)) } else { None },
        None => None,
    }
}

/// Whether `handler` was handed each packet of `out`: there are packets
/// with the bytes and headers of `out`, in order, and the handler was called
/// with each of them.
pub open spec fn packets_handed<F: FnMut(&PesPacket)>(handler: F, out: Seq<(Seq<u8>, PesHeader)>) -> bool {
    exists|given: Seq<PesPacket>| #[trigger] packets_handed_all(handler, out, given)
}

/// `given` holds, in order, packets with the bytes and headers of `out`,
/// and the handler was called with each of them.
pub open spec fn packets_handed_all<F: FnMut(&PesPacket)>(handler: F, out: Seq<(Seq<u8>, PesHeader)>, given: Seq<PesPacket>) -> bool {
    &&& given.len() == out.len()
    &&& forall|k: int| 0 <= k < out.len() ==> (#[trigger] given[k]).bytes() == out[k].0 && given[k].header() == out[k].1
    &&& forall|k: int| 0 <= k < given.len() ==> #[trigger] call_ensures(handler, (&given[k],), ())
}

/// Reassembles PES packets from transport stream packets.
pub struct PesParser {
    packet: PesPacket,
    is_storing: bool,
    store_size: usize,
}

impl Default for PesParser {
    fn default() -> (r: Self)
        ensures
            r.model() == (PesParserModel { bytes: Seq::empty(), header: zero_pes_header(), storing: false, store_size: 0 }),
    {
        PesParser::new()
    }
}

impl PesParser {
    /// The reassembler's state.
    pub closed spec fn model(&self) -> PesParserModel {
        PesParserModel {
            bytes: self.packet.bytes(),
            header: self.packet.header(),
            storing: self.is_storing,
            store_size: self.store_size as int,
        }
    }

    /// The reassembler's internal consistency: a bounded packet never exceeds its size.
    pub closed spec fn wf(&self) -> bool {
        self.store_size <= 0xFFFF + 6
    }

    /// A reassembler with nothing collected.
    pub fn new() -> (r: Self)
        ensures
            r.wf(),
            r.model() == (PesParserModel { bytes: Seq::empty(), header: zero_pes_header(), storing: false, store_size: 0 }),
            pes_model_ok(r.model()),
    {
        PesParser { packet: PesPacket::new(), is_storing: false, store_size: 0 }
    }

    /// Forgets everything collected.
    pub fn reset(&mut self)
        ensures
            final(self).wf(),
            final(self).model() == (PesParserModel { bytes: Seq::empty(), header: zero_pes_header(), storing: false, store_size: 0 }),
    {
        self.packet.reset();
        self.is_storing = false;
        self.store_size = 0;
    }

    /// The packet being collected.
    pub fn packet(&self) -> (r: &PesPacket)
        ensures
            r.bytes() == self.model().bytes,
            r.header() == self.model().header,
    {
        &self.packet
    }

    /// Whether a header was parsed and the packet body is being collected.
    pub fn is_storing(&self) -> (r: bool)
        ensures
            r == self.model().storing,
    {
        self.is_storing
    }

    fn store_header(&mut self, payload: &[u8], remain: usize) -> (used: usize)
        requires
            old(self).wf(),
            remain <= payload@.len(),
        ensures
            final(self).wf(),
            (final(self).model(), used as int) == pes_store_header(old(self).model(), payload@, remain as int),
    {
        if self.is_storing {
            return 0;
        }
        let size = self.packet.get_size();
        let need: usize = if size < 9 { 9 - size } else { 0 };
        if remain >= need {
            extend_bytes(&mut self.packet.data, sub_slice(payload, 0, need));
            if self.packet.parse_header() {
                let pl = self.packet.get_packet_length() as usize;
                self.store_size = if pl == 0 { 0 } else { pl + 6 };
                self.is_storing = true;
                need
            } else {
                self.packet.reset();
                remain
            }
        } else {
            extend_bytes(&mut self.packet.data, sub_slice(payload, 0, remain));
            remain
        }
    }

    fn store_payload(&mut self, payload: &[u8], remain: usize) -> (r: (usize, Option<PesPacket>))
        requires
            old(self).wf(),
            remain <= payload@.len(),
        ensures
            final(self).wf(),
            ({
                let (st, used, done) = pes_store_payload(old(self).model(), payload@, remain as int);
                &&& final(self).model() == st
                &&& r.0 as int == used
                &&& match done {
                    None => r.1 is None,
                    Some(d) => r.1 matches Some(p) && p.bytes() == d.0 && p.header() == d.1,
                }
            }),
    {
        if !self.is_storing {
            return (0, None);
        }
        let size = self.packet.get_size();
        let need: usize = if self.store_size != 0 {
            if self.store_size > size { self.store_size - size } else { 0 }
        } else {
            remain
        };
        if self.store_size != 0 && need <= remain {
            extend_bytes(&mut self.packet.data, sub_slice(payload, 0, need));
            let done = self.packet.clone();
            self.packet.reset();
            self.is_storing = false;
            (need, Some(done))
        } else {
            extend_bytes(&mut self.packet.data, sub_slice(payload, 0, remain));
            (remain, None)
        }
    }

    /// Feeds one transport packet. Returns whether it started a new PES packet,
    /// and the PES packets completed by it, in order.
    pub fn store_packet_collect(&mut self, pkt: &TsPacket) -> (r: (bool, Vec<PesPacket>))
        requires
            old(self).wf(),
        ensures
            final(self).wf(),
            pes_model_ok(old(self).model()) ==> pes_model_ok(final(self).model()),
            match ts_payload(*pkt) {
                None => final(self).model() == old(self).model() && !r.0 && r.1@.len() == 0,
                Some(payload) => {
                    let (st, out) = pes_feed(old(self).model(), payload, pkt.header().payload_unit_start_indicator);
                    &&& final(self).model() == st
                    &&& pes_model_ok(old(self).model()) ==> pes_packets_ok(out)
                    &&& r.0 == pkt.header().payload_unit_start_indicator
                    &&& r.1@.len() == out.len()
                    &&& forall|k: int| 0 <= k < out.len() ==> (#[trigger] r.1@[k]).bytes() == out[k].0
                        && r.1@[k].header() == out[k].1
                },
            },
    {
        let mut out: Vec<PesPacket> = Vec::new();
        let payload = match pkt.get_payload_data() {
            Some(p) => p,
            None => return (false, out),
        };
        let payload_size = pkt.get_payload_size() as usize;
        if payload_size == 0 {
            return (false, out);
        }
        let payload = sub_slice(payload, 0, payload_size);
        let triggered = pkt.get_payload_unit_start_indicator();
        let out = self.feed_payload(payload, triggered);
        proof {
            if pes_model_ok(old(self).model()) {
                lemma_fed_packets_parse(old(self).model(), payload@, triggered);
            }
            assert(payload@ =~= pkt.bytes().subrange(payload_start(pkt.header(), pkt.adaptation_field()).unwrap(), 188));
        }
        (triggered, out)
    }

    fn feed_payload(&mut self, payload: &[u8], pusi: bool) -> (r: Vec<PesPacket>)
        requires
            old(self).wf(),
        ensures
            final(self).wf(),
            ({
                let (st, out) = pes_feed(old(self).model(), payload@, pusi);
                &&& final(self).model() == st
                &&& r@.len() == out.len()
                &&& forall|k: int| 0 <= k < out.len() ==> (#[trigger] r@[k]).bytes() == out[k].0
                    && r@[k].header() == out[k].1
            }),
    {
        let mut out: Vec<PesPacket> = Vec::new();
        let payload_size = payload.len();
        if pusi {
            if self.is_storing && self.packet.get_packet_length() == 0 {
                out.push(self.packet.clone());
            }
            self.is_storing = false;
            self.packet.data.clear();
        }
        let ghost out1 = out@;
        let used = self.store_header(payload, payload_size);
        let rest = sub_slice(payload, used, payload_size);
        let (_, done) = self.store_payload(rest, payload_size - used);
        match done {
            Some(d) => out.push(d),
            None => {},
        }
        out
    }

    /// Feeds one transport packet, handing each completed PES packet to `handler`.
    /// Returns whether the transport packet started a new PES packet.
    pub fn store_packet<F: FnMut(&PesPacket)>(&mut self, pkt: &TsPacket, handler: &mut F) -> (r: bool)
        requires
            old(self).wf(),
            forall|p: &PesPacket| #[trigger] call_requires(*old(handler), (p,)),
        ensures
            final(self).wf(),
            pes_model_ok(old(self).model()) ==> pes_model_ok(final(self).model()),
            match ts_payload(*pkt) {
                None => final(self).model() == old(self).model() && !r,
                Some(payload) => {
                    let (st, out) = pes_feed(old(self).model(), payload, pkt.header().payload_unit_start_indicator);
                    &&& final(self).model() == st
                    &&& pes_model_ok(old(self).model()) ==> pes_packets_ok(out)
                    &&& r == pkt.header().payload_unit_start_indicator
                    &&& packets_handed(*old(handler), out)
                },
            },
            *final(handler) == *old(handler),
    {
        let (triggered, packets) = self.store_packet_collect(pkt);
        let mut k: usize = 0;
        while k < packets.len()
            invariant
                k <= packets@.len(),
                *handler == *old(handler),
                forall|p: &PesPacket| #[trigger] call_requires(*handler, (p,)),
                forall|j: int| 0 <= j < k ==> #[trigger] call_ensures(*old(handler), (&packets@[j],), ()),
            decreases packets.len() - k,
        {
            handler(&packets[k]);
            k = k + 1;
        }
        proof {
            match ts_payload(*pkt) {
                None => {},
                Some(payload) => {
                    let out = pes_feed(old(self).model(), payload, pkt.header().payload_unit_start_indicator).1;
                    assert(packets_handed_all(*old(handler), out, packets@));
                },
            }
        }
        triggered
    }
}

} // verus!
