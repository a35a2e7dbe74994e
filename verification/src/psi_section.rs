//! PSI sections: header parsing, CRC-32/MPEG-2, and reassembly from transport stream packets.
use vstd::prelude::*;
use crate::ts_packet::{TsPacket, payload_start};
use crate::utilities::{extend_bytes, sub_slice};
use crate::pes_packet::opt_seq;

verus! {

// ---------------------------------------------------------------------------
// CRC-32/MPEG-2
// ---------------------------------------------------------------------------

/// The CRC register after shifting in the top `k` bits of the current byte (already xored in).
pub open spec fn crc_shift(crc: u32, k: nat) -> u32
    decreases k,
{
    if k == 0 {
        crc
    } else {
        let c = crc_shift(crc, (k - 1) as nat);
        if c & 0x8000_0000 != 0 {
            (c << 1u32) ^ 0x04C1_1DB7
        } else {
            c << 1u32
        }
    }
}

/// The CRC register after one byte.
pub open spec fn crc_byte(crc: u32, b: u8) -> u32 {
    crc_shift(crc ^ ((b as u32) << 24u32), 8)
}

/// CRC-32/MPEG-2 (polynomial 0x04C11DB7, most significant bit first, no final xor)
/// of the first `n` bytes of `data`, starting from `init`.
pub open spec fn crc32_mpeg2_spec(data: Seq<u8>, n: nat, init: u32) -> u32
    decreases n,
{
    if n == 0 {
        init
    } else {
        crc_byte(crc32_mpeg2_spec(data, (n - 1) as nat, init), data[n - 1])
    }
}

/// Computes the CRC-32/MPEG-2 of `data` starting from `init`.
/// A section followed by its own CRC gives 0 with `init` = 0xFFFFFFFF.
pub fn crc32_mpeg2(data: &[u8], init: u32) -> (r: u32)
    ensures
        r == crc32_mpeg2_spec(data@, data@.len(), init),
{
    let mut crc = init;
    let mut i: usize = 0;
    while i < data.len()
        invariant
            i <= data@.len(),
            crc == crc32_mpeg2_spec(data@, i as nat, init),
        decreases data@.len() - i,
    {
        let mut c = crc ^ ((data[i] as u32) << 24u32);
        let ghost c0 = c;
        let mut k: usize = 0;
        while k < 8
            invariant
                k <= 8,
                c == crc_shift(c0, k as nat),
            decreases 8 - k,
        {
            c = if c & 0x8000_0000 != 0 {
                (c << 1u32) ^ 0x04C1_1DB7
            } else {
                c << 1u32
            };
            k = k + 1;
        }
        crc = c;
        i = i + 1;
    }
    crc
}

// ---------------------------------------------------------------------------
// Sections
// ---------------------------------------------------------------------------

/// Fields of a PSI section header.
#[derive(Debug, Clone, Copy, Default, PartialEq, Eq, Structural)]
pub struct PsiHeader {
    pub table_id: u8,
    pub section_syntax_indicator: bool,
    pub private_indicator: bool,
    pub section_length: u16,
    pub table_id_extension: u16,
    pub version_number: u8,
    pub current_next_indicator: bool,
    pub section_number: u8,
    pub last_section_number: u8,
}

/// The all-zero section header.
pub open spec fn zero_psi_header() -> PsiHeader {
    PsiHeader {
        table_id: 0,
        section_syntax_indicator: false,
        private_indicator: false,
        section_length: 0,
        table_id_extension: 0,
        version_number: 0,
        current_next_indicator: false,
        section_number: 0,
        last_section_number: 0,
    }
}

fn new_psi_header() -> (r: PsiHeader)
    ensures
        r == zero_psi_header(),
{
    PsiHeader {
        table_id: 0,
        section_syntax_indicator: false,
        private_indicator: false,
        section_length: 0,
        table_id_extension: 0,
        version_number: 0,
        current_next_indicator: false,
        section_number: 0,
        last_section_number: 0,
    }
}

/// Length of the section header: 8 bytes for extended sections, else 3.
pub open spec fn psi_header_size(is_extended: bool) -> int {
    if is_extended { 8 } else { 3 }
}

/// The header fields read from `d` on top of `h`.
pub open spec fn psi_fields(d: Seq<u8>, is_extended: bool, h: PsiHeader) -> PsiHeader {
    let ssi = (d[1] & 0x80) != 0;
    let base = PsiHeader {
        table_id: d[0],
        section_syntax_indicator: ssi,
        private_indicator: (d[1] & 0x40) != 0,
        section_length: ((d[1] & 0x0F) as int * 0x100 + d[2] as int) as u16,
        ..h
    };
    if ssi && is_extended {
        PsiHeader {
            table_id_extension: (d[3] as int * 0x100 + d[4] as int) as u16,
            version_number: (d[5] & 0x3E) >> 1u8,
            current_next_indicator: (d[5] & 0x01) != 0,
            section_number: d[6],
            last_section_number: d[7],
            ..base
        }
    } else {
        base
    }
}

/// Whether the header fields `h` read from `d` are acceptable.
pub open spec fn psi_header_valid(d: Seq<u8>, h: PsiHeader, is_extended: bool, ignore_section_number: bool) -> bool {
    &&& h.table_id != 0xFF
    &&& (d[1] & 0x30) == 0x30
    &&& h.section_length <= 4093
    &&& h.section_syntax_indicator == is_extended
    &&& h.section_syntax_indicator ==> {
        &&& (d[5] & 0xC0) == 0xC0
        &&& (ignore_section_number || h.section_number <= h.last_section_number)
        &&& h.section_length >= 9
    }
}

/// Where the header fields of an extended section (syntax indicator set)
/// are: the table id is byte 0, the section length the low 12 bits of
/// bytes 1 and 2, the table id extension bytes 3 and 4, the version number
/// bits 5..1 of byte 5 (so at most 31) and current/next its bit 0, and the
/// section numbers bytes 6 and 7.
pub proof fn lemma_extended_header_layout(d: Seq<u8>, h: PsiHeader)
    requires
        d.len() >= 8,
        d[1] >= 0x80,
    ensures
        ({
            let f = psi_fields(d, true, h);
            &&& f.table_id == d[0]
            &&& f.section_syntax_indicator
            &&& f.private_indicator == ((d[1] / 0x40) % 2 == 1)
            &&& f.section_length == (d[1] % 16) * 0x100 + d[2]
            &&& f.table_id_extension == d[3] * 0x100 + d[4]
            &&& f.version_number == (d[5] / 2) % 32
            &&& f.version_number <= 31
            &&& f.current_next_indicator == (d[5] % 2 == 1)
            &&& f.section_number == d[6]
            &&& f.last_section_number == d[7]
        }),
{
    let (b1, b5) = (d[1], d[5]);
    assert(b1 & 0x80 != 0 && (b1 & 0x40 != 0) == ((b1 / 0x40) % 2 == 1) && (b1 & 0x0F) == b1 % 16
        && (b5 & 0x3E) >> 1u8 == (b5 / 2) % 32 && (b5 & 0x01 != 0) == (b5 % 2 == 1)) by (bit_vector)
        requires
            b1 >= 0x80;
}

/// The eight header bytes of an extended section with the given fields
/// (private indicator clear, reserved bits set).
pub open spec fn extended_header_bytes(
    table_id: u8,
    section_length: int,
    table_id_extension: int,
    version: int,
    current_next: bool,
    section_number: u8,
    last_section_number: u8,
) -> Seq<u8> {
    seq![
        table_id,
        (0xB0 + section_length / 0x100) as u8,
        (section_length % 0x100) as u8,
        (table_id_extension / 0x100) as u8,
        (table_id_extension % 0x100) as u8,
        (0xC0 + version * 2 + if current_next { 1int } else { 0int }) as u8,
        section_number,
        last_section_number,
    ]
}

/// An extended section header written from its fields reads back with
/// those fields, and is acceptable exactly when the table id is not 0xFF,
/// the section length is between 9 and 4093 and (unless section numbers are
/// ignored) the section number is not past the last.
pub proof fn lemma_extended_header_round_trip(
    table_id: u8,
    section_length: int,
    table_id_extension: int,
    version: int,
    current_next: bool,
    section_number: u8,
    last_section_number: u8,
    ignore_section_number: bool,
    h: PsiHeader,
)
    requires
        0 <= section_length < 0x1000,
        0 <= table_id_extension < 0x10000,
        0 <= version < 32,
    ensures
        ({
            let d = extended_header_bytes(table_id, section_length, table_id_extension, version, current_next, section_number, last_section_number);
            let f = psi_fields(d, true, h);
            &&& f.table_id == table_id
            &&& f.section_syntax_indicator
            &&& !f.private_indicator
            &&& f.section_length == section_length
            &&& f.table_id_extension == table_id_extension
            &&& f.version_number == version
            &&& f.current_next_indicator == current_next
            &&& f.section_number == section_number
            &&& f.last_section_number == last_section_number
            &&& psi_header_valid(d, f, true, ignore_section_number) == (table_id != 0xFF && 9 <= section_length <= 4093
                && (ignore_section_number || section_number <= last_section_number))
        }),
{
    let d = extended_header_bytes(table_id, section_length, table_id_extension, version, current_next, section_number, last_section_number);
    lemma_extended_header_layout(d, h);
    let b1 = d[1];
    let b5 = d[5];
    assert(b1 as int == 0xB0 + section_length / 0x100);
    assert(b5 as int == 0xC0 + version * 2 + if current_next { 1int } else { 0int });
    assert((b1 / 0x40) % 2 == 0);
    assert((b1 & 0x30) == 0x30 && (b5 & 0xC0) == 0xC0) by (bit_vector)
        requires
            0xB0 <= b1 < 0xC0,
            0xC0 <= b5;
}

/// A PSI section: raw bytes and the header parsed from them.
#[derive(Debug)]
pub struct PsiSection {
    pub data: Vec<u8>,
    header: PsiHeader,
}

impl Clone for PsiSection {
    fn clone(&self) -> (r: Self)
        ensures
            r.bytes() == self.bytes(),
            r.header() == self.header(),
    {
        PsiSection { data: self.data.clone(), header: self.header }
    }
}

impl Default for PsiSection {
    fn default() -> (r: Self)
        ensures
            r.bytes() == Seq::<u8>::empty(),
            r.header() == zero_psi_header(),
    {
        PsiSection::new()
    }
}

impl PartialEq for PsiSection {
    fn eq(&self, other: &Self) -> (r: bool) {
        bytes_equal(self.data.as_slice(), other.data.as_slice())
    }
}

impl vstd::std_specs::cmp::PartialEqSpecImpl for PsiSection {
    open spec fn obeys_eq_spec() -> bool {
        true
    }

    open spec fn eq_spec(&self, other: &Self) -> bool {
        self.bytes() == other.bytes()
    }
}

impl Eq for PsiSection {
}

/// Whether two byte slices are equal.
pub fn bytes_equal(a: &[u8], b: &[u8]) -> (r: bool)
    ensures
        r == (a@ == b@),
{
    if a.len() != b.len() {
        return false;
    }
    let mut i: usize = 0;
    while i < a.len()
        invariant
            a@.len() == b@.len(),
            i <= a@.len(),
            a@.subrange(0, i as int) == b@.subrange(0, i as int),
        decreases a@.len() - i,
    {
        if a[i] != b[i] {
            assert(a@[i as int] != b@[i as int]);
            return false;
        }
        assert(a@.subrange(0, i + 1) =~= a@.subrange(0, i as int).push(a@[i as int]));
        assert(b@.subrange(0, i + 1) =~= b@.subrange(0, i as int).push(b@[i as int]));
        i = i + 1;
    }
    assert(a@ =~= a@.subrange(0, a@.len() as int));
    assert(b@ =~= b@.subrange(0, b@.len() as int));
    true
}

impl PsiSection {
    /// The raw bytes held.
    pub closed spec fn bytes(&self) -> Seq<u8> {
        self.data@
    }

    /// The header as last parsed.
    pub closed spec fn header(&self) -> PsiHeader {
        self.header
    }

    /// An empty section.
    pub fn new() -> (r: Self)
        ensures
            r.bytes() == Seq::<u8>::empty(),
            r.header() == zero_psi_header(),
    {
        PsiSection { data: Vec::new(), header: new_psi_header() }
    }

    /// Parses the section header. With fewer bytes than the header needs nothing
    /// changes and the result is `false`; otherwise the fields are stored and the
    /// result says whether they are acceptable.
    pub fn parse_header(&mut self, is_extended: bool, ignore_section_number: bool) -> (r: bool)
        ensures
            final(self).bytes() == old(self).bytes(),
            if old(self).bytes().len() < psi_header_size(is_extended) {
                !r && final(self).header() == old(self).header()
            } else {
                let h = psi_fields(old(self).bytes(), is_extended, old(self).header());
                &&& final(self).header() == h
                &&& r == psi_header_valid(old(self).bytes(), h, is_extended, ignore_section_number)
            },
    {
        let header_size: usize = if is_extended { 8 } else { 3 };
        if self.data.len() < header_size {
            return false;
        }
        let d = &self.data;
        let ssi = (d[1] & 0x80) != 0;
        self.header.table_id = d[0];
        self.header.section_syntax_indicator = ssi;
        self.header.private_indicator = (d[1] & 0x40) != 0;
        self.header.section_length = ((d[1] & 0x0F) as u16) * 0x100 + d[2] as u16;
        if ssi && is_extended {
            self.header.table_id_extension = (d[3] as u16) * 0x100 + d[4] as u16;
            self.header.version_number = (d[5] & 0x3E) >> 1u8;
            self.header.current_next_indicator = (d[5] & 0x01) != 0;
            self.header.section_number = d[6];
            self.header.last_section_number = d[7];
        }
        if self.header.table_id == 0xFF {
            return false;
        }
        if (d[1] & 0x30) != 0x30 {
            return false;
        }
        if self.header.section_length > 4093 {
            return false;
        }
        if self.header.section_syntax_indicator != is_extended {
            return false;
        }
        if self.header.section_syntax_indicator {
            if (d[5] & 0xC0) != 0xC0 {
                return false;
            }
            if !ignore_section_number && self.header.section_number > self.header.last_section_number {
                return false;
            }
            if self.header.section_length < 9 {
                return false;
            }
        }
        true
    }

    /// Clears the bytes and the header.
    pub fn reset(&mut self)
        ensures
            final(self).bytes() == Seq::<u8>::empty(),
            final(self).header() == zero_psi_header(),
    {
        self.data.clear();
        self.header = new_psi_header();
    }

    /// The bytes after the header, if the header is complete.
    pub fn get_payload_data(&self) -> (r: Option<&[u8]>)
        ensures
            ({
                let hs = psi_header_size(self.header().section_syntax_indicator);
                &&& self.bytes().len() < hs ==> r is None
                &&& self.bytes().len() >= hs ==> (r matches Some(s) && s@ == self.bytes().subrange(hs, self.bytes().len() as int))
            }),
    {
        let header_size: usize = if self.header.section_syntax_indicator { 8 } else { 3 };
        if self.data.len() < header_size {
            return None;
        }
        Some(sub_slice(self.data.as_slice(), header_size, self.data.len()))
    }

    /// The payload size announced by the header (without the CRC for extended
    /// sections), or 0 while no payload byte has been received.
    pub fn get_payload_size(&self) -> (r: u16)
        ensures
            ({
                let h = self.header();
                let hs = psi_header_size(h.section_syntax_indicator);
                let len = self.bytes().len();
                let avail = if len < 3 + h.section_length { len as int } else { 3 + h.section_length };
                r as int == if len <= hs || avail <= hs {
                    0
                } else if h.section_syntax_indicator {
                    if h.section_length < 9 { 0 } else { h.section_length - 9 }
                } else {
                    h.section_length as int
                }
            }),
    {
        let header_size: usize = if self.header.section_syntax_indicator { 8 } else { 3 };
        let len = self.data.len();
        if len <= header_size {
            return 0;
        }
        let total = 3 + self.header.section_length as usize;
        let data_len = if len < total { len } else { total };
        if data_len <= header_size {
            return 0;
        }
        if self.header.section_syntax_indicator {
            if self.header.section_length < 9 {
                return 0;
            }
            self.header.section_length - 9
        } else {
            self.header.section_length
        }
    }

    pub fn get_table_id(&self) -> (r: u8)
        ensures
            r == self.header().table_id,
    {
        self.header.table_id
    }

    pub fn is_extended_section(&self) -> (r: bool)
        ensures
            r == self.header().section_syntax_indicator,
    {
        self.header.section_syntax_indicator
    }

    pub fn get_private_indicator(&self) -> (r: bool)
        ensures
            r == self.header().private_indicator,
    {
        self.header.private_indicator
    }

    pub fn get_section_length(&self) -> (r: u16)
        ensures
            r == self.header().section_length,
    {
        self.header.section_length
    }

    pub fn get_table_id_extension(&self) -> (r: u16)
        ensures
            r == self.header().table_id_extension,
    {
        self.header.table_id_extension
    }

    pub fn get_version_number(&self) -> (r: u8)
        ensures
            r == self.header().version_number,
    {
        self.header.version_number
    }

    pub fn get_current_next_indicator(&self) -> (r: bool)
        ensures
            r == self.header().current_next_indicator,
    {
        self.header.current_next_indicator
    }

    pub fn get_section_number(&self) -> (r: u8)
        ensures
            r == self.header().section_number,
    {
        self.header.section_number
    }

    pub fn get_last_section_number(&self) -> (r: u8)
        ensures
            r == self.header().last_section_number,
    {
        self.header.last_section_number
    }

    /// The number of raw bytes held.
    pub fn get_size(&self) -> (r: usize)
        ensures
            r == self.bytes().len(),
    {
        self.data.len()
    }

    /// Appends raw bytes.
    pub fn add_data(&mut self, data: &[u8])
        ensures
            final(self).bytes() == old(self).bytes() + data@,
            final(self).header() == old(self).header(),
    {
        extend_bytes(&mut self.data, data);
    }
}

// ---------------------------------------------------------------------------
// Reassembly
// ---------------------------------------------------------------------------

/// State of a section reassembler.
pub struct PsiParserModel {
    pub bytes: Seq<u8>,
    pub header: PsiHeader,
    pub storing: bool,
    pub store_size: int,
    pub crc_errors: u64,
}

/// Collecting header bytes from `d` (`remain` available) for sections of the given kind:
/// the new state, whether the header is complete and acceptable, and the bytes used
/// when it was complete (otherwise `remain` is left as it was).
pub open spec fn psi_store_header(
    st: PsiParserModel,
    d: Seq<u8>,
    remain: int,
    is_extended: bool,
    ignore_section_number: bool,
) -> (PsiParserModel, bool, int) {
    if st.storing {
        (st, false, 0)
    } else {
        let hs = psi_header_size(is_extended);
        let need = if hs > st.bytes.len() { hs - st.bytes.len() } else { 0 };
        if need > remain {
            (PsiParserModel { bytes: st.bytes + d.subrange(0, remain), ..st }, false, remain)
        } else {
            let b = st.bytes + d.subrange(0, need);
            if b.len() < hs {
                (PsiParserModel { bytes: Seq::empty(), header: zero_psi_header(), ..st }, false, need)
            } else {
                let h = psi_fields(b, is_extended, st.header);
                if psi_header_valid(b, h, is_extended, ignore_section_number) {
                    (PsiParserModel { bytes: b, header: h, storing: true, store_size: 3 + h.section_length, ..st }, true, need)
                } else {
                    (PsiParserModel { bytes: Seq::empty(), header: zero_psi_header(), ..st }, false, need)
                }
            }
        }
    }
}

/// Collecting section bytes from `d` (`remain` available): the new state, the
/// bytes used when the section completed (otherwise `remain`, or 0 when no
/// header had been parsed), and the section handed out, if its CRC checked.
pub open spec fn psi_store_payload(st: PsiParserModel, d: Seq<u8>, remain: int) -> (
    PsiParserModel,
    int,
    Option<(Seq<u8>, PsiHeader)>,
) {
    if !st.storing {
        (st, 0, None)
    } else {
        let need = if st.store_size > st.bytes.len() { st.store_size - st.bytes.len() } else { 0 };
        if need > remain {
            (PsiParserModel { bytes: st.bytes + d.subrange(0, remain), ..st }, remain, None)
        } else {
            let b = st.bytes + d.subrange(0, need);
            let ok = crc32_mpeg2_spec(b, b.len(), 0xFFFF_FFFF) == 0;
            let errors = if ok { st.crc_errors } else if st.crc_errors == u64::MAX { st.crc_errors } else { (st.crc_errors + 1) as u64 };
            (
                PsiParserModel { bytes: Seq::empty(), header: zero_psi_header(), storing: false, crc_errors: errors, ..st },
                need,
                if ok { Some((b, st.header)) } else { None },
            )
        }
    }
}

/// The sections following a payload unit start, from `pos` of the `size`-byte payload `d`.
pub open spec fn psi_feed_units(
    d: Seq<u8>,
    pos: int,
    st: PsiParserModel,
    is_extended: bool,
    ignore_section_number: bool,
    out: Seq<(Seq<u8>, PsiHeader)>,
) -> (PsiParserModel, Seq<(Seq<u8>, PsiHeader)>)
    decreases d.len() - pos,
{
    if pos >= d.len() || pos < 0 || st.storing || st.bytes.len() != 0 {
        (st, out)
    } else {
        let (st1, ok, used) = psi_store_header(st, d.subrange(pos, d.len() as int), d.len() - pos, is_extended, ignore_section_number);
        if !ok || used <= 0 {
            (st1, out)
        } else {
            let p1 = pos + used;
            let (st2, used2, done) = psi_store_payload(st1, d.subrange(p1, d.len() as int), d.len() - p1);
            let out2 = match done { Some(x) => out.push(x), None => out };
            let p2 = p1 + used2;
            if p2 >= d.len() || d[p2] == 0xFF {
                (st2, out2)
            } else {
                psi_feed_units(d, p2, st2, is_extended, ignore_section_number, out2)
            }
        }
    }
}

/// The bytes of a payload that carries a unit start, before the pointed-to
/// position `usp`, complete the section in progress (if any).
pub open spec fn psi_feed_prefix(
    st: PsiParserModel,
    d: Seq<u8>,
    usp: int,
    is_extended: bool,
    ignore_section_number: bool,
) -> (PsiParserModel, Seq<(Seq<u8>, PsiHeader)>) {
    if usp > 1 {
        if st.storing {
            let (s, _, done) = psi_store_payload(st, d.subrange(1, d.len() as int), usp - 1);
            (s, match done { Some(x) => seq![x], None => Seq::empty() })
        } else if st.bytes.len() > 0 {
            let (s, ok, used) = psi_store_header(st, d.subrange(1, d.len() as int), usp - 1, is_extended, ignore_section_number);
            if ok {
                let p = 1 + used;
                let (s2, _, done) = psi_store_payload(s, d.subrange(p, d.len() as int), usp - p);
                (s2, match done { Some(x) => seq![x], None => Seq::empty() })
            } else {
                (s, Seq::empty())
            }
        } else {
            (st, Seq::empty())
        }
    } else {
        (st, Seq::empty())
    }
}

/// Feeding the payload `d` of one transport packet (`pusi` = payload unit start):
/// the new state and the sections handed out, in order.
pub open spec fn psi_feed(
    st: PsiParserModel,
    d: Seq<u8>,
    pusi: bool,
    is_extended: bool,
    ignore_section_number: bool,
) -> (PsiParserModel, Seq<(Seq<u8>, PsiHeader)>) {
    if pusi {
        let usp = d[0] as int + 1;
        if usp >= d.len() {
            (st, Seq::empty())
        } else {
            let (st1, out1) = psi_feed_prefix(st, d, usp, is_extended, ignore_section_number);
            let st2 = PsiParserModel { bytes: Seq::empty(), header: zero_psi_header(), storing: false, ..st1 };
            psi_feed_units(d, usp, st2, is_extended, ignore_section_number, out1)
        }
    } else if !st.storing {
        if st.bytes.len() == 0 {
            (st, Seq::empty())
        } else {
            let (s, ok, used) = psi_store_header(st, d, d.len() as int, is_extended, ignore_section_number);
            if !ok {
                (s, Seq::empty())
            } else {
                let (s2, _, done) = psi_store_payload(s, d.subrange(used, d.len() as int), d.len() - used);
                (s2, match done { Some(x) => seq![x], None => Seq::empty() })
            }
        }
    } else {
        let (s2, _, done) = psi_store_payload(st, d, d.len() as int);
        (s2, match done { Some(x) => seq![x], None => Seq::empty() })
    }
}

/// Whether every section in `out` checks: its CRC-32/MPEG-2 residue is 0.
pub open spec fn sections_pass_crc(out: Seq<(Seq<u8>, PsiHeader)>) -> bool {
    forall|k: int| 0 <= k < out.len() ==> crc32_mpeg2_spec(#[trigger] out[k].0, out[k].0.len(), 0xFFFF_FFFF) == 0
}

proof fn lemma_payload_done_passes_crc(st: PsiParserModel, d: Seq<u8>, remain: int)
    ensures
        psi_store_payload(st, d, remain).2 matches Some(x) ==> crc32_mpeg2_spec(x.0, x.0.len(), 0xFFFF_FFFF) == 0,
{
}

proof fn lemma_units_pass_crc(
    d: Seq<u8>,
    pos: int,
    st: PsiParserModel,
    is_extended: bool,
    ignore_section_number: bool,
    out: Seq<(Seq<u8>, PsiHeader)>,
)
    requires
        sections_pass_crc(out),
    ensures
        sections_pass_crc(psi_feed_units(d, pos, st, is_extended, ignore_section_number, out).1),
    decreases d.len() - pos,
{
    if pos >= d.len() || pos < 0 || st.storing || st.bytes.len() != 0 {
    } else {
        let (st1, ok, used) = psi_store_header(st, d.subrange(pos, d.len() as int), d.len() - pos, is_extended, ignore_section_number);
        if ok && used > 0 {
            let p1 = pos + used;
            lemma_payload_done_passes_crc(st1, d.subrange(p1, d.len() as int), d.len() - p1);
            let (st2, used2, done) = psi_store_payload(st1, d.subrange(p1, d.len() as int), d.len() - p1);
            let out2 = match done {
                Some(x) => out.push(x),
                None => out,
            };
            assert(sections_pass_crc(out2)) by {
                assert forall|k: int| 0 <= k < out2.len() implies crc32_mpeg2_spec(#[trigger] out2[k].0, out2[k].0.len(), 0xFFFF_FFFF) == 0 by {
                    if k < out.len() {
                        assert(out2[k] == out[k]);
                    }
                }
            }
            let p2 = p1 + used2;
            if !(p2 >= d.len() || d[p2] == 0xFF) {
                lemma_units_pass_crc(d, p2, st2, is_extended, ignore_section_number, out2);
            }
        }
    }
}

/// Every section the reassembler hands out for the payload of a packet
/// passes its CRC check: the CRC-32/MPEG-2 of its bytes, its own CRC
/// included, is 0.
pub proof fn lemma_fed_sections_pass_crc(
    st: PsiParserModel,
    d: Seq<u8>,
    pusi: bool,
    is_extended: bool,
    ignore_section_number: bool,
)
    ensures
        sections_pass_crc(psi_feed(st, d, pusi, is_extended, ignore_section_number).1),
{
    if pusi {
        let usp = d[0] as int + 1;
        if usp < d.len() {
            if usp > 1 {
                if st.storing {
                    lemma_payload_done_passes_crc(st, d.subrange(1, d.len() as int), usp - 1);
                } else if st.bytes.len() > 0 {
                    let (s1, ok, used) = psi_store_header(st, d.subrange(1, d.len() as int), usp - 1, is_extended, ignore_section_number);
                    let p = 1 + used;
                    lemma_payload_done_passes_crc(s1, d.subrange(p, d.len() as int), usp - p);
                }
            }
            let (st1, out1) = psi_feed_prefix(st, d, usp, is_extended, ignore_section_number);
            assert(sections_pass_crc(out1));
            let st2 = PsiParserModel { bytes: Seq::empty(), header: zero_psi_header(), storing: false, ..st1 };
            lemma_units_pass_crc(d, usp, st2, is_extended, ignore_section_number, out1);
        }
    } else if !st.storing {
        if st.bytes.len() != 0 {
            let (s1, ok, used) = psi_store_header(st, d, d.len() as int, is_extended, ignore_section_number);
            lemma_payload_done_passes_crc(s1, d.subrange(used, d.len() as int), d.len() - used);
        }
    } else {
        lemma_payload_done_passes_crc(st, d, d.len() as int);
    }
}

/// A consistent reassembler state for sections of the given kind: while no
/// header is parsed, fewer bytes than a header are held; once one is, the
/// expected size is three bytes more than its section length, no more bytes
/// than that are held, and the header is an acceptable one.
pub open spec fn psi_model_ok(st: PsiParserModel, is_extended: bool) -> bool {
    &&& !st.storing ==> st.bytes.len() < psi_header_size(is_extended)
    &&& st.storing ==> {
        &&& st.store_size == 3 + st.header.section_length
        &&& st.bytes.len() <= st.store_size
        &&& st.header.table_id != 0xFF
        &&& st.header.section_syntax_indicator == is_extended
    }
}

/// Whether every section in `out` has three bytes more than its section
/// length, a table id other than 0xFF, and the syntax indicator of the kind
/// of sections read.
pub open spec fn sections_well_formed(out: Seq<(Seq<u8>, PsiHeader)>, is_extended: bool) -> bool {
    forall|k: int|
        0 <= k < out.len() ==> {
            &&& (#[trigger] out[k]).0.len() == 3 + out[k].1.section_length
            &&& out[k].1.table_id != 0xFF
            &&& out[k].1.section_syntax_indicator == is_extended
        }
}

proof fn lemma_header_keeps_shape(
    st: PsiParserModel,
    d: Seq<u8>,
    remain: int,
    is_extended: bool,
    ignore_section_number: bool,
)
    requires
        psi_model_ok(st, is_extended),
        0 <= remain <= d.len(),
    ensures
        psi_model_ok(psi_store_header(st, d, remain, is_extended, ignore_section_number).0, is_extended),
        0 <= psi_store_header(st, d, remain, is_extended, ignore_section_number).2 <= remain,
{
}

proof fn lemma_payload_keeps_shape(st: PsiParserModel, d: Seq<u8>, remain: int, is_extended: bool)
    requires
        psi_model_ok(st, is_extended),
        0 <= remain <= d.len(),
    ensures
        psi_model_ok(psi_store_payload(st, d, remain).0, is_extended),
        0 <= psi_store_payload(st, d, remain).1 <= remain,
        psi_store_payload(st, d, remain).2 matches Some(x) ==> {
            &&& x.0.len() == 3 + x.1.section_length
            &&& x.1.table_id != 0xFF
            &&& x.1.section_syntax_indicator == is_extended
        },
{
}

proof fn lemma_units_keep_shape(
    d: Seq<u8>,
    pos: int,
    st: PsiParserModel,
    is_extended: bool,
    ignore_section_number: bool,
    out: Seq<(Seq<u8>, PsiHeader)>,
)
    requires
        psi_model_ok(st, is_extended),
        sections_well_formed(out, is_extended),
    ensures
        psi_model_ok(psi_feed_units(d, pos, st, is_extended, ignore_section_number, out).0, is_extended),
        sections_well_formed(psi_feed_units(d, pos, st, is_extended, ignore_section_number, out).1, is_extended),
    decreases d.len() - pos,
{
    if pos >= d.len() || pos < 0 || st.storing || st.bytes.len() != 0 {
    } else {
        lemma_header_keeps_shape(st, d.subrange(pos, d.len() as int), d.len() - pos, is_extended, ignore_section_number);
        let (st1, ok, used) = psi_store_header(st, d.subrange(pos, d.len() as int), d.len() - pos, is_extended, ignore_section_number);
        if ok && used > 0 {
            let p1 = pos + used;
            lemma_payload_keeps_shape(st1, d.subrange(p1, d.len() as int), d.len() - p1, is_extended);
            let (st2, used2, done) = psi_store_payload(st1, d.subrange(p1, d.len() as int), d.len() - p1);
            let out2 = match done {
                Some(x) => out.push(x),
                None => out,
            };
            assert(sections_well_formed(out2, is_extended)) by {
                assert forall|k: int| 0 <= k < out2.len() implies {
                    &&& (#[trigger] out2[k]).0.len() == 3 + out2[k].1.section_length
                    &&& out2[k].1.table_id != 0xFF
                    &&& out2[k].1.section_syntax_indicator == is_extended
                } by {
                    if k < out.len() {
                        assert(out2[k] == out[k]);
                    }
                }
            }
            let p2 = p1 + used2;
            if !(p2 >= d.len() || d[p2] == 0xFF) {
                lemma_units_keep_shape(d, p2, st2, is_extended, ignore_section_number, out2);
            }
        }
    }
}

proof fn lemma_prefix_keeps_shape(
    st: PsiParserModel,
    d: Seq<u8>,
    usp: int,
    is_extended: bool,
    ignore_section_number: bool,
)
    requires
        psi_model_ok(st, is_extended),
        1 <= usp < d.len(),
    ensures
        sections_well_formed(psi_feed_prefix(st, d, usp, is_extended, ignore_section_number).1, is_extended),
{
    if usp > 1 {
        if st.storing {
            lemma_payload_keeps_shape(st, d.subrange(1, d.len() as int), usp - 1, is_extended);
        } else if st.bytes.len() > 0 {
            lemma_header_keeps_shape(st, d.subrange(1, d.len() as int), usp - 1, is_extended, ignore_section_number);
            let (s1, ok, used) = psi_store_header(st, d.subrange(1, d.len() as int), usp - 1, is_extended, ignore_section_number);
            let p = 1 + used;
            lemma_payload_keeps_shape(s1, d.subrange(p, d.len() as int), usp - p, is_extended);
        }
    }
}

proof fn lemma_continuation_keeps_shape(
    st: PsiParserModel,
    d: Seq<u8>,
    is_extended: bool,
    ignore_section_number: bool,
)
    requires
        psi_model_ok(st, is_extended),
    ensures
        psi_model_ok(psi_feed(st, d, false, is_extended, ignore_section_number).0, is_extended),
        sections_well_formed(psi_feed(st, d, false, is_extended, ignore_section_number).1, is_extended),
{
    if !st.storing {
        if st.bytes.len() != 0 {
            lemma_header_keeps_shape(st, d, d.len() as int, is_extended, ignore_section_number);
            let (s1, ok, used) = psi_store_header(st, d, d.len() as int, is_extended, ignore_section_number);
            lemma_payload_keeps_shape(s1, d.subrange(used, d.len() as int), d.len() - used, is_extended);
        }
    } else {
        lemma_payload_keeps_shape(st, d, d.len() as int, is_extended);
    }
}

/// From a consistent state, every section the reassembler hands out for the
/// payload of a packet has three bytes more than its section length, a table
/// id other than 0xFF and the syntax indicator of the kind of sections read;
/// the state stays consistent.
pub proof fn lemma_fed_sections_well_formed(
    st: PsiParserModel,
    d: Seq<u8>,
    pusi: bool,
    is_extended: bool,
    ignore_section_number: bool,
)
    requires
        psi_model_ok(st, is_extended),
    ensures
        psi_model_ok(psi_feed(st, d, pusi, is_extended, ignore_section_number).0, is_extended),
        sections_well_formed(psi_feed(st, d, pusi, is_extended, ignore_section_number).1, is_extended),
{
    if pusi {
        let usp = d[0] as int + 1;
        if usp < d.len() {
            lemma_prefix_keeps_shape(st, d, usp, is_extended, ignore_section_number);
            let (st1, out1) = psi_feed_prefix(st, d, usp, is_extended, ignore_section_number);
            let st2 = PsiParserModel { bytes: Seq::empty(), header: zero_psi_header(), storing: false, ..st1 };
            lemma_units_keep_shape(d, usp, st2, is_extended, ignore_section_number, out1);
        }
    } else {
        lemma_continuation_keeps_shape(st, d, is_extended, ignore_section_number);
    }
}

/// The number of entries of `s` equal to `v`.
pub open spec fn count_outcome(s: Seq<bool>, v: bool) -> nat
    decreases s.len(),
{
    if s.len() == 0 {
        0
    } else {
        count_outcome(s.drop_last(), v) + if s.last() == v { 1nat } else { 0nat }
    }
}

proof fn lemma_count_outcome_add(a: Seq<bool>, b: Seq<bool>, v: bool)
    ensures
        count_outcome(a + b, v) == count_outcome(a, v) + count_outcome(b, v),
    decreases b.len(),
{
    if b.len() == 0 {
        assert(a + b =~= a);
    } else {
        assert((a + b).drop_last() =~= a + b.drop_last());
        lemma_count_outcome_add(a, b.drop_last(), v);
    }
}

/// `a` raised by `n`, held at `u64::MAX`.
pub open spec fn saturating_raise(a: u64, n: nat) -> u64 {
    if a + n <= u64::MAX { (a + n) as u64 } else { u64::MAX }
}

/// The CRC outcome of the section that collecting section bytes from `d`
/// (`remain` available) completes, if it completes one.
pub open spec fn payload_checks(st: PsiParserModel, d: Seq<u8>, remain: int) -> Seq<bool> {
    if !st.storing {
        Seq::empty()
    } else {
        let need = if st.store_size > st.bytes.len() { st.store_size - st.bytes.len() } else { 0 };
        if need > remain {
            Seq::empty()
        } else {
            let b = st.bytes + d.subrange(0, need);
            seq![crc32_mpeg2_spec(b, b.len(), 0xFFFF_FFFF) == 0]
        }
    }
}

/// The CRC outcomes, in order, of the sections completed after a payload
/// unit start, from `pos` of `d` (as `psi_feed_units` reads them).
pub open spec fn units_checks(
    d: Seq<u8>,
    pos: int,
    st: PsiParserModel,
    is_extended: bool,
    ignore_section_number: bool,
) -> Seq<bool>
    decreases d.len() - pos,
{
    if pos >= d.len() || pos < 0 || st.storing || st.bytes.len() != 0 {
        Seq::empty()
    } else {
        let (st1, ok, used) = psi_store_header(st, d.subrange(pos, d.len() as int), d.len() - pos, is_extended, ignore_section_number);
        if !ok || used <= 0 {
            Seq::empty()
        } else {
            let p1 = pos + used;
            let here = payload_checks(st1, d.subrange(p1, d.len() as int), d.len() - p1);
            let (st2, used2, done) = psi_store_payload(st1, d.subrange(p1, d.len() as int), d.len() - p1);
            let p2 = p1 + used2;
            if p2 >= d.len() || d[p2] == 0xFF {
                here
            } else {
                here + units_checks(d, p2, st2, is_extended, ignore_section_number)
            }
        }
    }
}

/// The CRC outcome of the section that the bytes before the pointed-to
/// position `usp` complete, if they complete one (as `psi_feed_prefix` reads them).
pub open spec fn prefix_checks(
    st: PsiParserModel,
    d: Seq<u8>,
    usp: int,
    is_extended: bool,
    ignore_section_number: bool,
) -> Seq<bool> {
    if usp > 1 {
        if st.storing {
            payload_checks(st, d.subrange(1, d.len() as int), usp - 1)
        } else if st.bytes.len() > 0 {
            let (s1, ok, used) = psi_store_header(st, d.subrange(1, d.len() as int), usp - 1, is_extended, ignore_section_number);
            if ok {
                let p = 1 + used;
                payload_checks(s1, d.subrange(p, d.len() as int), usp - p)
            } else {
                Seq::empty()
            }
        } else {
            Seq::empty()
        }
    } else {
        Seq::empty()
    }
}

/// The CRC outcomes, in order, of the sections completed by feeding the
/// payload `d` of one transport packet (as `psi_feed` reads them).
pub open spec fn psi_feed_checks(
    st: PsiParserModel,
    d: Seq<u8>,
    pusi: bool,
    is_extended: bool,
    ignore_section_number: bool,
) -> Seq<bool> {
    if pusi {
        let usp = d[0] as int + 1;
        if usp >= d.len() {
            Seq::empty()
        } else {
            let (st1, out1) = psi_feed_prefix(st, d, usp, is_extended, ignore_section_number);
            let st2 = PsiParserModel { bytes: Seq::empty(), header: zero_psi_header(), storing: false, ..st1 };
            prefix_checks(st, d, usp, is_extended, ignore_section_number) + units_checks(d, usp, st2, is_extended, ignore_section_number)
        }
    } else if !st.storing {
        if st.bytes.len() == 0 {
            Seq::empty()
        } else {
            let (s1, ok, used) = psi_store_header(st, d, d.len() as int, is_extended, ignore_section_number);
            if !ok {
                Seq::empty()
            } else {
                payload_checks(s1, d.subrange(used, d.len() as int), d.len() - used)
            }
        }
    } else {
        payload_checks(st, d, d.len() as int)
    }
}

proof fn lemma_saturating_raise_twice(a: u64, x: nat, y: nat)
    ensures
        saturating_raise(saturating_raise(a, x), y) == saturating_raise(a, x + y),
{
}

proof fn lemma_header_keeps_count(st: PsiParserModel, d: Seq<u8>, remain: int, is_extended: bool, ignore_section_number: bool)
    ensures
        psi_store_header(st, d, remain, is_extended, ignore_section_number).0.crc_errors == st.crc_errors,
{
}

proof fn lemma_payload_count(st: PsiParserModel, d: Seq<u8>, remain: int)
    ensures
        psi_store_payload(st, d, remain).0.crc_errors == saturating_raise(st.crc_errors, count_outcome(payload_checks(st, d, remain), false)),
        opt_seq(psi_store_payload(st, d, remain).2).len() == count_outcome(payload_checks(st, d, remain), true),
{
    let c = payload_checks(st, d, remain);
    if c.len() == 1 {
        assert(c.drop_last() =~= Seq::<bool>::empty());
        assert(count_outcome(c.drop_last(), false) == 0);
        assert(count_outcome(c.drop_last(), true) == 0);
    } else {
        assert(c.len() == 0);
    }
}

proof fn lemma_units_count(
    d: Seq<u8>,
    pos: int,
    st: PsiParserModel,
    is_extended: bool,
    ignore_section_number: bool,
    out: Seq<(Seq<u8>, PsiHeader)>,
)
    ensures
        psi_feed_units(d, pos, st, is_extended, ignore_section_number, out).0.crc_errors
            == saturating_raise(st.crc_errors, count_outcome(units_checks(d, pos, st, is_extended, ignore_section_number), false)),
        psi_feed_units(d, pos, st, is_extended, ignore_section_number, out).1.len()
            == out.len() + count_outcome(units_checks(d, pos, st, is_extended, ignore_section_number), true),
    decreases d.len() - pos,
{
    if pos >= d.len() || pos < 0 || st.storing || st.bytes.len() != 0 {
    } else {
        lemma_header_keeps_count(st, d.subrange(pos, d.len() as int), d.len() - pos, is_extended, ignore_section_number);
        let (st1, ok, used) = psi_store_header(st, d.subrange(pos, d.len() as int), d.len() - pos, is_extended, ignore_section_number);
        if ok && used > 0 {
            let p1 = pos + used;
            lemma_payload_count(st1, d.subrange(p1, d.len() as int), d.len() - p1);
            let here = payload_checks(st1, d.subrange(p1, d.len() as int), d.len() - p1);
            let (st2, used2, done) = psi_store_payload(st1, d.subrange(p1, d.len() as int), d.len() - p1);
            let out2 = match done {
                Some(x) => out.push(x),
                None => out,
            };
            assert(out2.len() == out.len() + opt_seq(done).len());
            let p2 = p1 + used2;
            if !(p2 >= d.len() || d[p2] == 0xFF) {
                lemma_units_count(d, p2, st2, is_extended, ignore_section_number, out2);
                let rest = units_checks(d, p2, st2, is_extended, ignore_section_number);
                lemma_count_outcome_add(here, rest, false);
                lemma_count_outcome_add(here, rest, true);
                lemma_saturating_raise_twice(st.crc_errors, count_outcome(here, false), count_outcome(rest, false));
            }
        }
    }
}

proof fn lemma_prefix_count(
    st: PsiParserModel,
    d: Seq<u8>,
    usp: int,
    is_extended: bool,
    ignore_section_number: bool,
)
    requires
        1 <= usp < d.len(),
    ensures
        psi_feed_prefix(st, d, usp, is_extended, ignore_section_number).0.crc_errors
            == saturating_raise(st.crc_errors, count_outcome(prefix_checks(st, d, usp, is_extended, ignore_section_number), false)),
        psi_feed_prefix(st, d, usp, is_extended, ignore_section_number).1.len()
            == count_outcome(prefix_checks(st, d, usp, is_extended, ignore_section_number), true),
{
    if usp > 1 {
        if st.storing {
            lemma_payload_count(st, d.subrange(1, d.len() as int), usp - 1);
        } else if st.bytes.len() > 0 {
            lemma_header_keeps_count(st, d.subrange(1, d.len() as int), usp - 1, is_extended, ignore_section_number);
            let (s1, ok, used) = psi_store_header(st, d.subrange(1, d.len() as int), usp - 1, is_extended, ignore_section_number);
            let p = 1 + used;
            lemma_payload_count(s1, d.subrange(p, d.len() as int), usp - p);
        }
    }
}

proof fn lemma_continuation_count(st: PsiParserModel, d: Seq<u8>, is_extended: bool, ignore_section_number: bool)
    ensures
        psi_feed(st, d, false, is_extended, ignore_section_number).0.crc_errors
            == saturating_raise(st.crc_errors, count_outcome(psi_feed_checks(st, d, false, is_extended, ignore_section_number), false)),
        psi_feed(st, d, false, is_extended, ignore_section_number).1.len()
            == count_outcome(psi_feed_checks(st, d, false, is_extended, ignore_section_number), true),
{
    if !st.storing {
        if st.bytes.len() != 0 {
            lemma_header_keeps_count(st, d, d.len() as int, is_extended, ignore_section_number);
            let (s1, ok, used) = psi_store_header(st, d, d.len() as int, is_extended, ignore_section_number);
            lemma_payload_count(s1, d.subrange(used, d.len() as int), d.len() - used);
        }
    } else {
        lemma_payload_count(st, d, d.len() as int);
    }
}

/// How the CRC error count grows: after feeding the payload of a packet it
/// has risen (held at `u64::MAX`) by the number of completed sections whose
/// CRC failed, and as many sections are handed out as completed with a CRC
/// that checked.
pub proof fn lemma_fed_crc_error_count(
    st: PsiParserModel,
    d: Seq<u8>,
    pusi: bool,
    is_extended: bool,
    ignore_section_number: bool,
)
    ensures
        psi_feed(st, d, pusi, is_extended, ignore_section_number).0.crc_errors
            == saturating_raise(st.crc_errors, count_outcome(psi_feed_checks(st, d, pusi, is_extended, ignore_section_number), false)),
        psi_feed(st, d, pusi, is_extended, ignore_section_number).1.len()
            == count_outcome(psi_feed_checks(st, d, pusi, is_extended, ignore_section_number), true),
{
    if pusi {
        let usp = d[0] as int + 1;
        if usp < d.len() {
            lemma_prefix_count(st, d, usp, is_extended, ignore_section_number);
            let (st1, out1) = psi_feed_prefix(st, d, usp, is_extended, ignore_section_number);
            let st2 = PsiParserModel { bytes: Seq::empty(), header: zero_psi_header(), storing: false, ..st1 };
            lemma_units_count(d, usp, st2, is_extended, ignore_section_number, out1);
            let prefix = prefix_checks(st, d, usp, is_extended, ignore_section_number);
            let rest = units_checks(d, usp, st2, is_extended, ignore_section_number);
            lemma_count_outcome_add(prefix, rest, false);
            lemma_count_outcome_add(prefix, rest, true);
            lemma_saturating_raise_twice(st.crc_errors, count_outcome(prefix, false), count_outcome(rest, false));
        } else {
            assert(psi_feed_checks(st, d, pusi, is_extended, ignore_section_number) =~= Seq::<bool>::empty());
        }
    } else {
        lemma_continuation_count(st, d, is_extended, ignore_section_number);
    }
}

/// Whether `handler` was handed each section of `out`: there are sections
/// with the bytes and headers of `out`, in order, and the handler was called
/// with each of them.
pub open spec fn sections_handed<F: FnMut(&PsiSection)>(handler: F, out: Seq<(Seq<u8>, PsiHeader)>) -> bool {
    exists|given: Seq<PsiSection>| #[trigger] handed_all(handler, out, given)
}

/// `given` holds, in order, sections with the bytes and headers of `out`,
/// and the handler was called with each of them.
pub open spec fn handed_all<F: FnMut(&PsiSection)>(handler: F, out: Seq<(Seq<u8>, PsiHeader)>, given: Seq<PsiSection>) -> bool {
    &&& given.len() == out.len()
    &&& forall|k: int| 0 <= k < out.len() ==> (#[trigger] given[k]).bytes() == out[k].0 && given[k].header() == out[k].1
    &&& forall|k: int| 0 <= k < given.len() ==> #[trigger] call_ensures(handler, (&given[k],), ())
}

/// Reassembles PSI sections from transport stream packets, checking their CRC.
pub struct PsiSectionParser {
    is_extended: bool,
    ignore_section_number: bool,
    section: PsiSection,
    is_payload_storing: bool,
    store_size: u16,
    crc_error_count: u64,
}

impl PsiSectionParser {
    /// The reassembler's state.
    pub closed spec fn model(&self) -> PsiParserModel {
        PsiParserModel {
            bytes: self.section.bytes(),
            header: self.section.header(),
            storing: self.is_payload_storing,
            store_size: self.store_size as int,
            crc_errors: self.crc_error_count,
        }
    }

    /// Whether extended (8-byte header) sections are expected.
    pub closed spec fn extended(&self) -> bool {
        self.is_extended
    }

    /// Whether section numbers are not checked.
    pub closed spec fn ignores_section_number(&self) -> bool {
        self.ignore_section_number
    }

    /// A reassembler with nothing collected.
    pub fn new(is_extended: bool, ignore_section_number: bool) -> (r: Self)
        ensures
            r.extended() == is_extended,
            r.ignores_section_number() == ignore_section_number,
            r.model() == (PsiParserModel { bytes: Seq::empty(), header: zero_psi_header(), storing: false, store_size: 0, crc_errors: 0 }),
            psi_model_ok(r.model(), is_extended),
    {
        PsiSectionParser {
            is_extended,
            ignore_section_number,
            section: PsiSection::new(),
            is_payload_storing: false,
            store_size: 0,
            crc_error_count: 0,
        }
    }

    /// Forgets everything collected and clears the CRC error count.
    pub fn reset(&mut self)
        ensures
            final(self).extended() == old(self).extended(),
            final(self).ignores_section_number() == old(self).ignores_section_number(),
            final(self).model() == (PsiParserModel { bytes: Seq::empty(), header: zero_psi_header(), storing: false, store_size: old(self).model().store_size, crc_errors: 0 }),
            psi_model_ok(final(self).model(), old(self).extended()),
    {
        self.is_payload_storing = false;
        self.crc_error_count = 0;
        self.section.reset();
    }

    /// The number of sections dropped for a bad CRC.
    pub fn get_crc_error_count(&self) -> (r: u64)
        ensures
            r == self.model().crc_errors,
    {
        self.crc_error_count
    }

    /// The section being collected.
    pub fn section(&self) -> (r: &PsiSection)
        ensures
            r.bytes() == self.model().bytes,
            r.header() == self.model().header,
    {
        &self.section
    }

    fn store_header(&mut self, data: &[u8], remain: usize) -> (r: (bool, usize))
        requires
            remain <= data@.len(),
        ensures
            final(self).extended() == old(self).extended(),
            final(self).ignores_section_number() == old(self).ignores_section_number(),
            ({
                let (st, ok, used) = psi_store_header(old(self).model(), data@, remain as int, old(self).extended(), old(self).ignores_section_number());
                final(self).model() == st && r.0 == ok && r.1 as int == used
            }),
    {
        if self.is_payload_storing {
            return (false, 0);
        }
        let header_size: usize = if self.is_extended { 8 } else { 3 };
        let size = self.section.get_size();
        let need = if header_size > size { header_size - size } else { 0 };
        if need > remain {
            self.section.add_data(sub_slice(data, 0, remain));
            return (false, remain);
        }
        self.section.add_data(sub_slice(data, 0, need));
        if self.section.parse_header(self.is_extended, self.ignore_section_number) {
            self.store_size = 3 + self.section.get_section_length();
            self.is_payload_storing = true;
            (true, need)
        } else {
            self.section.reset();
            (false, need)
        }
    }

    fn store_payload(&mut self, data: &[u8], remain: usize) -> (r: (usize, Option<PsiSection>))
        requires
            remain <= data@.len(),
        ensures
            final(self).extended() == old(self).extended(),
            final(self).ignores_section_number() == old(self).ignores_section_number(),
            ({
                let (st, used, done) = psi_store_payload(old(self).model(), data@, remain as int);
                &&& final(self).model() == st
                &&& r.0 as int == used
                &&& match done {
                    None => r.1 is None,
                    Some(x) => r.1 matches Some(sec) && sec.bytes() == x.0 && sec.header() == x.1,
                }
            }),
    {
        if !self.is_payload_storing {
            return (0, None);
        }
        let size = self.section.get_size();
        let need = if self.store_size as usize > size { self.store_size as usize - size } else { 0 };
        if need > remain {
            self.section.add_data(sub_slice(data, 0, remain));
            return (remain, None);
        }
        self.section.add_data(sub_slice(data, 0, need));
        let crc = crc32_mpeg2(self.section.data.as_slice(), 0xFFFF_FFFF);
        let done = if crc == 0 {
            Some(self.section.clone())
        } else {
            self.crc_error_count = if self.crc_error_count == u64::MAX { self.crc_error_count } else { self.crc_error_count + 1 };
            None
        };
        self.section.reset();
        self.is_payload_storing = false;
        (need, done)
    }

    /// Feeds one transport packet. Returns the sections completed by it whose CRC checked, in order.
    pub fn store_packet_collect(&mut self, pkt: &TsPacket) -> (r: Vec<PsiSection>)
        ensures
            final(self).extended() == old(self).extended(),
            psi_model_ok(old(self).model(), old(self).extended()) ==> psi_model_ok(final(self).model(), old(self).extended()),
            final(self).ignores_section_number() == old(self).ignores_section_number(),
            match crate::pes_packet::ts_payload(*pkt) {
                None => final(self).model() == old(self).model() && r@.len() == 0,
                Some(payload) => {
                    let (st, out) = psi_feed(old(self).model(), payload, pkt.header().payload_unit_start_indicator, old(self).extended(), old(self).ignores_section_number());
                    &&& final(self).model() == st
                    &&& sections_pass_crc(out)
                    &&& psi_model_ok(old(self).model(), old(self).extended()) ==> sections_well_formed(out, old(self).extended())
                    &&& st.crc_errors == saturating_raise(old(self).model().crc_errors, count_outcome(psi_feed_checks(old(self).model(), payload, pkt.header().payload_unit_start_indicator, old(self).extended(), old(self).ignores_section_number()), false))
                    &&& out.len() == count_outcome(psi_feed_checks(old(self).model(), payload, pkt.header().payload_unit_start_indicator, old(self).extended(), old(self).ignores_section_number()), true)
                    &&& r@.len() == out.len()
                    &&& forall|k: int| 0 <= k < out.len() ==> (#[trigger] r@[k]).bytes() == out[k].0
                        && r@[k].header() == out[k].1
                },
            },
    {
        let mut out: Vec<PsiSection> = Vec::new();
        let payload = match pkt.get_payload_data() {
            Some(p) => p,
            None => return out,
        };
        let payload_size = pkt.get_payload_size() as usize;
        if payload_size == 0 {
            return out;
        }
        let payload = sub_slice(payload, 0, payload_size);
        proof {
            assert(payload@ =~= pkt.bytes().subrange(payload_start(pkt.header(), pkt.adaptation_field()).unwrap(), 188));
        }
        let pusi = pkt.get_payload_unit_start_indicator();
        let sections = self.feed_payload(payload, pusi);
        proof {
            if psi_model_ok(old(self).model(), old(self).extended()) {
                lemma_fed_sections_well_formed(old(self).model(), payload@, pusi, old(self).extended(), old(self).ignores_section_number());
            }
            lemma_fed_sections_pass_crc(old(self).model(), payload@, pusi, old(self).extended(), old(self).ignores_section_number());
            lemma_fed_crc_error_count(old(self).model(), payload@, pusi, old(self).extended(), old(self).ignores_section_number());
        }
        sections
    }

    fn feed_payload(&mut self, payload: &[u8], pusi: bool) -> (r: Vec<PsiSection>)
        requires
            payload@.len() > 0,
        ensures
            final(self).extended() == old(self).extended(),
            final(self).ignores_section_number() == old(self).ignores_section_number(),
            ({
                let (st, out) = psi_feed(old(self).model(), payload@, pusi, old(self).extended(), old(self).ignores_section_number());
                &&& final(self).model() == st
                &&& r@.len() == out.len()
                &&& forall|k: int| 0 <= k < out.len() ==> (#[trigger] r@[k]).bytes() == out[k].0
                    && r@[k].header() == out[k].1
            }),
    {
        if pusi {
            self.feed_unit_start(payload)
        } else {
            self.feed_continuation(payload)
        }
    }

    fn push_done(out: &mut Vec<PsiSection>, done: Option<PsiSection>)
        ensures
            match done {
                None => final(out)@ == old(out)@,
                Some(x) => final(out)@ == old(out)@.push(x),
            },
    {
        match done {
            Some(x) => out.push(x),
            None => {},
        }
    }

    fn feed_continuation(&mut self, payload: &[u8]) -> (r: Vec<PsiSection>)
        requires
            payload@.len() > 0,
        ensures
            final(self).extended() == old(self).extended(),
            final(self).ignores_section_number() == old(self).ignores_section_number(),
            ({
                let (st, out) = psi_feed(old(self).model(), payload@, false, old(self).extended(), old(self).ignores_section_number());
                &&& final(self).model() == st
                &&& r@.len() == out.len()
                &&& forall|k: int| 0 <= k < out.len() ==> (#[trigger] r@[k]).bytes() == out[k].0
                    && r@[k].header() == out[k].1
            }),
    {
        let mut out: Vec<PsiSection> = Vec::new();
        let payload_size = payload.len();
        if !self.is_payload_storing {
            if self.section.get_size() == 0 {
                return out;
            }
            let (ok, used) = self.store_header(payload, payload_size);
            if !ok {
                return out;
            }
            let (_, done) = self.store_payload(sub_slice(payload, used, payload_size), payload_size - used);
            Self::push_done(&mut out, done);
        } else {
            let (_, done) = self.store_payload(payload, payload_size);
            Self::push_done(&mut out, done);
        }
        out
    }

    fn feed_prefix(&mut self, payload: &[u8], unit_start_pos: usize) -> (r: Vec<PsiSection>)
        requires
            1 <= unit_start_pos < payload@.len(),
        ensures
            final(self).extended() == old(self).extended(),
            final(self).ignores_section_number() == old(self).ignores_section_number(),
            ({
                let (st, out) = psi_feed_prefix(old(self).model(), payload@, unit_start_pos as int, old(self).extended(), old(self).ignores_section_number());
                &&& final(self).model() == st
                &&& r@.len() == out.len()
                &&& forall|k: int| 0 <= k < out.len() ==> (#[trigger] r@[k]).bytes() == out[k].0
                    && r@[k].header() == out[k].1
            }),
    {
        let mut out: Vec<PsiSection> = Vec::new();
        let payload_size = payload.len();
        if unit_start_pos > 1 {
            if self.is_payload_storing {
                let (_, done) = self.store_payload(sub_slice(payload, 1, payload_size), unit_start_pos - 1);
                Self::push_done(&mut out, done);
            } else if self.section.get_size() > 0 {
                let (ok, used) = self.store_header(sub_slice(payload, 1, payload_size), unit_start_pos - 1);
                if ok {
                    let p = 1 + used;
                    let (_, done) = self.store_payload(sub_slice(payload, p, payload_size), unit_start_pos - p);
                    Self::push_done(&mut out, done);
                }
            }
        }
        out
    }

    fn feed_unit_start(&mut self, payload: &[u8]) -> (r: Vec<PsiSection>)
        requires
            payload@.len() > 0,
        ensures
            final(self).extended() == old(self).extended(),
            final(self).ignores_section_number() == old(self).ignores_section_number(),
            ({
                let (st, out) = psi_feed(old(self).model(), payload@, true, old(self).extended(), old(self).ignores_section_number());
                &&& final(self).model() == st
                &&& r@.len() == out.len()
                &&& forall|k: int| 0 <= k < out.len() ==> (#[trigger] r@[k]).bytes() == out[k].0
                    && r@[k].header() == out[k].1
            }),
    {
        let payload_size = payload.len();
        let unit_start_pos = payload[0] as usize + 1;
        if unit_start_pos >= payload_size {
            return Vec::new();
        }
        let out = self.feed_prefix(payload, unit_start_pos);
        let ghost pre = psi_feed_prefix(old(self).model(), payload@, unit_start_pos as int, old(self).extended(), old(self).ignores_section_number());
        proof {
            let outs = Seq::new(out@.len(), |k: int| (out@[k].bytes(), out@[k].header()));
            assert(outs =~= pre.1);
        }
        self.section.reset();
        self.is_payload_storing = false;
        self.feed_units(payload, unit_start_pos, out)
    }

    fn feed_units(&mut self, payload: &[u8], start: usize, out0: Vec<PsiSection>) -> (r: Vec<PsiSection>)
        requires
            start <= payload@.len(),
            !old(self).model().storing,
            old(self).model().bytes.len() == 0,
        ensures
            final(self).extended() == old(self).extended(),
            final(self).ignores_section_number() == old(self).ignores_section_number(),
            ({
                let outs = Seq::new(out0@.len(), |k: int| (out0@[k].bytes(), out0@[k].header()));
                let (st, out) = psi_feed_units(payload@, start as int, old(self).model(), old(self).extended(), old(self).ignores_section_number(), outs);
                &&& final(self).model() == st
                &&& r@.len() == out.len()
                &&& forall|k: int| 0 <= k < out.len() ==> (#[trigger] r@[k]).bytes() == out[k].0
                    && r@[k].header() == out[k].1
            }),
    {
        let mut out = out0;
        let payload_size = payload.len();
        let mut pos = start;
        let ghost mut outs = Seq::new(out0@.len(), |k: int| (out0@[k].bytes(), out0@[k].header()));
        let ghost target = psi_feed_units(payload@, start as int, old(self).model(), old(self).extended(), old(self).ignores_section_number(), outs);
        let ghost ext = old(self).extended();
        let ghost ign = old(self).ignores_section_number();
        while pos < payload_size
            invariant_except_break
                psi_feed_units(payload@, pos as int, self.model(), ext, ign, outs) == target,
                !self.model().storing,
                self.model().bytes.len() == 0,
            invariant
                self.extended() == ext,
                self.ignores_section_number() == ign,
                payload_size == payload@.len(),
                pos <= payload_size,
                out@.len() == outs.len(),
                forall|k: int| 0 <= k < outs.len() ==> (#[trigger] out@[k]).bytes() == outs[k].0
                    && out@[k].header() == outs[k].1,
            ensures
                target == (self.model(), outs),
            decreases payload_size - pos,
        {
            let ghost st0 = self.model();
            let (ok, used) = self.store_header(sub_slice(payload, pos, payload_size), payload_size - pos);
            if !ok || used == 0 {
                break;
            }
            let p1 = pos + used;
            let (used2, done) = self.store_payload(sub_slice(payload, p1, payload_size), payload_size - p1);
            match done {
                Some(x) => {
                    proof {
                        outs = outs.push((x.bytes(), x.header()));
                    }
                    out.push(x);
                },
                None => {},
            }
            pos = p1 + used2;
            if pos >= payload_size || payload[pos] == 0xFF {
                break;
            }
        }
        out
    }

    /// Feeds one transport packet, handing each completed section whose CRC checked to `handler`.
    /// Feeds one transport packet, handing each completed section whose CRC
    /// checked to `handler`: every section the collecting version returns is
    /// one the handler was called with, and the handler is left as it was.
    pub fn store_packet<F: FnMut(&PsiSection)>(&mut self, pkt: &TsPacket, handler: &mut F)
        requires
            forall|s: &PsiSection| #[trigger] call_requires(*old(handler), (s,)),
        ensures
            final(self).extended() == old(self).extended(),
            final(self).ignores_section_number() == old(self).ignores_section_number(),
            psi_model_ok(old(self).model(), old(self).extended()) ==> psi_model_ok(final(self).model(), old(self).extended()),
            *final(handler) == *old(handler),
            match crate::pes_packet::ts_payload(*pkt) {
                None => final(self).model() == old(self).model(),
                Some(payload) => {
                    let (st, out) = psi_feed(old(self).model(), payload, pkt.header().payload_unit_start_indicator, old(self).extended(), old(self).ignores_section_number());
                    &&& final(self).model() == st
                    &&& sections_pass_crc(out)
                    &&& psi_model_ok(old(self).model(), old(self).extended()) ==> sections_well_formed(out, old(self).extended())
                    &&& st.crc_errors == saturating_raise(old(self).model().crc_errors, count_outcome(psi_feed_checks(old(self).model(), payload, pkt.header().payload_unit_start_indicator, old(self).extended(), old(self).ignores_section_number()), false))
                    &&& out.len() == count_outcome(psi_feed_checks(old(self).model(), payload, pkt.header().payload_unit_start_indicator, old(self).extended(), old(self).ignores_section_number()), true)
                    &&& sections_handed(*old(handler), out)
                },
            },
    {
        let sections = self.store_packet_collect(pkt);
        let mut k: usize = 0;
        while k < sections.len()
            invariant
                k <= sections@.len(),
                *handler == *old(handler),
                forall|s: &PsiSection| #[trigger] call_requires(*handler, (s,)),
                forall|j: int| 0 <= j < k ==> #[trigger] call_ensures(*old(handler), (&sections@[j],), ()),
            decreases sections.len() - k,
        {
            handler(&sections[k]);
            k = k + 1;
        }
        proof {
            match crate::pes_packet::ts_payload(*pkt) {
                None => {},
                Some(payload) => {
                    let out = psi_feed(old(self).model(), payload, pkt.header().payload_unit_start_indicator, old(self).extended(), old(self).ignores_section_number()).1;
                    assert(handed_all(*old(handler), out, sections@));
                },
            }
        }
    }
}

} // verus!
