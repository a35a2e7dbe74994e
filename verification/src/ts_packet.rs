//! MPEG-2 transport stream packets: header parsing and continuity checking.
use vstd::prelude::*;

verus! {

/// Size of a transport stream packet in bytes.
pub const TS_PACKET_SIZE: usize = 188;

/// The null packet PID.
pub const PID_NULL: u16 = 0x1FFF;

/// Number of PIDs (the size of a continuity counter table).
pub const NUM_PID: usize = 8192;

/// Outcome of parsing a packet.
#[derive(Debug, Clone, Copy, PartialEq, Eq, Structural)]
pub enum ParseResult {
    /// The packet is well formed.
    Success,
    /// The packet violates the format.
    FormatError,
    /// The transport error indicator is set.
    TransportError,
    /// The continuity counter skipped (a packet was dropped).
    ContinuityError,
}

/// Fields of the four-byte packet header.
#[derive(Debug, Clone, Copy, Default, PartialEq, Eq, Structural)]
pub struct TSPacketHeader {
    pub sync_byte: u8,
    pub transport_error_indicator: bool,
    pub payload_unit_start_indicator: bool,
    pub transport_priority: bool,
    pub pid: u16,
    pub transport_scrambling_control: u8,
    pub adaptation_field_control: u8,
    pub continuity_counter: u8,
}

/// Fields of the adaptation field header.
#[derive(Debug, Clone, Copy, Default, PartialEq, Eq, Structural)]
pub struct AdaptationFieldHeader {
    pub adaptation_field_length: u8,
    pub flags: u8,
    pub discontinuity_indicator: bool,
    pub option_size: u8,
}

/// The all-zero packet header.
pub open spec fn empty_header() -> TSPacketHeader {
    TSPacketHeader {
        sync_byte: 0,
        transport_error_indicator: false,
        payload_unit_start_indicator: false,
        transport_priority: false,
        pid: 0,
        transport_scrambling_control: 0,
        adaptation_field_control: 0,
        continuity_counter: 0,
    }
}

/// The all-zero adaptation field header.
pub open spec fn empty_adaptation_field() -> AdaptationFieldHeader {
    AdaptationFieldHeader { adaptation_field_length: 0, flags: 0, discontinuity_indicator: false, option_size: 0 }
}

/// The packet header encoded in the first four bytes of `d`.
pub open spec fn header_of(d: Seq<u8>) -> TSPacketHeader {
    TSPacketHeader {
        sync_byte: d[0],
        transport_error_indicator: d[1] & 0x80 != 0,
        payload_unit_start_indicator: d[1] & 0x40 != 0,
        transport_priority: d[1] & 0x20 != 0,
        pid: ((d[1] & 0x1F) as int * 0x100 + d[2] as int) as u16,
        transport_scrambling_control: d[3] >> 6u8,
        adaptation_field_control: (d[3] >> 4u8) & 0x03,
        continuity_counter: d[3] & 0x0F,
    }
}

/// Where the fields of a packet header are in its first four bytes: the
/// sync byte is byte 0; the transport error, payload unit start and
/// priority flags are bits 7, 6 and 5 of byte 1; the PID is the low five
/// bits of byte 1 and byte 2; the scrambling control, adaptation field
/// control and continuity counter are bits 7..6, 5..4 and 3..0 of byte 3.
pub proof fn lemma_packet_header_layout(d: Seq<u8>)
    requires
        d.len() >= 4,
    ensures
        ({
            let h = header_of(d);
            &&& h.sync_byte == d[0]
            &&& h.transport_error_indicator == (d[1] >= 0x80)
            &&& h.payload_unit_start_indicator == ((d[1] / 0x40) % 2 == 1)
            &&& h.transport_priority == ((d[1] / 0x20) % 2 == 1)
            &&& h.pid == (d[1] % 32) * 0x100 + d[2]
            &&& h.transport_scrambling_control == d[3] / 0x40
            &&& h.adaptation_field_control == (d[3] / 16) % 4
            &&& h.continuity_counter == d[3] % 16
        }),
{
    let (b1, b3) = (d[1], d[3]);
    assert((b1 & 0x80 != 0) == (b1 >= 0x80) && (b1 & 0x40 != 0) == ((b1 / 0x40) % 2 == 1)
        && (b1 & 0x20 != 0) == ((b1 / 0x20) % 2 == 1) && b1 & 0x1F == b1 % 32
        && b3 >> 6u8 == b3 / 0x40 && (b3 >> 4u8) & 0x03 == (b3 / 16) % 4 && b3 & 0x0F == b3 % 16) by (bit_vector);
}

/// The adaptation field header of `d`, given its packet header `h`.
pub open spec fn adaptation_field_of(d: Seq<u8>, h: TSPacketHeader) -> AdaptationFieldHeader {
    if h.adaptation_field_control & 0x02 != 0 {
        let afl = d[4];
        if afl > 0 {
            AdaptationFieldHeader {
                adaptation_field_length: afl,
                flags: d[5],
                discontinuity_indicator: d[5] & 0x80 != 0,
                option_size: if afl > 1 { (afl - 1) as u8 } else { 0 },
            }
        } else {
            AdaptationFieldHeader { adaptation_field_length: 0, flags: 0, discontinuity_indicator: false, option_size: 0 }
        }
    } else {
        empty_adaptation_field()
    }
}

/// The verdict on a packet from its headers alone (before any continuity check).
pub open spec fn header_verdict(h: TSPacketHeader, af: AdaptationFieldHeader) -> ParseResult {
    if h.sync_byte != 0x47 {
        ParseResult::FormatError
    } else if h.transport_error_indicator {
        ParseResult::TransportError
    } else if 0x0002 <= h.pid <= 0x000F {
        ParseResult::FormatError
    } else if h.transport_scrambling_control == 0x01 {
        ParseResult::FormatError
    } else if h.adaptation_field_control == 0x00 {
        ParseResult::FormatError
    } else if h.adaptation_field_control == 0x02 && af.adaptation_field_length > 183 {
        ParseResult::FormatError
    } else if h.adaptation_field_control == 0x03 && af.adaptation_field_length > 182 {
        ParseResult::FormatError
    } else {
        ParseResult::Success
    }
}

/// The counter recorded for a packet: its continuity counter when it carries a payload, else 0x10.
pub open spec fn recorded_counter(h: TSPacketHeader) -> u8 {
    if h.adaptation_field_control & 0x01 != 0 {
        h.continuity_counter
    } else {
        0x10
    }
}

/// Whether going from counter `old_counter` to `new_counter` is a drop.
pub open spec fn is_discontinuity(af: AdaptationFieldHeader, old_counter: u8, new_counter: u8) -> bool {
    &&& !af.discontinuity_indicator
    &&& old_counter < 0x10
    &&& new_counter < 0x10
    &&& (old_counter + 1) % 16 != new_counter
}

/// What a continuity check reports for a packet with bytes `d` whose PID
/// last recorded `old_counter` (0x10 for none): never a drop when its
/// adaptation field signals a discontinuity (the adaptation field control
/// has bit 1 set, the field is not empty and bit 7 of its flags byte is
/// set), nor when either counter is missing, nor when the packet's counter
/// follows the old one modulo 16; otherwise, when the counter does not
/// follow, a drop.
pub proof fn lemma_continuity_check(d: Seq<u8>, old_counter: u8)
    requires
        d.len() >= 6,
    ensures
        ({
            let h = header_of(d);
            let af = adaptation_field_of(d, h);
            let new_counter = recorded_counter(h);
            let signalled = (d[3] / 32) % 2 == 1 && d[4] > 0 && d[5] >= 0x80;
            &&& signalled ==> !is_discontinuity(af, old_counter, new_counter)
            &&& (old_counter >= 0x10 || new_counter >= 0x10) ==> !is_discontinuity(af, old_counter, new_counter)
            &&& (old_counter < 0x10 && new_counter == (old_counter + 1) % 16) ==> !is_discontinuity(af, old_counter, new_counter)
            &&& (!signalled && old_counter < 0x10 && new_counter < 0x10 && new_counter != (old_counter + 1) % 16)
                ==> is_discontinuity(af, old_counter, new_counter)
        }),
{
    let (b3, b5) = (d[3], d[5]);
    assert((((b3 >> 4u8) & 0x03) & 0x02 != 0) == ((b3 / 32) % 2 == 1) && (b5 & 0x80 != 0) == (b5 >= 0x80)) by (bit_vector);
}

/// Offset of the payload, if the packet has one.
pub open spec fn payload_start(h: TSPacketHeader, af: AdaptationFieldHeader) -> Option<int> {
    if h.adaptation_field_control == 1 {
        Some(4)
    } else if h.adaptation_field_control == 3 && af.adaptation_field_length as int + 5 < 188 {
        Some(af.adaptation_field_length as int + 5)
    } else {
        None
    }
}

/// Size of the payload, 0 if there is none.
pub open spec fn payload_size_of(h: TSPacketHeader, af: AdaptationFieldHeader) -> int {
    match h.adaptation_field_control {
        1 => 184,
        3 => if af.adaptation_field_length as int + 5 >= 188 { 0 } else { 183 - af.adaptation_field_length as int },
        _ => 0,
    }
}

/// A transport stream packet: 188 raw bytes and the headers parsed from them.
#[derive(Clone, Copy)]
pub struct TsPacket {
    pub data: [u8; TS_PACKET_SIZE],
    header: TSPacketHeader,
    adaptation_field: AdaptationFieldHeader,
}

impl Default for TsPacket {
    fn default() -> (r: Self)
        ensures
            r.bytes() == Seq::new(188, |i: int| 0u8),
            r.header() == empty_header(),
            r.adaptation_field() == empty_adaptation_field(),
    {
        let r = TsPacket { data: [0u8; 188], header: new_header(), adaptation_field: new_adaptation_field() };
        assert(r.data@ =~= Seq::new(188, |i: int| 0u8));
        r
    }
}

fn new_header() -> (r: TSPacketHeader)
    ensures
        r == empty_header(),
{
    TSPacketHeader {
        sync_byte: 0,
        transport_error_indicator: false,
        payload_unit_start_indicator: false,
        transport_priority: false,
        pid: 0,
        transport_scrambling_control: 0,
        adaptation_field_control: 0,
        continuity_counter: 0,
    }
}

fn new_adaptation_field() -> (r: AdaptationFieldHeader)
    ensures
        r == empty_adaptation_field(),
{
    AdaptationFieldHeader { adaptation_field_length: 0, flags: 0, discontinuity_indicator: false, option_size: 0 }
}

impl TsPacket {
    /// The packet's raw bytes.
    pub closed spec fn bytes(&self) -> Seq<u8> {
        self.data@
    }

    /// The packet header as last parsed.
    pub closed spec fn header(&self) -> TSPacketHeader {
        self.header
    }

    /// The adaptation field header as last parsed.
    pub closed spec fn adaptation_field(&self) -> AdaptationFieldHeader {
        self.adaptation_field
    }

    /// Creates an unparsed packet holding a copy of `data`.
    pub fn new(data: &[u8; TS_PACKET_SIZE]) -> (r: Self)
        ensures
            r.bytes() == data@,
            r.header() == empty_header(),
            r.adaptation_field() == empty_adaptation_field(),
    {
        TsPacket { data: *data, header: new_header(), adaptation_field: new_adaptation_field() }
    }

    fn parse_fields(&mut self)
        ensures
            final(self).bytes() == old(self).bytes(),
            final(self).header() == header_of(old(self).bytes()),
            final(self).adaptation_field() == adaptation_field_of(old(self).bytes(), header_of(old(self).bytes())),
    {
        let d1 = self.data[1];
        let d3 = self.data[3];
        self.header = TSPacketHeader {
            sync_byte: self.data[0],
            transport_error_indicator: d1 & 0x80 != 0,
            payload_unit_start_indicator: d1 & 0x40 != 0,
            transport_priority: d1 & 0x20 != 0,
            pid: ((d1 & 0x1F) as u16) * 0x100 + self.data[2] as u16,
            transport_scrambling_control: d3 >> 6u8,
            adaptation_field_control: (d3 >> 4u8) & 0x03,
            continuity_counter: d3 & 0x0F,
        };
        self.adaptation_field = new_adaptation_field();
        if self.header.adaptation_field_control & 0x02 != 0 {
            let afl = self.data[4];
            self.adaptation_field.adaptation_field_length = afl;
            if afl > 0 {
                let flags = self.data[5];
                self.adaptation_field.flags = flags;
                self.adaptation_field.discontinuity_indicator = flags & 0x80 != 0;
                if afl > 1 {
                    self.adaptation_field.option_size = afl - 1;
                }
            }
        }
    }

    /// Parses the packet headers and checks the packet. With a continuity counter
    /// table, also checks and records the continuity counter of the packet's PID.
    pub fn parse_packet(&mut self, continuity_counters: Option<&mut [u8; NUM_PID]>) -> (r: ParseResult)
        ensures
            final(self).bytes() == old(self).bytes(),
            final(self).header() == header_of(old(self).bytes()),
            final(self).adaptation_field() == adaptation_field_of(old(self).bytes(), final(self).header()),
            ({
                let h = final(self).header();
                let af = final(self).adaptation_field();
                let verdict = header_verdict(h, af);
                match continuity_counters {
                    None => r == verdict,
                    Some(c) => {
                        if verdict != ParseResult::Success || h.pid == PID_NULL {
                            &&& r == verdict
                            &&& final(c)@ == c@
                        } else {
                            let old_counter = c@[h.pid as int];
                            let new_counter = recorded_counter(h);
                            &&& final(c)@ == c@.update(h.pid as int, new_counter)
                            &&& r == if is_discontinuity(af, old_counter, new_counter) {
                                ParseResult::ContinuityError
                            } else {
                                ParseResult::Success
                            }
                        }
                    },
                }
            }),
    {
        self.parse_fields();
        let h = self.header;
        let af = self.adaptation_field;
        let verdict = if h.sync_byte != 0x47 {
            ParseResult::FormatError
        } else if h.transport_error_indicator {
            ParseResult::TransportError
        } else if h.pid >= 0x0002 && h.pid <= 0x000F {
            ParseResult::FormatError
        } else if h.transport_scrambling_control == 0x01 {
            ParseResult::FormatError
        } else if h.adaptation_field_control == 0x00 {
            ParseResult::FormatError
        } else if h.adaptation_field_control == 0x02 && af.adaptation_field_length > 183 {
            ParseResult::FormatError
        } else if h.adaptation_field_control == 0x03 && af.adaptation_field_length > 182 {
            ParseResult::FormatError
        } else {
            ParseResult::Success
        };
        match continuity_counters {
            None => verdict,
            Some(counters) => {
                if verdict != ParseResult::Success || h.pid == PID_NULL {
                    return verdict;
                }
                proof {
                    lemma_pid_bound(self.data[1], self.data[2]);
                }
                let idx = h.pid as usize;
                let old_counter = counters[idx];
                let new_counter = if h.adaptation_field_control & 0x01 != 0 {
                    h.continuity_counter
                } else {
                    0x10
                };
                counters[idx] = new_counter;
                if !af.discontinuity_indicator && old_counter < 0x10 && new_counter < 0x10 && (
                old_counter + 1) % 16 != new_counter {
                    ParseResult::ContinuityError
                } else {
                    ParseResult::Success
                }
            },
        }
    }

    /// Re-reads the header fields of a packet that was parsed before
    /// (the sync byte and the transport error indicator are kept).
    pub fn reparse_packet(&mut self)
        ensures
            final(self).bytes() == old(self).bytes(),
            final(self).header() == (TSPacketHeader {
                sync_byte: old(self).header().sync_byte,
                transport_error_indicator: old(self).header().transport_error_indicator,
                ..header_of(old(self).bytes())
            }),
            final(self).adaptation_field() == adaptation_field_of(old(self).bytes(), header_of(old(self).bytes())),
    {
        let sync_byte = self.header.sync_byte;
        let tei = self.header.transport_error_indicator;
        self.parse_fields();
        self.header.sync_byte = sync_byte;
        self.header.transport_error_indicator = tei;
    }

    fn payload_start_pos(&self) -> (r: Option<usize>)
        ensures
            match payload_start(self.header(), self.adaptation_field()) {
                None => r is None,
                Some(p) => r == Some(p as usize),
            },
    {
        if self.header.adaptation_field_control == 1 {
            Some(4)
        } else if self.header.adaptation_field_control == 3 {
            let pos = self.adaptation_field.adaptation_field_length as usize + 5;
            if pos < TS_PACKET_SIZE {
                Some(pos)
            } else {
                None
            }
        } else {
            None
        }
    }

    /// The bytes from the start of the payload to the end of the packet, if there is a payload.
    pub fn get_payload_data(&self) -> (r: Option<&[u8]>)
        ensures
            match payload_start(self.header(), self.adaptation_field()) {
                None => r is None,
                Some(p) => (r matches Some(s) && s@ == self.bytes().subrange(p, 188)),
            },
            r matches Some(s) ==> s@.len() == payload_size_of(self.header(), self.adaptation_field()),
    {
        match self.payload_start_pos() {
            None => None,
            Some(start) => Some(slice_from(&self.data, start)),
        }
    }

    /// The payload size in bytes.
    pub fn get_payload_size(&self) -> (r: u8)
        ensures
            r as int == payload_size_of(self.header(), self.adaptation_field()),
    {
        match self.header.adaptation_field_control {
            1 => 184,
            3 => {
                let afl = self.adaptation_field.adaptation_field_length;
                if afl as usize + 5 >= TS_PACKET_SIZE {
                    0
                } else {
                    183 - afl
                }
            },
            _ => 0,
        }
    }

    /// The packet's PID.
    pub fn get_pid(&self) -> (r: u16)
        ensures
            r == self.header().pid,
    {
        self.header.pid
    }

    /// Sets the PID, both in the raw bytes and in the parsed header.
    pub fn set_pid(&mut self, pid: u16)
        ensures
            final(self).bytes() == old(self).bytes().update(1, (old(self).bytes()[1] & 0xE0) | ((pid % 0x2000) / 0x100) as u8)
                .update(2, (pid % 0x100) as u8),
            final(self).header() == (TSPacketHeader { pid: (pid % 0x2000) as u16, ..old(self).header() }),
            final(self).adaptation_field() == old(self).adaptation_field(),
    {
        let pid = pid % 0x2000;
        self.data[1] = (self.data[1] & 0xE0) | (pid / 0x100) as u8;
        self.data[2] = (pid % 0x100) as u8;
        self.header.pid = pid;
    }

    pub fn get_transport_error_indicator(&self) -> (r: bool)
        ensures
            r == self.header().transport_error_indicator,
    {
        self.header.transport_error_indicator
    }

    pub fn get_payload_unit_start_indicator(&self) -> (r: bool)
        ensures
            r == self.header().payload_unit_start_indicator,
    {
        self.header.payload_unit_start_indicator
    }

    pub fn get_transport_priority(&self) -> (r: bool)
        ensures
            r == self.header().transport_priority,
    {
        self.header.transport_priority
    }

    pub fn get_transport_scrambling_control(&self) -> (r: u8)
        ensures
            r == self.header().transport_scrambling_control,
    {
        self.header.transport_scrambling_control
    }

    pub fn have_adaptation_field(&self) -> (r: bool)
        ensures
            r == (self.header().adaptation_field_control & 0x02 != 0),
    {
        self.header.adaptation_field_control & 0x02 != 0
    }

    pub fn have_payload(&self) -> (r: bool)
        ensures
            r == (self.header().adaptation_field_control & 0x01 != 0),
    {
        self.header.adaptation_field_control & 0x01 != 0
    }

    pub fn is_scrambled(&self) -> (r: bool)
        ensures
            r == (self.header().transport_scrambling_control & 0x02 != 0),
    {
        self.header.transport_scrambling_control & 0x02 != 0
    }

    pub fn get_discontinuity_indicator(&self) -> (r: bool)
        ensures
            r == self.adaptation_field().discontinuity_indicator,
    {
        self.adaptation_field.discontinuity_indicator
    }

    pub fn get_random_access_indicator(&self) -> (r: bool)
        ensures
            r == (self.adaptation_field().flags & 0x40 != 0),
    {
        self.adaptation_field.flags & 0x40 != 0
    }

    pub fn get_es_priority_indicator(&self) -> (r: bool)
        ensures
            r == (self.adaptation_field().flags & 0x20 != 0),
    {
        self.adaptation_field.flags & 0x20 != 0
    }

    pub fn get_pcr_flag(&self) -> (r: bool)
        ensures
            r == (self.adaptation_field().flags & 0x10 != 0),
    {
        self.adaptation_field.flags & 0x10 != 0
    }

    pub fn get_opcr_flag(&self) -> (r: bool)
        ensures
            r == (self.adaptation_field().flags & 0x08 != 0),
    {
        self.adaptation_field.flags & 0x08 != 0
    }

    pub fn get_splicing_point_flag(&self) -> (r: bool)
        ensures
            r == (self.adaptation_field().flags & 0x04 != 0),
    {
        self.adaptation_field.flags & 0x04 != 0
    }

    pub fn get_transport_private_data_flag(&self) -> (r: bool)
        ensures
            r == (self.adaptation_field().flags & 0x02 != 0),
    {
        self.adaptation_field.flags & 0x02 != 0
    }

    pub fn get_adaptation_field_ext_flag(&self) -> (r: bool)
        ensures
            r == (self.adaptation_field().flags & 0x01 != 0),
    {
        self.adaptation_field.flags & 0x01 != 0
    }

    pub fn get_option_size(&self) -> (r: u8)
        ensures
            r == self.adaptation_field().option_size,
    {
        self.adaptation_field.option_size
    }

    /// The adaptation field's optional bytes, if there are any.
    pub fn get_option_data(&self) -> (r: Option<&[u8]>)
        requires
            self.adaptation_field().option_size <= 182,
        ensures
            self.adaptation_field().option_size == 0 ==> r is None,
            self.adaptation_field().option_size > 0 ==> (r matches Some(s) && s@ == self.bytes().subrange(
                6,
                6 + self.adaptation_field().option_size,
            )),
    {
        let sz = self.adaptation_field.option_size as usize;
        if sz > 0 {
            Some(slice_range(&self.data, 6, 6 + sz))
        } else {
            None
        }
    }

    pub fn get_continuity_counter(&self) -> (r: u8)
        ensures
            r == self.header().continuity_counter,
    {
        self.header.continuity_counter
    }
}

proof fn lemma_pid_bound(b1: u8, b2: u8)
    ensures
        (b1 & 0x1F) as int * 0x100 + b2 as int <= 0x1FFF,
{
    assert(b1 & 0x1F <= 0x1F) by (bit_vector);
}

/// The sub-slice `s[start..end]`.
pub fn slice_range(s: &[u8], start: usize, end: usize) -> (r: &[u8])
    requires
        start <= end <= s@.len(),
    ensures
        r@ == s@.subrange(start as int, end as int),
{
    &s[start..end]
}

/// The sub-slice `s[start..]`.
pub fn slice_from(s: &[u8], start: usize) -> (r: &[u8])
    requires
        start <= s@.len(),
    ensures
        r@ == s@.subrange(start as int, s@.len() as int),
{
    &s[start..s.len()]
}

} // verus!
