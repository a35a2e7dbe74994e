//! ADTS (AAC audio) frame header parsing and frame extraction from a byte stream.
use vstd::prelude::*;
use crate::utilities::{extend_bytes, sub_slice};

verus! {

/// Sampling frequency of each sampling frequency index.
pub open spec fn sampling_freq_of(idx: int) -> u32 {
    if idx == 0 { 96000 }
    else if idx == 1 { 88200 }
    else if idx == 2 { 64000 }
    else if idx == 3 { 48000 }
    else if idx == 4 { 44100 }
    else if idx == 5 { 32000 }
    else if idx == 6 { 24000 }
    else if idx == 7 { 22050 }
    else if idx == 8 { 16000 }
    else if idx == 9 { 12000 }
    else if idx == 10 { 11025 }
    else if idx == 11 { 8000 }
    else { 0 }
}

/// Fields of an ADTS header.
#[derive(Debug, Clone, Copy, Default, PartialEq, Eq, Structural)]
pub struct AdtsHeader {
    pub mpeg_version: bool,
    pub protection_absent: bool,
    pub profile: u8,
    pub sampling_freq_index: u8,
    pub private_bit: bool,
    pub channel_config: u8,
    pub original_copy: bool,
    pub home: bool,
    pub copyright_id_bit: bool,
    pub copyright_id_start: bool,
    pub frame_length: u16,
    pub buffer_fullness: u16,
    pub raw_data_block_num: u8,
}

/// The all-zero ADTS header.
pub open spec fn zero_adts_header() -> AdtsHeader {
    AdtsHeader {
        mpeg_version: false,
        protection_absent: false,
        profile: 0,
        sampling_freq_index: 0,
        private_bit: false,
        channel_config: 0,
        original_copy: false,
        home: false,
        copyright_id_bit: false,
        copyright_id_start: false,
        frame_length: 0,
        buffer_fullness: 0,
        raw_data_block_num: 0,
    }
}

/// Whether `d` starts with the ADTS syncword and layer 0.
pub open spec fn adts_synced(d: Seq<u8>) -> bool {
    d[0] == 0xFF && (d[1] & 0xF6) == 0xF0
}

/// The header fields encoded in the first seven bytes of `d`.
pub open spec fn adts_header_of(d: Seq<u8>) -> AdtsHeader {
    AdtsHeader {
        mpeg_version: (d[1] & 0x08) != 0,
        protection_absent: (d[1] & 0x01) != 0,
        profile: (d[2] & 0xC0) >> 6u8,
        sampling_freq_index: (d[2] & 0x3C) >> 2u8,
        private_bit: (d[2] & 0x02) != 0,
        channel_config: ((d[2] & 0x01) << 2u8) | ((d[3] & 0xC0) >> 6u8),
        original_copy: (d[3] & 0x20) != 0,
        home: (d[3] & 0x10) != 0,
        copyright_id_bit: (d[3] & 0x08) != 0,
        copyright_id_start: (d[3] & 0x04) != 0,
        frame_length: (((d[3] & 0x03) as u16) << 11u16) | ((d[4] as u16) << 3u16) | ((d[5] as u16 & 0xE0) >> 5u16),
        buffer_fullness: (((d[5] & 0x1F) as u16) << 6u16) | ((d[6] as u16 & 0xFC) >> 2u16),
        raw_data_block_num: d[6] & 0x03,
    }
}

/// Where the fields of an ADTS header are: the MPEG version and
/// protection_absent flags are bits 3 and 0 of byte 1; the profile,
/// sampling frequency index and private bit are bits 7..6, 5..2 and 1 of
/// byte 2; the channel configuration is bit 0 of byte 2 and bits 7..6 of
/// byte 3; the original/copy, home and copyright bits are bits 5, 4, 3 and
/// 2 of byte 3; the 13-bit frame length is bits 1..0 of byte 3, byte 4 and
/// bits 7..5 of byte 5; the buffer fullness bits 4..0 of byte 5 and bits
/// 7..2 of byte 6; and the number of raw data blocks bits 1..0 of byte 6.
pub proof fn lemma_adts_header_layout(d: Seq<u8>)
    requires
        d.len() >= 7,
    ensures
        ({
            let h = adts_header_of(d);
            &&& h.mpeg_version == ((d[1] / 8) % 2 == 1)
            &&& h.protection_absent == (d[1] % 2 == 1)
            &&& h.profile == d[2] / 64
            &&& h.sampling_freq_index == (d[2] / 4) % 16
            &&& h.private_bit == ((d[2] / 2) % 2 == 1)
            &&& h.channel_config == (d[2] % 2) * 4 + d[3] / 64
            &&& h.original_copy == ((d[3] / 32) % 2 == 1)
            &&& h.home == ((d[3] / 16) % 2 == 1)
            &&& h.copyright_id_bit == ((d[3] / 8) % 2 == 1)
            &&& h.copyright_id_start == ((d[3] / 4) % 2 == 1)
            &&& h.frame_length == (d[3] % 4) * 0x800 + d[4] * 8 + d[5] / 32
            &&& h.buffer_fullness == (d[5] % 32) * 64 + d[6] / 4
            &&& h.raw_data_block_num == d[6] % 4
        }),
{
    let (b1, b2, b3, b4, b5, b6) = (d[1], d[2], d[3], d[4], d[5], d[6]);
    assert(((b1 & 0x08) != 0) == ((b1 / 8) % 2 == 1) && ((b1 & 0x01) != 0) == (b1 % 2 == 1)
        && (b2 & 0xC0) >> 6u8 == b2 / 64 && (b2 & 0x3C) >> 2u8 == (b2 / 4) % 16
        && ((b2 & 0x02) != 0) == ((b2 / 2) % 2 == 1)
        && ((b2 & 0x01) << 2u8) | ((b3 & 0xC0) >> 6u8) == (b2 % 2) * 4 + b3 / 64
        && ((b3 & 0x20) != 0) == ((b3 / 32) % 2 == 1) && ((b3 & 0x10) != 0) == ((b3 / 16) % 2 == 1)
        && ((b3 & 0x08) != 0) == ((b3 / 8) % 2 == 1) && ((b3 & 0x04) != 0) == ((b3 / 4) % 2 == 1)
        && (((b3 & 0x03) as u16) << 11u16) | ((b4 as u16) << 3u16) | ((b5 as u16 & 0xE0) >> 5u16) == (b3 % 4) * 0x800 + b4 * 8 + b5 / 32
        && (((b5 & 0x1F) as u16) << 6u16) | ((b6 as u16 & 0xFC) >> 2u16) == (b5 % 32) * 64 + b6 / 4
        && b6 & 0x03 == b6 % 4) by (bit_vector);
}

/// Whether the fields of an ADTS header are supported.
pub open spec fn adts_header_valid(h: AdtsHeader) -> bool {
    &&& h.profile != 3
    &&& h.sampling_freq_index <= 0x0B
    &&& (h.channel_config < 3 || h.channel_config == 6)
    &&& h.frame_length >= (if h.protection_absent { 7u16 } else { 9u16 })
    &&& h.raw_data_block_num == 0
}

/// An ADTS frame: raw bytes and the header parsed from them.
#[derive(Debug)]
pub struct AdtsFrame {
    pub data: Vec<u8>,
    pub header: AdtsHeader,
}

impl Clone for AdtsFrame {
    fn clone(&self) -> (r: Self)
        ensures
            r.bytes() == self.bytes(),
            r.header() == self.header(),
    {
        AdtsFrame { data: self.data.clone(), header: self.header }
    }
}

impl Default for AdtsFrame {
    fn default() -> (r: Self)
        ensures
            r.bytes() == Seq::<u8>::empty(),
            r.header() == zero_adts_header(),
    {
        AdtsFrame::new()
    }
}

fn new_adts_header() -> (r: AdtsHeader)
    ensures
        r == zero_adts_header(),
{
    AdtsHeader {
        mpeg_version: false,
        protection_absent: false,
        profile: 0,
        sampling_freq_index: 0,
        private_bit: false,
        channel_config: 0,
        original_copy: false,
        home: false,
        copyright_id_bit: false,
        copyright_id_start: false,
        frame_length: 0,
        buffer_fullness: 0,
        raw_data_block_num: 0,
    }
}

impl AdtsFrame {
    /// The raw bytes held.
    pub open spec fn bytes(&self) -> Seq<u8> {
        self.data@
    }

    /// The header as last parsed.
    pub open spec fn header(&self) -> AdtsHeader {
        self.header
    }

    /// An empty frame.
    pub fn new() -> (r: Self)
        ensures
            r.bytes() == Seq::<u8>::empty(),
            r.header() == zero_adts_header(),
    {
        AdtsFrame { data: Vec::new(), header: new_adts_header() }
    }

    /// Parses the header held in the first seven bytes. With too few bytes or a
    /// wrong syncword nothing changes; otherwise the fields are stored and the
    /// result says whether they are supported.
    pub fn parse_header(&mut self) -> (r: bool)
        ensures
            final(self).bytes() == old(self).bytes(),
            if old(self).bytes().len() < 7 || !adts_synced(old(self).bytes()) {
                !r && final(self).header() == old(self).header()
            } else {
                &&& final(self).header() == adts_header_of(old(self).bytes())
                &&& r == adts_header_valid(adts_header_of(old(self).bytes()))
            },
    {
        if self.data.len() < 7 {
            return false;
        }
        let d = &self.data;
        if d[0] != 0xFF || (d[1] & 0xF6) != 0xF0 {
            return false;
        }
        let h = AdtsHeader {
            mpeg_version: (d[1] & 0x08) != 0,
            protection_absent: (d[1] & 0x01) != 0,
            profile: (d[2] & 0xC0) >> 6u8,
            sampling_freq_index: (d[2] & 0x3C) >> 2u8,
            private_bit: (d[2] & 0x02) != 0,
            channel_config: ((d[2] & 0x01) << 2u8) | ((d[3] & 0xC0) >> 6u8),
            original_copy: (d[3] & 0x20) != 0,
            home: (d[3] & 0x10) != 0,
            copyright_id_bit: (d[3] & 0x08) != 0,
            copyright_id_start: (d[3] & 0x04) != 0,
            frame_length: (((d[3] & 0x03) as u16) << 11u16) | ((d[4] as u16) << 3u16) | ((d[5] as u16 & 0xE0) >> 5u16),
            buffer_fullness: (((d[5] & 0x1F) as u16) << 6u16) | ((d[6] as u16 & 0xFC) >> 2u16),
            raw_data_block_num: d[6] & 0x03,
        };
        self.header = h;
        if h.profile == 3 {
            return false;
        }
        if h.sampling_freq_index > 0x0B {
            return false;
        }
        if h.channel_config >= 3 && h.channel_config != 6 {
            return false;
        }
        let min_len: u16 = if h.protection_absent { 7 } else { 9 };
        if h.frame_length < min_len {
            return false;
        }
        if h.raw_data_block_num != 0 {
            return false;
        }
        true
    }

    /// Clears the bytes and the header.
    pub fn reset(&mut self)
        ensures
            final(self).bytes() == Seq::<u8>::empty(),
            final(self).header() == zero_adts_header(),
    {
        self.data.clear();
        self.header = new_adts_header();
    }

    /// Clears the bytes, keeping the header.
    pub fn clear_size(&mut self)
        ensures
            final(self).bytes() == Seq::<u8>::empty(),
            final(self).header() == old(self).header(),
    {
        self.data.clear();
    }

    /// The sampling frequency in Hz, or 0 for an undefined index.
    pub fn get_sampling_freq(&self) -> (r: u32)
        ensures
            r == sampling_freq_of(self.header().sampling_freq_index as int),
    {
        let table: [u32; 12] = [96000, 88200, 64000, 48000, 44100, 32000, 24000, 22050, 16000, 12000, 11025, 8000];
        let idx = self.header.sampling_freq_index as usize;
        if idx < 12 {
            table[idx]
        } else {
            0
        }
    }

    pub fn get_mpeg_version(&self) -> (r: bool)
        ensures
            r == self.header().mpeg_version,
    {
        self.header.mpeg_version
    }

    pub fn get_protection_absent(&self) -> (r: bool)
        ensures
            r == self.header().protection_absent,
    {
        self.header.protection_absent
    }

    pub fn get_profile(&self) -> (r: u8)
        ensures
            r == self.header().profile,
    {
        self.header.profile
    }

    pub fn get_sampling_freq_index(&self) -> (r: u8)
        ensures
            r == self.header().sampling_freq_index,
    {
        self.header.sampling_freq_index
    }

    pub fn get_private_bit(&self) -> (r: bool)
        ensures
            r == self.header().private_bit,
    {
        self.header.private_bit
    }

    pub fn get_channel_config(&self) -> (r: u8)
        ensures
            r == self.header().channel_config,
    {
        self.header.channel_config
    }

    pub fn get_original_copy(&self) -> (r: bool)
        ensures
            r == self.header().original_copy,
    {
        self.header.original_copy
    }

    pub fn get_home(&self) -> (r: bool)
        ensures
            r == self.header().home,
    {
        self.header.home
    }

    pub fn get_copyright_id_bit(&self) -> (r: bool)
        ensures
            r == self.header().copyright_id_bit,
    {
        self.header.copyright_id_bit
    }

    pub fn get_copyright_id_start(&self) -> (r: bool)
        ensures
            r == self.header().copyright_id_start,
    {
        self.header.copyright_id_start
    }

    pub fn get_frame_length(&self) -> (r: u16)
        ensures
            r == self.header().frame_length,
    {
        self.header.frame_length
    }

    pub fn get_buffer_fullness(&self) -> (r: u16)
        ensures
            r == self.header().buffer_fullness,
    {
        self.header.buffer_fullness
    }

    pub fn get_raw_data_block_num(&self) -> (r: u8)
        ensures
            r == self.header().raw_data_block_num,
    {
        self.header.raw_data_block_num
    }

    /// The number of raw bytes held.
    pub fn get_size(&self) -> (r: usize)
        ensures
            r == self.bytes().len(),
    {
        self.data.len()
    }
}

/// State of an ADTS parser: the frame being collected and whether its header was found.
pub struct AdtsParserModel {
    pub bytes: Seq<u8>,
    pub header: AdtsHeader,
    pub storing: bool,
}

/// Feeding one byte while hunting for a header: the new bytes and header, and whether a header was found.
pub open spec fn adts_sync_step(bytes: Seq<u8>, header: AdtsHeader, byte: u8) -> (Seq<u8>, AdtsHeader, bool) {
    if bytes.len() == 0 {
        (if byte == 0xFF { bytes.push(byte) } else { bytes }, header, false)
    } else if bytes.len() == 1 {
        (if (byte & 0xF6) == 0xF0 { bytes.push(byte) } else { Seq::empty() }, header, false)
    } else if bytes.len() <= 5 {
        (bytes.push(byte), header, false)
    } else if bytes.len() == 6 {
        let b = bytes.push(byte);
        if adts_synced(b) {
            let h = adts_header_of(b);
            if adts_header_valid(h) { (b, h, true) } else { (Seq::empty(), h, false) }
        } else {
            (Seq::empty(), header, false)
        }
    } else {
        (Seq::empty(), header, false)
    }
}

/// Feeding `data` from `pos` on: the final state, whether a header was found,
/// and the completed frames (bytes and header), in order.
pub open spec fn feed_adts(
    data: Seq<u8>,
    pos: int,
    st: AdtsParserModel,
    found: bool,
    out: Seq<(Seq<u8>, AdtsHeader)>,
) -> (AdtsParserModel, bool, Seq<(Seq<u8>, AdtsHeader)>)
    decreases data.len() - pos, if st.storing { 1int } else { 0int },
{
    if pos >= data.len() || pos < 0 {
        (st, found, out)
    } else if !st.storing {
        let (b, h, ok) = adts_sync_step(st.bytes, st.header, data[pos]);
        feed_adts(data, pos + 1, AdtsParserModel { bytes: b, header: h, storing: ok }, found || ok, out)
    } else {
        let need = if st.header.frame_length as int > st.bytes.len() { st.header.frame_length as int - st.bytes.len() } else { 0 };
        if need <= data.len() - pos {
            let b = st.bytes + data.subrange(pos, pos + need);
            feed_adts(
                data,
                pos + need,
                AdtsParserModel { bytes: Seq::empty(), header: st.header, storing: false },
                found,
                out.push((b, st.header)),
            )
        } else {
            (AdtsParserModel { bytes: st.bytes + data.subrange(pos, data.len() as int), header: st.header, storing: true }, found, out)
        }
    }
}

/// Extracts ADTS frames from a byte stream.
pub struct AdtsParser {
    frame: AdtsFrame,
    is_storing: bool,
}

impl Default for AdtsParser {
    fn default() -> (r: Self)
        ensures
            r.model() == (AdtsParserModel { bytes: Seq::empty(), header: zero_adts_header(), storing: false }),
    {
        AdtsParser::new()
    }
}

/// Whether `handler` was handed each frame of `out`: there are frames
/// with the bytes and headers of `out`, in order, and the handler was called
/// with each of them.
pub open spec fn frames_handed<F: FnMut(&AdtsFrame)>(handler: F, out: Seq<(Seq<u8>, AdtsHeader)>) -> bool {
    exists|given: Seq<AdtsFrame>| #[trigger] frames_handed_all(handler, out, given)
}

/// `given` holds, in order, frames with the bytes and headers of `out`,
/// and the handler was called with each of them.
pub open spec fn frames_handed_all<F: FnMut(&AdtsFrame)>(handler: F, out: Seq<(Seq<u8>, AdtsHeader)>, given: Seq<AdtsFrame>) -> bool {
    &&& given.len() == out.len()
    &&& forall|k: int| 0 <= k < out.len() ==> (#[trigger] given[k]).bytes() == out[k].0 && given[k].header() == out[k].1
    &&& forall|k: int| 0 <= k < given.len() ==> #[trigger] call_ensures(handler, (&given[k],), ())
}

impl AdtsParser {
    /// The parser's state.
    pub closed spec fn model(&self) -> AdtsParserModel {
        AdtsParserModel { bytes: self.frame.bytes(), header: self.frame.header(), storing: self.is_storing }
    }

    /// A parser with nothing collected.
    pub fn new() -> (r: Self)
        ensures
            r.model() == (AdtsParserModel { bytes: Seq::empty(), header: zero_adts_header(), storing: false }),
    {
        AdtsParser { frame: AdtsFrame::new(), is_storing: false }
    }

    /// Forgets everything collected.
    pub fn reset(&mut self)
        ensures
            final(self).model() == (AdtsParserModel { bytes: Seq::empty(), header: zero_adts_header(), storing: false }),
    {
        self.is_storing = false;
        self.frame.reset();
    }

    /// The frame being collected.
    pub fn frame(&self) -> (r: &AdtsFrame)
        ensures
            r.bytes() == self.model().bytes,
            r.header() == self.model().header,
    {
        &self.frame
    }

    /// Whether a header was found and its frame's bytes are being collected.
    pub fn is_storing(&self) -> (r: bool)
        ensures
            r == self.model().storing,
    {
        self.is_storing
    }

    fn sync_frame(&mut self, byte: u8) -> (r: bool)
        ensures
            ({
                let (b, h, ok) = adts_sync_step(old(self).frame.bytes(), old(self).frame.header(), byte);
                final(self).frame.bytes() == b && final(self).frame.header() == h && r == ok
            }),
            final(self).is_storing == old(self).is_storing,
    {
        let size = self.frame.get_size();
        if size == 0 {
            if byte == 0xFF {
                self.frame.data.push(byte);
            }
            false
        } else if size == 1 {
            if (byte & 0xF6) == 0xF0 {
                self.frame.data.push(byte);
            } else {
                self.frame.clear_size();
            }
            false
        } else if size <= 5 {
            self.frame.data.push(byte);
            false
        } else if size == 6 {
            self.frame.data.push(byte);
            if self.frame.parse_header() {
                true
            } else {
                self.frame.clear_size();
                false
            }
        } else {
            self.frame.clear_size();
            false
        }
    }

    /// Feeds a chunk of the stream. Returns whether a frame header was found, and
    /// the frames completed, in order.
    pub fn store_es_collect(&mut self, data: &[u8]) -> (r: (bool, Vec<AdtsFrame>))
        ensures
            ({
                let (st, found, out) = feed_adts(data@, 0, old(self).model(), false, Seq::empty());
                &&& final(self).model() == st
                &&& r.0 == found
                &&& r.1@.len() == out.len()
                &&& forall|k: int| 0 <= k < out.len() ==> (#[trigger] r.1@[k]).bytes() == out[k].0
                    && r.1@[k].header() == out[k].1
            }),
    {
        let mut frames: Vec<AdtsFrame> = Vec::new();
        if data.len() == 0 {
            return (false, frames);
        }
        let mut frame_found = false;
        let mut pos: usize = 0;
        let ghost mut out: Seq<(Seq<u8>, AdtsHeader)> = Seq::empty();
        let ghost target = feed_adts(data@, 0, old(self).model(), false, Seq::empty());
        while pos < data.len()
            invariant_except_break
                feed_adts(data@, pos as int, self.model(), frame_found, out) == target,
            invariant
                pos <= data@.len(),
                frames@.len() == out.len(),
                forall|k: int| 0 <= k < out.len() ==> (#[trigger] frames@[k]).bytes() == out[k].0
                    && frames@[k].header() == out[k].1,
            ensures
                target == (self.model(), frame_found, out),
            decreases data@.len() - pos, if self.is_storing { 1int } else { 0int },
        {
            let ghost st0 = self.model();
            let ghost pos0 = pos as int;
            let ghost found0 = frame_found;
            let ghost out0 = out;
            if !self.is_storing {
                let ok = self.sync_frame(data[pos]);
                if ok {
                    self.is_storing = true;
                    frame_found = true;
                }
                pos = pos + 1;
                proof {
                    let (b, h, ok2) = adts_sync_step(st0.bytes, st0.header, data@[pos0]);
                    assert(ok2 == ok);
                    assert(self.model() == AdtsParserModel { bytes: b, header: h, storing: ok2 });
                    assert(feed_adts(data@, pos0, st0, found0, out0) == feed_adts(data@, pos as int, self.model(), frame_found, out));
                }
            } else {
                let fl = self.frame.get_frame_length() as usize;
                let size = self.frame.get_size();
                let store_remain = if fl > size { fl - size } else { 0 };
                let data_remain = data.len() - pos;
                if store_remain <= data_remain {
                    extend_bytes(&mut self.frame.data, sub_slice(data, pos, pos + store_remain));
                    pos = pos + store_remain;
                    self.is_storing = false;
                    let done = self.frame.clone();
                    proof {
                        out = out.push((done.bytes(), done.header()));
                    }
                    frames.push(done);
                    self.frame.clear_size();
                    proof {
                        assert(feed_adts(data@, pos0, st0, found0, out0) == feed_adts(data@, pos as int, self.model(), frame_found, out));
                    }
                } else {
                    extend_bytes(&mut self.frame.data, sub_slice(data, pos, data.len()));
                    proof {
                        assert(self.model() == AdtsParserModel { bytes: st0.bytes + data@.subrange(pos0, data@.len() as int), header: st0.header, storing: true });
                    }
                    break;
                }
            }
        }
        (frame_found, frames)
    }

    /// Feeds a chunk of the stream, handing each completed frame to `handler`.
    /// Returns whether a frame header was found.
    pub fn store_es<F: FnMut(&AdtsFrame)>(&mut self, data: &[u8], handler: &mut F) -> (r: bool)
        requires
            forall|f: &AdtsFrame| #[trigger] call_requires(*old(handler), (f,)),
        ensures
            ({
                let (st, found, out) = feed_adts(data@, 0, old(self).model(), false, Seq::empty());
                &&& final(self).model() == st
                &&& r == found
                &&& frames_handed(*old(handler), out)
            }),
            *final(handler) == *old(handler),
    {
        let (found, frames) = self.store_es_collect(data);
        let mut k: usize = 0;
        while k < frames.len()
            invariant
                k <= frames@.len(),
                *handler == *old(handler),
                forall|f: &AdtsFrame| #[trigger] call_requires(*handler, (f,)),
                forall|j: int| 0 <= j < k ==> #[trigger] call_ensures(*old(handler), (&frames@[j],), ()),
            decreases frames.len() - k,
        {
            handler(&frames[k]);
            k = k + 1;
        }
        proof {
            let out = feed_adts(data@, 0, old(self).model(), false, Seq::empty()).2;
            assert(frames_handed_all(*old(handler), out, frames@));
        }
        found
    }
}

} // verus!
