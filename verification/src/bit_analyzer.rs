//! The network information of the broadcaster information table: its SI
//! transmission parameters, and the name, services and extended information
//! of each broadcaster of the network.
use vstd::prelude::*;
use crate::arib_decoder::{decode_to_string, decoded, utf16_lossy, KanjiMap};
use crate::arib_string::{default_decode_flags, DecodeFlags};
use crate::datetime::DateTime;

verus! {

/// The broadcaster type when no extended broadcaster descriptor gives one.
pub const BROADCASTER_TYPE_INVALID: u8 = 0xFF;

/// One entry of a service list: a service and its type.
#[derive(Clone, Copy, Debug, PartialEq, Eq, Structural)]
pub struct BITServiceInfo {
    pub service_id: u16,
    pub service_type: u8,
}

impl Default for BITServiceInfo {
    fn default() -> (r: BITServiceInfo)
        ensures
            r == (BITServiceInfo { service_id: 0, service_type: 0 }),
    {
        BITServiceInfo { service_id: 0, service_type: 0 }
    }
}

/// One entry of the broadcaster list of a terrestrial broadcaster.
#[derive(Clone, Copy, Debug, PartialEq, Eq, Structural)]
pub struct BroadcasterIdEntry {
    pub original_network_id: u16,
    pub broadcaster_id: u8,
}

impl Default for BroadcasterIdEntry {
    fn default() -> (r: BroadcasterIdEntry)
        ensures
            r == (BroadcasterIdEntry { original_network_id: 0, broadcaster_id: 0 }),
    {
        BroadcasterIdEntry { original_network_id: 0, broadcaster_id: 0 }
    }
}

/// What an extended broadcaster descriptor says of a terrestrial broadcaster.
#[derive(Clone, Debug, PartialEq, Eq)]
pub struct TerrestrialBroadcasterInfo {
    pub terrestrial_broadcaster_id: u16,
    pub affiliation_id_list: Vec<u8>,
    pub broadcaster_id_list: Vec<BroadcasterIdEntry>,
}

impl Default for TerrestrialBroadcasterInfo {
    fn default() -> (r: TerrestrialBroadcasterInfo)
        ensures
            r.terrestrial_broadcaster_id == 0,
            r.affiliation_id_list@.len() == 0,
            r.broadcaster_id_list@.len() == 0,
    {
        TerrestrialBroadcasterInfo {
            terrestrial_broadcaster_id: 0,
            affiliation_id_list: Vec::new(),
            broadcaster_id_list: Vec::new(),
        }
    }
}

/// A broadcaster of a network.
#[derive(Clone, Debug, PartialEq, Eq)]
pub struct BITBroadcasterInfo {
    pub broadcaster_id: u8,
    pub broadcaster_type: u8,
    pub broadcaster_name: String,
    pub service_list: Vec<BITServiceInfo>,
    pub terrestrial: Option<TerrestrialBroadcasterInfo>,
}

/// A descriptor of a broadcaster, as far as the builder reads it.
#[derive(Clone, Debug, PartialEq, Eq)]
pub enum BitDescriptor {
    /// A broadcaster name descriptor, with its name in the ARIB 8-unit coding.
    BroadcasterName { name: Vec<u8> },
    /// A service list descriptor.
    ServiceList { services: Vec<BITServiceInfo> },
    /// An extended broadcaster descriptor.
    ExtendedBroadcaster { broadcaster_type: u8, terrestrial: Option<TerrestrialBroadcasterInfo> },
    /// Any other descriptor.
    Other,
}

/// One broadcaster of a broadcaster information table.
#[derive(Clone, Debug, PartialEq, Eq)]
pub struct BitBroadcasterEntry {
    pub broadcaster_id: u8,
    pub descriptors: Vec<BitDescriptor>,
}

/// The index of the first element of `s` for which `p` holds, if there is one.
pub open spec fn first_index<A>(s: Seq<A>, p: spec_fn(A) -> bool) -> Option<int>
    decreases s.len(),
{
    if s.len() == 0 {
        None
    } else {
        match first_index(s.drop_last(), p) {
            Some(i) => Some(i),
            None => if p(s.last()) {
                Some(s.len() - 1)
            } else {
                None
            },
        }
    }
}

/// The first index that satisfies `p` is in range and satisfies `p`.
pub(crate) proof fn lemma_first_index_bounds<A>(s: Seq<A>, p: spec_fn(A) -> bool)
    ensures
        first_index(s, p) matches Some(i) ==> 0 <= i < s.len() && p(s[i]),
    decreases s.len(),
{
    if s.len() > 0 {
        lemma_first_index_bounds(s.drop_last(), p);
    }
}

pub(crate) proof fn lemma_first_index_step<A>(s: Seq<A>, p: spec_fn(A) -> bool, n: int)
    requires
        0 <= n < s.len(),
        first_index(s.subrange(0, n), p) is None,
    ensures
        first_index(s.subrange(0, n + 1), p) == (if p(s[n]) { Some(n) } else { None::<int> }),
{
    assert(s.subrange(0, n + 1).drop_last() =~= s.subrange(0, n));
}

pub(crate) proof fn lemma_first_index_extend<A>(s: Seq<A>, p: spec_fn(A) -> bool, n: int, m: int)
    requires
        0 <= n <= m <= s.len(),
        first_index(s.subrange(0, n), p) is Some,
    ensures
        first_index(s.subrange(0, m), p) == first_index(s.subrange(0, n), p),
    decreases m - n,
{
    if m > n {
        lemma_first_index_extend(s, p, n, m - 1);
        assert(s.subrange(0, m).drop_last() =~= s.subrange(0, m - 1));
    }
}

pub(crate) proof fn lemma_first_index_whole<A>(s: Seq<A>, p: spec_fn(A) -> bool, n: int)
    requires
        0 <= n <= s.len(),
        n < s.len() ==> first_index(s.subrange(0, n + 1), p) == Some(n),
        n == s.len() ==> first_index(s.subrange(0, n), p) is None,
    ensures
        first_index(s, p) == (if n < s.len() { Some(n) } else { None::<int> }),
{
    if n < s.len() {
        lemma_first_index_extend(s, p, n + 1, s.len() as int);
    }
    assert(s.subrange(0, s.len() as int) =~= s);
}

/// Whether a descriptor is a broadcaster name descriptor.
pub open spec fn is_name(d: BitDescriptor) -> bool {
    d is BroadcasterName
}

/// Whether a descriptor is a service list descriptor.
pub open spec fn is_service_list(d: BitDescriptor) -> bool {
    d is ServiceList
}

/// Whether a descriptor is an extended broadcaster descriptor.
pub open spec fn is_extended(d: BitDescriptor) -> bool {
    d is ExtendedBroadcaster
}

/// The values of terrestrial broadcaster information.
pub open spec fn terrestrial_view(t: Option<TerrestrialBroadcasterInfo>) -> Option<(u16, Seq<u8>, Seq<BroadcasterIdEntry>)> {
    match t {
        Some(x) => Some((x.terrestrial_broadcaster_id, x.affiliation_id_list@, x.broadcaster_id_list@)),
        None => None,
    }
}

/// The text of an ARIB-coded string: empty for no bytes and when it cannot
/// be decoded.
pub open spec fn arib_text(m: KanjiMap, src: Seq<u8>) -> Seq<char> {
    if src.len() == 0 {
        Seq::empty()
    } else {
        match decoded(m, src, default_decode_flags()) {
            Some(res) => utf16_lossy(res.0),
            None => Seq::empty(),
        }
    }
}

/// Decodes an ARIB-coded string; empty for no bytes and when it cannot be
/// decoded.
fn decode_aribstr(m: &KanjiMap, src: &[u8]) -> (r: String)
    requires
        m.wf(),
    ensures
        r@ == arib_text(*m, src@),
{
    if src.len() == 0 {
        return String::new();
    }
    match decode_to_string(m, src, DecodeFlags::default()) {
        Some(s) => s,
        None => String::new(),
    }
}

/// Whether `b` is what the table says of the broadcaster `e`: its id; the
/// decoded name of its first broadcaster name descriptor (else empty); the
/// services of its first service list descriptor (else none); the type and
/// terrestrial information of its first extended broadcaster descriptor
/// (else the invalid type and none).
pub open spec fn bit_broadcaster_of(b: BITBroadcasterInfo, e: BitBroadcasterEntry, m: KanjiMap) -> bool {
    let ds = e.descriptors@;
    &&& b.broadcaster_id == e.broadcaster_id
    &&& b.broadcaster_name@ == match first_index(ds, |d: BitDescriptor| is_name(d)) {
        Some(i) => match ds[i] {
            BitDescriptor::BroadcasterName { name } => arib_text(m, name@),
            _ => Seq::empty(),
        },
        None => Seq::empty(),
    }
    &&& b.service_list@ == match first_index(ds, |d: BitDescriptor| is_service_list(d)) {
        Some(i) => match ds[i] {
            BitDescriptor::ServiceList { services } => services@,
            _ => Seq::empty(),
        },
        None => Seq::empty(),
    }
    &&& match first_index(ds, |d: BitDescriptor| is_extended(d)) {
        Some(i) => match ds[i] {
            BitDescriptor::ExtendedBroadcaster { broadcaster_type, terrestrial } => {
                &&& b.broadcaster_type == broadcaster_type
                &&& terrestrial_view(b.terrestrial) == terrestrial_view(terrestrial)
            },
            _ => false,
        },
        None => {
            &&& b.broadcaster_type == BROADCASTER_TYPE_INVALID
            &&& b.terrestrial is None
        },
    }
}

/// A copy of a sequence of bytes.
fn copy_bytes(v: &Vec<u8>) -> (r: Vec<u8>)
    ensures
        r@ == v@,
{
    let mut r: Vec<u8> = Vec::new();
    let mut i: usize = 0;
    while i < v.len()
        invariant
            i <= v@.len(),
            r@ == v@.subrange(0, i as int),
        decreases v@.len() - i,
    {
        r.push(v[i]);
        i = i + 1;
        assert(r@ =~= v@.subrange(0, i as int));
    }
    assert(v@.subrange(0, v@.len() as int) =~= v@);
    r
}

/// A copy of a sequence of plain values.
fn copy_seq<T: Copy>(v: &Vec<T>) -> (r: Vec<T>)
    ensures
        r@ == v@,
{
    let mut r: Vec<T> = Vec::new();
    let mut i: usize = 0;
    while i < v.len()
        invariant
            i <= v@.len(),
            r@ == v@.subrange(0, i as int),
        decreases v@.len() - i,
    {
        r.push(v[i]);
        i = i + 1;
        assert(r@ =~= v@.subrange(0, i as int));
    }
    assert(v@.subrange(0, v@.len() as int) =~= v@);
    r
}

/// A copy of optional terrestrial broadcaster information.
fn copy_terrestrial(t: &Option<TerrestrialBroadcasterInfo>) -> (r: Option<TerrestrialBroadcasterInfo>)
    ensures
        terrestrial_view(r) == terrestrial_view(*t),
{
    match t {
        Some(x) => Some(TerrestrialBroadcasterInfo {
            terrestrial_broadcaster_id: x.terrestrial_broadcaster_id,
            affiliation_id_list: copy_bytes(&x.affiliation_id_list),
            broadcaster_id_list: copy_seq(&x.broadcaster_id_list),
        }),
        None => None,
    }
}

/// What the table says of the broadcaster `e`.
pub fn build_bit_broadcaster_info(e: &BitBroadcasterEntry, m: &KanjiMap) -> (r: BITBroadcasterInfo)
    requires
        m.wf(),
    ensures
        bit_broadcaster_of(r, *e, *m),
{
    let ghost ds = e.descriptors@;
    let ghost p_name = |d: BitDescriptor| is_name(d);
    let ghost p_list = |d: BitDescriptor| is_service_list(d);
    let ghost p_ext = |d: BitDescriptor| is_extended(d);

    let mut broadcaster_name = String::new();
    let mut i: usize = 0;
    while i < e.descriptors.len()
        invariant_except_break
            broadcaster_name@ == Seq::<char>::empty(),
        invariant
            ds == e.descriptors@,
            m.wf(),
            p_name == (|d: BitDescriptor| is_name(d)),
            i <= ds.len(),
            first_index(ds.subrange(0, i as int), p_name) is None,
        ensures
            i < ds.len() ==> first_index(ds.subrange(0, i + 1), p_name) == Some(i as int)
                && match ds[i as int] {
                    BitDescriptor::BroadcasterName { name } => broadcaster_name@ == arib_text(*m, name@),
                    _ => false,
                },
            i >= ds.len() ==> i == ds.len() && broadcaster_name@ == Seq::<char>::empty(),
        decreases ds.len() - i,
    {
        proof {
            lemma_first_index_step(ds, p_name, i as int);
        }
        match &e.descriptors[i] {
            BitDescriptor::BroadcasterName { name } => {
                broadcaster_name = decode_aribstr(m, name.as_slice());
                break;
            },
            _ => {},
        }
        i = i + 1;
    }
    proof {
        lemma_first_index_whole(ds, p_name, i as int);
    }

    let mut service_list: Vec<BITServiceInfo> = Vec::new();
    let mut j: usize = 0;
    while j < e.descriptors.len()
        invariant_except_break
            service_list@ == Seq::<BITServiceInfo>::empty(),
        invariant
            ds == e.descriptors@,
            p_list == (|d: BitDescriptor| is_service_list(d)),
            j <= ds.len(),
            first_index(ds.subrange(0, j as int), p_list) is None,
        ensures
            j < ds.len() ==> first_index(ds.subrange(0, j + 1), p_list) == Some(j as int)
                && match ds[j as int] {
                    BitDescriptor::ServiceList { services } => service_list@ == services@,
                    _ => false,
                },
            j >= ds.len() ==> j == ds.len() && service_list@ == Seq::<BITServiceInfo>::empty(),
        decreases ds.len() - j,
    {
        proof {
            lemma_first_index_step(ds, p_list, j as int);
        }
        match &e.descriptors[j] {
            BitDescriptor::ServiceList { services } => {
                service_list = copy_seq(services);
                break;
            },
            _ => {},
        }
        j = j + 1;
    }
    proof {
        lemma_first_index_whole(ds, p_list, j as int);
    }

    let mut broadcaster_type = BROADCASTER_TYPE_INVALID;
    let mut terrestrial: Option<TerrestrialBroadcasterInfo> = None;
    let mut k: usize = 0;
    while k < e.descriptors.len()
        invariant_except_break
            broadcaster_type == BROADCASTER_TYPE_INVALID,
            terrestrial is None,
        invariant
            ds == e.descriptors@,
            p_ext == (|d: BitDescriptor| is_extended(d)),
            k <= ds.len(),
            first_index(ds.subrange(0, k as int), p_ext) is None,
        ensures
            k < ds.len() ==> first_index(ds.subrange(0, k + 1), p_ext) == Some(k as int)
                && match ds[k as int] {
                    BitDescriptor::ExtendedBroadcaster { broadcaster_type: t, terrestrial: x } => {
                        &&& broadcaster_type == t
                        &&& terrestrial_view(terrestrial) == terrestrial_view(x)
                    },
                    _ => false,
                },
            k >= ds.len() ==> k == ds.len() && broadcaster_type == BROADCASTER_TYPE_INVALID
                && terrestrial is None,
        decreases ds.len() - k,
    {
        proof {
            lemma_first_index_step(ds, p_ext, k as int);
        }
        match &e.descriptors[k] {
            BitDescriptor::ExtendedBroadcaster { broadcaster_type: t, terrestrial: x } => {
                broadcaster_type = *t;
                terrestrial = copy_terrestrial(x);
                break;
            },
            _ => {},
        }
        k = k + 1;
    }
    proof {
        lemma_first_index_whole(ds, p_ext, k as int);
    }

    BITBroadcasterInfo {
        broadcaster_id: e.broadcaster_id,
        broadcaster_type,
        broadcaster_name,
        service_list,
        terrestrial,
    }
}

/// What the table says of each of its broadcasters, in order.
pub fn build_bit_broadcaster_list(broadcasters: &Vec<BitBroadcasterEntry>, m: &KanjiMap) -> (r: Vec<BITBroadcasterInfo>)
    requires
        m.wf(),
    ensures
        r@.len() == broadcasters@.len(),
        forall|i: int| 0 <= i < r@.len() ==> bit_broadcaster_of(#[trigger] r@[i], broadcasters@[i], *m),
{
    let mut list: Vec<BITBroadcasterInfo> = Vec::new();
    let mut i: usize = 0;
    while i < broadcasters.len()
        invariant
            m.wf(),
            i <= broadcasters@.len(),
            list@.len() == i,
            forall|k: int| 0 <= k < i ==> bit_broadcaster_of(#[trigger] list@[k], broadcasters@[k], *m),
        decreases broadcasters@.len() - i,
    {
        let b = build_bit_broadcaster_info(&broadcasters[i], m);
        list.push(b);
        i = i + 1;
    }
    list
}

/// One table of an SI parameter descriptor: its table id and the bytes
/// that describe its transmission parameters.
#[derive(Clone, Debug, PartialEq, Eq)]
pub struct SIParameterTableEntry {
    pub table_id: u8,
    pub table_description: Vec<u8>,
}

impl View for SIParameterTableEntry {
    type V = (u8, Seq<u8>);

    open spec fn view(&self) -> (u8, Seq<u8>) {
        (self.table_id, self.table_description@)
    }
}

/// The SI transmission parameters of a network: an SI parameter descriptor.
#[derive(Clone, Debug, PartialEq, Eq)]
pub struct SIParameterInfo {
    pub parameter_version: u8,
    pub update_time: DateTime,
    pub table_list: Vec<SIParameterTableEntry>,
}

impl View for SIParameterInfo {
    type V = (u8, DateTime, Seq<(u8, Seq<u8>)>);

    open spec fn view(&self) -> (u8, DateTime, Seq<(u8, Seq<u8>)>) {
        (self.parameter_version, self.update_time, self.table_list@.map_values(|t: SIParameterTableEntry| t@))
    }
}

/// A descriptor of the network loop of the table, as far as the builder
/// reads it.
#[derive(Clone, Debug, PartialEq, Eq)]
pub enum BitNetworkDescriptor {
    /// An SI parameter descriptor.
    SIParameter(SIParameterInfo),
    /// Any other descriptor.
    Other,
}

/// The contents of a broadcaster information table that the builder reads.
#[derive(Clone, Debug, PartialEq, Eq)]
pub struct BitTableContent {
    pub original_network_id: u16,
    /// The descriptors of the network loop, in order.
    pub descriptors: Vec<BitNetworkDescriptor>,
    /// The broadcasters of the broadcaster loop, in order.
    pub broadcasters: Vec<BitBroadcasterEntry>,
}

/// The network information of a broadcaster information table.
#[derive(Clone, Debug, PartialEq, Eq)]
pub struct BITNetworkInfo {
    pub original_network_id: u16,
    pub si_parameter_list: Vec<SIParameterInfo>,
    pub broadcaster_list: Vec<BITBroadcasterInfo>,
}

impl Default for BITNetworkInfo {
    fn default() -> (r: BITNetworkInfo)
        ensures
            r.original_network_id == 0,
            r.si_parameter_list@.len() == 0,
            r.broadcaster_list@.len() == 0,
    {
        BITNetworkInfo { original_network_id: 0, si_parameter_list: Vec::new(), broadcaster_list: Vec::new() }
    }
}

/// Whether a network descriptor is an SI parameter descriptor.
pub open spec fn is_si_parameter(d: BitNetworkDescriptor) -> bool {
    d is SIParameter
}

/// The values of the SI parameter descriptor `d`.
pub open spec fn si_parameter_view(d: BitNetworkDescriptor) -> (u8, DateTime, Seq<(u8, Seq<u8>)>) {
    match d {
        BitNetworkDescriptor::SIParameter(p) => p@,
        BitNetworkDescriptor::Other => arbitrary(),
    }
}

/// The SI parameters of the network loop: those of each of its SI
/// parameter descriptors, in order.
pub open spec fn si_parameters(ds: Seq<BitNetworkDescriptor>) -> Seq<(u8, DateTime, Seq<(u8, Seq<u8>)>)> {
    ds.filter(|d: BitNetworkDescriptor| is_si_parameter(d)).map_values(|d: BitNetworkDescriptor| si_parameter_view(d))
}

/// A copy of an SI parameter table entry.
fn copy_table_entry(t: &SIParameterTableEntry) -> (r: SIParameterTableEntry)
    ensures
        r@ == t@,
{
    SIParameterTableEntry { table_id: t.table_id, table_description: copy_bytes(&t.table_description) }
}

/// A copy of SI parameters.
fn copy_si_parameter(p: &SIParameterInfo) -> (r: SIParameterInfo)
    ensures
        r@ == p@,
{
    let mut table_list: Vec<SIParameterTableEntry> = Vec::new();
    let mut i: usize = 0;
    while i < p.table_list.len()
        invariant
            i <= p.table_list@.len(),
            table_list@.map_values(|t: SIParameterTableEntry| t@) == p.table_list@.subrange(0, i as int).map_values(
                |t: SIParameterTableEntry| t@,
            ),
        decreases p.table_list@.len() - i,
    {
        let t = copy_table_entry(&p.table_list[i]);
        let ghost before = table_list@;
        table_list.push(t);
        proof {
            let lhs = table_list@.map_values(|t: SIParameterTableEntry| t@);
            let rhs = p.table_list@.subrange(0, i + 1).map_values(|t: SIParameterTableEntry| t@);
            assert(before.map_values(|t: SIParameterTableEntry| t@).len() == i);
            assert forall|j: int| 0 <= j < lhs.len() implies lhs[j] == rhs[j] by {
                if j < i {
                    assert(table_list@[j] == before[j]);
                    assert(before.map_values(|t: SIParameterTableEntry| t@)[j] == p.table_list@.subrange(0, i as int).map_values(
                        |t: SIParameterTableEntry| t@,
                    )[j]);
                }
            }
            assert(lhs =~= rhs);
        }
        i = i + 1;
    }
    assert(p.table_list@.subrange(0, i as int) =~= p.table_list@);
    SIParameterInfo { parameter_version: p.parameter_version, update_time: p.update_time, table_list }
}

/// The network information of a broadcaster information table: its network
/// id; the SI parameters of each SI parameter descriptor of the network
/// loop, in order; and what the table says of each broadcaster, in order,
/// with names decoded through the kanji map `m`.
pub fn build_bit_network_info(bit: &BitTableContent, m: &KanjiMap) -> (r: BITNetworkInfo)
    requires
        m.wf(),
    ensures
        r.original_network_id == bit.original_network_id,
        r.si_parameter_list@.map_values(|p: SIParameterInfo| p@) == si_parameters(bit.descriptors@),
        r.broadcaster_list@.len() == bit.broadcasters@.len(),
        forall|i: int| 0 <= i < r.broadcaster_list@.len() ==> bit_broadcaster_of(#[trigger] r.broadcaster_list@[i], bit.broadcasters@[i], *m),
{
    let ghost ds = bit.descriptors@;
    let ghost pred = |d: BitNetworkDescriptor| is_si_parameter(d);
    let ghost view_of = |d: BitNetworkDescriptor| si_parameter_view(d);
    let mut si_parameter_list: Vec<SIParameterInfo> = Vec::new();
    let mut i: usize = 0;
    while i < bit.descriptors.len()
        invariant
            ds == bit.descriptors@,
            i <= ds.len(),
            pred == (|d: BitNetworkDescriptor| is_si_parameter(d)),
            view_of == (|d: BitNetworkDescriptor| si_parameter_view(d)),
            si_parameter_list@.map_values(|p: SIParameterInfo| p@) == ds.subrange(0, i as int).filter(pred).map_values(view_of),
        decreases ds.len() - i,
    {
        let ghost prev = ds.subrange(0, i as int);
        proof {
            assert(ds.subrange(0, i + 1) =~= prev.push(ds[i as int]));
            prev.lemma_filter_push(ds[i as int], pred);
        }
        let ghost before = si_parameter_list@;
        match &bit.descriptors[i] {
            BitNetworkDescriptor::SIParameter(p) => {
                let c = copy_si_parameter(p);
                si_parameter_list.push(c);
                proof {
                    let old_m = prev.filter(pred).map_values(view_of);
                    let lhs = si_parameter_list@.map_values(|p: SIParameterInfo| p@);
                    let rhs = ds.subrange(0, i + 1).filter(pred).map_values(view_of);
                    assert(ds.subrange(0, i + 1).filter(pred) == prev.filter(pred).push(ds[i as int]));
                    assert(before.map_values(|p: SIParameterInfo| p@).len() == before.len());
                    assert forall|j: int| 0 <= j < lhs.len() implies lhs[j] == rhs[j] by {
                        if j < before.len() {
                            assert(si_parameter_list@[j] == before[j]);
                            assert(before.map_values(|p: SIParameterInfo| p@)[j] == old_m[j]);
                        }
                    }
                    assert(lhs =~= rhs);
                }
            },
            BitNetworkDescriptor::Other => {
                assert(ds.subrange(0, i + 1).filter(pred) == prev.filter(pred));
            },
        }
        i = i + 1;
    }
    assert(ds.subrange(0, i as int) =~= ds);
    BITNetworkInfo {
        original_network_id: bit.original_network_id,
        si_parameter_list,
        broadcaster_list: build_bit_broadcaster_list(&bit.broadcasters, m),
    }
}

} // verus!
