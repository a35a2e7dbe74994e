//! Station logos: the logo records, and the byte formats in which they are
//! carried (the logo modules of the data carousel, and the logo module of a
//! common data table).
use vstd::prelude::*;
use std::cell::RefCell;
use std::rc::Rc;
use std::collections::HashMap;
use crate::datetime::{DateTime, zero_datetime};
use crate::utilities::{be16, extend_bytes, load16_be, sub_slice};

verus! {

/// A service that a logo belongs to.
#[derive(Clone, Copy, Debug, PartialEq, Eq, Structural)]
pub struct LogoService {
    pub network_id: u16,
    pub transport_stream_id: u16,
    pub service_id: u16,
}

impl Default for LogoService {
    fn default() -> (r: LogoService)
        ensures
            r == (LogoService { network_id: 0, transport_stream_id: 0, service_id: 0 }),
    {
        LogoService { network_id: 0, transport_stream_id: 0, service_id: 0 }
    }
}

/// A downloaded logo.
#[derive(Clone, Debug, PartialEq, Eq)]
pub struct LogoData {
    pub network_id: u16,
    pub service_list: Vec<LogoService>,
    pub logo_id: u16,
    pub logo_version: u16,
    pub logo_type: u8,
    pub data: Vec<u8>,
    pub time: DateTime,
}

impl Default for LogoData {
    fn default() -> (r: LogoData)
        ensures
            r.network_id == 0,
            r.service_list@ == Seq::<LogoService>::empty(),
            r.logo_id == 0,
            r.logo_version == 0,
            r.logo_type == 0,
            r.data@ == Seq::<u8>::empty(),
            r.time == zero_datetime(),
    {
        LogoData {
            network_id: 0,
            service_list: Vec::new(),
            logo_id: 0,
            logo_version: 0,
            logo_type: 0,
            data: Vec::new(),
            time: DateTime { year: 0, month: 0, day: 0, day_of_week: 0, hour: 0, minute: 0, second: 0, millisecond: 0 },
        }
    }
}

/// Receiver of downloaded logos.
pub trait LogoHandler {
    /// A logo was downloaded.
    fn on_logo_downloaded(&mut self, data: &LogoData);
}

/// A shared handle of a logo handler.
pub type LogoHandlerHandle = Rc<RefCell<dyn LogoHandler + 'static>>;

/// One logo of a logo module.
pub struct LogoInfo {
    pub logo_type: u8,
    pub logo_id: u16,
    pub service_list: Vec<LogoService>,
    pub data: Vec<u8>,
}

/// One logo of a logo module, as values.
pub struct LogoEntry {
    pub logo_type: u8,
    pub logo_id: u16,
    pub services: Seq<LogoService>,
    pub data: Seq<u8>,
}

impl View for LogoInfo {
    type V = LogoEntry;

    open spec fn view(&self) -> LogoEntry {
        LogoEntry {
            logo_type: self.logo_type,
            logo_id: self.logo_id,
            services: self.service_list@,
            data: self.data@,
        }
    }
}

/// The 16-bit value at `i`, most significant byte first.
pub open spec fn be16_at(d: Seq<u8>, i: int) -> int {
    be16(d[i], d[i + 1])
}

/// The service record of six bytes at `p`.
pub open spec fn service_at(d: Seq<u8>, p: int) -> LogoService {
    LogoService {
        network_id: be16_at(d, p) as u16,
        transport_stream_id: be16_at(d, p + 2) as u16,
        service_id: be16_at(d, p + 4) as u16,
    }
}

/// The `n` service records that start at `p`.
pub open spec fn services_at(d: Seq<u8>, p: int, n: int) -> Seq<LogoService> {
    Seq::new(n as nat, |k: int| service_at(d, p + 6 * k))
}

/// The logos of at most `count` logo records of a module whose logos have
/// type `logo_type`, the first record at `pos`. A record is a 9-bit logo id
/// (two bytes), a count of services (one byte), that many six-byte service
/// records, a data size (two bytes) and the data. Reading stops at the first
/// record that does not fit in the module; a record without services or
/// without data yields no logo.
pub open spec fn logo_records(d: Seq<u8>, logo_type: u8, pos: int, count: nat) -> Seq<LogoEntry>
    decreases count,
{
    if count == 0 || pos + 3 >= d.len() {
        Seq::empty()
    } else {
        let n = d[pos + 2] as int;
        let services_pos = pos + 3;
        if services_pos + 6 * n + 2 >= d.len() {
            Seq::empty()
        } else {
            let size_pos = services_pos + 6 * n;
            let data_size = be16_at(d, size_pos);
            let data_pos = size_pos + 2;
            if data_pos + data_size > d.len() {
                Seq::empty()
            } else {
                let rest = logo_records(d, logo_type, data_pos + data_size, (count - 1) as nat);
                if n > 0 && data_size > 0 {
                    seq![LogoEntry {
                        logo_type,
                        logo_id: ((d[pos] % 2) as int * 0x100 + d[pos + 1] as int) as u16,
                        services: services_at(d, services_pos, n),
                        data: d.subrange(data_pos, data_pos + data_size),
                    }] + rest
                } else {
                    rest
                }
            }
        }
    }
}

/// The logos of a logo module: its logo type (one byte, at most 5), its
/// number of records (two bytes), then the records.
pub open spec fn logo_module_logos(d: Seq<u8>) -> Seq<LogoEntry> {
    if d.len() < 3 || d[0] > 5 {
        Seq::empty()
    } else {
        logo_records(d, d[0], 3, be16(d[1], d[2]) as nat)
    }
}

/// Whether every logo of `s` has type `t`, an id of at most nine bits, at
/// least one service and some data.
pub open spec fn logos_well_formed(s: Seq<LogoEntry>, t: u8) -> bool {
    forall|k: int|
        0 <= k < s.len() ==> {
            &&& (#[trigger] s[k]).logo_type == t
            &&& s[k].logo_id <= 0x1FF
            &&& s[k].services.len() > 0
            &&& s[k].data.len() > 0
        }
}

proof fn lemma_records_bounds(d: Seq<u8>, logo_type: u8, pos: int, count: nat)
    requires
        0 <= pos,
    ensures
        logos_well_formed(logo_records(d, logo_type, pos, count), logo_type),
        logo_records(d, logo_type, pos, count).len() <= count,
    decreases count,
{
    if count == 0 || pos + 3 >= d.len() {
    } else {
        let n = d[pos + 2] as int;
        let services_pos = pos + 3;
        if services_pos + 6 * n + 2 < d.len() {
            let size_pos = services_pos + 6 * n;
            let data_size = be16_at(d, size_pos);
            let data_pos = size_pos + 2;
            assert(data_size >= 0);
            if data_pos + data_size <= d.len() {
                lemma_records_bounds(d, logo_type, data_pos + data_size, (count - 1) as nat);
                let rest = logo_records(d, logo_type, data_pos + data_size, (count - 1) as nat);
                if n > 0 && data_size > 0 {
                    let e = LogoEntry {
                        logo_type,
                        logo_id: ((d[pos] % 2) as int * 0x100 + d[pos + 1] as int) as u16,
                        services: services_at(d, services_pos, n),
                        data: d.subrange(data_pos, data_pos + data_size),
                    };
                    let all = seq![e] + rest;
                    assert(all == logo_records(d, logo_type, pos, count));
                    assert forall|k: int| 0 <= k < all.len() implies {
                        &&& (#[trigger] all[k]).logo_type == logo_type
                        &&& all[k].logo_id <= 0x1FF
                        &&& all[k].services.len() > 0
                        &&& all[k].data.len() > 0
                    } by {
                        if k > 0 {
                            assert(all[k] == rest[k - 1]);
                        } else {
                            let id = (d[pos] % 2) as int * 0x100 + d[pos + 1] as int;
                            assert(0 <= id <= 0x1FF);
                            assert(all[0] == e);
                            assert(e.logo_id as int == id);
                            assert(e.services.len() == n);
                            assert(e.data.len() == data_size);
                        }
                    }
                }
            }
        }
    }
}

/// What a logo module yields: nothing when it is shorter than its three
/// header bytes or its logo type is above 5; otherwise at most as many
/// logos as its record count, each of the module's logo type, with an id of
/// at most nine bits, at least one service and some data.
pub proof fn lemma_logo_module_bounds(d: Seq<u8>)
    ensures
        (d.len() < 3 || d[0] > 5) ==> logo_module_logos(d).len() == 0,
        d.len() >= 3 && d[0] <= 5 ==> {
            &&& logos_well_formed(logo_module_logos(d), d[0])
            &&& logo_module_logos(d).len() <= be16(d[1], d[2])
        },
{
    if d.len() >= 3 && d[0] <= 5 {
        lemma_records_bounds(d, d[0], 3, be16(d[1], d[2]) as nat);
    }
}

/// The values of a sequence of logos.
pub open spec fn logo_views(s: Seq<LogoInfo>) -> Seq<LogoEntry> {
    s.map_values(|x: LogoInfo| x@)
}

/// Reads the logos of a complete logo module and appends them to `out`.
pub fn parse_logo_module(data: &[u8], out: &mut Vec<LogoInfo>)
    ensures
        logo_views(final(out)@) == logo_views(old(out)@) + logo_module_logos(data@),
{
    let module_size = data.len();
    if module_size < 3 {
        assert(logo_views(old(out)@) + logo_module_logos(data@) =~= logo_views(old(out)@));
        return;
    }
    let logo_type = data[0];
    if logo_type > 0x05 {
        assert(logo_views(old(out)@) + logo_module_logos(data@) =~= logo_views(old(out)@));
        return;
    }
    let number_of_loop = load16_be(sub_slice(data, 1, 3));
    let ghost d = data@;
    let ghost target = logo_views(old(out)@) + logo_module_logos(d);
    let mut pos: usize = 3;
    let mut k: u16 = 0;
    while k < number_of_loop
        invariant
            d == data@,
            module_size == d.len(),
            3 <= module_size,
            logo_type == d[0],
            logo_type <= 5,
            number_of_loop as int == be16(d[1], d[2]),
            k <= number_of_loop,
            pos <= module_size,
            target == logo_views(old(out)@) + logo_module_logos(d),
            target == logo_views(out@) + logo_records(d, logo_type, pos as int, (number_of_loop - k) as nat),
        decreases number_of_loop - k,
    {
        if module_size - pos <= 3 {
            assert(logo_views(out@) + Seq::<LogoEntry>::empty() =~= logo_views(out@));
            return;
        }
        let logo_id: u16 = (((data[pos] & 0x01) as u16) << 8) | data[pos + 1] as u16;
        let number_of_services = data[pos + 2] as usize;
        let record_pos = pos;
        pos = pos + 3;
        if module_size - pos <= 6 * number_of_services + 2 {
            assert(logo_views(out@) + Seq::<LogoEntry>::empty() =~= logo_views(out@));
            return;
        }
        let services_pos = pos;
        let mut service_list: Vec<LogoService> = Vec::new();
        let mut i: usize = 0;
        while i < number_of_services
            invariant
                d == data@,
                module_size == d.len(),
                services_pos + 6 * number_of_services + 2 < module_size,
                i <= number_of_services,
                pos == services_pos + 6 * i,
                service_list@ == services_at(d, services_pos as int, i as int),
            decreases number_of_services - i,
        {
            let network_id = load16_be(sub_slice(data, pos, pos + 2));
            let transport_stream_id = load16_be(sub_slice(data, pos + 2, pos + 4));
            let service_id = load16_be(sub_slice(data, pos + 4, pos + 6));
            service_list.push(LogoService { network_id, transport_stream_id, service_id });
            pos = pos + 6;
            i = i + 1;
            assert(service_list@ =~= services_at(d, services_pos as int, i as int));
        }
        let data_size = load16_be(sub_slice(data, pos, pos + 2)) as usize;
        pos = pos + 2;
        if data_size > module_size - pos {
            assert(logo_views(out@) + Seq::<LogoEntry>::empty() =~= logo_views(out@));
            return;
        }
        let ghost rest = logo_records(d, logo_type, (pos + data_size) as int, (number_of_loop - k - 1) as nat);
        if number_of_services > 0 && data_size > 0 {
            let mut bytes: Vec<u8> = Vec::new();
            extend_bytes(&mut bytes, sub_slice(data, pos, pos + data_size));
            let ghost before = out@;
            let info = LogoInfo { logo_type, logo_id, service_list, data: bytes };
            proof {
                let b0 = d[record_pos as int];
                let b1 = d[record_pos + 1];
                assert(((((b0 & 0x01) as u16) << 8) | b1 as u16) == ((b0 % 2) as int * 0x100 + b1 as int) as u16) by (bit_vector);
                assert(bytes@ =~= d.subrange(pos as int, pos + data_size));
            }
            out.push(info);
            assert(logo_views(out@) =~= logo_views(before).push(info@));
        }
        pos = pos + data_size;
        k = k + 1;
        assert(logo_views(out@) + logo_records(d, logo_type, pos as int, (number_of_loop - k) as nat)
            =~= target);
    }
    assert(logo_views(out@) + Seq::<LogoEntry>::empty() =~= logo_views(out@));
}

/// Whether `d` holds a logo in the layout of the logo module of a common
/// data table: logo type (one byte, at most 5), logo id and logo version (two
/// bytes each), data size (two bytes), then at least that much data.
pub open spec fn cdt_logo_fits(d: Seq<u8>) -> bool {
    d.len() > 7 && d[0] <= 5 && be16(d[5], d[6]) <= d.len() - 7
}

/// Reads the logo of the logo module `data` of a common data table of
/// network `network_id`, received at `time`; `None` when it holds none.
pub fn parse_cdt_logo(data: &[u8], network_id: u16, time: DateTime) -> (r: Option<LogoData>)
    ensures
        r is Some <==> cdt_logo_fits(data@),
        r matches Some(l) ==> {
            &&& l.network_id == network_id
            &&& l.service_list@ == Seq::<LogoService>::empty()
            &&& l.logo_id as int == be16(data@[1], data@[2]) % 0x200
            &&& l.logo_version as int == be16(data@[3], data@[4]) % 0x1000
            &&& l.logo_type == data@[0]
            &&& l.data@ == data@.subrange(7, 7 + be16(data@[5], data@[6]))
            &&& l.time == time
        },
{
    let data_size = data.len();
    if data_size <= 7 {
        return None;
    }
    let logo_type = data[0];
    let raw_id = load16_be(sub_slice(data, 1, 3));
    let raw_version = load16_be(sub_slice(data, 3, 5));
    let logo_id = raw_id & 0x01FF;
    let logo_version = raw_version & 0x0FFF;
    let payload_size = load16_be(sub_slice(data, 5, 7)) as usize;
    if logo_type > 0x05 || payload_size > data_size - 7 {
        return None;
    }
    proof {
        assert(raw_id & 0x01FF == raw_id % 0x200) by (bit_vector);
        assert(raw_version & 0x0FFF == raw_version % 0x1000) by (bit_vector);
    }
    let mut bytes: Vec<u8> = Vec::new();
    extend_bytes(&mut bytes, sub_slice(data, 7, 7 + payload_size));
    Some(LogoData {
        network_id,
        service_list: Vec::new(),
        logo_id,
        logo_version,
        logo_type,
        data: bytes,
        time,
    })
}

/// The version map and the changed download ids after the updates `ups`
/// (download id and new version, in order), from the map `m` and the ids
/// `changed` found so far: an update whose version differs from the one
/// recorded (or of an id not recorded) records it, and its id joins the
/// changed ids unless it is among them already.
pub open spec fn version_updates(m: Map<u32, u16>, changed: Seq<u32>, ups: Seq<(u32, u16)>) -> (Map<u32, u16>, Seq<u32>)
    decreases ups.len(),
{
    if ups.len() == 0 {
        (m, changed)
    } else {
        let (d, v) = ups[0];
        let differs = !(m.contains_key(d) && m[d] == v);
        let m2 = if differs { m.insert(d, v) } else { m };
        let c2 = if differs && !changed.contains(d) { changed.push(d) } else { changed };
        version_updates(m2, c2, ups.drop_first())
    }
}

/// Records the new versions that the download content descriptors of a
/// common download trigger table announce, given in order as download id
/// and new version; returns the download ids whose recorded version changed,
/// each once, in the order they first changed.
pub fn update_download_versions(version_map: &mut HashMap<u32, u16>, updates: &[(u32, u16)]) -> (r: Vec<u32>)
    ensures
        (final(version_map)@, r@) == version_updates(old(version_map)@, Seq::empty(), updates@),
{
    broadcast use vstd::std_specs::hash::group_hash_axioms;
    let mut changed: Vec<u32> = Vec::new();
    assert(updates@.subrange(0, updates@.len() as int) =~= updates@);
    assert(changed@ =~= Seq::<u32>::empty());
    let mut i: usize = 0;
    while i < updates.len()
        invariant
            i <= updates@.len(),
            version_updates(old(version_map)@, Seq::empty(), updates@)
                == version_updates(version_map@, changed@, updates@.subrange(i as int, updates@.len() as int)),
        decreases updates@.len() - i,
    {
        let (did, new_version) = updates[i];
        let ghost m0 = version_map@;
        let ghost c0 = changed@;
        let differs = match version_map.get(&did) {
            Some(v) => *v != new_version,
            None => true,
        };
        if differs {
            version_map.insert(did, new_version);
            let mut found = false;
            let mut k: usize = 0;
            while k < changed.len()
                invariant
                    k <= changed@.len(),
                    found == exists|j: int| 0 <= j < k && changed@[j] == did,
                decreases changed@.len() - k,
            {
                if changed[k] == did {
                    found = true;
                }
                k = k + 1;
            }
            if !found {
                changed.push(did);
            }
        }
        proof {
            let rest = updates@.subrange(i as int, updates@.len() as int);
            assert(rest[0] == (did, new_version));
            assert(rest.drop_first() =~= updates@.subrange(i + 1, updates@.len() as int));
            assert(differs == !(m0.contains_key(did) && m0[did] == new_version));
        }
        i = i + 1;
    }
    assert(updates@.subrange(updates@.len() as int, updates@.len() as int) =~= Seq::<(u32, u16)>::empty());
    changed
}

/// Whether no download id is announced with two different versions.
pub open spec fn consistent_versions(ups: Seq<(u32, u16)>) -> bool {
    forall|i: int, j: int|
        0 <= i < ups.len() && 0 <= j < ups.len() && #[trigger] ups[i].0 == #[trigger] ups[j].0 ==> ups[i].1 == ups[j].1
}

/// Updates of other ids leave the version recorded for `k` as it is.
proof fn lemma_version_updates_other(m: Map<u32, u16>, c: Seq<u32>, ups: Seq<(u32, u16)>, k: u32)
    requires
        forall|i: int| 0 <= i < ups.len() ==> #[trigger] ups[i].0 != k,
    ensures
        version_updates(m, c, ups).0.contains_key(k) == m.contains_key(k),
        m.contains_key(k) ==> version_updates(m, c, ups).0[k] == m[k],
    decreases ups.len(),
{
    if ups.len() > 0 {
        let (d, v) = ups[0];
        let differs = !(m.contains_key(d) && m[d] == v);
        let m2 = if differs { m.insert(d, v) } else { m };
        let c2 = if differs && !c.contains(d) { c.push(d) } else { c };
        assert forall|i: int| 0 <= i < ups.drop_first().len() implies #[trigger] ups.drop_first()[i].0 != k by {
            assert(ups.drop_first()[i] == ups[i + 1]);
        }
        lemma_version_updates_other(m2, c2, ups.drop_first(), k);
        assert(ups[0].0 != k);
    }
}

/// After consistent updates, each announced id has its announced version.
proof fn lemma_version_updates_record(m: Map<u32, u16>, c: Seq<u32>, ups: Seq<(u32, u16)>)
    requires
        consistent_versions(ups),
    ensures
        forall|i: int|
            0 <= i < ups.len() ==> version_updates(m, c, ups).0.contains_key(#[trigger] ups[i].0)
                && version_updates(m, c, ups).0[ups[i].0] == ups[i].1,
    decreases ups.len(),
{
    if ups.len() > 0 {
        let (d, v) = ups[0];
        let rest = ups.drop_first();
        let differs = !(m.contains_key(d) && m[d] == v);
        let m2 = if differs { m.insert(d, v) } else { m };
        let c2 = if differs && !c.contains(d) { c.push(d) } else { c };
        assert forall|i: int, j: int|
            0 <= i < rest.len() && 0 <= j < rest.len() && #[trigger] rest[i].0 == #[trigger] rest[j].0 implies rest[i].1
                == rest[j].1 by {
            assert(rest[i] == ups[i + 1] && rest[j] == ups[j + 1]);
        }
        lemma_version_updates_record(m2, c2, rest);
        let r = version_updates(m2, c2, rest).0;
        assert(version_updates(m, c, ups).0 == r);
        if exists|j: int| 0 <= j < rest.len() && rest[j].0 == d {
            let j = choose|j: int| 0 <= j < rest.len() && rest[j].0 == d;
            assert(rest[j] == ups[j + 1]);
            assert(ups[j + 1].0 == ups[0].0);
        } else {
            lemma_version_updates_other(m2, c2, rest, d);
        }
        assert forall|i: int| 0 <= i < ups.len() implies r.contains_key(#[trigger] ups[i].0) && r[ups[i].0] == ups[i].1 by {
            if i > 0 {
                assert(ups[i] == rest[i - 1]);
            }
        }
    }
}

/// Updates that announce what is recorded already change nothing.
proof fn lemma_version_updates_unchanged(m: Map<u32, u16>, c: Seq<u32>, ups: Seq<(u32, u16)>)
    requires
        forall|i: int| 0 <= i < ups.len() ==> m.contains_key(#[trigger] ups[i].0) && m[ups[i].0] == ups[i].1,
    ensures
        version_updates(m, c, ups) == (m, c),
    decreases ups.len(),
{
    if ups.len() > 0 {
        assert(m.contains_key(ups[0].0) && m[ups[0].0] == ups[0].1);
        assert forall|i: int| 0 <= i < ups.drop_first().len() implies m.contains_key(#[trigger] ups.drop_first()[i].0)
            && m[ups.drop_first()[i].0] == ups.drop_first()[i].1 by {
            assert(ups.drop_first()[i] == ups[i + 1]);
        }
        lemma_version_updates_unchanged(m, c, ups.drop_first());
    }
}

/// Reading the same version announcements a second time records nothing
/// new and reports no download id, when no id is announced with two
/// different versions.
pub proof fn lemma_same_announcements_report_nothing(m: Map<u32, u16>, ups: Seq<(u32, u16)>)
    requires
        consistent_versions(ups),
    ensures
        version_updates(version_updates(m, Seq::empty(), ups).0, Seq::empty(), ups) == (
            version_updates(m, Seq::empty(), ups).0,
            Seq::<u32>::empty(),
        ),
{
    lemma_version_updates_record(m, Seq::empty(), ups);
    lemma_version_updates_unchanged(version_updates(m, Seq::empty(), ups).0, Seq::empty(), ups);
}

/// The logo record of a logo of a data carousel module, at version
/// `version` and received at `time`: its network is the first service's;
/// `None` for a logo without services.
pub fn logo_data_from_module(info: LogoInfo, version: u16, time: DateTime) -> (r: Option<LogoData>)
    ensures
        r is Some <==> info.service_list@.len() > 0,
        r matches Some(l) ==> {
            &&& l.network_id == info.service_list@[0].network_id
            &&& l.service_list@ == info.service_list@
            &&& l.logo_id == info.logo_id
            &&& l.logo_version == version
            &&& l.logo_type == info.logo_type
            &&& l.data@ == info.data@
            &&& l.time == time
        },
{
    if info.service_list.len() == 0 {
        return None;
    }
    let network_id = info.service_list[0].network_id;
    Some(LogoData {
        network_id,
        service_list: info.service_list,
        logo_id: info.logo_id,
        logo_version: version,
        logo_type: info.logo_type,
        data: info.data,
        time,
    })
}

/// Whether a data carousel module name is that of a logo module: seven bytes
/// starting `LOGO-0`, or ten bytes starting `CS_LOGO-0`.
pub open spec fn logo_module_name(name: Seq<u8>) -> bool {
    ||| name.len() == 7 && name.subrange(0, 6) == seq![0x4Cu8, 0x4F, 0x47, 0x4F, 0x2D, 0x30]
    ||| name.len() == 10 && name.subrange(0, 9) == seq![0x43u8, 0x53, 0x5F, 0x4C, 0x4F, 0x47, 0x4F, 0x2D, 0x30]
}

/// Whether `s` starts with the bytes of `prefix`.
fn starts_with(s: &[u8], prefix: &[u8]) -> (r: bool)
    ensures
        r == (prefix@.len() <= s@.len() && s@.subrange(0, prefix@.len() as int) == prefix@),
{
    if prefix.len() > s.len() {
        return false;
    }
    let mut i: usize = 0;
    while i < prefix.len()
        invariant
            prefix@.len() <= s@.len(),
            i <= prefix@.len(),
            forall|k: int| 0 <= k < i ==> s@[k] == prefix@[k],
        decreases prefix@.len() - i,
    {
        if s[i] != prefix[i] {
            assert(s@.subrange(0, prefix@.len() as int)[i as int] != prefix@[i as int]);
            return false;
        }
        i = i + 1;
    }
    assert(s@.subrange(0, prefix@.len() as int) =~= prefix@);
    true
}

/// Whether a data carousel module name is that of a logo module.
pub fn is_logo_module_name(name: &[u8]) -> (r: bool)
    ensures
        r == logo_module_name(name@),
{
    let logo: [u8; 6] = [0x4C, 0x4F, 0x47, 0x4F, 0x2D, 0x30];
    let cs_logo: [u8; 9] = [0x43, 0x53, 0x5F, 0x4C, 0x4F, 0x47, 0x4F, 0x2D, 0x30];
    assert(logo@ =~= seq![0x4Cu8, 0x4F, 0x47, 0x4F, 0x2D, 0x30]);
    assert(cs_logo@ =~= seq![0x43u8, 0x53, 0x5F, 0x4C, 0x4F, 0x47, 0x4F, 0x2D, 0x30]);
    (name.len() == 7 && starts_with(name, &logo)) || (name.len() == 10 && starts_with(name, &cs_logo))
}

/// Whether an elementary stream carries the data common to all receivers:
/// a data carousel stream with component tag 0x79 or 0x7A.
pub open spec fn common_data_stream(stream_type: u8, component_tag: Option<u8>) -> bool {
    stream_type == crate::ts_info::STREAM_TYPE_DATA_CARROUSEL
        && (component_tag == Some(0x79u8) || component_tag == Some(0x7Au8))
}

/// The PIDs of the streams (stream type, PID and the component tag of its
/// stream identifier descriptor) that carry the data common to all
/// receivers, in order.
pub open spec fn common_data_pids(es_list: Seq<(u8, u16, Option<u8>)>) -> Seq<u16> {
    es_list.filter(|e: (u8, u16, Option<u8>)| common_data_stream(e.0, e.2)).map_values(
        |e: (u8, u16, Option<u8>)| e.1,
    )
}

/// The PIDs of the streams of a program map table (stream type, PID and
/// the component tag of its stream identifier descriptor, in order) that
/// carry the data common to all receivers, in order.
pub fn select_common_data_streams(es_list: &[(u8, u16, Option<u8>)]) -> (r: Vec<u16>)
    ensures
        r@ == common_data_pids(es_list@),
{
    let ghost pred = |e: (u8, u16, Option<u8>)| common_data_stream(e.0, e.2);
    let ghost pid_of = |e: (u8, u16, Option<u8>)| e.1;
    let mut r: Vec<u16> = Vec::new();
    let mut i: usize = 0;
    while i < es_list.len()
        invariant
            i <= es_list@.len(),
            pred == (|e: (u8, u16, Option<u8>)| common_data_stream(e.0, e.2)),
            pid_of == (|e: (u8, u16, Option<u8>)| e.1),
            r@ == es_list@.subrange(0, i as int).filter(pred).map_values(pid_of),
        decreases es_list@.len() - i,
    {
        let (stream_type, pid, tag) = es_list[i];
        let ghost prev = es_list@.subrange(0, i as int);
        proof {
            assert(es_list@.subrange(0, i + 1) =~= prev.push(es_list@[i as int]));
            prev.lemma_filter_push(es_list@[i as int], pred);
        }
        let is_common = stream_type == crate::ts_info::STREAM_TYPE_DATA_CARROUSEL && match tag {
            Some(t) => t == 0x79 || t == 0x7A,
            None => false,
        };
        if is_common {
            r.push(pid);
            assert(r@ =~= es_list@.subrange(0, i + 1).filter(pred).map_values(pid_of));
        } else {
            assert(r@ =~= es_list@.subrange(0, i + 1).filter(pred).map_values(pid_of));
        }
        i = i + 1;
    }
    assert(es_list@.subrange(0, es_list@.len() as int) =~= es_list@);
    r
}

} // verus!
