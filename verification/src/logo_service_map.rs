//! The service bookkeeping of the logo downloader: which services a
//! transport stream carries, which of them are engineering services, and
//! which data streams (those that carry the data common to all receivers)
//! are watched for logo modules.
//!
//! The tables themselves (PAT, PMT, NIT) are parsed elsewhere; the steps
//! here take what those tables say as plain values.
use vstd::prelude::*;
use crate::bit_analyzer::{first_index, lemma_first_index_bounds, lemma_first_index_step, lemma_first_index_whole};
use crate::logo_downloader::{common_data_pids, select_common_data_streams};
use crate::pmt_analyzer::SERVICE_TYPE_INVALID;
use crate::ts_info::{PID_CDT, PID_NIT, PID_PAT, PID_SDTT, PID_TOT};
use crate::ts_packet_counter::{clone_pids, insert_pid_set, remove_pid_set};
use std::collections::HashSet;

verus! {

/// The service type of an engineering service, whose data streams carry
/// the logo modules.
pub const SERVICE_TYPE_ENGINEERING: u8 = 0xA4;

/// A service as the logo downloader tracks it.
pub struct DataService {
    pub service_id: u16,
    pub pmt_pid: u16,
    pub service_type: u8,
    /// The PIDs of its streams that carry the data common to all receivers.
    pub es_list: Vec<u16>,
}

/// The values of a [`DataService`].
pub struct DataServiceView {
    pub service_id: u16,
    pub pmt_pid: u16,
    pub service_type: u8,
    pub es_list: Seq<u16>,
}

impl View for DataService {
    type V = DataServiceView;

    open spec fn view(&self) -> DataServiceView {
        DataServiceView {
            service_id: self.service_id,
            pmt_pid: self.pmt_pid,
            service_type: self.service_type,
            es_list: self.es_list@,
        }
    }
}

/// Where a packet of the transport stream goes.
#[derive(PartialEq, Eq, Structural, Clone, Copy, Debug)]
pub enum LogoPacketRoute {
    Pat,
    Cdt,
    Sdtt,
    Tot,
    Nit,
    /// The program map table of a service.
    Pmt,
    /// A watched data stream.
    DataModule,
    /// Nothing the logo downloader reads.
    Other,
}

/// The services of a PAT (program number and PMT PID, in order), as they
/// stand before any PMT or NIT has been read.
pub open spec fn fresh_services(programs: Seq<(u16, u16)>) -> Seq<DataServiceView> {
    programs.map_values(
        |p: (u16, u16)|
            DataServiceView {
                service_id: p.0,
                pmt_pid: p.1,
                service_type: SERVICE_TYPE_INVALID,
                es_list: Seq::empty(),
            },
    )
}

/// The data streams that a service has watched while it is an engineering
/// service.
pub open spec fn watched_pids(d: DataServiceView) -> Set<u16> {
    if d.service_type == SERVICE_TYPE_ENGINEERING {
        d.es_list.to_set()
    } else {
        Set::empty()
    }
}

/// The data streams of all engineering services among `s`.
pub open spec fn engineering_pids(s: Seq<DataServiceView>) -> Set<u16> {
    Set::new(|p: u16| exists|i: int| 0 <= i < s.len() && #[trigger] watched_pids(s[i]).contains(p))
}

/// Whether `pid` is the PMT PID of one of the services.
pub open spec fn is_pmt_pid(s: Seq<DataServiceView>, pid: u16) -> bool {
    exists|i: int| 0 <= i < s.len() && #[trigger] s[i].pmt_pid == pid
}

/// Where a packet with PID `pid` goes: the fixed PIDs of the tables first,
/// then the PMTs of the services, then the watched data streams.
pub open spec fn packet_route(s: Seq<DataServiceView>, data: Set<u16>, pid: u16) -> LogoPacketRoute {
    if pid == PID_PAT {
        LogoPacketRoute::Pat
    } else if pid == PID_CDT {
        LogoPacketRoute::Cdt
    } else if pid == PID_SDTT {
        LogoPacketRoute::Sdtt
    } else if pid == PID_TOT {
        LogoPacketRoute::Tot
    } else if pid == PID_NIT {
        LogoPacketRoute::Nit
    } else if is_pmt_pid(s, pid) {
        LogoPacketRoute::Pmt
    } else if data.contains(pid) {
        LogoPacketRoute::DataModule
    } else {
        LogoPacketRoute::Other
    }
}

/// The index of the first service with the given service id.
pub open spec fn service_index(s: Seq<DataServiceView>, service_id: u16) -> Option<int> {
    first_index(s, |d: DataServiceView| d.service_id == service_id)
}

/// The services and watched data streams after the service `e.0` of a
/// NIT's service list is given the type `e.1`: a service that becomes an
/// engineering service has its data streams watched, one that stops being
/// one has them no longer watched. Only the first service with that id
/// counts; a service not in the map, or whose type does not change, leaves
/// everything as it is.
pub open spec fn nit_step(s: Seq<DataServiceView>, data: Set<u16>, e: (u16, u8)) -> (Seq<DataServiceView>, Set<u16>) {
    match service_index(s, e.0) {
        None => (s, data),
        Some(i) => {
            let d = s[i];
            if d.service_type == e.1 {
                (s, data)
            } else {
                let s2 = s.update(
                    i,
                    DataServiceView {
                        service_id: d.service_id,
                        pmt_pid: d.pmt_pid,
                        service_type: e.1,
                        es_list: d.es_list,
                    },
                );
                if e.1 == SERVICE_TYPE_ENGINEERING {
                    (s2, data.union(d.es_list.to_set()))
                } else if d.service_type == SERVICE_TYPE_ENGINEERING {
                    (s2, data.difference(d.es_list.to_set()))
                } else {
                    (s2, data)
                }
            }
        },
    }
}

/// The steps of [`nit_step`] for each entry of a NIT's service lists, in
/// order.
pub open spec fn nit_apply(s: Seq<DataServiceView>, data: Set<u16>, entries: Seq<(u16, u8)>) -> (Seq<DataServiceView>, Set<u16>)
    decreases entries.len(),
{
    if entries.len() == 0 {
        (s, data)
    } else {
        let p = nit_apply(s, data, entries.drop_last());
        nit_step(p.0, p.1, entries.last())
    }
}

/// The watched data streams, service by service in order and, within a
/// service, in the order of its PMT; a stream shared by two services comes
/// once for each.
pub open spec fn watched_streams(s: Seq<DataServiceView>, data: Set<u16>) -> Seq<u16>
    decreases s.len(),
{
    if s.len() == 0 {
        Seq::empty()
    } else {
        watched_streams(s.drop_last(), data) + s.last().es_list.filter(|p: u16| data.contains(p))
    }
}

/// The services and watched data streams after a PMT of the service
/// `service_id` that lists the streams `es_list`.
pub open spec fn pmt_step(s: Seq<DataServiceView>, data: Set<u16>, service_id: u16, es_list: Seq<(u8, u16, Option<u8>)>) -> (Seq<DataServiceView>, Set<u16>) {
    match service_index(s, service_id) {
        None => (s, data),
        Some(i) => {
            let d = s[i];
            let es = common_data_pids(es_list);
            (
                s.update(
                    i,
                    DataServiceView {
                        service_id: d.service_id,
                        pmt_pid: d.pmt_pid,
                        service_type: d.service_type,
                        es_list: es,
                    },
                ),
                if d.service_type == SERVICE_TYPE_ENGINEERING {
                    data.difference(d.es_list.to_set()).union(es.to_set())
                } else {
                    data
                },
            )
        },
    }
}

/// The services of a transport stream and the data streams watched for
/// logo modules.
pub struct LogoServiceMap {
    services: Vec<DataService>,
    data_pids: HashSet<u16>,
}

impl LogoServiceMap {
    /// The services, in the order of the PAT.
    pub closed spec fn services(&self) -> Seq<DataServiceView> {
        self.services@.map_values(|d: DataService| d@)
    }

    /// The watched data streams.
    pub closed spec fn data_pids(&self) -> Set<u16> {
        self.data_pids@
    }

    /// A map with no services and no watched data stream.
    pub fn new() -> (r: Self)
        ensures
            r.services() == Seq::<DataServiceView>::empty(),
            r.data_pids() == Set::<u16>::empty(),
    {
        let r = LogoServiceMap { services: Vec::new(), data_pids: HashSet::new() };
        assert(r.services() =~= Seq::<DataServiceView>::empty());
        assert(r.data_pids() =~= Set::<u16>::empty());
        r
    }

    /// Forgets all services and watched data streams.
    pub fn reset(&mut self)
        ensures
            final(self).services() == Seq::<DataServiceView>::empty(),
            final(self).data_pids() == Set::<u16>::empty(),
    {
        *self = LogoServiceMap::new();
    }

    /// The services, in the order of the PAT.
    pub fn service_list(&self) -> (r: &[DataService])
        ensures
            r@.map_values(|d: DataService| d@) == self.services(),
    {
        self.services.as_slice()
    }

    /// Whether `pid` is the PMT PID of one of the services.
    fn has_pmt_pid(&self, pid: u16) -> (r: bool)
        ensures
            r == is_pmt_pid(self.services(), pid),
    {
        let mut i: usize = 0;
        while i < self.services.len()
            invariant
                i <= self.services@.len(),
                forall|k: int| 0 <= k < i ==> self.services@[k].pmt_pid != pid,
            decreases self.services@.len() - i,
        {
            if self.services[i].pmt_pid == pid {
                assert(self.services()[i as int].pmt_pid == pid);
                return true;
            }
            i = i + 1;
        }
        assert forall|k: int| 0 <= k < self.services().len() implies #[trigger] self.services()[k].pmt_pid != pid by {
            assert(self.services()[k] == self.services@[k]@);
        }
        false
    }

    /// Where a packet with PID `pid` goes.
    pub fn route(&self, pid: u16) -> (r: LogoPacketRoute)
        ensures
            r == packet_route(self.services(), self.data_pids(), pid),
    {
        if pid == PID_PAT {
            LogoPacketRoute::Pat
        } else if pid == PID_CDT {
            LogoPacketRoute::Cdt
        } else if pid == PID_SDTT {
            LogoPacketRoute::Sdtt
        } else if pid == PID_TOT {
            LogoPacketRoute::Tot
        } else if pid == PID_NIT {
            LogoPacketRoute::Nit
        } else if self.has_pmt_pid(pid) {
            LogoPacketRoute::Pmt
        } else if self.data_pids.contains(&pid) {
            LogoPacketRoute::DataModule
        } else {
            LogoPacketRoute::Other
        }
    }

    /// The index of the first service with the given service id.
    pub fn service_index_by_id(&self, service_id: u16) -> (r: Option<usize>)
        ensures
            match r {
                Some(i) => {
                    &&& service_index(self.services(), service_id) == Some(i as int)
                    &&& i < self.services().len()
                    &&& self.services()[i as int].service_id == service_id
                },
                None => service_index(self.services(), service_id) is None,
            },
    {
        let ghost s = self.services();
        let ghost p = |d: DataServiceView| d.service_id == service_id;
        assert(service_index(s, service_id) == first_index(s, p));
        let mut i: usize = 0;
        while i < self.services.len()
            invariant
                i <= self.services@.len(),
                s == self.services(),
                p == (|d: DataServiceView| d.service_id == service_id),
                first_index(s.subrange(0, i as int), p) is None,
            decreases self.services@.len() - i,
        {
            proof {
                lemma_first_index_step(s, p, i as int);
                assert(s[i as int] == self.services@[i as int]@);
            }
            if self.services[i].service_id == service_id {
                proof {
                    lemma_first_index_whole(s, p, i as int);
                    assert(s.len() == self.services@.len());
                }
                return Some(i);
            }
            i = i + 1;
        }
        proof {
            lemma_first_index_whole(s, p, i as int);
        }
        None
    }

    /// The services and watched streams after a PMT of the service
    /// `service_id` that lists `es_list` (stream type, PID and the
    /// component tag of its stream identifier descriptor, in order): the
    /// first service with that id takes the streams that carry the data
    /// common to all receivers, and if it is an engineering service its old
    /// streams are no longer watched and its new ones are.
    pub fn on_pmt(&mut self, service_id: u16, es_list: &[(u8, u16, Option<u8>)])
        requires
        ensures
            (final(self).services(), final(self).data_pids()) == pmt_step(
                old(self).services(),
                old(self).data_pids(),
                service_id,
                es_list@,
            ),
    {
        match self.service_index_by_id(service_id) {
            None => {},
            Some(i) => {
                let ghost d = self.services()[i as int];
                assert(d == self.services@[i as int]@);
                let engineering = self.services[i].service_type == SERVICE_TYPE_ENGINEERING;
                if engineering {
                    remove_pid_set(&mut self.data_pids, &self.services[i].es_list);
                }
                let new_es = select_common_data_streams(es_list);
                let entry = DataService {
                    service_id: self.services[i].service_id,
                    pmt_pid: self.services[i].pmt_pid,
                    service_type: self.services[i].service_type,
                    es_list: new_es,
                };
                let ghost before = self.services@;
                self.services.set(i, entry);
                assert(self.services() =~= before.map_values(|d: DataService| d@).update(i as int, self.services@[i as int]@));
                if engineering {
                    insert_pid_set(&mut self.data_pids, &self.services[i].es_list);
                }
            },
        }
    }

    /// Gives the service `service_id` the type `service_type`, as a NIT's
    /// service list says.
    fn set_service_type(&mut self, service_id: u16, service_type: u8)
        requires
        ensures
            (final(self).services(), final(self).data_pids()) == nit_step(
                old(self).services(),
                old(self).data_pids(),
                (service_id, service_type),
            ),
    {
        match self.service_index_by_id(service_id) {
            None => {},
            Some(i) => {
                let ghost d = self.services()[i as int];
                assert(d == self.services@[i as int]@);
                let current = self.services[i].service_type;
                if current != service_type {
                    let entry = DataService {
                        service_id: self.services[i].service_id,
                        pmt_pid: self.services[i].pmt_pid,
                        service_type,
                        es_list: clone_pids(&self.services[i].es_list),
                    };
                    let ghost before = self.services@;
                    self.services.set(i, entry);
                    assert(self.services() =~= before.map_values(|d: DataService| d@).update(i as int, self.services@[i as int]@));
                    if service_type == SERVICE_TYPE_ENGINEERING {
                        insert_pid_set(&mut self.data_pids, &self.services[i].es_list);
                    } else if current == SERVICE_TYPE_ENGINEERING {
                        remove_pid_set(&mut self.data_pids, &self.services[i].es_list);
                    }
                }
            },
        }
    }

    /// The services and watched streams after a NIT whose service lists
    /// give `entries` (service id and service type, in order).
    pub fn on_nit(&mut self, entries: &[(u16, u8)])
        requires
        ensures
            (final(self).services(), final(self).data_pids()) == nit_apply(
                old(self).services(),
                old(self).data_pids(),
                entries@,
            ),
    {
        let ghost s0 = self.services();
        let ghost d0 = self.data_pids();
        let mut i: usize = 0;
        while i < entries.len()
            invariant
                i <= entries@.len(),
                (self.services(), self.data_pids()) == nit_apply(s0, d0, entries@.take(i as int)),
            decreases entries@.len() - i,
        {
            let (service_id, service_type) = entries[i];
            self.set_service_type(service_id, service_type);
            assert(entries@.take(i + 1).drop_last() =~= entries@.take(i as int));
            i = i + 1;
        }
        assert(entries@.take(i as int) =~= entries@);
    }

    /// The watched data streams, service by service in order and, within a
    /// service, in the order of its PMT.
    pub fn watched_data_streams(&self) -> (r: Vec<u16>)
        ensures
            r@ == watched_streams(self.services(), self.data_pids()),
    {
        let ghost s = self.services();
        let ghost data = self.data_pids();
        let ghost f = |p: u16| data.contains(p);
        let mut r: Vec<u16> = Vec::new();
        let mut i: usize = 0;
        while i < self.services.len()
            invariant
                i <= self.services@.len(),
                s == self.services(),
                data == self.data_pids(),
                f == (|p: u16| data.contains(p)),
                r@ == watched_streams(s.take(i as int), data),
            decreases self.services@.len() - i,
        {
            let es = &self.services[i].es_list;
            assert(s[i as int].es_list == es@);
            let ghost base = r@;
            let mut j: usize = 0;
            while j < es.len()
                invariant
                    j <= es@.len(),
                    data == self.data_pids(),
                    f == (|p: u16| data.contains(p)),
                    r@ == base + es@.take(j as int).filter(f),
                decreases es@.len() - j,
            {
                let pid = es[j];
                proof {
                    assert(es@.take(j + 1) =~= es@.take(j as int).push(pid));
                    es@.take(j as int).lemma_filter_push(pid, f);
                }
                if self.data_pids.contains(&pid) {
                    r.push(pid);
                    assert(r@ =~= base + es@.take(j + 1).filter(f));
                } else {
                    assert(r@ =~= base + es@.take(j + 1).filter(f));
                }
                j = j + 1;
            }
            proof {
                assert(es@.take(j as int) =~= es@);
                assert(s.take(i + 1).drop_last() =~= s.take(i as int));
                assert(s.take(i + 1).last() == s[i as int]);
            }
            i = i + 1;
        }
        assert(s.take(i as int) =~= s);
        r
    }

    /// A new PAT: the data streams of the engineering services are no
    /// longer watched, and the services become those of the PAT (program
    /// number and PMT PID, in order), of unknown type and with no data
    /// stream.
    pub fn on_pat(&mut self, programs: &[(u16, u16)])
        requires
        ensures
            final(self).services() == fresh_services(programs@),
            final(self).data_pids() == old(self).data_pids().difference(engineering_pids(old(self).services())),
    {
        let ghost old_services = self.services();
        let ghost old_data = self.data_pids();
        let mut i: usize = 0;
        while i < self.services.len()
            invariant
                i <= self.services@.len(),
                self.services() == old_services,
                self.data_pids() == old_data.difference(engineering_pids(old_services.take(i as int))),
            decreases self.services@.len() - i,
        {
            proof {
                lemma_engineering_pids_push(old_services, i as int);
                assert(old_services[i as int] == self.services@[i as int]@);
            }
            if self.services[i].service_type == SERVICE_TYPE_ENGINEERING {
                remove_pid_set(&mut self.data_pids, &self.services[i].es_list);
            }
            proof {
                let a = old_data.difference(engineering_pids(old_services.take(i as int)));
                let w = watched_pids(old_services[i as int]);
                assert(self.data_pids() =~= a.difference(w));
                assert(a.difference(w) =~= old_data.difference(engineering_pids(old_services.take(i + 1))));
            }
            i = i + 1;
        }
        assert(old_services.take(i as int) =~= old_services);
        let mut services: Vec<DataService> = Vec::new();
        let mut k: usize = 0;
        while k < programs.len()
            invariant
                k <= programs@.len(),
                services@.map_values(|d: DataService| d@) == fresh_services(programs@.take(k as int)),
            decreases programs@.len() - k,
        {
            let (service_id, pmt_pid) = programs[k];
            let ghost before = services@;
            let es_list: Vec<u16> = Vec::new();
            assert(es_list@ =~= Seq::<u16>::empty());
            services.push(DataService { service_id, pmt_pid, service_type: SERVICE_TYPE_INVALID, es_list });
            proof {
                let lhs = services@.map_values(|d: DataService| d@);
                let rhs = fresh_services(programs@.take(k + 1));
                assert(before.map_values(|d: DataService| d@).len() == before.len());
                assert(services@ == before.push(DataService { service_id, pmt_pid, service_type: SERVICE_TYPE_INVALID, es_list }));
                assert forall|j: int| 0 <= j < lhs.len() implies lhs[j] == rhs[j] by {
                    if j < k {
                        assert(services@[j] == before[j]);
                        assert(before.map_values(|d: DataService| d@)[j] == fresh_services(programs@.take(k as int))[j]);
                    }
                }
                assert(lhs =~= rhs);
            }
            k = k + 1;
        }
        assert(programs@.take(k as int) =~= programs@);
        self.services = services;
    }
}

/// The data streams of the engineering services among the first `i + 1`
/// services are those among the first `i` and those of the service `i`.
proof fn lemma_engineering_pids_push(s: Seq<DataServiceView>, i: int)
    requires
        0 <= i < s.len(),
    ensures
        engineering_pids(s.take(i + 1)) == engineering_pids(s.take(i)).union(watched_pids(s[i])),
{
    let a = s.take(i + 1);
    let b = s.take(i);
    assert forall|p: u16| engineering_pids(a).contains(p) <==> engineering_pids(b).union(watched_pids(s[i])).contains(p) by {
        if engineering_pids(a).contains(p) {
            let j = choose|j: int| 0 <= j < a.len() && #[trigger] watched_pids(a[j]).contains(p);
            if j < i {
                assert(b[j] == a[j]);
            }
        }
        if engineering_pids(b).contains(p) {
            let j = choose|j: int| 0 <= j < b.len() && #[trigger] watched_pids(b[j]).contains(p);
            assert(a[j] == b[j]);
        }
        if watched_pids(s[i]).contains(p) {
            assert(a[i] == s[i]);
        }
    }
    assert(engineering_pids(a) =~= engineering_pids(b).union(watched_pids(s[i])));
}

/// Whether no data stream belongs to two services.
pub open spec fn disjoint_streams(s: Seq<DataServiceView>) -> bool {
    forall|i: int, j: int, p: u16|
        0 <= i < s.len() && 0 <= j < s.len() && i != j && #[trigger] s[i].es_list.contains(p) ==> !#[trigger] s[j].es_list.contains(p)
}

/// Replacing one service changes the engineering data streams by that
/// service alone, when no data stream belongs to two services.
proof fn lemma_engineering_pids_update(s: Seq<DataServiceView>, i: int, d: DataServiceView)
    requires
        0 <= i < s.len(),
        disjoint_streams(s),
    ensures
        engineering_pids(s.update(i, d)) == engineering_pids(s).difference(watched_pids(s[i])).union(watched_pids(d)),
{
    let t = s.update(i, d);
    assert forall|p: u16| engineering_pids(t).contains(p) <==> engineering_pids(s).difference(watched_pids(s[i])).union(watched_pids(d)).contains(p) by {
        if engineering_pids(t).contains(p) {
            let j = choose|j: int| 0 <= j < t.len() && #[trigger] watched_pids(t[j]).contains(p);
            if j != i {
                assert(watched_pids(s[j]).contains(p));
                assert(s[j].es_list.contains(p));
                if s[i].es_list.contains(p) {
                    assert(!s[j].es_list.contains(p));
                }
            }
        }
        if engineering_pids(s).difference(watched_pids(s[i])).contains(p) {
            let j = choose|j: int| 0 <= j < s.len() && #[trigger] watched_pids(s[j]).contains(p);
            assert(j != i);
            assert(t[j] == s[j]);
        }
        if watched_pids(d).contains(p) {
            assert(t[i] == d);
        }
    }
    assert(engineering_pids(t) =~= engineering_pids(s).difference(watched_pids(s[i])).union(watched_pids(d)));
}

/// Watching exactly the data streams of the engineering services is kept
/// by a PAT: afterwards no service is an engineering service and no data
/// stream is watched.
pub proof fn lemma_pat_keeps_watch_consistent(s: Seq<DataServiceView>, data: Set<u16>, programs: Seq<(u16, u16)>)
    requires
        data == engineering_pids(s),
    ensures
        data.difference(engineering_pids(s)) == engineering_pids(fresh_services(programs)),
        engineering_pids(fresh_services(programs)) == Set::<u16>::empty(),
{
    let f = fresh_services(programs);
    assert forall|p: u16| !engineering_pids(f).contains(p) by {
        if engineering_pids(f).contains(p) {
            let j = choose|j: int| 0 <= j < f.len() && #[trigger] watched_pids(f[j]).contains(p);
            assert(f[j].service_type == SERVICE_TYPE_INVALID);
        }
    }
    assert(engineering_pids(f) =~= Set::<u16>::empty());
    assert(data.difference(engineering_pids(s)) =~= Set::<u16>::empty());
}

/// Watching exactly the data streams of the engineering services is kept
/// by a PMT, when no data stream belongs to two services.
pub proof fn lemma_pmt_keeps_watch_consistent(
    s: Seq<DataServiceView>,
    data: Set<u16>,
    service_id: u16,
    es_list: Seq<(u8, u16, Option<u8>)>,
)
    requires
        data == engineering_pids(s),
        disjoint_streams(s),
    ensures
        pmt_step(s, data, service_id, es_list).1 == engineering_pids(pmt_step(s, data, service_id, es_list).0),
{
    match service_index(s, service_id) {
        None => {},
        Some(i) => {
            lemma_first_index_bounds(s, |d: DataServiceView| d.service_id == service_id);
            let d = s[i];
            let es = common_data_pids(es_list);
            let d2 = DataServiceView { service_id: d.service_id, pmt_pid: d.pmt_pid, service_type: d.service_type, es_list: es };
            lemma_engineering_pids_update(s, i, d2);
            if d.service_type == SERVICE_TYPE_ENGINEERING {
                assert(watched_pids(d) == d.es_list.to_set());
                assert(watched_pids(d2) == es.to_set());
            } else {
                assert(watched_pids(d) =~= Set::<u16>::empty());
                assert(watched_pids(d2) =~= Set::<u16>::empty());
                assert(engineering_pids(s).difference(Set::<u16>::empty()).union(Set::<u16>::empty()) =~= engineering_pids(s));
            }
        },
    }
}

/// One step of a NIT keeps the data streams of every service.
proof fn lemma_nit_step_keeps_streams(s: Seq<DataServiceView>, data: Set<u16>, e: (u16, u8))
    ensures
        nit_step(s, data, e).0.len() == s.len(),
        forall|k: int| 0 <= k < s.len() ==> #[trigger] nit_step(s, data, e).0[k].es_list == s[k].es_list,
{
    match service_index(s, e.0) {
        None => {},
        Some(i) => {
            lemma_first_index_bounds(s, |d: DataServiceView| d.service_id == e.0);
        },
    }
}

/// Watching exactly the data streams of the engineering services is kept
/// by a NIT, when no data stream belongs to two services; the NIT changes
/// no service's data streams.
pub proof fn lemma_nit_keeps_watch_consistent(s: Seq<DataServiceView>, data: Set<u16>, entries: Seq<(u16, u8)>)
    requires
        data == engineering_pids(s),
        disjoint_streams(s),
    ensures
        nit_apply(s, data, entries).1 == engineering_pids(nit_apply(s, data, entries).0),
        disjoint_streams(nit_apply(s, data, entries).0),
    decreases entries.len(),
{
    if entries.len() > 0 {
        lemma_nit_keeps_watch_consistent(s, data, entries.drop_last());
        let p = nit_apply(s, data, entries.drop_last());
        let e = entries.last();
        lemma_nit_step_keeps_streams(p.0, p.1, e);
        let q = nit_step(p.0, p.1, e);
        assert forall|i: int, j: int, x: u16|
            0 <= i < q.0.len() && 0 <= j < q.0.len() && i != j && #[trigger] q.0[i].es_list.contains(x) implies !#[trigger] q.0[j].es_list.contains(x) by {
            assert(q.0[i].es_list == p.0[i].es_list);
            assert(q.0[j].es_list == p.0[j].es_list);
        }
        match service_index(p.0, e.0) {
            None => {},
            Some(i) => {
                lemma_first_index_bounds(p.0, |d: DataServiceView| d.service_id == e.0);
                let d = p.0[i];
                if d.service_type != e.1 {
                    let d2 = DataServiceView { service_id: d.service_id, pmt_pid: d.pmt_pid, service_type: e.1, es_list: d.es_list };
                    lemma_engineering_pids_update(p.0, i, d2);
                    if e.1 == SERVICE_TYPE_ENGINEERING {
                        assert(watched_pids(d) =~= Set::<u16>::empty());
                        assert(p.1.difference(Set::<u16>::empty()).union(d.es_list.to_set()) =~= p.1.union(d.es_list.to_set()));
                    } else if d.service_type == SERVICE_TYPE_ENGINEERING {
                        assert(watched_pids(d2) =~= Set::<u16>::empty());
                        assert(p.1.difference(d.es_list.to_set()).union(Set::<u16>::empty()) =~= p.1.difference(d.es_list.to_set()));
                    } else {
                        assert(watched_pids(d) =~= Set::<u16>::empty());
                        assert(watched_pids(d2) =~= Set::<u16>::empty());
                        assert(p.1.difference(Set::<u16>::empty()).union(Set::<u16>::empty()) =~= p.1);
                    }
                }
            },
        }
    }
}

} // verus!
