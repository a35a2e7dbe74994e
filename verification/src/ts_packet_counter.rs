//! Counting transport packets: all input packets, scrambled packets, and the
//! bit rates of the video and audio streams of a chosen service, whose
//! streams are known from the program tables.
use vstd::prelude::*;
use std::collections::HashSet;
use crate::bitrate::{BitRateCalculator, BitRateState, update_state, rate_at, CLOCKS_PER_SEC};
use crate::ts_info::{PID_INVALID, PID_PAT};
use crate::ts_packet::{TsPacket, payload_size_of};

verus! {

/// The service id that selects no service.
pub const SERVICE_ID_INVALID: u16 = 0x0000;

/// Where a packet goes besides the counts: to the program association
/// table, to the program map table of its PID, or nowhere else.
#[derive(Clone, Copy, Debug, PartialEq, Eq, Structural)]
pub enum PacketRoute {
    Pat,
    Pmt,
    Other,
}

/// Counts packets and measures the bit rates of two streams, with the clock
/// `clock` (milliseconds).
pub struct TsPacketCounter<F: Fn() -> u64 + Clone> {
    clock: F,
    services: Vec<(u16, Vec<u16>)>,
    pmt_pids: Vec<u16>,
    mapped_es_pids: HashSet<u16>,
    target_service_id: u16,
    input_packet_count: u64,
    scrambled_packet_count: u64,
    video_pid: u16,
    audio_pid: u16,
    video_bitrate: BitRateCalculator<F>,
    audio_bitrate: BitRateCalculator<F>,
}

/// The services of a program association table: each program's number, and
/// no streams known yet.
pub open spec fn services_of_programs(programs: Seq<(u16, u16)>) -> Seq<(u16, Seq<u16>)> {
    Seq::new(programs.len(), |i: int| (programs[i].0, Seq::<u16>::empty()))
}

/// The index of the last service of `s` with id `id`.
pub open spec fn last_service_index(s: Seq<(u16, Seq<u16>)>, id: u16) -> Option<int>
    decreases s.len(),
{
    if s.len() == 0 {
        None
    } else if s.last().0 == id {
        Some(s.len() - 1)
    } else {
        last_service_index(s.drop_last(), id)
    }
}

/// Whether a service among the first `n` of `s` other than `id` has stream `p`.
pub open spec fn in_other_services(s: Seq<(u16, Seq<u16>)>, id: u16, n: int, p: u16) -> bool {
    exists|k: int| 0 <= k < n && s[k].0 != id && #[trigger] s[k].1.contains(p)
}

/// Whether a service among the first `n` of `s` with id `id` has stream `p`.
pub open spec fn in_services_of(s: Seq<(u16, Seq<u16>)>, id: u16, n: int, p: u16) -> bool {
    exists|k: int| 0 <= k < n && s[k].0 == id && #[trigger] s[k].1.contains(p)
}

impl<F: Fn() -> u64 + Clone> TsPacketCounter<F> {
    /// The clock.
    pub closed spec fn clock(&self) -> F {
        self.clock
    }

    /// The services, each with the PIDs of its streams.
    pub closed spec fn services(&self) -> Seq<(u16, Seq<u16>)> {
        Seq::new(self.services@.len(), |i: int| (self.services@[i].0, self.services@[i].1@))
    }

    /// The PIDs of the program map tables followed.
    pub closed spec fn pmt_pids(&self) -> Seq<u16> {
        self.pmt_pids@
    }

    /// The stream PIDs whose packets are counted as the chosen service's.
    pub closed spec fn mapped(&self) -> Set<u16> {
        self.mapped_es_pids@
    }

    /// The chosen service.
    pub closed spec fn target(&self) -> u16 {
        self.target_service_id
    }

    /// The number of input packets.
    pub closed spec fn input_count(&self) -> u64 {
        self.input_packet_count
    }

    /// The number of scrambled packets counted.
    pub closed spec fn scrambled_count(&self) -> u64 {
        self.scrambled_packet_count
    }

    /// The video PID.
    pub closed spec fn video(&self) -> u16 {
        self.video_pid
    }

    /// The audio PID.
    pub closed spec fn audio(&self) -> u16 {
        self.audio_pid
    }

    /// The bit rate measurement of the video stream.
    pub closed spec fn video_rate(&self) -> BitRateState {
        self.video_bitrate.state()
    }

    /// The bit rate measurement of the audio stream.
    pub closed spec fn audio_rate(&self) -> BitRateState {
        self.audio_bitrate.state()
    }

    /// The measurements have positive update intervals.
    pub closed spec fn wf(&self) -> bool {
        &&& self.video_bitrate.wf()
        &&& self.audio_bitrate.wf()
    }

    /// Whether a state is the one a reset leaves at clock `now`.
    pub open spec fn is_reset(&self, now: u64) -> bool {
        &&& self.services() == Seq::<(u16, Seq<u16>)>::empty()
        &&& self.pmt_pids() == Seq::<u16>::empty()
        &&& self.mapped() == Set::<u16>::empty()
        &&& self.target() == SERVICE_ID_INVALID
        &&& self.input_count() == 0
        &&& self.scrambled_count() == 0
        &&& self.video() == PID_INVALID
        &&& self.audio() == PID_INVALID
        &&& self.video_rate() == (BitRateState { last_clock: now, update_interval: CLOCKS_PER_SEC, bytes: 0, bit_rate: 0 })
        &&& self.audio_rate() == (BitRateState { last_clock: now, update_interval: CLOCKS_PER_SEC, bytes: 0, bit_rate: 0 })
    }

    /// A counter over `clock`, reset at the clock's current time.
    pub fn new(clock: F) -> (r: Self)
        requires
            call_requires(clock, ()),
        ensures
            r.wf(),
            r.clock() == clock,
            exists|now: u64| #[trigger] call_ensures(clock, (), now) && r.is_reset(now),
    {
        let now = clock();
        let mut video_bitrate = BitRateCalculator::new(clock.clone());
        let mut audio_bitrate = BitRateCalculator::new(clock.clone());
        video_bitrate.initialize_at(now);
        audio_bitrate.initialize_at(now);
        let r = TsPacketCounter {
            clock,
            services: Vec::new(),
            pmt_pids: Vec::new(),
            mapped_es_pids: HashSet::new(),
            target_service_id: SERVICE_ID_INVALID,
            input_packet_count: 0,
            scrambled_packet_count: 0,
            video_pid: PID_INVALID,
            audio_pid: PID_INVALID,
            video_bitrate,
            audio_bitrate,
        };
        assert(r.services() =~= Seq::<(u16, Seq<u16>)>::empty());
        assert(r.mapped() =~= Set::<u16>::empty());
        r
    }

    /// Forgets the tables, the chosen service and the PIDs, clears the counts
    /// and restarts the measurements at the clock's current time.
    pub fn reset(&mut self)
        requires
            old(self).wf(),
            call_requires(old(self).clock(), ()),
        ensures
            final(self).wf(),
            final(self).clock() == old(self).clock(),
            exists|now: u64| #[trigger] call_ensures(old(self).clock(), (), now) && final(self).is_reset(now),
    {
        let now = (self.clock)();
        self.services = Vec::new();
        self.pmt_pids = Vec::new();
        self.mapped_es_pids = HashSet::new();
        self.target_service_id = SERVICE_ID_INVALID;
        self.input_packet_count = 0;
        self.scrambled_packet_count = 0;
        self.video_pid = PID_INVALID;
        self.audio_pid = PID_INVALID;
        self.video_bitrate = BitRateCalculator::new(self.clock.clone());
        self.audio_bitrate = BitRateCalculator::new(self.clock.clone());
        self.video_bitrate.initialize_at(now);
        self.audio_bitrate.initialize_at(now);
        assert(self.services() =~= Seq::<(u16, Seq<u16>)>::empty());
        assert(self.mapped() =~= Set::<u16>::empty());
    }

    /// Whether the packet is counted as scrambled.
    pub open spec fn scrambled_packet(pkt: TsPacket) -> bool {
        pkt.header().transport_scrambling_control & 0x02 != 0
    }

    /// Counts the packet `pkt` and says where else it goes. A packet of a
    /// stream of the chosen service is counted as scrambled when it is, and
    /// counts towards the video or audio rate when it has that PID; with no
    /// service chosen, every scrambled packet is counted.
    pub fn process_packet(&mut self, pkt: &TsPacket) -> (r: PacketRoute)
        requires
            old(self).wf(),
            call_requires(old(self).clock(), ()),
            old(self).input_count() < u64::MAX,
            old(self).scrambled_count() + 2 <= u64::MAX,
            old(self).video_rate().bytes + 0xFF <= u64::MAX,
            old(self).audio_rate().bytes + 0xFF <= u64::MAX,
        ensures
            final(self).wf(),
            final(self).clock() == old(self).clock(),
            ({
                let pid = pkt.header().pid;
                let o = *old(self);
                let n = *final(self);
                let es = r == PacketRoute::Other && o.mapped().contains(pid);
                let scrambled = Self::scrambled_packet(*pkt);
                let size = payload_size_of(pkt.header(), pkt.adaptation_field()) as u64;
                &&& r == (if pid == PID_PAT {
                    PacketRoute::Pat
                } else if o.pmt_pids().contains(pid) {
                    PacketRoute::Pmt
                } else {
                    PacketRoute::Other
                })
                &&& n.input_count() == o.input_count() + 1
                &&& n.scrambled_count() == o.scrambled_count() + (if es && scrambled { 1int } else { 0int })
                    + (if o.target() == SERVICE_ID_INVALID && scrambled { 1int } else { 0int })
                &&& n.services() == o.services()
                &&& n.pmt_pids() == o.pmt_pids()
                &&& n.mapped() == o.mapped()
                &&& n.target() == o.target()
                &&& n.video() == o.video()
                &&& n.audio() == o.audio()
                &&& if es && pid == o.video() {
                    &&& exists|now: u64| #[trigger] call_ensures(o.clock(), (), now)
                        && n.video_rate() == update_state(o.video_rate(), now, size).0
                    &&& n.audio_rate() == o.audio_rate()
                } else if es && pid == o.audio() {
                    &&& exists|now: u64| #[trigger] call_ensures(o.clock(), (), now)
                        && n.audio_rate() == update_state(o.audio_rate(), now, size).0
                    &&& n.video_rate() == o.video_rate()
                } else {
                    &&& n.video_rate() == o.video_rate()
                    &&& n.audio_rate() == o.audio_rate()
                }
            }),
    {
        self.input_packet_count = self.input_packet_count + 1;
        let pid = pkt.get_pid();
        let scrambled = pkt.is_scrambled();
        let route = if pid == PID_PAT {
            PacketRoute::Pat
        } else if contains_pid(&self.pmt_pids, pid) {
            PacketRoute::Pmt
        } else {
            if self.mapped_es_pids.contains(&pid) {
                if scrambled {
                    self.scrambled_packet_count = self.scrambled_packet_count + 1;
                }
                let size = pkt.get_payload_size() as usize;
                if pid == self.video_pid {
                    let now = (self.clock)();
                    self.video_bitrate.update_at(now, size);
                } else if pid == self.audio_pid {
                    let now = (self.clock)();
                    self.audio_bitrate.update_at(now, size);
                }
            }
            PacketRoute::Other
        };
        if self.target_service_id == SERVICE_ID_INVALID && scrambled {
            self.scrambled_packet_count = self.scrambled_packet_count + 1;
        }
        route
    }

    /// Follows a new program association table, given as its programs
    /// (program number and PMT PID) in order: every program becomes a service
    /// with no streams known, the tables to follow are the programs' maps,
    /// and no stream is counted as the chosen service's any more.
    pub fn on_pat(&mut self, programs: &[(u16, u16)])
        requires
            old(self).wf(),
        ensures
            final(self).wf(),
            final(self).services() == services_of_programs(programs@),
            final(self).pmt_pids() == programs@.map_values(|p: (u16, u16)| p.1),
            final(self).mapped() == Set::<u16>::empty(),
            final(self).clock() == old(self).clock(),
            final(self).target() == old(self).target(),
            final(self).input_count() == old(self).input_count(),
            final(self).scrambled_count() == old(self).scrambled_count(),
            final(self).video() == old(self).video(),
            final(self).audio() == old(self).audio(),
            final(self).video_rate() == old(self).video_rate(),
            final(self).audio_rate() == old(self).audio_rate(),
    {
        self.mapped_es_pids = HashSet::new();
        let mut services: Vec<(u16, Vec<u16>)> = Vec::new();
        let mut pmt_pids: Vec<u16> = Vec::new();
        let mut i: usize = 0;
        while i < programs.len()
            invariant
                i <= programs@.len(),
                services@.len() == i,
                forall|k: int| 0 <= k < i ==> (#[trigger] services@[k]).0 == programs@[k].0 && services@[k].1@ == Seq::<u16>::empty(),
                pmt_pids@ == programs@.subrange(0, i as int).map_values(|p: (u16, u16)| p.1),
            decreases programs@.len() - i,
        {
            let (service_id, pmt_pid) = programs[i];
            services.push((service_id, Vec::new()));
            pmt_pids.push(pmt_pid);
            i = i + 1;
            assert(pmt_pids@ =~= programs@.subrange(0, i as int).map_values(|p: (u16, u16)| p.1));
        }
        self.services = services;
        self.pmt_pids = pmt_pids;
        assert(programs@.subrange(0, programs@.len() as int) =~= programs@);
        assert(self.services() =~= services_of_programs(programs@));
        assert(self.mapped() =~= Set::<u16>::empty());
    }

    /// Takes in the streams `es_pids` of the program map table of service
    /// `service_id`: they replace the streams of the last service with that
    /// id, and when that is the chosen service and the streams changed, the
    /// old streams stop and the new ones start being counted as its own.
    pub fn on_pmt(&mut self, service_id: u16, es_pids: &[u16])
        requires
            old(self).wf(),
        ensures
            final(self).wf(),
            ({
                let o = *old(self);
                let n = *final(self);
                match last_service_index(o.services(), service_id) {
                    None => n.services() == o.services() && n.mapped() == o.mapped(),
                    Some(i) => {
                        let old_es = o.services()[i].1;
                        &&& n.services() == o.services().update(i, (service_id, es_pids@))
                        &&& n.mapped() == if old_es != es_pids@ && service_id == o.target() {
                            o.mapped().difference(old_es.to_set()).union(es_pids@.to_set())
                        } else {
                            o.mapped()
                        }
                    },
                }
            }),
            final(self).pmt_pids() == old(self).pmt_pids(),
            final(self).clock() == old(self).clock(),
            final(self).target() == old(self).target(),
            final(self).input_count() == old(self).input_count(),
            final(self).scrambled_count() == old(self).scrambled_count(),
            final(self).video() == old(self).video(),
            final(self).audio() == old(self).audio(),
            final(self).video_rate() == old(self).video_rate(),
            final(self).audio_rate() == old(self).audio_rate(),
    {
        let ghost sv = self.services();
        assert(sv.subrange(0, sv.len() as int) =~= sv);
        let mut i: usize = self.services.len();
        while i > 0
            invariant
                i <= self.services@.len(),
                sv == self.services(),
                last_service_index(sv, service_id) == last_service_index(sv.subrange(0, i as int), service_id),
            ensures
                i <= self.services@.len(),
                last_service_index(sv, service_id) == last_service_index(sv.subrange(0, i as int), service_id),
                i == 0 || self.services@[i - 1].0 == service_id,
            decreases i,
        {
            if self.services[i - 1].0 == service_id {
                break;
            }
            assert(sv[i - 1].0 == self.services@[i - 1].0);
            proof {
                assert(sv.subrange(0, i as int).drop_last() =~= sv.subrange(0, i - 1));
            }
            i = i - 1;
        }
        if i == 0 {
            assert(sv.subrange(0, 0) =~= Seq::<(u16, Seq<u16>)>::empty());
            return;
        }
        let index = i - 1;
        proof {
            assert(sv[index as int].0 == self.services@[index as int].0);
            assert(sv.subrange(0, i as int).last().0 == service_id);
            assert(last_service_index(sv, service_id) == Some(index as int));
        }
        let mut new_es: Vec<u16> = Vec::new();
        let mut j: usize = 0;
        while j < es_pids.len()
            invariant
                j <= es_pids@.len(),
                new_es@ == es_pids@.subrange(0, j as int),
            decreases es_pids@.len() - j,
        {
            new_es.push(es_pids[j]);
            j = j + 1;
            assert(new_es@ =~= es_pids@.subrange(0, j as int));
        }
        assert(es_pids@.subrange(0, es_pids@.len() as int) =~= es_pids@);
        let changed = !same_pids(&self.services[index].1, &new_es);
        let is_target = service_id == self.target_service_id;
        if changed && is_target {
            let old_es = clone_pids(&self.services[index].1);
            remove_pid_set(&mut self.mapped_es_pids, &old_es);
            insert_pid_set(&mut self.mapped_es_pids, &new_es);
        }
        let ghost mapped_after = self.mapped_es_pids@;
        self.services.set(index, (service_id, new_es));
        proof {
            assert(self.services() =~= sv.update(index as int, (service_id, es_pids@)));
        }
    }

    /// Chooses service `service_id`: the streams of every other service stop,
    /// and those of every service with that id start, being counted as the
    /// chosen service's. Nothing changes when it is chosen already.
    pub fn set_active_service_id(&mut self, service_id: u16)
        requires
            old(self).wf(),
        ensures
            final(self).wf(),
            final(self).target() == service_id,
            old(self).target() == service_id ==> final(self).mapped() == old(self).mapped(),
            old(self).target() != service_id ==> forall|p: u16| #[trigger] final(self).mapped().contains(p) <==> (
                (old(self).mapped().contains(p)
                    && !in_other_services(old(self).services(), service_id, old(self).services().len() as int, p))
                || in_services_of(old(self).services(), service_id, old(self).services().len() as int, p)),
            final(self).services() == old(self).services(),
            final(self).pmt_pids() == old(self).pmt_pids(),
            final(self).clock() == old(self).clock(),
            final(self).input_count() == old(self).input_count(),
            final(self).scrambled_count() == old(self).scrambled_count(),
            final(self).video() == old(self).video(),
            final(self).audio() == old(self).audio(),
            final(self).video_rate() == old(self).video_rate(),
            final(self).audio_rate() == old(self).audio_rate(),
    {
        if self.target_service_id == service_id {
            return;
        }
        let ghost sv = self.services();
        let ghost m0 = self.mapped();
        let mut mapped: HashSet<u16> = HashSet::new();
        std::mem::swap(&mut mapped, &mut self.mapped_es_pids);
        let services = &self.services;
        let n = services.len();
        let mut i: usize = 0;
        while i < n
            invariant
                n == services@.len(),
                i <= n,
                sv == Seq::new(services@.len(), |k: int| (services@[k].0, services@[k].1@)),
                forall|p: u16| #[trigger] mapped@.contains(p) <==> (m0.contains(p)
                    && !in_other_services(sv, service_id, i as int, p)),
            decreases n - i,
        {
            let ghost before = mapped@;
            if services[i].0 != service_id {
                remove_pid_set(&mut mapped, &services[i].1);
            }
            proof {
                assert(sv[i as int].1 == services@[i as int].1@);
                assert forall|p: u16| #[trigger] mapped@.contains(p) <==> (m0.contains(p)
                    && !in_other_services(sv, service_id, i + 1, p)) by {
                    assert(services@[i as int].1@.to_set().contains(p) == sv[i as int].1.contains(p));
                    if in_other_services(sv, service_id, i as int, p) {
                        let k = choose|k: int| 0 <= k < i && sv[k].0 != service_id && #[trigger] sv[k].1.contains(p);
                        assert(0 <= k < i + 1 && sv[k].0 != service_id && sv[k].1.contains(p));
                    }
                    if in_other_services(sv, service_id, i + 1, p) && !in_other_services(sv, service_id, i as int, p) {
                        let k = choose|k: int| 0 <= k < i + 1 && sv[k].0 != service_id && #[trigger] sv[k].1.contains(p);
                        assert(k == i);
                    }
                }
            }
            i = i + 1;
        }
        let ghost m1 = mapped@;
        let mut i: usize = 0;
        while i < n
            invariant
                n == services@.len(),
                i <= n,
                sv == Seq::new(services@.len(), |k: int| (services@[k].0, services@[k].1@)),
                forall|p: u16| #[trigger] mapped@.contains(p) <==> (m1.contains(p)
                    || in_services_of(sv, service_id, i as int, p)),
            decreases n - i,
        {
            let ghost before = mapped@;
            if services[i].0 == service_id {
                insert_pid_set(&mut mapped, &services[i].1);
            }
            proof {
                assert(sv[i as int].1 == services@[i as int].1@);
                assert forall|p: u16| #[trigger] mapped@.contains(p) <==> (m1.contains(p)
                    || in_services_of(sv, service_id, i + 1, p)) by {
                    assert(services@[i as int].1@.to_set().contains(p) == sv[i as int].1.contains(p));
                    if in_services_of(sv, service_id, i as int, p) {
                        let k = choose|k: int| 0 <= k < i && sv[k].0 == service_id && #[trigger] sv[k].1.contains(p);
                        assert(0 <= k < i + 1 && sv[k].0 == service_id && sv[k].1.contains(p));
                    }
                    if in_services_of(sv, service_id, i + 1, p) && !in_services_of(sv, service_id, i as int, p) {
                        let k = choose|k: int| 0 <= k < i + 1 && sv[k].0 == service_id && #[trigger] sv[k].1.contains(p);
                        assert(k == i);
                    }
                }
            }
            i = i + 1;
        }
        self.mapped_es_pids = mapped;
        self.target_service_id = service_id;
        proof {
            assert forall|p: u16| #[trigger] self.mapped().contains(p) <==> (
                (m0.contains(p) && !in_other_services(sv, service_id, sv.len() as int, p))
                || in_services_of(sv, service_id, sv.len() as int, p)) by {
                assert(self.mapped().contains(p) == self.mapped_es_pids@.contains(p));
                assert(m1.contains(p) == (m0.contains(p) && !in_other_services(sv, service_id, sv.len() as int, p)));
            }
        }
    }

    /// The number of input packets.
    pub fn get_input_packet_count(&self) -> (r: u64)
        ensures
            r == self.input_count(),
    {
        self.input_packet_count
    }

    /// Clears the number of input packets.
    pub fn reset_input_packet_count(&mut self)
        ensures
            final(self).input_count() == 0,
            final(self).scrambled_count() == old(self).scrambled_count(),
            final(self).wf() == old(self).wf(),
            final(self).clock() == old(self).clock(),
            final(self).services() == old(self).services(),
            final(self).pmt_pids() == old(self).pmt_pids(),
            final(self).mapped() == old(self).mapped(),
            final(self).target() == old(self).target(),
            final(self).video() == old(self).video(),
            final(self).audio() == old(self).audio(),
            final(self).video_rate() == old(self).video_rate(),
            final(self).audio_rate() == old(self).audio_rate(),
    {
        self.input_packet_count = 0;
    }

    /// The number of scrambled packets counted.
    pub fn get_scrambled_packet_count(&self) -> (r: u64)
        ensures
            r == self.scrambled_count(),
    {
        self.scrambled_packet_count
    }

    /// Clears the number of scrambled packets.
    pub fn reset_scrambled_packet_count(&mut self)
        ensures
            final(self).scrambled_count() == 0,
            final(self).input_count() == old(self).input_count(),
            final(self).wf() == old(self).wf(),
            final(self).clock() == old(self).clock(),
            final(self).services() == old(self).services(),
            final(self).pmt_pids() == old(self).pmt_pids(),
            final(self).mapped() == old(self).mapped(),
            final(self).target() == old(self).target(),
            final(self).video() == old(self).video(),
            final(self).audio() == old(self).audio(),
            final(self).video_rate() == old(self).video_rate(),
            final(self).audio_rate() == old(self).audio_rate(),
    {
        self.scrambled_packet_count = 0;
    }

    /// Sets the PID of the video stream to measure.
    pub fn set_video_pid(&mut self, pid: u16)
        ensures
            final(self).video() == pid,
            final(self).audio() == old(self).audio(),
            final(self).input_count() == old(self).input_count(),
            final(self).scrambled_count() == old(self).scrambled_count(),
            final(self).wf() == old(self).wf(),
            final(self).clock() == old(self).clock(),
            final(self).services() == old(self).services(),
            final(self).pmt_pids() == old(self).pmt_pids(),
            final(self).mapped() == old(self).mapped(),
            final(self).target() == old(self).target(),
            final(self).video_rate() == old(self).video_rate(),
            final(self).audio_rate() == old(self).audio_rate(),
    {
        self.video_pid = pid;
    }

    /// Sets the PID of the audio stream to measure.
    pub fn set_audio_pid(&mut self, pid: u16)
        ensures
            final(self).audio() == pid,
            final(self).video() == old(self).video(),
            final(self).input_count() == old(self).input_count(),
            final(self).scrambled_count() == old(self).scrambled_count(),
            final(self).wf() == old(self).wf(),
            final(self).clock() == old(self).clock(),
            final(self).services() == old(self).services(),
            final(self).pmt_pids() == old(self).pmt_pids(),
            final(self).mapped() == old(self).mapped(),
            final(self).target() == old(self).target(),
            final(self).video_rate() == old(self).video_rate(),
            final(self).audio_rate() == old(self).audio_rate(),
    {
        self.audio_pid = pid;
    }

    /// Sets the PID of the video stream to measure; whether the service
    /// changed makes no difference.
    pub fn set_active_video_pid(&mut self, pid: u16, service_changed: bool)
        ensures
            final(self).video() == pid,
            final(self).audio() == old(self).audio(),
            final(self).input_count() == old(self).input_count(),
            final(self).scrambled_count() == old(self).scrambled_count(),
            final(self).wf() == old(self).wf(),
            final(self).clock() == old(self).clock(),
            final(self).services() == old(self).services(),
            final(self).pmt_pids() == old(self).pmt_pids(),
            final(self).mapped() == old(self).mapped(),
            final(self).target() == old(self).target(),
            final(self).video_rate() == old(self).video_rate(),
            final(self).audio_rate() == old(self).audio_rate(),
    {
        self.set_video_pid(pid);
    }

    /// Sets the PID of the audio stream to measure; whether the service
    /// changed makes no difference.
    pub fn set_active_audio_pid(&mut self, pid: u16, service_changed: bool)
        ensures
            final(self).audio() == pid,
            final(self).video() == old(self).video(),
            final(self).input_count() == old(self).input_count(),
            final(self).scrambled_count() == old(self).scrambled_count(),
            final(self).wf() == old(self).wf(),
            final(self).clock() == old(self).clock(),
            final(self).services() == old(self).services(),
            final(self).pmt_pids() == old(self).pmt_pids(),
            final(self).mapped() == old(self).mapped(),
            final(self).target() == old(self).target(),
            final(self).video_rate() == old(self).video_rate(),
            final(self).audio_rate() == old(self).audio_rate(),
    {
        self.set_audio_pid(pid);
    }

    /// The bit rate of the video stream at the clock's current time.
    pub fn get_video_bit_rate(&self) -> (r: u64)
        requires
            self.wf(),
            call_requires(self.clock(), ()),
            forall|t: u64| #[trigger] call_ensures(self.clock(), (), t) ==> t >= self.video_rate().last_clock,
            2 * self.video_rate().update_interval <= u64::MAX,
        ensures
            exists|now: u64| #[trigger] call_ensures(self.clock(), (), now) && r == rate_at(self.video_rate(), now),
    {
        let now = (self.clock)();
        self.video_bitrate.bit_rate_at(now)
    }

    /// The bit rate of the audio stream at the clock's current time.
    pub fn get_audio_bit_rate(&self) -> (r: u64)
        requires
            self.wf(),
            call_requires(self.clock(), ()),
            forall|t: u64| #[trigger] call_ensures(self.clock(), (), t) ==> t >= self.audio_rate().last_clock,
            2 * self.audio_rate().update_interval <= u64::MAX,
        ensures
            exists|now: u64| #[trigger] call_ensures(self.clock(), (), now) && r == rate_at(self.audio_rate(), now),
    {
        let now = (self.clock)();
        self.audio_bitrate.bit_rate_at(now)
    }
}

/// Adds the PIDs of `pids` to the set `set`.
pub(crate) fn insert_pid_set(set: &mut HashSet<u16>, pids: &Vec<u16>)
    ensures
        final(set)@ == old(set)@.union(pids@.to_set()),
{
    let mut i: usize = 0;
    while i < pids.len()
        invariant
            i <= pids@.len(),
            set@ == old(set)@.union(pids@.subrange(0, i as int).to_set()),
        decreases pids@.len() - i,
    {
        let ghost before = set@;
        set.insert(pids[i]);
        proof {
            assert(pids@.subrange(0, i + 1) =~= pids@.subrange(0, i as int).push(pids@[i as int]));
            pids@.subrange(0, i as int).lemma_push_to_set_commute(pids@[i as int]);
            assert(set@ =~= old(set)@.union(pids@.subrange(0, i + 1).to_set()));
        }
        i = i + 1;
    }
    assert(pids@.subrange(0, pids@.len() as int) =~= pids@);
}

/// Removes the PIDs of `pids` from the set `set`.
pub(crate) fn remove_pid_set(set: &mut HashSet<u16>, pids: &Vec<u16>)
    ensures
        final(set)@ == old(set)@.difference(pids@.to_set()),
{
    let mut i: usize = 0;
    while i < pids.len()
        invariant
            i <= pids@.len(),
            set@ == old(set)@.difference(pids@.subrange(0, i as int).to_set()),
        decreases pids@.len() - i,
    {
        let pid = pids[i];
        set.remove(&pid);
        proof {
            assert(pids@.subrange(0, i + 1) =~= pids@.subrange(0, i as int).push(pid));
            pids@.subrange(0, i as int).lemma_push_to_set_commute(pid);
            assert(set@ =~= old(set)@.difference(pids@.subrange(0, i + 1).to_set()));
        }
        i = i + 1;
    }
    assert(pids@.subrange(0, pids@.len() as int) =~= pids@);
}

/// Whether `pid` is among `pids`.
pub(crate) fn contains_pid(pids: &Vec<u16>, pid: u16) -> (r: bool)
    ensures
        r == pids@.contains(pid),
{
    let mut i: usize = 0;
    while i < pids.len()
        invariant
            i <= pids@.len(),
            forall|k: int| 0 <= k < i ==> pids@[k] != pid,
        decreases pids@.len() - i,
    {
        if pids[i] == pid {
            return true;
        }
        i = i + 1;
    }
    false
}

/// Whether two PID lists are equal.
fn same_pids(a: &Vec<u16>, b: &Vec<u16>) -> (r: bool)
    ensures
        r == (a@ == b@),
{
    if a.len() != b.len() {
        return false;
    }
    let mut i: usize = 0;
    while i < a.len()
        invariant
            a@.len() == b@.len(),
            i <= a@.len(),
            forall|k: int| 0 <= k < i ==> a@[k] == b@[k],
        decreases a@.len() - i,
    {
        if a[i] != b[i] {
            return false;
        }
        i = i + 1;
    }
    assert(a@ =~= b@);
    true
}

/// A copy of a PID list.
pub(crate) fn clone_pids(a: &Vec<u16>) -> (r: Vec<u16>)
    ensures
        r@ == a@,
{
    let mut r: Vec<u16> = Vec::new();
    let mut i: usize = 0;
    while i < a.len()
        invariant
            i <= a@.len(),
            r@ == a@.subrange(0, i as int),
        decreases a@.len() - i,
    {
        r.push(a[i]);
        i = i + 1;
        assert(r@ =~= a@.subrange(0, i as int));
    }
    assert(a@.subrange(0, a@.len() as int) =~= a@);
    r
}

} // verus!
