//! Services from the program map table: the elementary streams of a service,
//! sorted by kind and, within a kind, by component tag.
use vstd::prelude::*;
use crate::sdt_analyzer::{SdtContent, SdtDescriptor};
use crate::ts_info::{
    PID_INVALID, STREAM_TYPE_INVALID, STREAM_TYPE_MPEG1_VIDEO, STREAM_TYPE_MPEG2_VIDEO,
    STREAM_TYPE_MPEG4_VISUAL, STREAM_TYPE_H264, STREAM_TYPE_H265, STREAM_TYPE_MPEG1_AUDIO,
    STREAM_TYPE_MPEG2_AUDIO, STREAM_TYPE_AAC, STREAM_TYPE_MPEG4_AUDIO, STREAM_TYPE_AC3,
    STREAM_TYPE_DTS, STREAM_TYPE_TRUEHD, STREAM_TYPE_DOLBY_DIGITAL_PLUS, STREAM_TYPE_CAPTION,
    STREAM_TYPE_DATA_CARROUSEL,
};

verus! {

/// The invalid component tag.
pub const COMPONENT_TAG_INVALID: u8 = 0xFF;

/// The invalid service type.
pub const SERVICE_TYPE_INVALID: u8 = 0xFF;

/// The invalid logo id.
pub const LOGO_ID_INVALID: u16 = 0xFFFF;

/// An elementary stream of a service.
#[derive(Clone, Copy, Debug, PartialEq, Eq, Structural)]
pub struct EsInfo {
    pub pid: u16,
    pub stream_type: u8,
    pub component_tag: u8,
    pub quality_level: u8,
    pub hierarchical_reference_pid: u16,
}

impl Default for EsInfo {
    fn default() -> (r: EsInfo)
        ensures
            r == (EsInfo {
                pid: PID_INVALID,
                stream_type: STREAM_TYPE_INVALID,
                component_tag: COMPONENT_TAG_INVALID,
                quality_level: 0xFF,
                hierarchical_reference_pid: PID_INVALID,
            }),
    {
        EsInfo {
            pid: PID_INVALID,
            stream_type: STREAM_TYPE_INVALID,
            component_tag: COMPONENT_TAG_INVALID,
            quality_level: 0xFF,
            hierarchical_reference_pid: PID_INVALID,
        }
    }
}

/// A conditional-access stream (ECM) of a service.
#[derive(Clone, Copy, Debug, PartialEq, Eq, Structural)]
pub struct EcmInfo {
    pub ca_system_id: u16,
    pub pid: u16,
}

/// A service: its streams from the program map table, and what the service
/// description table says of it.
#[derive(Clone, Debug, PartialEq, Eq)]
pub struct ServiceInfo {
    pub is_pmt_acquired: bool,
    pub service_id: u16,
    pub pmt_pid: u16,
    pub es_list: Vec<EsInfo>,
    pub video_es_list: Vec<EsInfo>,
    pub audio_es_list: Vec<EsInfo>,
    pub caption_es_list: Vec<EsInfo>,
    pub data_carrousel_es_list: Vec<EsInfo>,
    pub other_es_list: Vec<EsInfo>,
    pub pcr_pid: u16,
    pub ecm_list: Vec<EcmInfo>,
    pub running_status: u8,
    pub free_ca_mode: bool,
    pub provider_name: String,
    pub service_name: String,
    pub service_type: u8,
    pub logo_id: u16,
}

/// Whether `s` has the fields of a service with nothing known, but its ids
/// and PCR PID.
pub open spec fn blank_service(s: ServiceInfo, service_id: u16, pmt_pid: u16, pcr_pid: u16) -> bool {
    &&& s.service_id == service_id
    &&& s.pmt_pid == pmt_pid
    &&& s.pcr_pid == pcr_pid
    &&& s.es_list@.len() == 0
    &&& s.video_es_list@.len() == 0
    &&& s.audio_es_list@.len() == 0
    &&& s.caption_es_list@.len() == 0
    &&& s.data_carrousel_es_list@.len() == 0
    &&& s.other_es_list@.len() == 0
    &&& s.ecm_list@.len() == 0
    &&& !s.free_ca_mode
    &&& s.provider_name@.len() == 0
    &&& s.service_name@.len() == 0
}

impl Default for ServiceInfo {
    fn default() -> (r: ServiceInfo)
        ensures
            blank_service(r, 0, 0, 0),
            !r.is_pmt_acquired,
            r.running_status == 0,
            r.service_type == 0,
            r.logo_id == 0,
    {
        ServiceInfo {
            is_pmt_acquired: false,
            service_id: 0,
            pmt_pid: 0,
            es_list: Vec::new(),
            video_es_list: Vec::new(),
            audio_es_list: Vec::new(),
            caption_es_list: Vec::new(),
            data_carrousel_es_list: Vec::new(),
            other_es_list: Vec::new(),
            pcr_pid: 0,
            ecm_list: Vec::new(),
            running_status: 0,
            free_ca_mode: false,
            provider_name: String::new(),
            service_name: String::new(),
            service_type: 0,
            logo_id: 0,
        }
    }
}

/// Whether a stream type is a video type.
pub open spec fn video_stream_type(t: u8) -> bool {
    t == STREAM_TYPE_MPEG1_VIDEO || t == STREAM_TYPE_MPEG2_VIDEO || t == STREAM_TYPE_MPEG4_VISUAL
        || t == STREAM_TYPE_H264 || t == STREAM_TYPE_H265
}

/// Whether a stream type is an audio type.
pub open spec fn audio_stream_type(t: u8) -> bool {
    t == STREAM_TYPE_MPEG1_AUDIO || t == STREAM_TYPE_MPEG2_AUDIO || t == STREAM_TYPE_AAC
        || t == STREAM_TYPE_MPEG4_AUDIO || t == STREAM_TYPE_AC3 || t == STREAM_TYPE_DTS
        || t == STREAM_TYPE_TRUEHD || t == STREAM_TYPE_DOLBY_DIGITAL_PLUS
}

/// Whether a stream type is a video type.
pub fn is_video_stream_type(stream_type: u8) -> (r: bool)
    ensures
        r == video_stream_type(stream_type),
{
    stream_type == STREAM_TYPE_MPEG1_VIDEO || stream_type == STREAM_TYPE_MPEG2_VIDEO
        || stream_type == STREAM_TYPE_MPEG4_VISUAL || stream_type == STREAM_TYPE_H264
        || stream_type == STREAM_TYPE_H265
}

/// Whether a stream type is an audio type.
pub fn is_audio_stream_type(stream_type: u8) -> (r: bool)
    ensures
        r == audio_stream_type(stream_type),
{
    stream_type == STREAM_TYPE_MPEG1_AUDIO || stream_type == STREAM_TYPE_MPEG2_AUDIO
        || stream_type == STREAM_TYPE_AAC || stream_type == STREAM_TYPE_MPEG4_AUDIO
        || stream_type == STREAM_TYPE_AC3 || stream_type == STREAM_TYPE_DTS
        || stream_type == STREAM_TYPE_TRUEHD || stream_type == STREAM_TYPE_DOLBY_DIGITAL_PLUS
}

/// The kind of a stream type: 0 video, 1 audio, 2 caption, 3 data carousel,
/// 4 anything else.
pub open spec fn es_kind(t: u8) -> int {
    if video_stream_type(t) {
        0
    } else if audio_stream_type(t) {
        1
    } else if t == STREAM_TYPE_CAPTION {
        2
    } else if t == STREAM_TYPE_DATA_CARROUSEL {
        3
    } else {
        4
    }
}

/// What the service builder reads of one elementary stream of a program map
/// table: its PID and stream type, the component tag of its stream identifier
/// descriptor and the quality level and reference PID of its hierarchical
/// transmission descriptor (of the last such descriptor, where there are
/// several).
#[derive(Clone, Copy, Debug, PartialEq, Eq)]
pub struct PmtEsEntry {
    pub es_pid: u16,
    pub stream_type: u8,
    pub component_tag: Option<u8>,
    pub hierarchy: Option<(u8, u16)>,
}

/// What the service builder reads of a program map table: the PCR PID, the
/// elementary streams in order, and the conditional-access descriptors of
/// the program loop in order.
#[derive(Clone, Debug, PartialEq, Eq)]
pub struct PmtContent {
    pub pcr_pid: u16,
    pub es_list: Vec<PmtEsEntry>,
    pub ca_list: Vec<EcmInfo>,
}

/// The stream record of a program map entry.
pub open spec fn es_info_of(e: PmtEsEntry) -> EsInfo {
    EsInfo {
        pid: e.es_pid,
        stream_type: e.stream_type,
        component_tag: match e.component_tag {
            Some(t) => t,
            None => COMPONENT_TAG_INVALID,
        },
        quality_level: match e.hierarchy {
            Some(h) => h.0,
            None => 0xFF,
        },
        hierarchical_reference_pid: match e.hierarchy {
            Some(h) => h.1,
            None => PID_INVALID,
        },
    }
}

/// The streams of `s` of kind `kind`, in order.
pub open spec fn of_kind(s: Seq<EsInfo>, kind: int) -> Seq<EsInfo> {
    s.filter(|e: EsInfo| es_kind(e.stream_type) == kind)
}

/// The streams of `s` with component tag `k`, in order.
pub open spec fn with_tag(s: Seq<EsInfo>, k: u8) -> Seq<EsInfo> {
    s.filter(|e: EsInfo| e.component_tag == k)
}

/// Whether the component tags of `s` never decrease.
pub open spec fn sorted_by_tag(s: Seq<EsInfo>) -> bool {
    forall|i: int, j: int| 0 <= i < j < s.len() ==> s[i].component_tag <= s[j].component_tag
}

/// Whether `out` is `input` sorted by component tag, streams with equal tags
/// in their order in `input`.
pub open spec fn stable_sort_of(out: Seq<EsInfo>, input: Seq<EsInfo>) -> bool {
    &&& sorted_by_tag(out)
    &&& forall|k: u8| #[trigger] with_tag(out, k) == with_tag(input, k)
}

proof fn lemma_with_tag_single(e: EsInfo, k: u8)
    ensures
        with_tag(seq![e], k) == (if e.component_tag == k { seq![e] } else { Seq::<EsInfo>::empty() }),
{
    reveal_with_fuel(Seq::filter, 2);
    assert(seq![e].drop_last() =~= Seq::<EsInfo>::empty());
}

proof fn lemma_with_tag_none(s: Seq<EsInfo>, k: u8)
    requires
        forall|j: int| 0 <= j < s.len() ==> s[j].component_tag > k,
    ensures
        with_tag(s, k) == Seq::<EsInfo>::empty(),
{
    let pred = |e: EsInfo| e.component_tag == k;
    assert(s.all(|x: EsInfo| !pred(x)));
    s.lemma_all_neg_filter_empty(pred);
    assert(with_tag(s, k) =~= Seq::<EsInfo>::empty());
}

/// Inserting `e` after the streams whose tags are not greater than its own
/// appends it to the streams of its tag and changes no other tag's streams.
proof fn lemma_insert_by_tag(out: Seq<EsInfo>, p: int, e: EsInfo, k: u8)
    requires
        0 <= p <= out.len(),
        forall|j: int| 0 <= j < p ==> out[j].component_tag <= e.component_tag,
        forall|j: int| p <= j < out.len() ==> out[j].component_tag > e.component_tag,
    ensures
        with_tag(out.insert(p, e), k) == (if e.component_tag == k {
            with_tag(out, k).push(e)
        } else {
            with_tag(out, k)
        }),
{
    let a = out.subrange(0, p);
    let b = out.subrange(p, out.len() as int);
    let pred = |x: EsInfo| x.component_tag == k;
    assert(out.insert(p, e) =~= a + seq![e] + b);
    assert(out =~= a + b);
    Seq::filter_distributes_over_add(a + seq![e], b, pred);
    Seq::filter_distributes_over_add(a, seq![e], pred);
    Seq::filter_distributes_over_add(a, b, pred);
    lemma_with_tag_single(e, k);
    if e.component_tag == k {
        lemma_with_tag_none(b, k);
        assert(with_tag(out.insert(p, e), k) =~= with_tag(out, k).push(e));
    } else {
        assert(with_tag(out.insert(p, e), k) =~= with_tag(out, k));
    }
}

/// `v` sorted by component tag, streams with equal tags kept in order.
fn sort_by_component_tag(v: &Vec<EsInfo>) -> (r: Vec<EsInfo>)
    ensures
        stable_sort_of(r@, v@),
{
    let mut out: Vec<EsInfo> = Vec::new();
    let mut i: usize = 0;
    while i < v.len()
        invariant
            i <= v.len(),
            sorted_by_tag(out@),
            forall|k: u8| #[trigger] with_tag(out@, k) == with_tag(v@.subrange(0, i as int), k),
        decreases v.len() - i,
    {
        let e = v[i];
        let mut p: usize = 0;
        while p < out.len() && out[p].component_tag <= e.component_tag
            invariant
                p <= out.len(),
                forall|j: int| 0 <= j < p ==> out@[j].component_tag <= e.component_tag,
            decreases out.len() - p,
        {
            p = p + 1;
        }
        let ghost before = out@;
        proof {
            assert forall|j: int| p <= j < before.len() implies before[j].component_tag > e.component_tag by {
                assert(before[p as int].component_tag > e.component_tag);
                if j > p {
                    assert(before[p as int].component_tag <= before[j].component_tag);
                }
            }
        }
        out.insert(p, e);
        proof {
            assert(v@.subrange(0, i + 1) =~= v@.subrange(0, i as int).push(e));
            assert forall|k: u8| #[trigger] with_tag(out@, k) == with_tag(v@.subrange(0, i + 1), k) by {
                lemma_insert_by_tag(before, p as int, e, k);
                v@.subrange(0, i as int).lemma_filter_push(e, |x: EsInfo| x.component_tag == k);
            }
            assert forall|a: int, b: int| 0 <= a < b < out@.len() implies out@[a].component_tag <= out@[b].component_tag by {
                if b < p {
                } else if b == p {
                } else if a < p {
                    assert(out@[b] == before[b - 1]);
                } else if a == p {
                    assert(out@[b] == before[b - 1]);
                } else {
                    assert(out@[a] == before[a - 1]);
                    assert(out@[b] == before[b - 1]);
                }
            }
        }
        i = i + 1;
    }
    assert(v@.subrange(0, v@.len() as int) =~= v@);
    out
}

/// The stream record of a program map entry.
fn make_es_info(e: &PmtEsEntry) -> (r: EsInfo)
    ensures
        r == es_info_of(*e),
{
    let component_tag = match e.component_tag {
        Some(t) => t,
        None => COMPONENT_TAG_INVALID,
    };
    let (quality_level, hierarchical_reference_pid) = match e.hierarchy {
        Some(h) => h,
        None => (0xFF, PID_INVALID),
    };
    EsInfo {
        pid: e.es_pid,
        stream_type: e.stream_type,
        component_tag,
        quality_level,
        hierarchical_reference_pid,
    }
}

/// The service `service_id`, whose program map table is on `pmt_pid`, as the
/// table `pmt` describes it: every stream in order, the streams of each kind
/// (video, audio, caption and data carousel streams sorted by component tag,
/// the rest in order), the PCR PID when it is below 0x1FFF, and the
/// conditional-access streams.
pub fn build_service_info(pmt: &PmtContent, service_id: u16, pmt_pid: u16) -> (r: ServiceInfo)
    ensures
        r.is_pmt_acquired,
        r.service_id == service_id,
        r.pmt_pid == pmt_pid,
        r.es_list@ == pmt.es_list@.map_values(|e: PmtEsEntry| es_info_of(e)),
        stable_sort_of(r.video_es_list@, of_kind(r.es_list@, 0)),
        stable_sort_of(r.audio_es_list@, of_kind(r.es_list@, 1)),
        stable_sort_of(r.caption_es_list@, of_kind(r.es_list@, 2)),
        stable_sort_of(r.data_carrousel_es_list@, of_kind(r.es_list@, 3)),
        r.other_es_list@ == of_kind(r.es_list@, 4),
        r.pcr_pid == (if pmt.pcr_pid < 0x1FFF { pmt.pcr_pid } else { PID_INVALID }),
        r.ecm_list@ == pmt.ca_list@,
        r.running_status == 0,
        !r.free_ca_mode,
        r.provider_name@.len() == 0,
        r.service_name@.len() == 0,
        r.service_type == 0,
        r.logo_id == 0,
{
    let ghost all = pmt.es_list@.map_values(|e: PmtEsEntry| es_info_of(e));
    let mut es_list: Vec<EsInfo> = Vec::new();
    let mut video: Vec<EsInfo> = Vec::new();
    let mut audio: Vec<EsInfo> = Vec::new();
    let mut caption: Vec<EsInfo> = Vec::new();
    let mut data: Vec<EsInfo> = Vec::new();
    let mut other: Vec<EsInfo> = Vec::new();
    let mut i: usize = 0;
    while i < pmt.es_list.len()
        invariant
            i <= pmt.es_list@.len(),
            all == pmt.es_list@.map_values(|e: PmtEsEntry| es_info_of(e)),
            es_list@ == all.subrange(0, i as int),
            video@ == of_kind(es_list@, 0),
            audio@ == of_kind(es_list@, 1),
            caption@ == of_kind(es_list@, 2),
            data@ == of_kind(es_list@, 3),
            other@ == of_kind(es_list@, 4),
        decreases pmt.es_list@.len() - i,
    {
        let es = make_es_info(&pmt.es_list[i]);
        let ghost prev = es_list@;
        es_list.push(es);
        proof {
            assert(all.subrange(0, i + 1) =~= all.subrange(0, i as int).push(es));
            reveal_with_fuel(Seq::filter, 1);
            prev.lemma_filter_push(es, |e: EsInfo| es_kind(e.stream_type) == 0);
            prev.lemma_filter_push(es, |e: EsInfo| es_kind(e.stream_type) == 1);
            prev.lemma_filter_push(es, |e: EsInfo| es_kind(e.stream_type) == 2);
            prev.lemma_filter_push(es, |e: EsInfo| es_kind(e.stream_type) == 3);
            prev.lemma_filter_push(es, |e: EsInfo| es_kind(e.stream_type) == 4);
        }
        if is_video_stream_type(es.stream_type) {
            video.push(es);
        } else if is_audio_stream_type(es.stream_type) {
            audio.push(es);
        } else if es.stream_type == STREAM_TYPE_CAPTION {
            caption.push(es);
        } else if es.stream_type == STREAM_TYPE_DATA_CARROUSEL {
            data.push(es);
        } else {
            other.push(es);
        }
        i = i + 1;
    }
    assert(all.subrange(0, all.len() as int) =~= all);
    let pcr_pid = if pmt.pcr_pid < 0x1FFF { pmt.pcr_pid } else { PID_INVALID };
    let mut ecm_list: Vec<EcmInfo> = Vec::new();
    let mut j: usize = 0;
    while j < pmt.ca_list.len()
        invariant
            j <= pmt.ca_list@.len(),
            ecm_list@ == pmt.ca_list@.subrange(0, j as int),
        decreases pmt.ca_list@.len() - j,
    {
        ecm_list.push(pmt.ca_list[j]);
        j = j + 1;
        assert(ecm_list@ =~= pmt.ca_list@.subrange(0, j as int));
    }
    assert(pmt.ca_list@.subrange(0, pmt.ca_list@.len() as int) =~= pmt.ca_list@);
    ServiceInfo {
        is_pmt_acquired: true,
        service_id,
        pmt_pid,
        video_es_list: sort_by_component_tag(&video),
        audio_es_list: sort_by_component_tag(&audio),
        caption_es_list: sort_by_component_tag(&caption),
        data_carrousel_es_list: sort_by_component_tag(&data),
        es_list,
        other_es_list: other,
        pcr_pid,
        ecm_list,
        running_status: 0,
        free_ca_mode: false,
        provider_name: String::new(),
        service_name: String::new(),
        service_type: 0,
        logo_id: 0,
    }
}

/// The services of a program association table, in the table's order, each
/// given as its program number and PMT PID (the network entry, program 0,
/// not among them): nothing is known of them yet but their ids.
pub fn build_service_list_from_pat(programs: &[(u16, u16)]) -> (r: Vec<ServiceInfo>)
    ensures
        r@.len() == programs@.len(),
        forall|i: int| 0 <= i < r@.len() ==> {
            &&& blank_service(#[trigger] r@[i], programs@[i].0, programs@[i].1, PID_INVALID)
            &&& !r@[i].is_pmt_acquired
            &&& r@[i].running_status == 0xFF
            &&& r@[i].service_type == SERVICE_TYPE_INVALID
            &&& r@[i].logo_id == LOGO_ID_INVALID
        },
{
    let mut list: Vec<ServiceInfo> = Vec::new();
    let mut i: usize = 0;
    while i < programs.len()
        invariant
            i <= programs@.len(),
            list@.len() == i,
            forall|k: int| 0 <= k < i ==> {
                &&& blank_service(#[trigger] list@[k], programs@[k].0, programs@[k].1, PID_INVALID)
                &&& !list@[k].is_pmt_acquired
                &&& list@[k].running_status == 0xFF
                &&& list@[k].service_type == SERVICE_TYPE_INVALID
                &&& list@[k].logo_id == LOGO_ID_INVALID
            },
        decreases programs@.len() - i,
    {
        let (service_id, pmt_pid) = programs[i];
        let mut s = ServiceInfo::default();
        s.service_id = service_id;
        s.pmt_pid = pmt_pid;
        s.pcr_pid = PID_INVALID;
        s.running_status = 0xFF;
        s.service_type = SERVICE_TYPE_INVALID;
        s.logo_id = LOGO_ID_INVALID;
        list.push(s);
        i = i + 1;
    }
    list
}

/// The names, service type and logo id that the descriptors `ds` give, read
/// in order from cleared values: a service descriptor sets the type and each
/// name it carries, a logo transmission descriptor sets the logo id.
pub open spec fn apply_descriptors(ds: Seq<SdtDescriptor>) -> (Seq<char>, Seq<char>, u8, u16)
    decreases ds.len(),
{
    if ds.len() == 0 {
        (Seq::empty(), Seq::empty(), SERVICE_TYPE_INVALID, LOGO_ID_INVALID)
    } else {
        let prev = apply_descriptors(ds.drop_last());
        match ds.last() {
            SdtDescriptor::Service { service_type, provider_name, service_name } => (
                match provider_name {
                    Some(p) => p@,
                    None => prev.0,
                },
                match service_name {
                    Some(n) => n@,
                    None => prev.1,
                },
                service_type,
                prev.3,
            ),
            SdtDescriptor::LogoTransmission { logo_id } => (prev.0, prev.1, prev.2, logo_id),
            SdtDescriptor::Other => prev,
        }
    }
}

/// The index of the first service of `services` with id `service_id`.
pub open spec fn sdt_index_of(services: Seq<crate::sdt_analyzer::SdtServiceEntry>, service_id: u16) -> Option<int>
    decreases services.len(),
{
    if services.len() == 0 {
        None
    } else {
        match sdt_index_of(services.drop_last(), service_id) {
            Some(i) => Some(i),
            None => if services.last().service_id == service_id {
                Some(services.len() - 1)
            } else {
                None
            },
        }
    }
}

/// Whether `a` and `b` agree on what the program map table gives.
pub open spec fn same_pmt_part(a: ServiceInfo, b: ServiceInfo) -> bool {
    &&& a.is_pmt_acquired == b.is_pmt_acquired
    &&& a.service_id == b.service_id
    &&& a.pmt_pid == b.pmt_pid
    &&& a.es_list == b.es_list
    &&& a.video_es_list == b.video_es_list
    &&& a.audio_es_list == b.audio_es_list
    &&& a.caption_es_list == b.caption_es_list
    &&& a.data_carrousel_es_list == b.data_carrousel_es_list
    &&& a.other_es_list == b.other_es_list
    &&& a.pcr_pid == b.pcr_pid
    &&& a.ecm_list == b.ecm_list
}

proof fn lemma_index_prefix(services: Seq<crate::sdt_analyzer::SdtServiceEntry>, service_id: u16, n: int)
    requires
        0 <= n < services.len(),
        sdt_index_of(services.subrange(0, n), service_id) is None,
    ensures
        sdt_index_of(services.subrange(0, n + 1), service_id)
            == (if services[n].service_id == service_id { Some(n) } else { None::<int> }),
{
    assert(services.subrange(0, n + 1).drop_last() =~= services.subrange(0, n));
}

proof fn lemma_index_extend(services: Seq<crate::sdt_analyzer::SdtServiceEntry>, service_id: u16, n: int, m: int)
    requires
        0 <= n <= m <= services.len(),
        sdt_index_of(services.subrange(0, n), service_id) is Some,
    ensures
        sdt_index_of(services.subrange(0, m), service_id) == sdt_index_of(services.subrange(0, n), service_id),
    decreases m - n,
{
    if m > n {
        lemma_index_extend(services, service_id, n, m - 1);
        assert(services.subrange(0, m).drop_last() =~= services.subrange(0, m - 1));
    }
}

/// Completes `info` from the first service of `sdt` with id `service_id`:
/// its running status and scrambling flag, and the names, type and logo id
/// its descriptors give. `false`, and `info` unchanged, when the table has no
/// such service.
pub fn apply_sdt_service_info(info: &mut ServiceInfo, sdt: &SdtContent, service_id: u16) -> (r: bool)
    ensures
        r == sdt_index_of(sdt.services@, service_id) is Some,
        !r ==> *final(info) == *old(info),
        r ==> {
            let e = sdt.services@[sdt_index_of(sdt.services@, service_id)->0];
            let a = apply_descriptors(e.descriptors@);
            &&& same_pmt_part(*final(info), *old(info))
            &&& final(info).running_status == e.running_status
            &&& final(info).free_ca_mode == e.free_ca_mode
            &&& final(info).provider_name@ == a.0
            &&& final(info).service_name@ == a.1
            &&& final(info).service_type == a.2
            &&& final(info).logo_id == a.3
        },
{
    let ghost services = sdt.services@;
    let mut index: usize = 0;
    while index < sdt.services.len()
        invariant
            services == sdt.services@,
            index <= services.len(),
            sdt_index_of(services.subrange(0, index as int), service_id) is None,
        ensures
            index < services.len() ==> sdt_index_of(services.subrange(0, index + 1), service_id) == Some(index as int),
            index >= services.len() ==> index == services.len(),
        decreases services.len() - index,
    {
        proof {
            lemma_index_prefix(services, service_id, index as int);
        }
        if sdt.services[index].service_id == service_id {
            break;
        }
        index = index + 1;
    }
    if index >= sdt.services.len() {
        assert(services.subrange(0, services.len() as int) =~= services);
        return false;
    }
    proof {
        lemma_index_extend(services, service_id, index + 1, services.len() as int);
        assert(services.subrange(0, services.len() as int) =~= services);
    }
    let item = &sdt.services[index];
    let ghost ds = item.descriptors@;
    info.running_status = item.running_status;
    info.free_ca_mode = item.free_ca_mode;
    info.provider_name = String::new();
    info.service_name = String::new();
    info.service_type = SERVICE_TYPE_INVALID;
    info.logo_id = LOGO_ID_INVALID;
    let mut i: usize = 0;
    while i < item.descriptors.len()
        invariant
            ds == item.descriptors@,
            i <= ds.len(),
            same_pmt_part(*info, *old(info)),
            info.running_status == item.running_status,
            info.free_ca_mode == item.free_ca_mode,
            apply_descriptors(ds.subrange(0, i as int))
                == (info.provider_name@, info.service_name@, info.service_type, info.logo_id),
        decreases ds.len() - i,
    {
        proof {
            assert(ds.subrange(0, i + 1).drop_last() =~= ds.subrange(0, i as int));
        }
        match &item.descriptors[i] {
            SdtDescriptor::Service { service_type, provider_name, service_name } => {
                match provider_name {
                    Some(p) => {
                        info.provider_name = p.clone();
                    },
                    None => {},
                }
                match service_name {
                    Some(n) => {
                        info.service_name = n.clone();
                    },
                    None => {},
                }
                info.service_type = *service_type;
            },
            SdtDescriptor::LogoTransmission { logo_id } => {
                info.logo_id = *logo_id;
            },
            SdtDescriptor::Other => {},
        }
        i = i + 1;
    }
    assert(ds.subrange(0, ds.len() as int) =~= ds);
    true
}

} // verus!
