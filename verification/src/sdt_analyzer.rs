//! Services from the service description table: names, type and logo of
//! each service of a transport stream.
use vstd::prelude::*;

verus! {

/// The invalid service type.
pub const SERVICE_TYPE_INVALID: u8 = 0xFF;

/// The invalid logo id.
pub const LOGO_ID_INVALID: u16 = 0xFFFF;

/// What a service description says of one service.
#[derive(Clone, Debug, PartialEq, Eq)]
pub struct SDTServiceInfo {
    pub service_id: u16,
    pub running_status: u8,
    pub free_ca_mode: bool,
    pub provider_name: String,
    pub service_name: String,
    pub service_type: u8,
    pub logo_id: u16,
}

/// The services of one transport stream.
#[derive(Clone, Debug, PartialEq, Eq)]
pub struct SDTStreamInfo {
    pub transport_stream_id: u16,
    pub original_network_id: u16,
    pub service_list: Vec<SDTServiceInfo>,
}

impl Default for SDTStreamInfo {
    fn default() -> (r: SDTStreamInfo)
        ensures
            r.transport_stream_id == 0,
            r.original_network_id == 0,
            r.service_list@.len() == 0,
    {
        SDTStreamInfo { transport_stream_id: 0, original_network_id: 0, service_list: Vec::new() }
    }
}

/// A descriptor of a service, as far as the service builders read it. The
/// names of a service descriptor are decoded text; `None` stands for a name
/// that is empty or cannot be decoded.
#[derive(Clone, Debug, PartialEq, Eq)]
pub enum SdtDescriptor {
    /// A service descriptor.
    Service { service_type: u8, provider_name: Option<String>, service_name: Option<String> },
    /// A logo transmission descriptor.
    LogoTransmission { logo_id: u16 },
    /// Any other descriptor.
    Other,
}

/// One service of a service description table.
#[derive(Clone, Debug, PartialEq, Eq)]
pub struct SdtServiceEntry {
    pub service_id: u16,
    pub running_status: u8,
    pub free_ca_mode: bool,
    pub descriptors: Vec<SdtDescriptor>,
}

/// What the builders read of a service description table.
#[derive(Clone, Debug, PartialEq, Eq)]
pub struct SdtContent {
    pub transport_stream_id: u16,
    pub original_network_id: u16,
    pub services: Vec<SdtServiceEntry>,
}

/// The text of an optional name: empty when there is none.
pub open spec fn name_text(n: Option<String>) -> Seq<char> {
    match n {
        Some(s) => s@,
        None => Seq::empty(),
    }
}

/// The index of the first service descriptor among `ds`, if there is one.
pub open spec fn first_service_index(ds: Seq<SdtDescriptor>) -> Option<int>
    decreases ds.len(),
{
    if ds.len() == 0 {
        None
    } else if ds.last() is Service {
        match first_service_index(ds.drop_last()) {
            Some(i) => Some(i),
            None => Some(ds.len() - 1),
        }
    } else {
        first_service_index(ds.drop_last())
    }
}

/// The index of the first logo transmission descriptor among `ds`, if there
/// is one.
pub open spec fn first_logo_index(ds: Seq<SdtDescriptor>) -> Option<int>
    decreases ds.len(),
{
    if ds.len() == 0 {
        None
    } else if ds.last() is LogoTransmission {
        match first_logo_index(ds.drop_last()) {
            Some(i) => Some(i),
            None => Some(ds.len() - 1),
        }
    } else {
        first_logo_index(ds.drop_last())
    }
}

/// Whether `s` is what the table says of the service `e`: its id, running
/// status and scrambling flag; names and type from the first service
/// descriptor, the logo id from the first logo transmission descriptor, the
/// invalid values where there is no such descriptor.
pub open spec fn sdt_service_of(s: SDTServiceInfo, e: SdtServiceEntry) -> bool {
    let ds = e.descriptors@;
    &&& s.service_id == e.service_id
    &&& s.running_status == e.running_status
    &&& s.free_ca_mode == e.free_ca_mode
    &&& match first_service_index(ds) {
        Some(i) => match ds[i] {
            SdtDescriptor::Service { service_type, provider_name, service_name } => {
                &&& s.service_type == service_type
                &&& s.provider_name@ == name_text(provider_name)
                &&& s.service_name@ == name_text(service_name)
            },
            _ => false,
        },
        None => {
            &&& s.service_type == SERVICE_TYPE_INVALID
            &&& s.provider_name@ == Seq::<char>::empty()
            &&& s.service_name@ == Seq::<char>::empty()
        },
    }
    &&& s.logo_id == match first_logo_index(ds) {
        Some(i) => match ds[i] {
            SdtDescriptor::LogoTransmission { logo_id } => logo_id,
            _ => LOGO_ID_INVALID,
        },
        None => LOGO_ID_INVALID,
    }
}

proof fn lemma_first_service_prefix(ds: Seq<SdtDescriptor>, n: int)
    requires
        0 <= n < ds.len(),
        first_service_index(ds.subrange(0, n)) is None,
    ensures
        first_service_index(ds.subrange(0, n + 1)) == (if ds[n] is Service { Some(n) } else { None::<int> }),
{
    assert(ds.subrange(0, n + 1).drop_last() =~= ds.subrange(0, n));
}

proof fn lemma_first_service_extend(ds: Seq<SdtDescriptor>, n: int, m: int)
    requires
        0 <= n <= m <= ds.len(),
        first_service_index(ds.subrange(0, n)) is Some,
    ensures
        first_service_index(ds.subrange(0, m)) == first_service_index(ds.subrange(0, n)),
    decreases m - n,
{
    if m > n {
        lemma_first_service_extend(ds, n, m - 1);
        assert(ds.subrange(0, m).drop_last() =~= ds.subrange(0, m - 1));
    }
}

proof fn lemma_first_logo_prefix(ds: Seq<SdtDescriptor>, n: int)
    requires
        0 <= n < ds.len(),
        first_logo_index(ds.subrange(0, n)) is None,
    ensures
        first_logo_index(ds.subrange(0, n + 1)) == (if ds[n] is LogoTransmission { Some(n) } else { None::<int> }),
{
    assert(ds.subrange(0, n + 1).drop_last() =~= ds.subrange(0, n));
}

proof fn lemma_first_logo_extend(ds: Seq<SdtDescriptor>, n: int, m: int)
    requires
        0 <= n <= m <= ds.len(),
        first_logo_index(ds.subrange(0, n)) is Some,
    ensures
        first_logo_index(ds.subrange(0, m)) == first_logo_index(ds.subrange(0, n)),
    decreases m - n,
{
    if m > n {
        lemma_first_logo_extend(ds, n, m - 1);
        assert(ds.subrange(0, m).drop_last() =~= ds.subrange(0, m - 1));
    }
}

/// The text of an optional name.
fn name_string(n: &Option<String>) -> (r: String)
    ensures
        r@ == name_text(*n),
{
    match n {
        Some(s) => s.clone(),
        None => String::new(),
    }
}

/// What the table says of the service `e`.
pub fn build_sdt_service(e: &SdtServiceEntry) -> (r: SDTServiceInfo)
    ensures
        sdt_service_of(r, *e),
{
    let ghost ds = e.descriptors@;
    let mut provider_name = String::new();
    let mut service_name = String::new();
    let mut service_type = SERVICE_TYPE_INVALID;
    let mut i: usize = 0;
    while i < e.descriptors.len()
        invariant_except_break
            service_type == SERVICE_TYPE_INVALID,
            provider_name@ == Seq::<char>::empty(),
            service_name@ == Seq::<char>::empty(),
        invariant
            ds == e.descriptors@,
            i <= ds.len(),
            first_service_index(ds.subrange(0, i as int)) is None,
        ensures
            i < ds.len() ==> first_service_index(ds.subrange(0, i + 1)) == Some(i as int)
                && match ds[i as int] {
                    SdtDescriptor::Service { service_type: t, provider_name: p, service_name: s } => {
                        &&& service_type == t
                        &&& provider_name@ == name_text(p)
                        &&& service_name@ == name_text(s)
                    },
                    _ => false,
                },
            i >= ds.len() ==> i == ds.len() && service_type == SERVICE_TYPE_INVALID
                && provider_name@ == Seq::<char>::empty() && service_name@ == Seq::<char>::empty(),
        decreases ds.len() - i,
    {
        proof {
            lemma_first_service_prefix(ds, i as int);
        }
        match &e.descriptors[i] {
            SdtDescriptor::Service { service_type: t, provider_name: p, service_name: s } => {
                provider_name = name_string(p);
                service_name = name_string(s);
                service_type = *t;
                break;
            },
            _ => {},
        }
        i = i + 1;
    }
    proof {
        if i < ds.len() {
            lemma_first_service_extend(ds, i + 1, ds.len() as int);
        } else {
            assert(ds.subrange(0, ds.len() as int) =~= ds);
        }
        assert(ds.subrange(0, ds.len() as int) =~= ds);
    }
    let mut logo_id = LOGO_ID_INVALID;
    let mut j: usize = 0;
    while j < e.descriptors.len()
        invariant_except_break
            logo_id == LOGO_ID_INVALID,
        invariant
            ds == e.descriptors@,
            j <= ds.len(),
            first_logo_index(ds.subrange(0, j as int)) is None,
        ensures
            j < ds.len() ==> first_logo_index(ds.subrange(0, j + 1)) == Some(j as int)
                && match ds[j as int] {
                    SdtDescriptor::LogoTransmission { logo_id: l } => logo_id == l,
                    _ => false,
                },
            j >= ds.len() ==> j == ds.len() && logo_id == LOGO_ID_INVALID,
        decreases ds.len() - j,
    {
        proof {
            lemma_first_logo_prefix(ds, j as int);
        }
        match &e.descriptors[j] {
            SdtDescriptor::LogoTransmission { logo_id: l } => {
                logo_id = *l;
                break;
            },
            _ => {},
        }
        j = j + 1;
    }
    proof {
        if j < ds.len() {
            lemma_first_logo_extend(ds, j + 1, ds.len() as int);
        }
        assert(ds.subrange(0, ds.len() as int) =~= ds);
    }
    SDTServiceInfo {
        service_id: e.service_id,
        running_status: e.running_status,
        free_ca_mode: e.free_ca_mode,
        provider_name,
        service_name,
        service_type,
        logo_id,
    }
}

/// What the table says of each of its services, in order.
pub fn build_sdt_service_list(sdt: &SdtContent) -> (r: Vec<SDTServiceInfo>)
    ensures
        r@.len() == sdt.services@.len(),
        forall|i: int| 0 <= i < r@.len() ==> sdt_service_of(#[trigger] r@[i], sdt.services@[i]),
{
    let mut list: Vec<SDTServiceInfo> = Vec::new();
    let mut i: usize = 0;
    while i < sdt.services.len()
        invariant
            i <= sdt.services@.len(),
            list@.len() == i,
            forall|k: int| 0 <= k < i ==> sdt_service_of(#[trigger] list@[k], sdt.services@[k]),
        decreases sdt.services@.len() - i,
    {
        let s = build_sdt_service(&sdt.services[i]);
        list.push(s);
        i = i + 1;
    }
    list
}

/// The transport stream of the table with its services.
pub fn build_sdt_stream_info(sdt: &SdtContent) -> (r: SDTStreamInfo)
    ensures
        r.transport_stream_id == sdt.transport_stream_id,
        r.original_network_id == sdt.original_network_id,
        r.service_list@.len() == sdt.services@.len(),
        forall|i: int|
            0 <= i < r.service_list@.len() ==> sdt_service_of(#[trigger] r.service_list@[i], sdt.services@[i]),
{
    SDTStreamInfo {
        transport_stream_id: sdt.transport_stream_id,
        original_network_id: sdt.original_network_id,
        service_list: build_sdt_service_list(sdt),
    }
}

} // verus!
