use libisdb::logo_service_map::{LogoPacketRoute, LogoServiceMap, SERVICE_TYPE_ENGINEERING};
use libisdb::ts_info::{PID_CDT, PID_NIT, PID_PAT, PID_SDTT, PID_TOT, STREAM_TYPE_DATA_CARROUSEL};

fn service_types(map: &LogoServiceMap) -> Vec<(u16, u16, u8, Vec<u16>)> {
    map.service_list()
        .iter()
        .map(|s| (s.service_id, s.pmt_pid, s.service_type, s.es_list.clone()))
        .collect()
}

#[test]
fn test_new_map_is_empty() {
    let map = LogoServiceMap::new();
    assert!(map.service_list().is_empty());
    assert!(map.watched_data_streams().is_empty());
    assert_eq!(map.route(0x0200), LogoPacketRoute::Other);
}

#[test]
fn test_route_fixed_pids() {
    let map = LogoServiceMap::new();
    assert_eq!(map.route(PID_PAT), LogoPacketRoute::Pat);
    assert_eq!(map.route(PID_CDT), LogoPacketRoute::Cdt);
    assert_eq!(map.route(PID_SDTT), LogoPacketRoute::Sdtt);
    assert_eq!(map.route(PID_TOT), LogoPacketRoute::Tot);
    assert_eq!(map.route(PID_NIT), LogoPacketRoute::Nit);
}

#[test]
fn test_pat_creates_services() {
    let mut map = LogoServiceMap::new();
    map.on_pat(&[(0x0400, 0x0100), (0x0401, 0x0101)]);
    assert_eq!(
        service_types(&map),
        vec![(0x0400, 0x0100, 0xFF, vec![]), (0x0401, 0x0101, 0xFF, vec![])]
    );
    assert_eq!(map.route(0x0100), LogoPacketRoute::Pmt);
    assert_eq!(map.route(0x0101), LogoPacketRoute::Pmt);
    assert_eq!(map.route(0x0102), LogoPacketRoute::Other);
    assert_eq!(map.service_index_by_id(0x0401), Some(1));
    assert_eq!(map.service_index_by_id(0x0402), None);
}

#[test]
fn test_pmt_then_nit_watches_data_stream() {
    // PAT: service 0x0400 on PMT PID 0x0100; PMT: data carousel 0x0200 with
    // component tag 0x79; NIT: the service is an engineering service.
    let mut map = LogoServiceMap::new();
    map.on_pat(&[(0x0400, 0x0100)]);
    map.on_pmt(0x0400, &[(STREAM_TYPE_DATA_CARROUSEL, 0x0200, Some(0x79)), (0x02, 0x0201, None)]);
    assert_eq!(service_types(&map), vec![(0x0400, 0x0100, 0xFF, vec![0x0200])]);
    assert_eq!(map.route(0x0200), LogoPacketRoute::Other);

    map.on_nit(&[(0x0400, SERVICE_TYPE_ENGINEERING)]);
    assert_eq!(service_types(&map), vec![(0x0400, 0x0100, SERVICE_TYPE_ENGINEERING, vec![0x0200])]);
    assert_eq!(map.route(0x0200), LogoPacketRoute::DataModule);
    assert_eq!(map.watched_data_streams(), vec![0x0200]);
}

#[test]
fn test_nit_then_pmt_watches_data_stream() {
    let mut map = LogoServiceMap::new();
    map.on_pat(&[(0x0400, 0x0100)]);
    map.on_nit(&[(0x0400, SERVICE_TYPE_ENGINEERING)]);
    assert!(map.watched_data_streams().is_empty());
    map.on_pmt(0x0400, &[(STREAM_TYPE_DATA_CARROUSEL, 0x0200, Some(0x7A))]);
    assert_eq!(map.route(0x0200), LogoPacketRoute::DataModule);
}

#[test]
fn test_pmt_replaces_watched_streams() {
    let mut map = LogoServiceMap::new();
    map.on_pat(&[(0x0400, 0x0100)]);
    map.on_nit(&[(0x0400, SERVICE_TYPE_ENGINEERING)]);
    map.on_pmt(0x0400, &[(STREAM_TYPE_DATA_CARROUSEL, 0x0200, Some(0x79))]);
    map.on_pmt(0x0400, &[(STREAM_TYPE_DATA_CARROUSEL, 0x0210, Some(0x79))]);
    assert_eq!(map.route(0x0200), LogoPacketRoute::Other);
    assert_eq!(map.route(0x0210), LogoPacketRoute::DataModule);
}

#[test]
fn test_pmt_ignores_other_tags_and_types() {
    let mut map = LogoServiceMap::new();
    map.on_pat(&[(0x0400, 0x0100)]);
    map.on_pmt(
        0x0400,
        &[
            (STREAM_TYPE_DATA_CARROUSEL, 0x0200, Some(0x40)),
            (STREAM_TYPE_DATA_CARROUSEL, 0x0201, None),
            (0x02, 0x0202, Some(0x79)),
        ],
    );
    assert_eq!(service_types(&map), vec![(0x0400, 0x0100, 0xFF, vec![])]);
}

#[test]
fn test_pmt_of_unknown_service_ignored() {
    let mut map = LogoServiceMap::new();
    map.on_pat(&[(0x0400, 0x0100)]);
    map.on_pmt(0x0999, &[(STREAM_TYPE_DATA_CARROUSEL, 0x0200, Some(0x79))]);
    assert_eq!(service_types(&map), vec![(0x0400, 0x0100, 0xFF, vec![])]);
}

#[test]
fn test_nit_leaving_engineering_unwatches() {
    let mut map = LogoServiceMap::new();
    map.on_pat(&[(0x0400, 0x0100)]);
    map.on_pmt(0x0400, &[(STREAM_TYPE_DATA_CARROUSEL, 0x0200, Some(0x79))]);
    map.on_nit(&[(0x0400, SERVICE_TYPE_ENGINEERING)]);
    assert_eq!(map.route(0x0200), LogoPacketRoute::DataModule);
    map.on_nit(&[(0x0400, 0x01)]);
    assert_eq!(map.route(0x0200), LogoPacketRoute::Other);
    assert_eq!(service_types(&map), vec![(0x0400, 0x0100, 0x01, vec![0x0200])]);
}

#[test]
fn test_nit_unknown_service_ignored() {
    let mut map = LogoServiceMap::new();
    map.on_pat(&[(0x0400, 0x0100)]);
    map.on_nit(&[(0x0500, SERVICE_TYPE_ENGINEERING), (0x0400, 0x01)]);
    assert_eq!(service_types(&map), vec![(0x0400, 0x0100, 0x01, vec![])]);
}

#[test]
fn test_new_pat_unwatches_and_replaces() {
    let mut map = LogoServiceMap::new();
    map.on_pat(&[(0x0400, 0x0100)]);
    map.on_pmt(0x0400, &[(STREAM_TYPE_DATA_CARROUSEL, 0x0200, Some(0x79))]);
    map.on_nit(&[(0x0400, SERVICE_TYPE_ENGINEERING)]);
    map.on_pat(&[(0x0500, 0x0110)]);
    assert_eq!(map.route(0x0200), LogoPacketRoute::Other);
    assert_eq!(map.route(0x0100), LogoPacketRoute::Other);
    assert_eq!(map.route(0x0110), LogoPacketRoute::Pmt);
    assert_eq!(service_types(&map), vec![(0x0500, 0x0110, 0xFF, vec![])]);
}

#[test]
fn test_watched_streams_in_service_order() {
    let mut map = LogoServiceMap::new();
    map.on_pat(&[(0x0400, 0x0100), (0x0401, 0x0101)]);
    map.on_pmt(0x0401, &[(STREAM_TYPE_DATA_CARROUSEL, 0x0300, Some(0x79))]);
    map.on_pmt(
        0x0400,
        &[(STREAM_TYPE_DATA_CARROUSEL, 0x0201, Some(0x7A)), (STREAM_TYPE_DATA_CARROUSEL, 0x0200, Some(0x79))],
    );
    map.on_nit(&[(0x0401, SERVICE_TYPE_ENGINEERING), (0x0400, SERVICE_TYPE_ENGINEERING)]);
    assert_eq!(map.watched_data_streams(), vec![0x0201, 0x0200, 0x0300]);
}

#[test]
fn test_reset_forgets_everything() {
    let mut map = LogoServiceMap::new();
    map.on_pat(&[(0x0400, 0x0100)]);
    map.on_pmt(0x0400, &[(STREAM_TYPE_DATA_CARROUSEL, 0x0200, Some(0x79))]);
    map.on_nit(&[(0x0400, SERVICE_TYPE_ENGINEERING)]);
    map.reset();
    assert!(map.service_list().is_empty());
    assert_eq!(map.route(0x0200), LogoPacketRoute::Other);
    assert_eq!(map.route(0x0100), LogoPacketRoute::Other);
}

#[test]
fn test_watch_consistency_through_steps() {
    // The watched streams stay exactly those of the engineering services.
    let mut map = LogoServiceMap::new();
    map.on_pat(&[(0x0400, 0x0100), (0x0401, 0x0101)]);
    map.on_pmt(0x0400, &[(STREAM_TYPE_DATA_CARROUSEL, 0x0200, Some(0x79))]);
    map.on_pmt(0x0401, &[(STREAM_TYPE_DATA_CARROUSEL, 0x0300, Some(0x79))]);
    map.on_nit(&[(0x0400, SERVICE_TYPE_ENGINEERING)]);
    assert_eq!(map.watched_data_streams(), vec![0x0200]);
    map.on_nit(&[(0x0401, SERVICE_TYPE_ENGINEERING), (0x0400, 0x01)]);
    assert_eq!(map.watched_data_streams(), vec![0x0300]);
    map.on_pmt(0x0401, &[(STREAM_TYPE_DATA_CARROUSEL, 0x0301, Some(0x7A))]);
    assert_eq!(map.watched_data_streams(), vec![0x0301]);
    map.on_pat(&[(0x0401, 0x0101)]);
    assert!(map.watched_data_streams().is_empty());
}
