use libisdb::datetime::DateTime;
use libisdb::logo_downloader::{
    is_logo_module_name, logo_data_from_module, parse_cdt_logo, parse_logo_module, select_common_data_streams,
    update_download_versions, LogoData, LogoInfo, LogoService,
};
use libisdb::ts_info::{STREAM_TYPE_DATA_CARROUSEL, STREAM_TYPE_H264};
use std::collections::HashMap;

/// A logo module of the data carousel: one logo, id 5, one service
/// (network, stream, service), data [DE AD BE EF].
fn logo_module_bytes() -> Vec<u8> {
    let mut v = Vec::new();
    v.push(0x01); // logo_type
    v.extend_from_slice(&1u16.to_be_bytes()); // number_of_loop = 1
    v.push(0x00); // logo_id hi (bit0)
    v.push(0x05); // logo_id lo -> 5
    v.push(0x01); // number_of_services = 1
    v.extend_from_slice(&0x7FE0u16.to_be_bytes()); // network_id
    v.extend_from_slice(&0x0001u16.to_be_bytes()); // transport_stream_id
    v.extend_from_slice(&0x0400u16.to_be_bytes()); // service_id
    v.extend_from_slice(&4u16.to_be_bytes()); // data_size = 4
    v.extend_from_slice(&[0xDE, 0xAD, 0xBE, 0xEF]); // data
    v
}

#[test]
fn test_parse_logo_module_single() {
    let mut out = Vec::new();
    parse_logo_module(&logo_module_bytes(), &mut out);
    assert_eq!(out.len(), 1);
    assert_eq!(out[0].logo_type, 1);
    assert_eq!(out[0].logo_id, 5);
    assert_eq!(out[0].service_list.len(), 1);
    assert_eq!(out[0].service_list[0].network_id, 0x7FE0);
    assert_eq!(out[0].service_list[0].transport_stream_id, 0x0001);
    assert_eq!(out[0].service_list[0].service_id, 0x0400);
    assert_eq!(out[0].data, vec![0xDE, 0xAD, 0xBE, 0xEF]);
}

#[test]
fn test_parse_logo_module_too_short() {
    let mut out = Vec::new();
    parse_logo_module(&[0x01, 0x00], &mut out);
    assert!(out.is_empty());
}

#[test]
fn test_parse_logo_module_invalid_type() {
    // a logo type above 0x05 is invalid
    let mut data = logo_module_bytes();
    data[0] = 0x06;
    let mut out = Vec::new();
    parse_logo_module(&data, &mut out);
    assert!(out.is_empty());
}

#[test]
fn test_parse_logo_module_no_services_skipped() {
    // a record with number_of_services = 0 yields no logo
    let mut v = Vec::new();
    v.push(0x01); // logo_type
    v.extend_from_slice(&1u16.to_be_bytes()); // number_of_loop=1
    v.push(0x00);
    v.push(0x05); // logo_id
    v.push(0x00); // number_of_services=0
    v.extend_from_slice(&0u16.to_be_bytes()); // data_size=0
    // padding at the end so that the bounds checks pass
    v.extend_from_slice(&[0u8; 4]);
    let mut out = Vec::new();
    parse_logo_module(&v, &mut out);
    assert!(out.is_empty());
}

#[test]
fn test_parse_logo_module_two_records_and_id_bits() {
    let mut v = Vec::new();
    v.push(0x02); // logo_type
    v.extend_from_slice(&2u16.to_be_bytes()); // two records
    v.push(0xFF); // only bit 0 of the high byte counts
    v.push(0x10); // logo_id = 0x110
    v.push(0x01);
    v.extend_from_slice(&[0, 1, 0, 2, 0, 3]);
    v.extend_from_slice(&1u16.to_be_bytes());
    v.push(0xAA);
    v.push(0x00);
    v.push(0x07); // logo_id = 7
    v.push(0x02);
    v.extend_from_slice(&[0, 4, 0, 5, 0, 6, 0, 7, 0, 8, 0, 9]);
    v.extend_from_slice(&2u16.to_be_bytes());
    v.extend_from_slice(&[0xBB, 0xCC]);
    let mut out = Vec::new();
    parse_logo_module(&v, &mut out);
    assert_eq!(out.len(), 2);
    assert_eq!(out[0].logo_type, 2);
    assert_eq!(out[0].logo_id, 0x110);
    assert_eq!(out[0].service_list, vec![LogoService { network_id: 1, transport_stream_id: 2, service_id: 3 }]);
    assert_eq!(out[0].data, vec![0xAA]);
    assert_eq!(out[1].logo_id, 7);
    assert_eq!(out[1].service_list.len(), 2);
    assert_eq!(out[1].service_list[1], LogoService { network_id: 7, transport_stream_id: 8, service_id: 9 });
    assert_eq!(out[1].data, vec![0xBB, 0xCC]);
}

#[test]
fn test_parse_logo_module_stops_at_truncated_record() {
    // the record claims more data than the module holds
    let mut v = logo_module_bytes();
    v.truncate(v.len() - 1);
    let mut out = Vec::new();
    parse_logo_module(&v, &mut out);
    assert!(out.is_empty());
}

#[test]
fn test_parse_logo_module_appends() {
    let mut out = Vec::new();
    parse_logo_module(&logo_module_bytes(), &mut out);
    parse_logo_module(&logo_module_bytes(), &mut out);
    assert_eq!(out.len(), 2);
    assert_eq!(out[1].logo_id, 5);
}

fn cdt_module() -> Vec<u8> {
    let mut module = Vec::new();
    module.push(0x01); // logo_type
    module.extend_from_slice(&0x0005u16.to_be_bytes()); // logo_id = 5
    module.extend_from_slice(&0x0003u16.to_be_bytes()); // logo_version = 3
    module.extend_from_slice(&4u16.to_be_bytes()); // data_size = 4
    module.extend_from_slice(&[0xDE, 0xAD, 0xBE, 0xEF]);
    module
}

#[test]
fn test_parse_cdt_logo() {
    let time = DateTime::new();
    let logo = parse_cdt_logo(&cdt_module(), 0x7FE0, time).unwrap();
    assert_eq!(logo.network_id, 0x7FE0);
    assert_eq!(logo.logo_id, 5);
    assert_eq!(logo.logo_version, 3);
    assert_eq!(logo.logo_type, 1);
    assert_eq!(logo.data, vec![0xDE, 0xAD, 0xBE, 0xEF]);
    assert!(logo.service_list.is_empty());
    assert_eq!(logo.time, time);
}

#[test]
fn test_parse_cdt_logo_masks_id_and_version() {
    let mut m = cdt_module();
    m[1] = 0xFE; // logo_id 0xFE05 -> 0x005
    m[3] = 0xF0; // logo_version 0xF003 -> 0x003
    let logo = parse_cdt_logo(&m, 1, DateTime::new()).unwrap();
    assert_eq!(logo.logo_id, 0x005);
    assert_eq!(logo.logo_version, 0x003);
}

#[test]
fn test_parse_cdt_logo_rejects() {
    let m = cdt_module();
    assert!(parse_cdt_logo(&m[..7], 1, DateTime::new()).is_none());
    let mut bad_type = m.clone();
    bad_type[0] = 6;
    assert!(parse_cdt_logo(&bad_type, 1, DateTime::new()).is_none());
    let mut too_long = m.clone();
    too_long[6] = 5;
    assert!(parse_cdt_logo(&too_long, 1, DateTime::new()).is_none());
}

#[test]
fn test_logo_data_default() {
    let d = LogoData::default();
    assert_eq!(d.network_id, 0);
    assert!(d.service_list.is_empty());
    assert!(d.data.is_empty());
    assert_eq!(d.time, DateTime::new());
}

#[test]
fn test_update_download_versions() {
    let mut map: HashMap<u32, u16> = HashMap::new();
    // a new id, the same id again with the same version, another id
    let changed = update_download_versions(&mut map, &[(0xAABBCCDD, 1), (0xAABBCCDD, 1), (7, 2)]);
    assert_eq!(changed, vec![0xAABBCCDD, 7]);
    assert_eq!(map.get(&0xAABBCCDD), Some(&1));
    // the same versions: nothing changes
    let changed = update_download_versions(&mut map, &[(0xAABBCCDD, 1), (7, 2)]);
    assert!(changed.is_empty());
    // a new version, changed twice in one table: listed once
    let changed = update_download_versions(&mut map, &[(7, 3), (7, 4)]);
    assert_eq!(changed, vec![7]);
    assert_eq!(map.get(&7), Some(&4));
}

#[test]
fn test_logo_data_from_module() {
    let mut out = Vec::new();
    parse_logo_module(&logo_module_bytes(), &mut out);
    let info = out.pop().unwrap();
    let logo = logo_data_from_module(info, 9, DateTime::new()).unwrap();
    assert_eq!(logo.network_id, 0x7FE0);
    assert_eq!(logo.logo_version, 9);
    assert_eq!(logo.logo_id, 5);
    assert_eq!(logo.data, vec![0xDE, 0xAD, 0xBE, 0xEF]);
    let empty = LogoInfo { logo_type: 1, logo_id: 2, service_list: Vec::new(), data: vec![1] };
    assert!(logo_data_from_module(empty, 1, DateTime::new()).is_none());
}

#[test]
fn test_is_logo_module_name() {
    assert!(is_logo_module_name(b"LOGO-00"));
    assert!(is_logo_module_name(b"LOGO-05"));
    assert!(is_logo_module_name(b"CS_LOGO-00"));
    assert!(!is_logo_module_name(b"LOGO-0"));
    assert!(!is_logo_module_name(b"LOGO-100"));
    assert!(!is_logo_module_name(b"LOGO-10"));
    assert!(!is_logo_module_name(b"CS_LOGO-0"));
    assert!(!is_logo_module_name(b"XS_LOGO-00"));
}

#[test]
fn test_select_common_data_streams() {
    let es = [
        (STREAM_TYPE_DATA_CARROUSEL, 0x0140, Some(0x79)),
        (STREAM_TYPE_DATA_CARROUSEL, 0x0141, Some(0x40)),
        (STREAM_TYPE_H264, 0x0100, Some(0x79)),
        (STREAM_TYPE_DATA_CARROUSEL, 0x0142, None),
        (STREAM_TYPE_DATA_CARROUSEL, 0x0143, Some(0x7A)),
    ];
    assert_eq!(select_common_data_streams(&es), vec![0x0140, 0x0143]);
}

#[test]
fn test_same_announcements_report_nothing_twice() {
    // the same SDTT read twice: the second reading reports no download id
    let mut versions: HashMap<u32, u16> = HashMap::new();
    let updates = [(0x0001_0002u32, 5u16), (0x0003_0004, 1), (0x0001_0002, 5)];
    let first = update_download_versions(&mut versions, &updates);
    assert_eq!(first, vec![0x0001_0002, 0x0003_0004]);
    let after_first = versions.clone();
    let second = update_download_versions(&mut versions, &updates);
    assert!(second.is_empty());
    assert_eq!(versions, after_first);
}
