use libisdb::sdt_analyzer::{
    build_sdt_service_list, build_sdt_stream_info, SdtContent, SdtDescriptor, SdtServiceEntry, LOGO_ID_INVALID,
    SERVICE_TYPE_INVALID,
};

fn service_desc(service_type: u8, provider: Option<&str>, service: Option<&str>) -> SdtDescriptor {
    SdtDescriptor::Service {
        service_type,
        provider_name: provider.map(|s| s.to_string()),
        service_name: service.map(|s| s.to_string()),
    }
}

fn entry(service_id: u16, running_status: u8, free_ca_mode: bool, descriptors: Vec<SdtDescriptor>) -> SdtServiceEntry {
    SdtServiceEntry { service_id, running_status, free_ca_mode, descriptors }
}

fn sdt(transport_stream_id: u16, original_network_id: u16, services: Vec<SdtServiceEntry>) -> SdtContent {
    SdtContent { transport_stream_id, original_network_id, services }
}

#[test]
fn test_build_sdt_service_list_basic() {
    // service type 0x01, provider "Ａ", service "Ｂ", logo id 5
    let table = sdt(
        0x0040,
        0x0004,
        vec![entry(
            0x0064,
            0x04,
            false,
            vec![service_desc(0x01, Some("Ａ"), Some("Ｂ")), SdtDescriptor::LogoTransmission { logo_id: 0x0005 }],
        )],
    );
    let list = build_sdt_service_list(&table);
    assert_eq!(list.len(), 1);
    let s = &list[0];
    assert_eq!(s.service_id, 0x0064);
    assert_eq!(s.running_status, 0x04);
    assert!(!s.free_ca_mode);
    assert_eq!(s.provider_name, "Ａ");
    assert_eq!(s.service_name, "Ｂ");
    assert_eq!(s.service_type, 0x01);
    assert_eq!(s.logo_id, 0x0005);
}

#[test]
fn test_build_sdt_service_list_no_descriptors() {
    // no descriptors: empty names, invalid type and logo id
    let table = sdt(0x0041, 0x0007, vec![entry(0x00C8, 0x02, true, Vec::new())]);
    let list = build_sdt_service_list(&table);
    assert_eq!(list.len(), 1);
    let s = &list[0];
    assert_eq!(s.service_id, 0x00C8);
    assert_eq!(s.running_status, 0x02);
    assert!(s.free_ca_mode);
    assert!(s.provider_name.is_empty());
    assert!(s.service_name.is_empty());
    assert_eq!(s.service_type, SERVICE_TYPE_INVALID);
    assert_eq!(s.logo_id, LOGO_ID_INVALID);
}

#[test]
fn test_build_sdt_service_list_multiple() {
    let table = sdt(
        0x0050,
        0x0010,
        vec![
            entry(0x0001, 0x04, false, vec![service_desc(0x01, Some("Ａ"), None)]),
            entry(0x0002, 0x04, false, vec![service_desc(0x02, Some("Ｂ"), None)]),
        ],
    );
    let list = build_sdt_service_list(&table);
    assert_eq!(list.len(), 2);
    assert_eq!(list[0].service_id, 0x0001);
    assert_eq!(list[0].provider_name, "Ａ");
    assert_eq!(list[0].service_type, 0x01);
    assert_eq!(list[1].service_id, 0x0002);
    assert_eq!(list[1].provider_name, "Ｂ");
    assert_eq!(list[1].service_type, 0x02);
}

#[test]
fn test_build_sdt_stream_info() {
    let table = sdt(0x1234, 0x5678, vec![entry(0x0064, 0x04, false, vec![service_desc(0x01, None, Some("Ａ"))])]);
    let info = build_sdt_stream_info(&table);
    assert_eq!(info.transport_stream_id, 0x1234);
    assert_eq!(info.original_network_id, 0x5678);
    assert_eq!(info.service_list.len(), 1);
    assert_eq!(info.service_list[0].service_id, 0x0064);
    assert_eq!(info.service_list[0].service_name, "Ａ");
}

#[test]
fn test_build_sdt_first_descriptors_win() {
    let table = sdt(
        1,
        2,
        vec![entry(
            3,
            0,
            false,
            vec![
                SdtDescriptor::Other,
                SdtDescriptor::LogoTransmission { logo_id: 9 },
                service_desc(0x01, Some("P1"), None),
                service_desc(0x02, Some("P2"), Some("S2")),
                SdtDescriptor::LogoTransmission { logo_id: 10 },
            ],
        )],
    );
    let list = build_sdt_service_list(&table);
    assert_eq!(list[0].provider_name, "P1");
    assert!(list[0].service_name.is_empty());
    assert_eq!(list[0].service_type, 0x01);
    assert_eq!(list[0].logo_id, 9);
}
