use libisdb::arib_decoder::KanjiMap;
use libisdb::bit_analyzer::{
    build_bit_broadcaster_info, build_bit_broadcaster_list, build_bit_network_info, BITNetworkInfo, BITServiceInfo,
    BitBroadcasterEntry, BitDescriptor, BitNetworkDescriptor, BitTableContent, BroadcasterIdEntry, SIParameterInfo,
    SIParameterTableEntry, TerrestrialBroadcasterInfo, BROADCASTER_TYPE_INVALID,
};
use libisdb::datetime::{parse_mjd_time, DateTime};

/// A kanji map with no characters: the names here use alphanumerics only,
/// save one that uses the full-width 'Ａ' of row 3 (U+FF21).
fn kanji_map() -> KanjiMap {
    let mut plane1 = vec![0u32; 94 * 94];
    plane1[2 * 94 + 0x20] = 0xFF21;
    KanjiMap::new(plane1, vec![0u32; 15 * 94], vec![0u32; 17 * 94]).unwrap()
}

fn terrestrial() -> TerrestrialBroadcasterInfo {
    TerrestrialBroadcasterInfo {
        terrestrial_broadcaster_id: 0x1234,
        affiliation_id_list: vec![0x0A],
        broadcaster_id_list: vec![BroadcasterIdEntry { original_network_id: 0x7E87, broadcaster_id: 0x05 }],
    }
}

fn update_time() -> DateTime {
    let (year, month, day, day_of_week) = parse_mjd_time(0xC8AB);
    DateTime { year, month, day, day_of_week, ..DateTime::default() }
}

#[test]
fn test_build_bit_network_info_basic() {
    // one broadcaster: name (G0 = alphanumerics, then 'A'), a service list and
    // terrestrial extended information; an SI parameter descriptor for the NIT
    let bit = BitTableContent {
        original_network_id: 0x0004,
        descriptors: vec![BitNetworkDescriptor::SIParameter(SIParameterInfo {
            parameter_version: 0x05,
            update_time: update_time(),
            table_list: vec![SIParameterTableEntry { table_id: 0x40, table_description: vec![0x12] }],
        })],
        broadcasters: vec![BitBroadcasterEntry {
            broadcaster_id: 0x01,
            descriptors: vec![
                BitDescriptor::BroadcasterName { name: vec![0x1B, 0x28, 0x4A, 0x41] },
                BitDescriptor::ServiceList { services: vec![BITServiceInfo { service_id: 0x0064, service_type: 0x01 }] },
                BitDescriptor::ExtendedBroadcaster { broadcaster_type: 1, terrestrial: Some(terrestrial()) },
            ],
        }],
    };
    let info = build_bit_network_info(&bit, &kanji_map());

    assert_eq!(info.original_network_id, 0x0004);

    assert_eq!(info.si_parameter_list.len(), 1);
    assert_eq!(info.si_parameter_list[0].parameter_version, 0x05);
    assert_eq!(info.si_parameter_list[0].table_list.len(), 1);

    assert_eq!(info.broadcaster_list.len(), 1);
    let bc = &info.broadcaster_list[0];
    assert_eq!(bc.broadcaster_id, 0x01);
    assert_eq!(bc.broadcaster_name, "Ａ");
    assert_eq!(bc.service_list.len(), 1);
    assert_eq!(bc.service_list[0].service_id, 0x0064);
    assert_eq!(bc.service_list[0].service_type, 0x01);
    assert_eq!(bc.broadcaster_type, 1);
    let t = bc.terrestrial.as_ref().expect("terrestrial");
    assert_eq!(t.terrestrial_broadcaster_id, 0x1234);
    assert_eq!(t.affiliation_id_list, vec![0x0A]);
    assert_eq!(t.broadcaster_id_list.len(), 1);
    assert_eq!(t.broadcaster_id_list[0].original_network_id, 0x7E87);
    assert_eq!(t.broadcaster_id_list[0].broadcaster_id, 0x05);
}

#[test]
fn test_build_bit_network_info_no_extended() {
    // no extended broadcaster descriptor: type 0xFF and no terrestrial information
    let bit = BitTableContent {
        original_network_id: 0x0007,
        descriptors: vec![],
        broadcasters: vec![BitBroadcasterEntry {
            broadcaster_id: 0x02,
            descriptors: vec![BitDescriptor::ServiceList {
                services: vec![BITServiceInfo { service_id: 0x0064, service_type: 0x01 }],
            }],
        }],
    };
    let info = build_bit_network_info(&bit, &kanji_map());

    assert!(info.si_parameter_list.is_empty());
    assert_eq!(info.broadcaster_list.len(), 1);
    let bc = &info.broadcaster_list[0];
    assert_eq!(bc.broadcaster_id, 0x02);
    assert_eq!(bc.broadcaster_type, BROADCASTER_TYPE_INVALID);
    assert!(bc.terrestrial.is_none());
    assert!(bc.broadcaster_name.is_empty());
    assert_eq!(bc.service_list.len(), 1);
}

#[test]
fn test_build_bit_network_info_multiple_broadcasters() {
    let bit = BitTableContent {
        original_network_id: 0x0010,
        descriptors: vec![],
        broadcasters: vec![
            BitBroadcasterEntry {
                broadcaster_id: 0x01,
                descriptors: vec![BitDescriptor::BroadcasterName { name: vec![0x1B, 0x28, 0x4A, 0x41] }],
            },
            BitBroadcasterEntry {
                broadcaster_id: 0x02,
                descriptors: vec![BitDescriptor::BroadcasterName { name: vec![0x1B, 0x28, 0x4A, 0x42] }],
            },
        ],
    };
    let info = build_bit_network_info(&bit, &kanji_map());

    assert_eq!(info.broadcaster_list.len(), 2);
    assert_eq!(info.broadcaster_list[0].broadcaster_id, 0x01);
    assert_eq!(info.broadcaster_list[0].broadcaster_name, "Ａ");
    assert_eq!(info.broadcaster_list[1].broadcaster_id, 0x02);
    assert_eq!(info.broadcaster_list[1].broadcaster_name, "Ｂ");
}

#[test]
fn test_si_parameters_in_order_and_other_descriptors_skipped() {
    let first = SIParameterInfo {
        parameter_version: 0x01,
        update_time: update_time(),
        table_list: vec![
            SIParameterTableEntry { table_id: 0x40, table_description: vec![0x12] },
            SIParameterTableEntry { table_id: 0xC4, table_description: vec![0x01, 0x02] },
        ],
    };
    let second = SIParameterInfo { parameter_version: 0x02, update_time: update_time(), table_list: vec![] };
    let bit = BitTableContent {
        original_network_id: 0x0001,
        descriptors: vec![
            BitNetworkDescriptor::Other,
            BitNetworkDescriptor::SIParameter(first.clone()),
            BitNetworkDescriptor::Other,
            BitNetworkDescriptor::SIParameter(second.clone()),
        ],
        broadcasters: vec![],
    };
    let info = build_bit_network_info(&bit, &kanji_map());
    assert_eq!(info.si_parameter_list, vec![first, second]);
    assert!(info.broadcaster_list.is_empty());
    let empty = BITNetworkInfo::default();
    assert_eq!(empty.original_network_id, 0);
    assert!(empty.si_parameter_list.is_empty() && empty.broadcaster_list.is_empty());
}

#[test]
fn test_broadcaster_with_all_descriptors() {
    // name "Ａ" from the kanji map, one service (0x0064, type 0x01), terrestrial information
    let entry = BitBroadcasterEntry {
        broadcaster_id: 0x01,
        descriptors: vec![
            BitDescriptor::BroadcasterName { name: vec![0x23, 0x41] },
            BitDescriptor::ServiceList { services: vec![BITServiceInfo { service_id: 0x0064, service_type: 0x01 }] },
            BitDescriptor::ExtendedBroadcaster { broadcaster_type: 1, terrestrial: Some(terrestrial()) },
        ],
    };
    let bc = build_bit_broadcaster_info(&entry, &kanji_map());
    assert_eq!(bc.broadcaster_id, 0x01);
    assert_eq!(bc.broadcaster_name, "Ａ");
    assert_eq!(bc.service_list, vec![BITServiceInfo { service_id: 0x0064, service_type: 0x01 }]);
    assert_eq!(bc.broadcaster_type, 1);
    assert_eq!(bc.terrestrial, Some(terrestrial()));
}

#[test]
fn test_broadcaster_name_undecodable_or_empty() {
    // an empty name, and a name cut in the middle of a two-byte kanji, are empty
    let entry = BitBroadcasterEntry {
        broadcaster_id: 0x03,
        descriptors: vec![BitDescriptor::BroadcasterName { name: vec![] }],
    };
    assert!(build_bit_broadcaster_info(&entry, &kanji_map()).broadcaster_name.is_empty());
    let entry = BitBroadcasterEntry {
        broadcaster_id: 0x03,
        descriptors: vec![BitDescriptor::BroadcasterName { name: vec![0x23] }],
    };
    assert!(build_bit_broadcaster_info(&entry, &kanji_map()).broadcaster_name.is_empty());
}

#[test]
fn test_multiple_broadcasters_and_first_descriptor_wins() {
    let list = build_bit_broadcaster_list(
        &vec![
            BitBroadcasterEntry {
                broadcaster_id: 0x01,
                descriptors: vec![
                    BitDescriptor::Other,
                    BitDescriptor::BroadcasterName { name: vec![0x1B, 0x28, 0x4A, 0x41] },
                    BitDescriptor::BroadcasterName { name: vec![0x1B, 0x28, 0x4A, 0x58] },
                ],
            },
            BitBroadcasterEntry {
                broadcaster_id: 0x02,
                descriptors: vec![
                    BitDescriptor::BroadcasterName { name: vec![0x1B, 0x28, 0x4A, 0x42] },
                    BitDescriptor::ExtendedBroadcaster { broadcaster_type: 3, terrestrial: None },
                    BitDescriptor::ExtendedBroadcaster { broadcaster_type: 1, terrestrial: Some(terrestrial()) },
                ],
            },
        ],
        &kanji_map(),
    );
    assert_eq!(list.len(), 2);
    assert_eq!(list[0].broadcaster_id, 0x01);
    assert_eq!(list[0].broadcaster_name, "Ａ");
    assert_eq!(list[1].broadcaster_id, 0x02);
    assert_eq!(list[1].broadcaster_name, "Ｂ");
    assert_eq!(list[1].broadcaster_type, 3);
    assert!(list[1].terrestrial.is_none());
}
