use libisdb::pmt_analyzer::{
    apply_sdt_service_info, build_service_info, build_service_list_from_pat, LOGO_ID_INVALID, SERVICE_TYPE_INVALID, is_audio_stream_type, is_video_stream_type, EcmInfo, EsInfo, PmtContent, PmtEsEntry,
    ServiceInfo, COMPONENT_TAG_INVALID,
};
use libisdb::sdt_analyzer::{SdtContent, SdtDescriptor, SdtServiceEntry};
use libisdb::ts_info::{
    PID_INVALID, STREAM_TYPE_AAC, STREAM_TYPE_AC3, STREAM_TYPE_CAPTION, STREAM_TYPE_DATA_CARROUSEL,
    STREAM_TYPE_H264, STREAM_TYPE_INVALID, STREAM_TYPE_MPEG2_VIDEO,
};

fn entry(stream_type: u8, es_pid: u16, component_tag: Option<u8>) -> PmtEsEntry {
    PmtEsEntry { es_pid, stream_type, component_tag, hierarchy: None }
}

fn pmt(pcr_pid: u16, es_list: Vec<PmtEsEntry>) -> PmtContent {
    PmtContent { pcr_pid, es_list, ca_list: Vec::new() }
}

#[test]
fn test_is_video_audio_stream_type() {
    assert!(is_video_stream_type(STREAM_TYPE_H264));
    assert!(is_video_stream_type(STREAM_TYPE_MPEG2_VIDEO));
    assert!(!is_video_stream_type(STREAM_TYPE_AAC));
    assert!(is_audio_stream_type(STREAM_TYPE_AAC));
    assert!(is_audio_stream_type(STREAM_TYPE_AC3));
    assert!(!is_audio_stream_type(STREAM_TYPE_H264));
}

#[test]
fn test_build_service_info_categorizes_es() {
    // video + audio + caption + data carousel + an unknown type
    let es = vec![
        entry(STREAM_TYPE_H264, 0x0100, Some(0x00)),
        entry(STREAM_TYPE_AAC, 0x0110, Some(0x10)),
        entry(STREAM_TYPE_CAPTION, 0x0130, Some(0x30)),
        entry(STREAM_TYPE_DATA_CARROUSEL, 0x0140, Some(0x40)),
        entry(0x05, 0x0150, None),
    ];
    let info = build_service_info(&pmt(0x0100, es), 0x0400, 0x1FC8);
    assert!(info.is_pmt_acquired);
    assert_eq!(info.service_id, 0x0400);
    assert_eq!(info.pmt_pid, 0x1FC8);
    assert_eq!(info.pcr_pid, 0x0100);
    assert_eq!(info.es_list.len(), 5);
    assert_eq!(info.video_es_list.len(), 1);
    assert_eq!(info.audio_es_list.len(), 1);
    assert_eq!(info.caption_es_list.len(), 1);
    assert_eq!(info.data_carrousel_es_list.len(), 1);
    assert_eq!(info.other_es_list.len(), 1);
    assert_eq!(info.video_es_list[0].pid, 0x0100);
    assert_eq!(info.video_es_list[0].component_tag, 0x00);
    assert_eq!(info.audio_es_list[0].stream_type, STREAM_TYPE_AAC);
    assert_eq!(info.other_es_list[0].component_tag, COMPONENT_TAG_INVALID);
}

#[test]
fn test_build_service_info_sorts_by_component_tag() {
    // audio streams with tags in reverse order come out ascending
    let es = vec![
        entry(STREAM_TYPE_AAC, 0x0112, Some(0x12)),
        entry(STREAM_TYPE_AAC, 0x0110, Some(0x10)),
        entry(STREAM_TYPE_AAC, 0x0111, Some(0x11)),
    ];
    let info = build_service_info(&pmt(0x0100, es), 0x0400, 0x1FC8);
    assert_eq!(info.audio_es_list.len(), 3);
    assert_eq!(info.audio_es_list[0].component_tag, 0x10);
    assert_eq!(info.audio_es_list[1].component_tag, 0x11);
    assert_eq!(info.audio_es_list[2].component_tag, 0x12);
    // es_list keeps the order of the table
    assert_eq!(info.es_list[0].component_tag, 0x12);
}

#[test]
fn test_build_service_info_sort_is_stable() {
    let es = vec![
        entry(STREAM_TYPE_H264, 0x0101, Some(0x02)),
        entry(STREAM_TYPE_H264, 0x0102, Some(0x01)),
        entry(STREAM_TYPE_H264, 0x0103, Some(0x02)),
        entry(STREAM_TYPE_H264, 0x0104, Some(0x01)),
    ];
    let info = build_service_info(&pmt(0x0100, es), 1, 2);
    let pids: Vec<u16> = info.video_es_list.iter().map(|e| e.pid).collect();
    assert_eq!(pids, vec![0x0102, 0x0104, 0x0101, 0x0103]);
}

#[test]
fn test_build_service_info_no_component_tag() {
    // a stream without a component tag gets COMPONENT_TAG_INVALID
    let info = build_service_info(&pmt(0x0100, vec![entry(STREAM_TYPE_H264, 0x0100, None)]), 0x0400, 0x1FC8);
    assert_eq!(info.video_es_list[0].component_tag, COMPONENT_TAG_INVALID);
}

#[test]
fn test_build_service_info_hierarchical_transmission() {
    // component tag 0x05; hierarchical transmission: quality 1, reference PID 0x0123
    let es = vec![PmtEsEntry {
        es_pid: 0x0100,
        stream_type: STREAM_TYPE_H264,
        component_tag: Some(0x05),
        hierarchy: Some((1, 0x0123)),
    }];
    let info = build_service_info(&pmt(0x0100, es), 0x0400, 0x1FC8);
    assert_eq!(info.es_list.len(), 1);
    let es = &info.es_list[0];
    assert_eq!(es.component_tag, 0x05);
    assert_eq!(es.quality_level, 1);
    assert_eq!(es.hierarchical_reference_pid, 0x0123);
}

#[test]
fn test_build_service_info_no_hierarchical_defaults() {
    let info = build_service_info(&pmt(0x0100, vec![entry(STREAM_TYPE_H264, 0x0100, None)]), 0x0400, 0x1FC8);
    assert_eq!(info.es_list[0].quality_level, 0xFF);
    assert_eq!(info.es_list[0].hierarchical_reference_pid, PID_INVALID);
}

#[test]
fn test_build_service_info_untagged_sorts_last() {
    let es = vec![
        entry(STREAM_TYPE_H264, 0x0100, None),
        entry(STREAM_TYPE_H264, 0x0101, Some(0x05)),
    ];
    let info = build_service_info(&pmt(0x0100, es), 0x0400, 0x1FC8);
    // the stream without a tag (0xFF) sorts after the tagged one
    assert_eq!(info.video_es_list[0].pid, 0x0101);
    assert_eq!(info.video_es_list[1].pid, 0x0100);
}

#[test]
fn test_build_service_info_ecm() {
    let content = PmtContent {
        pcr_pid: 0x1FFF,
        es_list: vec![entry(STREAM_TYPE_H264, 0x0100, Some(0x00))],
        ca_list: vec![EcmInfo { ca_system_id: 0x0005, pid: 0x0901 }],
    };
    let info = build_service_info(&content, 0x0400, 0x1FC8);
    assert_eq!(info.ecm_list.len(), 1);
    assert_eq!(info.ecm_list[0].ca_system_id, 0x0005);
    assert_eq!(info.ecm_list[0].pid, 0x0901);
    // 0x1FFF is not a PCR PID
    assert_eq!(info.pcr_pid, PID_INVALID);
}

#[test]
fn test_build_service_info_empty_pmt() {
    let info = build_service_info(&pmt(0x0100, Vec::new()), 0x0400, 0x1FC8);
    assert!(info.is_pmt_acquired);
    assert!(info.es_list.is_empty());
    assert_eq!(info.pcr_pid, 0x0100);
    assert!(info.ecm_list.is_empty());
    assert_eq!(info.service_type, 0);
}

#[test]
fn test_es_info_and_service_info_defaults() {
    let es = EsInfo::default();
    assert_eq!(es.pid, PID_INVALID);
    assert_eq!(es.stream_type, STREAM_TYPE_INVALID);
    assert_eq!(es.component_tag, COMPONENT_TAG_INVALID);
    let s = ServiceInfo::default();
    assert!(!s.is_pmt_acquired);
    assert!(s.es_list.is_empty());
    assert_eq!(s.logo_id, 0);
}

fn sdt_one(service_id: u16, running_status: u8, free_ca_mode: bool, descriptors: Vec<SdtDescriptor>) -> SdtContent {
    SdtContent {
        transport_stream_id: 0x7FE0,
        original_network_id: 0x0004,
        services: vec![SdtServiceEntry { service_id, running_status, free_ca_mode, descriptors }],
    }
}

fn service_desc(service_type: u8, provider: Option<&str>, service: Option<&str>) -> SdtDescriptor {
    SdtDescriptor::Service {
        service_type,
        provider_name: provider.map(|s| s.to_string()),
        service_name: service.map(|s| s.to_string()),
    }
}

fn service_with_id(service_id: u16) -> ServiceInfo {
    let mut info = ServiceInfo::default();
    info.service_id = service_id;
    info
}

#[test]
fn test_apply_sdt_service_info() {
    // service type 0x01, provider "Ａ", service "Ｂ"
    let sdt = sdt_one(0x0400, 4, false, vec![service_desc(0x01, Some("Ａ"), Some("Ｂ"))]);
    let mut info = service_with_id(0x0400);
    assert!(apply_sdt_service_info(&mut info, &sdt, 0x0400));
    assert_eq!(info.running_status, 4);
    assert!(!info.free_ca_mode);
    assert_eq!(info.service_type, 0x01);
    assert!(!info.provider_name.is_empty());
    assert!(!info.service_name.is_empty());
    assert_eq!(info.provider_name, "Ａ");
    assert_eq!(info.service_name, "Ｂ");
}

#[test]
fn test_apply_sdt_service_info_logo_id() {
    // only a logo transmission descriptor, logo id 5
    let sdt = sdt_one(0x0400, 4, true, vec![SdtDescriptor::LogoTransmission { logo_id: 5 }]);
    let mut info = service_with_id(0x0400);
    assert!(apply_sdt_service_info(&mut info, &sdt, 0x0400));
    assert!(info.free_ca_mode);
    assert_eq!(info.logo_id, 5);
    // no service descriptor, so the type is invalid
    assert_eq!(info.service_type, SERVICE_TYPE_INVALID);
}

#[test]
fn test_apply_sdt_service_info_not_found() {
    let sdt = sdt_one(0x0400, 4, false, Vec::new());
    let mut info = service_with_id(0x9999);
    // no service with that id
    assert!(!apply_sdt_service_info(&mut info, &sdt, 0x9999));
    assert_eq!(info, service_with_id(0x9999));
}

#[test]
fn test_apply_sdt_service_info_later_descriptors_win() {
    let sdt = sdt_one(
        0x0400,
        1,
        false,
        vec![
            service_desc(0x01, Some("P1"), Some("S1")),
            SdtDescriptor::LogoTransmission { logo_id: 7 },
            service_desc(0x02, None, Some("S2")),
            SdtDescriptor::Other,
        ],
    );
    let mut info = service_with_id(0x0400);
    info.provider_name = "old".to_string();
    assert!(apply_sdt_service_info(&mut info, &sdt, 0x0400));
    assert_eq!(info.provider_name, "P1");
    assert_eq!(info.service_name, "S2");
    assert_eq!(info.service_type, 0x02);
    assert_eq!(info.logo_id, 7);
}

#[test]
fn test_build_service_list_from_pat() {
    // the table's programs without the network entry
    let list = build_service_list_from_pat(&[(0x0400, 0x1FC8), (0x0401, 0x1FC9)]);
    assert_eq!(list.len(), 2);
    assert_eq!(list[0].service_id, 0x0400);
    assert_eq!(list[0].pmt_pid, 0x1FC8);
    assert!(!list[0].is_pmt_acquired);
    assert_eq!(list[0].service_type, SERVICE_TYPE_INVALID);
    assert_eq!(list[0].logo_id, LOGO_ID_INVALID);
    assert_eq!(list[0].pcr_pid, PID_INVALID);
    assert_eq!(list[1].service_id, 0x0401);
    assert_eq!(list[1].pmt_pid, 0x1FC9);
}

#[test]
fn test_build_service_list_from_pat_empty() {
    let list = build_service_list_from_pat(&[]);
    assert!(list.is_empty());
}

#[test]
fn test_pmt_then_sdt_integration() {
    let es = vec![entry(STREAM_TYPE_H264, 0x0100, Some(0x00)), entry(STREAM_TYPE_AAC, 0x0110, Some(0x10))];
    let mut info = build_service_info(&pmt(0x0100, es), 0x0400, 0x1FC8);
    assert!(info.is_pmt_acquired);
    assert_eq!(info.video_es_list.len(), 1);
    let sdt = sdt_one(0x0400, 4, false, vec![service_desc(0x01, Some("Ａ"), None)]);
    assert!(apply_sdt_service_info(&mut info, &sdt, 0x0400));
    assert_eq!(info.service_type, 0x01);
    assert_eq!(info.video_es_list[0].pid, 0x0100);
    assert_eq!(info.running_status, 4);
}
