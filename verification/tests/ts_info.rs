use libisdb::ts_info::{get_stream_type_text, get_area_text_ja, get_video_component_type_text_ja, get_audio_component_type_text_ja, get_component_type_text_ja, get_predefined_pid_text, get_language_text_ja, language_code_to_text, is_1seg_pmt_pid, LanguageTextType, STREAM_TYPE_MPEG2_VIDEO, STREAM_TYPE_H264, STREAM_TYPE_AAC, STREAM_TYPE_AC3, STREAM_TYPE_UNINITIALIZED, PID_PAT, PID_NIT, PID_NULL, PID_MAX, LANGUAGE_CODE_JPN, LANGUAGE_CODE_ENG, LANGUAGE_CODE_ZHO, STREAM_TYPE_CAPTION, STREAM_TYPE_PRIVATE_DATA, STREAM_TYPE_DATA_CARROUSEL, STREAM_TYPE_ISO_IEC_13818_6_TYPE_D};

#[test]
fn test_stream_type_known() {
    assert_eq!(get_stream_type_text(STREAM_TYPE_MPEG2_VIDEO), Some("MPEG-2 Video"));
    assert_eq!(get_stream_type_text(STREAM_TYPE_H264), Some("H.264"));
    assert_eq!(get_stream_type_text(STREAM_TYPE_AAC), Some("AAC"));
    assert_eq!(get_stream_type_text(STREAM_TYPE_AC3), Some("AC-3"));
}

#[test]
fn test_stream_type_unknown() {
    assert_eq!(get_stream_type_text(0x99), None);
    assert_eq!(get_stream_type_text(STREAM_TYPE_UNINITIALIZED), None);
}

#[test]
fn test_area_text_ja_known() {
    assert_eq!(get_area_text_ja(0x5A5), Some("関東広域圏"));
    assert_eq!(get_area_text_ja(0xAAC), Some("東京"));
    assert_eq!(get_area_text_ja(0x16B), Some("北海道"));
    assert_eq!(get_area_text_ja(0x372), Some("沖縄"));
}

#[test]
fn test_area_text_ja_unknown() {
    assert_eq!(get_area_text_ja(0x000), None);
}

#[test]
fn test_video_component_type() {
    assert_eq!(get_video_component_type_text_ja(0x01), Some("480i[4:3]"));
    assert_eq!(get_video_component_type_text_ja(0xB3), Some("1080i[16:9]"));
    assert_eq!(get_video_component_type_text_ja(0xC3), Some("720p[16:9]"));
    assert_eq!(get_video_component_type_text_ja(0xFF), None);
}

#[test]
fn test_audio_component_type() {
    assert_eq!(get_audio_component_type_text_ja(0x01), Some("Mono"));
    assert_eq!(get_audio_component_type_text_ja(0x03), Some("Stereo"));
    assert_eq!(get_audio_component_type_text_ja(0x09), Some("5.1ch"));
    assert_eq!(get_audio_component_type_text_ja(0xFF), None);
}

#[test]
fn test_component_type_dispatch() {
    // stream_content=1 → video
    assert_eq!(get_component_type_text_ja(0x01, 0x01), Some("480i[4:3]"));
    assert_eq!(get_component_type_text_ja(0x05, 0x01), Some("480i[4:3]"));
    // stream_content=2 → audio
    assert_eq!(get_component_type_text_ja(0x02, 0x03), Some("Stereo"));
    // unknown stream_content
    assert_eq!(get_component_type_text_ja(0x03, 0x01), None);
}

#[test]
fn test_predefined_pid_text() {
    assert_eq!(get_predefined_pid_text(PID_PAT), Some("PAT"));
    assert_eq!(get_predefined_pid_text(PID_NIT), Some("NIT"));
    assert_eq!(get_predefined_pid_text(PID_NULL), Some("Null"));
    assert_eq!(get_predefined_pid_text(0x0100), None);
}

#[test]
fn test_language_text_ja_known() {
    assert_eq!(
        get_language_text_ja(LANGUAGE_CODE_JPN, LanguageTextType::Long),
        Some("日本語".to_owned())
    );
    assert_eq!(
        get_language_text_ja(LANGUAGE_CODE_ENG, LanguageTextType::Short),
        Some("英".to_owned())
    );
    assert_eq!(
        get_language_text_ja(LANGUAGE_CODE_ZHO, LanguageTextType::Simple),
        Some("中国語".to_owned())
    );
}

#[test]
fn test_language_text_ja_fallback() {
    // 未知コードは ASCII 変換にフォールバック
    let code = 0x666672; // "ffr"
    let result = get_language_text_ja(code, LanguageTextType::Long);
    assert_eq!(result, Some("FFR".to_owned()));
}

#[test]
fn test_language_code_to_text_upper() {
    assert_eq!(language_code_to_text(LANGUAGE_CODE_JPN, true), Some("JPN".to_owned()));
    assert_eq!(language_code_to_text(LANGUAGE_CODE_ENG, true), Some("ENG".to_owned()));
}

#[test]
fn test_language_code_to_text_lower() {
    assert_eq!(language_code_to_text(LANGUAGE_CODE_JPN, false), Some("jpn".to_owned()));
}

#[test]
fn test_is_1seg_pmt_pid() {
    assert!(is_1seg_pmt_pid(0x1FC8));
    assert!(is_1seg_pmt_pid(0x1FCF));
    assert!(!is_1seg_pmt_pid(0x1FC7));
    assert!(!is_1seg_pmt_pid(0x1FD0));
}

#[test]
fn test_pid_constants() {
    assert_eq!(PID_PAT, 0x0000);
    assert_eq!(PID_NULL, 0x1FFF);
    assert_eq!(PID_MAX, 0x1FFF);
}

#[test]
fn test_stream_type_aliases() {
    assert_eq!(STREAM_TYPE_CAPTION, STREAM_TYPE_PRIVATE_DATA);
    assert_eq!(STREAM_TYPE_DATA_CARROUSEL, STREAM_TYPE_ISO_IEC_13818_6_TYPE_D);
}
