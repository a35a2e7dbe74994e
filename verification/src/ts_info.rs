//! Names of stream types, areas, components, PIDs and languages of ISDB transport streams.
use vstd::prelude::*;

verus! {

// PIDs of the predefined tables.
pub const PID_PAT: u16 = 0x0000;
pub const PID_CAT: u16 = 0x0001;
pub const PID_NIT: u16 = 0x0010;
pub const PID_SDT: u16 = 0x0011;
pub const PID_HEIT: u16 = 0x0012;
pub const PID_TOT: u16 = 0x0014;
pub const PID_SDTT: u16 = 0x0023;
pub const PID_BIT: u16 = 0x0024;
pub const PID_NBIT: u16 = 0x0025;
pub const PID_MEIT: u16 = 0x0026;
pub const PID_LEIT: u16 = 0x0027;
pub const PID_CDT: u16 = 0x0029;
pub const PID_NULL: u16 = 0x1FFF;
pub const PID_MAX: u16 = 0x1FFF;
pub const PID_INVALID: u16 = 0xFFFF;

// The PMT PIDs of one-segment services.
pub const ONESEG_PMT_PID_FIRST: u16 = 0x1FC8;
pub const ONESEG_PMT_PID_LAST: u16 = 0x1FCF;

// Stream types.
pub const STREAM_TYPE_MPEG1_VIDEO: u8 = 0x01;
pub const STREAM_TYPE_MPEG2_VIDEO: u8 = 0x02;
pub const STREAM_TYPE_MPEG1_AUDIO: u8 = 0x03;
pub const STREAM_TYPE_MPEG2_AUDIO: u8 = 0x04;
pub const STREAM_TYPE_PRIVATE_SECTIONS: u8 = 0x05;
pub const STREAM_TYPE_PRIVATE_DATA: u8 = 0x06;
pub const STREAM_TYPE_MHEG: u8 = 0x07;
pub const STREAM_TYPE_DSM_CC: u8 = 0x08;
pub const STREAM_TYPE_ITU_T_REC_H222_1: u8 = 0x09;
pub const STREAM_TYPE_ISO_IEC_13818_6_TYPE_A: u8 = 0x0A;
pub const STREAM_TYPE_ISO_IEC_13818_6_TYPE_B: u8 = 0x0B;
pub const STREAM_TYPE_ISO_IEC_13818_6_TYPE_C: u8 = 0x0C;
pub const STREAM_TYPE_ISO_IEC_13818_6_TYPE_D: u8 = 0x0D;
pub const STREAM_TYPE_ISO_IEC_13818_1_AUXILIARY: u8 = 0x0E;
pub const STREAM_TYPE_AAC: u8 = 0x0F;
pub const STREAM_TYPE_MPEG4_VISUAL: u8 = 0x10;
pub const STREAM_TYPE_MPEG4_AUDIO: u8 = 0x11;
pub const STREAM_TYPE_ISO_IEC_14496_1_IN_PES: u8 = 0x12;
pub const STREAM_TYPE_ISO_IEC_14496_1_IN_SECTIONS: u8 = 0x13;
pub const STREAM_TYPE_ISO_IEC_13818_6_DOWNLOAD: u8 = 0x14;
pub const STREAM_TYPE_METADATA_IN_PES: u8 = 0x15;
pub const STREAM_TYPE_METADATA_IN_SECTIONS: u8 = 0x16;
pub const STREAM_TYPE_METADATA_IN_DATA_CAROUSEL: u8 = 0x17;
pub const STREAM_TYPE_METADATA_IN_OBJECT_CAROUSEL: u8 = 0x18;
pub const STREAM_TYPE_METADATA_IN_DOWNLOAD_PROTOCOL: u8 = 0x19;
pub const STREAM_TYPE_IPMP: u8 = 0x1A;
pub const STREAM_TYPE_H264: u8 = 0x1B;
pub const STREAM_TYPE_H265: u8 = 0x24;
pub const STREAM_TYPE_USER_PRIVATE: u8 = 0x80;
pub const STREAM_TYPE_AC3: u8 = 0x81;
pub const STREAM_TYPE_DTS: u8 = 0x82;
pub const STREAM_TYPE_TRUEHD: u8 = 0x83;
pub const STREAM_TYPE_DOLBY_DIGITAL_PLUS: u8 = 0x87;
pub const STREAM_TYPE_UNINITIALIZED: u8 = 0x00;
pub const STREAM_TYPE_INVALID: u8 = 0xFF;
pub const STREAM_TYPE_CAPTION: u8 = STREAM_TYPE_PRIVATE_DATA;
pub const STREAM_TYPE_DATA_CARROUSEL: u8 = STREAM_TYPE_ISO_IEC_13818_6_TYPE_D;

// ISO 639 language codes (three ASCII letters).
pub const LANGUAGE_CODE_JPN: u32 = 0x6A706E; // jpn
pub const LANGUAGE_CODE_ENG: u32 = 0x656E67; // eng
pub const LANGUAGE_CODE_DEU: u32 = 0x646575; // deu
pub const LANGUAGE_CODE_FRA: u32 = 0x667261; // fra
pub const LANGUAGE_CODE_ITA: u32 = 0x697461; // ita
pub const LANGUAGE_CODE_RUS: u32 = 0x727573; // rus
pub const LANGUAGE_CODE_ZHO: u32 = 0x7A686F; // zho
pub const LANGUAGE_CODE_KOR: u32 = 0x6B6F72; // kor
pub const LANGUAGE_CODE_POR: u32 = 0x706F72; // por
pub const LANGUAGE_CODE_SPA: u32 = 0x737061; // spa
pub const LANGUAGE_CODE_ETC: u32 = 0x657463; // etc
pub const LANGUAGE_CODE_INVALID: u32 = 0x000000;

/// Whether `pid` is a PMT PID of a one-segment service.
pub fn is_1seg_pmt_pid(pid: u16) -> (r: bool)
    ensures
        r == (ONESEG_PMT_PID_FIRST <= pid <= ONESEG_PMT_PID_LAST),
{
    pid >= ONESEG_PMT_PID_FIRST && pid <= ONESEG_PMT_PID_LAST
}

/// Whether the text `r` returned is the name `t` of the table.
pub open spec fn text_is(r: Option<&str>, t: Option<Seq<char>>) -> bool {
    match r {
        Some(s) => t == Some(s@),
        None => t is None,
    }
}

/// The name of a stream type.
pub open spec fn stream_type_name(stream_type: u8) -> Option<Seq<char>> {
    match stream_type {
        STREAM_TYPE_MPEG1_VIDEO => Some("MPEG-1 Video"@),
        STREAM_TYPE_MPEG2_VIDEO => Some("MPEG-2 Video"@),
        STREAM_TYPE_MPEG1_AUDIO => Some("MPEG-1 Audio"@),
        STREAM_TYPE_MPEG2_AUDIO => Some("MPEG-2 Audio"@),
        STREAM_TYPE_PRIVATE_SECTIONS => Some("private_sections"@),
        STREAM_TYPE_PRIVATE_DATA => Some("private data"@),
        STREAM_TYPE_MHEG => Some("MHEG"@),
        STREAM_TYPE_DSM_CC => Some("DSM-CC"@),
        STREAM_TYPE_ITU_T_REC_H222_1 => Some("H.222.1"@),
        STREAM_TYPE_ISO_IEC_13818_6_TYPE_A => Some("ISO/IEC 13818-6 type A"@),
        STREAM_TYPE_ISO_IEC_13818_6_TYPE_B => Some("ISO/IEC 13818-6 type B"@),
        STREAM_TYPE_ISO_IEC_13818_6_TYPE_C => Some("ISO/IEC 13818-6 type C"@),
        STREAM_TYPE_ISO_IEC_13818_6_TYPE_D => Some("ISO/IEC 13818-6 type D"@),
        STREAM_TYPE_ISO_IEC_13818_1_AUXILIARY => Some("auxiliary"@),
        STREAM_TYPE_AAC => Some("AAC"@),
        STREAM_TYPE_MPEG4_VISUAL => Some("MPEG-4 Visual"@),
        STREAM_TYPE_MPEG4_AUDIO => Some("MPEG-4 Audio"@),
        STREAM_TYPE_ISO_IEC_14496_1_IN_PES => Some("ISO/IEC 14496-1 in PES packets"@),
        STREAM_TYPE_ISO_IEC_14496_1_IN_SECTIONS => Some("ISO/IEC 14496-1 in ISO/IEC 14496_sections"@),
        STREAM_TYPE_ISO_IEC_13818_6_DOWNLOAD => Some("ISO/IEC 13818-6 Synchronized Download Protocol"@),
        STREAM_TYPE_METADATA_IN_PES => Some("Metadata in PES packets"@),
        STREAM_TYPE_METADATA_IN_SECTIONS => Some("Metadata in metadata_sections"@),
        STREAM_TYPE_METADATA_IN_DATA_CAROUSEL => Some("Metadata in ISO/IEC 13818-6 Data Carousel"@),
        STREAM_TYPE_METADATA_IN_OBJECT_CAROUSEL => Some("Metadata in ISO/IEC 13818-6 Object Carousel"@),
        STREAM_TYPE_METADATA_IN_DOWNLOAD_PROTOCOL => Some("Metadata in ISO/IEC 13818-6 Synchronized Download Protocol"@),
        STREAM_TYPE_IPMP => Some("IPMP"@),
        STREAM_TYPE_H264 => Some("H.264"@),
        STREAM_TYPE_H265 => Some("H.265"@),
        STREAM_TYPE_USER_PRIVATE => Some("user private"@),
        STREAM_TYPE_AC3 => Some("AC-3"@),
        STREAM_TYPE_DTS => Some("DTS"@),
        STREAM_TYPE_TRUEHD => Some("TrueHD"@),
        STREAM_TYPE_DOLBY_DIGITAL_PLUS => Some("Dolby Digital Plus"@),
        _ => None,
    }
}

/// Names a stream type.
pub fn get_stream_type_text(stream_type: u8) -> (r: Option<&'static str>)
    ensures
        text_is(r, stream_type_name(stream_type)),
{
    match stream_type {
        STREAM_TYPE_MPEG1_VIDEO => Some("MPEG-1 Video"),
        STREAM_TYPE_MPEG2_VIDEO => Some("MPEG-2 Video"),
        STREAM_TYPE_MPEG1_AUDIO => Some("MPEG-1 Audio"),
        STREAM_TYPE_MPEG2_AUDIO => Some("MPEG-2 Audio"),
        STREAM_TYPE_PRIVATE_SECTIONS => Some("private_sections"),
        STREAM_TYPE_PRIVATE_DATA => Some("private data"),
        STREAM_TYPE_MHEG => Some("MHEG"),
        STREAM_TYPE_DSM_CC => Some("DSM-CC"),
        STREAM_TYPE_ITU_T_REC_H222_1 => Some("H.222.1"),
        STREAM_TYPE_ISO_IEC_13818_6_TYPE_A => Some("ISO/IEC 13818-6 type A"),
        STREAM_TYPE_ISO_IEC_13818_6_TYPE_B => Some("ISO/IEC 13818-6 type B"),
        STREAM_TYPE_ISO_IEC_13818_6_TYPE_C => Some("ISO/IEC 13818-6 type C"),
        STREAM_TYPE_ISO_IEC_13818_6_TYPE_D => Some("ISO/IEC 13818-6 type D"),
        STREAM_TYPE_ISO_IEC_13818_1_AUXILIARY => Some("auxiliary"),
        STREAM_TYPE_AAC => Some("AAC"),
        STREAM_TYPE_MPEG4_VISUAL => Some("MPEG-4 Visual"),
        STREAM_TYPE_MPEG4_AUDIO => Some("MPEG-4 Audio"),
        STREAM_TYPE_ISO_IEC_14496_1_IN_PES => Some("ISO/IEC 14496-1 in PES packets"),
        STREAM_TYPE_ISO_IEC_14496_1_IN_SECTIONS => Some("ISO/IEC 14496-1 in ISO/IEC 14496_sections"),
        STREAM_TYPE_ISO_IEC_13818_6_DOWNLOAD => Some("ISO/IEC 13818-6 Synchronized Download Protocol"),
        STREAM_TYPE_METADATA_IN_PES => Some("Metadata in PES packets"),
        STREAM_TYPE_METADATA_IN_SECTIONS => Some("Metadata in metadata_sections"),
        STREAM_TYPE_METADATA_IN_DATA_CAROUSEL => Some("Metadata in ISO/IEC 13818-6 Data Carousel"),
        STREAM_TYPE_METADATA_IN_OBJECT_CAROUSEL => Some("Metadata in ISO/IEC 13818-6 Object Carousel"),
        STREAM_TYPE_METADATA_IN_DOWNLOAD_PROTOCOL => Some("Metadata in ISO/IEC 13818-6 Synchronized Download Protocol"),
        STREAM_TYPE_IPMP => Some("IPMP"),
        STREAM_TYPE_H264 => Some("H.264"),
        STREAM_TYPE_H265 => Some("H.265"),
        STREAM_TYPE_USER_PRIVATE => Some("user private"),
        STREAM_TYPE_AC3 => Some("AC-3"),
        STREAM_TYPE_DTS => Some("DTS"),
        STREAM_TYPE_TRUEHD => Some("TrueHD"),
        STREAM_TYPE_DOLBY_DIGITAL_PLUS => Some("Dolby Digital Plus"),
        _ => None,
    }
}

/// The Japanese name of an area code.
pub open spec fn area_name_ja(area_code: u16) -> Option<Seq<char>> {
    match area_code {
        0x5A5 => Some("関東広域圏"@),
        0x72A => Some("中京広域圏"@),
        0x8D5 => Some("近畿広域圏"@),
        0x699 => Some("鳥取・島根圏"@),
        0x553 => Some("岡山・香川圏"@),
        0x16B => Some("北海道"@),
        0x467 => Some("青森"@),
        0x5D4 => Some("岩手"@),
        0x758 => Some("宮城"@),
        0xAC6 => Some("秋田"@),
        0xE4C => Some("山形"@),
        0x1AE => Some("福島"@),
        0xC69 => Some("茨城"@),
        0xE38 => Some("栃木"@),
        0x98B => Some("群馬"@),
        0x64B => Some("埼玉"@),
        0x1C7 => Some("千葉"@),
        0xAAC => Some("東京"@),
        0x56C => Some("神奈川"@),
        0x4CE => Some("新潟"@),
        0x539 => Some("富山"@),
        0x6A6 => Some("石川"@),
        0x92D => Some("福井"@),
        0xD4A => Some("山梨"@),
        0x9D2 => Some("長野"@),
        0xA65 => Some("岐阜"@),
        0xA5A => Some("静岡"@),
        0x966 => Some("愛知"@),
        0x2DC => Some("三重"@),
        0xCE4 => Some("滋賀"@),
        0x59A => Some("京都"@),
        0xCB2 => Some("大阪"@),
        0x674 => Some("兵庫"@),
        0xA93 => Some("奈良"@),
        0x396 => Some("和歌山"@),
        0xD23 => Some("鳥取"@),
        0x31B => Some("島根"@),
        0x2B5 => Some("岡山"@),
        0xB31 => Some("広島"@),
        0xB98 => Some("山口"@),
        0xE62 => Some("徳島"@),
        0x9B4 => Some("香川"@),
        0x19D => Some("愛媛"@),
        0x2E3 => Some("高知"@),
        0x62D => Some("福岡"@),
        0x959 => Some("佐賀"@),
        0xA2B => Some("長崎"@),
        0x8A7 => Some("熊本"@),
        0xC8D => Some("大分"@),
        0xD1C => Some("宮崎"@),
        0xD45 => Some("鹿児島"@),
        0x372 => Some("沖縄"@),
        _ => None,
    }
}

/// Names an area code in Japanese.
pub fn get_area_text_ja(area_code: u16) -> (r: Option<&'static str>)
    ensures
        text_is(r, area_name_ja(area_code)),
{
    match area_code {
        0x5A5 => Some("関東広域圏"),
        0x72A => Some("中京広域圏"),
        0x8D5 => Some("近畿広域圏"),
        0x699 => Some("鳥取・島根圏"),
        0x553 => Some("岡山・香川圏"),
        0x16B => Some("北海道"),
        0x467 => Some("青森"),
        0x5D4 => Some("岩手"),
        0x758 => Some("宮城"),
        0xAC6 => Some("秋田"),
        0xE4C => Some("山形"),
        0x1AE => Some("福島"),
        0xC69 => Some("茨城"),
        0xE38 => Some("栃木"),
        0x98B => Some("群馬"),
        0x64B => Some("埼玉"),
        0x1C7 => Some("千葉"),
        0xAAC => Some("東京"),
        0x56C => Some("神奈川"),
        0x4CE => Some("新潟"),
        0x539 => Some("富山"),
        0x6A6 => Some("石川"),
        0x92D => Some("福井"),
        0xD4A => Some("山梨"),
        0x9D2 => Some("長野"),
        0xA65 => Some("岐阜"),
        0xA5A => Some("静岡"),
        0x966 => Some("愛知"),
        0x2DC => Some("三重"),
        0xCE4 => Some("滋賀"),
        0x59A => Some("京都"),
        0xCB2 => Some("大阪"),
        0x674 => Some("兵庫"),
        0xA93 => Some("奈良"),
        0x396 => Some("和歌山"),
        0xD23 => Some("鳥取"),
        0x31B => Some("島根"),
        0x2B5 => Some("岡山"),
        0xB31 => Some("広島"),
        0xB98 => Some("山口"),
        0xE62 => Some("徳島"),
        0x9B4 => Some("香川"),
        0x19D => Some("愛媛"),
        0x2E3 => Some("高知"),
        0x62D => Some("福岡"),
        0x959 => Some("佐賀"),
        0xA2B => Some("長崎"),
        0x8A7 => Some("熊本"),
        0xC8D => Some("大分"),
        0xD1C => Some("宮崎"),
        0xD45 => Some("鹿児島"),
        0x372 => Some("沖縄"),
        _ => None,
    }
}

/// The Japanese description of a video component type.
pub open spec fn video_component_name_ja(component_type: u8) -> Option<Seq<char>> {
    match component_type {
        0x01 => Some("480i[4:3]"@),
        0x02 => Some("480i[16:9] パンベクトルあり"@),
        0x03 => Some("480i[16:9]"@),
        0x04 => Some("480i[>16:9]"@),
        0x83 => Some("4320p[16:9]"@),
        0x91 => Some("2160p[4:3]"@),
        0x92 => Some("2160p[16:9] パンベクトルあり"@),
        0x93 => Some("2160p[16:9]"@),
        0x94 => Some("2160p[>16:9]"@),
        0xA1 => Some("480p[4:3]"@),
        0xA2 => Some("480p[16:9] パンベクトルあり"@),
        0xA3 => Some("480p[16:9]"@),
        0xA4 => Some("480p[>16:9]"@),
        0xB1 => Some("1080i[4:3]"@),
        0xB2 => Some("1080i[16:9] パンベクトルあり"@),
        0xB3 => Some("1080i[16:9]"@),
        0xB4 => Some("1080i[>16:9]"@),
        0xC1 => Some("720p[4:3]"@),
        0xC2 => Some("720p[16:9] パンベクトルあり"@),
        0xC3 => Some("720p[16:9]"@),
        0xC4 => Some("720p[>16:9]"@),
        0xD1 => Some("240p[4:3]"@),
        0xD2 => Some("240p[16:9] パンベクトルあり"@),
        0xD3 => Some("240p[16:9]"@),
        0xD4 => Some("240p[>16:9]"@),
        0xE1 => Some("1080p[4:3]"@),
        0xE2 => Some("1080p[16:9] パンベクトルあり"@),
        0xE3 => Some("1080p[16:9]"@),
        0xE4 => Some("1080p[>16:9]"@),
        0xF1 => Some("180p[4:3]"@),
        0xF2 => Some("180p[16:9] パンベクトルあり"@),
        0xF3 => Some("180p[16:9]"@),
        0xF4 => Some("180p[>16:9]"@),
        _ => None,
    }
}

/// Describes a video component type in Japanese.
pub fn get_video_component_type_text_ja(component_type: u8) -> (r: Option<&'static str>)
    ensures
        text_is(r, video_component_name_ja(component_type)),
{
    match component_type {
        0x01 => Some("480i[4:3]"),
        0x02 => Some("480i[16:9] パンベクトルあり"),
        0x03 => Some("480i[16:9]"),
        0x04 => Some("480i[>16:9]"),
        0x83 => Some("4320p[16:9]"),
        0x91 => Some("2160p[4:3]"),
        0x92 => Some("2160p[16:9] パンベクトルあり"),
        0x93 => Some("2160p[16:9]"),
        0x94 => Some("2160p[>16:9]"),
        0xA1 => Some("480p[4:3]"),
        0xA2 => Some("480p[16:9] パンベクトルあり"),
        0xA3 => Some("480p[16:9]"),
        0xA4 => Some("480p[>16:9]"),
        0xB1 => Some("1080i[4:3]"),
        0xB2 => Some("1080i[16:9] パンベクトルあり"),
        0xB3 => Some("1080i[16:9]"),
        0xB4 => Some("1080i[>16:9]"),
        0xC1 => Some("720p[4:3]"),
        0xC2 => Some("720p[16:9] パンベクトルあり"),
        0xC3 => Some("720p[16:9]"),
        0xC4 => Some("720p[>16:9]"),
        0xD1 => Some("240p[4:3]"),
        0xD2 => Some("240p[16:9] パンベクトルあり"),
        0xD3 => Some("240p[16:9]"),
        0xD4 => Some("240p[>16:9]"),
        0xE1 => Some("1080p[4:3]"),
        0xE2 => Some("1080p[16:9] パンベクトルあり"),
        0xE3 => Some("1080p[16:9]"),
        0xE4 => Some("1080p[>16:9]"),
        0xF1 => Some("180p[4:3]"),
        0xF2 => Some("180p[16:9] パンベクトルあり"),
        0xF3 => Some("180p[16:9]"),
        0xF4 => Some("180p[>16:9]"),
        _ => None,
    }
}

/// The Japanese description of an audio component type.
pub open spec fn audio_component_name_ja(component_type: u8) -> Option<Seq<char>> {
    match component_type {
        0x01 => Some("Mono"@),
        0x02 => Some("Dual mono"@),
        0x03 => Some("Stereo"@),
        0x04 => Some("3ch[2/1]"@),
        0x05 => Some("3ch[3/0]"@),
        0x06 => Some("4ch[2/2]"@),
        0x07 => Some("4ch[3/1]"@),
        0x08 => Some("5ch"@),
        0x09 => Some("5.1ch"@),
        0x0A => Some("6.1ch[3/3.1]"@),
        0x0B => Some("6.1ch[2/0/0-2/0/2-0.1]"@),
        0x0C => Some("7.1ch[5/2.1]"@),
        0x0D => Some("7.1ch[3/2/2.1]"@),
        0x0E => Some("7.1ch[2/0/0-3/0/2-0.1]"@),
        0x0F => Some("7.1ch[0/2/0-3/0/2-0.1]"@),
        0x10 => Some("10.2ch"@),
        0x11 => Some("22.2ch"@),
        0x40 => Some("視覚障害者用音声解説"@),
        0x41 => Some("聴覚障害者用音声"@),
        _ => None,
    }
}

/// Describes an audio component type in Japanese.
pub fn get_audio_component_type_text_ja(component_type: u8) -> (r: Option<&'static str>)
    ensures
        text_is(r, audio_component_name_ja(component_type)),
{
    match component_type {
        0x01 => Some("Mono"),
        0x02 => Some("Dual mono"),
        0x03 => Some("Stereo"),
        0x04 => Some("3ch[2/1]"),
        0x05 => Some("3ch[3/0]"),
        0x06 => Some("4ch[2/2]"),
        0x07 => Some("4ch[3/1]"),
        0x08 => Some("5ch"),
        0x09 => Some("5.1ch"),
        0x0A => Some("6.1ch[3/3.1]"),
        0x0B => Some("6.1ch[2/0/0-2/0/2-0.1]"),
        0x0C => Some("7.1ch[5/2.1]"),
        0x0D => Some("7.1ch[3/2/2.1]"),
        0x0E => Some("7.1ch[2/0/0-3/0/2-0.1]"),
        0x0F => Some("7.1ch[0/2/0-3/0/2-0.1]"),
        0x10 => Some("10.2ch"),
        0x11 => Some("22.2ch"),
        0x40 => Some("視覚障害者用音声解説"),
        0x41 => Some("聴覚障害者用音声"),
        _ => None,
    }
}

/// The name of the table carried on a predefined PID.
pub open spec fn predefined_pid_name(pid: u16) -> Option<Seq<char>> {
    match pid {
        PID_PAT => Some("PAT"@),
        PID_CAT => Some("CAT"@),
        PID_NIT => Some("NIT"@),
        PID_SDT => Some("SDT"@),
        PID_HEIT => Some("H-EIT"@),
        PID_TOT => Some("TOT"@),
        PID_SDTT => Some("SDTT"@),
        PID_BIT => Some("BIT"@),
        PID_NBIT => Some("NBIT"@),
        PID_MEIT => Some("M-EIT"@),
        PID_LEIT => Some("L-EIT"@),
        PID_CDT => Some("CDT"@),
        PID_NULL => Some("Null"@),
        _ => None,
    }
}

/// Names the table carried on a predefined PID.
pub fn get_predefined_pid_text(pid: u16) -> (r: Option<&'static str>)
    ensures
        text_is(r, predefined_pid_name(pid)),
{
    match pid {
        PID_PAT => Some("PAT"),
        PID_CAT => Some("CAT"),
        PID_NIT => Some("NIT"),
        PID_SDT => Some("SDT"),
        PID_HEIT => Some("H-EIT"),
        PID_TOT => Some("TOT"),
        PID_SDTT => Some("SDTT"),
        PID_BIT => Some("BIT"),
        PID_NBIT => Some("NBIT"),
        PID_MEIT => Some("M-EIT"),
        PID_LEIT => Some("L-EIT"),
        PID_CDT => Some("CDT"),
        PID_NULL => Some("Null"),
        _ => None,
    }
}
/// The Japanese description of a component, by stream content (video or audio).
pub open spec fn component_name_ja(stream_content: u8, component_type: u8) -> Option<Seq<char>> {
    if stream_content == 0x01 || stream_content == 0x05 {
        video_component_name_ja(component_type)
    } else if stream_content == 0x02 {
        audio_component_name_ja(component_type)
    } else {
        None
    }
}

/// Describes a component in Japanese: video for stream content 1 and 5, audio for 2.
pub fn get_component_type_text_ja(stream_content: u8, component_type: u8) -> (r: Option<&'static str>)
    ensures
        text_is(r, component_name_ja(stream_content, component_type)),
{
    match stream_content {
        0x01 | 0x05 => get_video_component_type_text_ja(component_type),
        0x02 => get_audio_component_type_text_ja(component_type),
        _ => None,
    }
}

/// How long a language name is.
#[derive(Clone, Copy, PartialEq, Eq, Debug, Default, Structural)]
pub enum LanguageTextType {
    #[default]
    Long,
    Simple,
    Short,
}

/// The Japanese names (long, simple, short) of the languages that have one.
pub open spec fn language_names_ja(code: u32) -> Option<(Seq<char>, Seq<char>, Seq<char>)> {
    if code == LANGUAGE_CODE_JPN {
        Some(("日本語"@, "日本語"@, "日"@))
    } else if code == LANGUAGE_CODE_ENG {
        Some(("英語"@, "英語"@, "英"@))
    } else if code == LANGUAGE_CODE_DEU {
        Some(("ドイツ語"@, "独語"@, "独"@))
    } else if code == LANGUAGE_CODE_FRA {
        Some(("フランス語"@, "仏語"@, "仏"@))
    } else if code == LANGUAGE_CODE_ITA {
        Some(("イタリア語"@, "伊語"@, "伊"@))
    } else if code == LANGUAGE_CODE_RUS {
        Some(("ロシア語"@, "露語"@, "露"@))
    } else if code == LANGUAGE_CODE_ZHO {
        Some(("中国語"@, "中国語"@, "中"@))
    } else if code == LANGUAGE_CODE_KOR {
        Some(("韓国語"@, "韓国語"@, "韓"@))
    } else if code == LANGUAGE_CODE_POR {
        Some(("ポルトガル語"@, "葡語"@, "葡"@))
    } else if code == LANGUAGE_CODE_SPA {
        Some(("スペイン語"@, "西語"@, "西"@))
    } else if code == LANGUAGE_CODE_ETC {
        Some(("外国語"@, "外国語"@, "外"@))
    } else {
        None
    }
}

/// Byte `k` (0 = least significant) of a language code.
pub open spec fn code_byte(code: u32, k: nat) -> u8 {
    ((code as int / pow256(k)) % 0x100) as u8
}

/// 256 to the power `k`.
pub open spec fn pow256(k: nat) -> int
    decreases k,
{
    if k == 0 {
        1
    } else {
        256 * pow256((k - 1) as nat)
    }
}

/// The ASCII letter `b` in upper case (other bytes unchanged).
pub open spec fn ascii_upper(b: u8) -> u8 {
    if 0x61 <= b <= 0x7A {
        (b - 0x20) as u8
    } else {
        b
    }
}

/// A language code as three characters, upper-cased if asked; `None` unless all three bytes are ASCII.
pub open spec fn language_code_chars(code: u32, upper_case: bool) -> Option<Seq<char>> {
    let b0 = code_byte(code, 2);
    let b1 = code_byte(code, 1);
    let b2 = code_byte(code, 0);
    if b0 >= 0x80 || b1 >= 0x80 || b2 >= 0x80 {
        None
    } else if upper_case {
        Some(seq![ascii_upper(b0) as char, ascii_upper(b1) as char, ascii_upper(b2) as char])
    } else {
        Some(seq![b0 as char, b1 as char, b2 as char])
    }
}

/// The Japanese name of a language in the given length; other codes are spelled out in upper case.
pub open spec fn language_text_ja(code: u32, text_type: LanguageTextType) -> Option<Seq<char>> {
    match language_names_ja(code) {
        Some((long, simple, short)) => Some(
            match text_type {
                LanguageTextType::Long => long,
                LanguageTextType::Simple => simple,
                LanguageTextType::Short => short,
            },
        ),
        None => language_code_chars(code, true),
    }
}

fn language_names_ja_exec(code: u32) -> (r: Option<(&'static str, &'static str, &'static str)>)
    ensures
        match r {
            Some((l, m, s)) => language_names_ja(code) == Some((l@, m@, s@)),
            None => language_names_ja(code) is None,
        },
{
    if code == LANGUAGE_CODE_JPN {
        Some(("日本語", "日本語", "日"))
    } else if code == LANGUAGE_CODE_ENG {
        Some(("英語", "英語", "英"))
    } else if code == LANGUAGE_CODE_DEU {
        Some(("ドイツ語", "独語", "独"))
    } else if code == LANGUAGE_CODE_FRA {
        Some(("フランス語", "仏語", "仏"))
    } else if code == LANGUAGE_CODE_ITA {
        Some(("イタリア語", "伊語", "伊"))
    } else if code == LANGUAGE_CODE_RUS {
        Some(("ロシア語", "露語", "露"))
    } else if code == LANGUAGE_CODE_ZHO {
        Some(("中国語", "中国語", "中"))
    } else if code == LANGUAGE_CODE_KOR {
        Some(("韓国語", "韓国語", "韓"))
    } else if code == LANGUAGE_CODE_POR {
        Some(("ポルトガル語", "葡語", "葡"))
    } else if code == LANGUAGE_CODE_SPA {
        Some(("スペイン語", "西語", "西"))
    } else if code == LANGUAGE_CODE_ETC {
        Some(("外国語", "外国語", "外"))
    } else {
        None
    }
}

/// Names a language in Japanese; codes without a name are spelled out in upper case.
pub fn get_language_text_ja(language_code: u32, text_type: LanguageTextType) -> (r: Option<String>)
    ensures
        match r {
            Some(s) => language_text_ja(language_code, text_type) == Some(s@),
            None => language_text_ja(language_code, text_type) is None,
        },
{
    match language_names_ja_exec(language_code) {
        Some((long, simple, short)) => {
            let text = match text_type {
                LanguageTextType::Long => long,
                LanguageTextType::Simple => simple,
                LanguageTextType::Short => short,
            };
            Some(text.to_owned())
        },
        None => language_code_to_text(language_code, true),
    }
}

/// `std`'s `String::push`: appends one character.
#[verifier::external_body]
pub(crate) fn push_char(s: &mut String, c: char)
    ensures
        final(s)@ == old(s)@.push(c),
{
    s.push(c);
}

fn upper_byte(b: u8) -> (r: u8)
    ensures
        r == ascii_upper(b),
{
    if 0x61 <= b && b <= 0x7A {
        b - 0x20
    } else {
        b
    }
}

fn ascii_char(b: u8) -> (r: char)
    requires
        b < 0x80,
    ensures
        r == b as char,
{
    b as char
}

/// Spells a language code out as three ASCII characters, upper-cased if asked;
/// `None` when a byte is not ASCII.
pub fn language_code_to_text(language_code: u32, upper_case: bool) -> (r: Option<String>)
    ensures
        match r {
            Some(s) => language_code_chars(language_code, upper_case) == Some(s@),
            None => language_code_chars(language_code, upper_case) is None,
        },
{
    let b0 = ((language_code / 0x10000) % 0x100) as u8;
    let b1 = ((language_code / 0x100) % 0x100) as u8;
    let b2 = (language_code % 0x100) as u8;
    proof {
        reveal_with_fuel(pow256, 3);
        assert(pow256(2) == 0x10000);
        assert(pow256(1) == 0x100);
        assert(pow256(0) == 1);
        assert(b0 == code_byte(language_code, 2));
        assert(b1 == code_byte(language_code, 1));
        assert(b2 == code_byte(language_code, 0));
    }
    if b0 >= 0x80 || b1 >= 0x80 || b2 >= 0x80 {
        return None;
    }
    let (c0, c1, c2) = if upper_case {
        (upper_byte(b0), upper_byte(b1), upper_byte(b2))
    } else {
        (b0, b1, b2)
    };
    let mut text = String::new();
    push_char(&mut text, ascii_char(c0));
    push_char(&mut text, ascii_char(c1));
    push_char(&mut text, ascii_char(c2));
    assert(text@ =~= language_code_chars(language_code, upper_case).unwrap());
    Some(text)
}

} // verus!
