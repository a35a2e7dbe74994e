use libisdb::adts_parser::{AdtsFrame, AdtsParser};

fn make_adts_header(
    profile: u8,
    sampling_freq_index: u8,
    channel_config: u8,
    frame_length: u16,
    protection_absent: bool,
) -> Vec<u8> {
    // syncword=0xFFF, ID=0(MPEG-4), layer=00, protection_absent
    let b0: u8 = 0xFF;
    let b1: u8 = 0xF0 | if protection_absent { 0x01 } else { 0x00 };
    let b2: u8 = ((profile & 0x03) << 6)
        | ((sampling_freq_index & 0x0F) << 2)
        | ((channel_config >> 2) & 0x01);
    let b3: u8 = ((channel_config & 0x03) << 6)
        | (((frame_length >> 11) & 0x03) as u8);
    let b4: u8 = ((frame_length >> 3) & 0xFF) as u8;
    let b5: u8 = (((frame_length & 0x07) as u8) << 5) | 0x1F; // buffer_fullness=0x7FF(上位5bit)
    let b6: u8 = 0xFC; // buffer_fullness 下位 6 bit = 0x3F, raw_data_block_num=0
    vec![b0, b1, b2, b3, b4, b5, b6]
}

fn make_adts_frame(
    profile: u8,
    sampling_freq_index: u8,
    channel_config: u8,
    audio_data: &[u8],
    protection_absent: bool,
) -> Vec<u8> {
    let header_size: usize = if protection_absent { 7 } else { 9 };
    let frame_length = (header_size + audio_data.len()) as u16;
    let mut frame = make_adts_header(profile, sampling_freq_index, channel_config, frame_length, protection_absent);
    frame.extend_from_slice(audio_data);
    frame
}

#[test]
fn test_parse_header_ok() {
    let audio = vec![0u8; 100];
    let frame_data = make_adts_frame(1, 4, 2, &audio, true); // profile=1(LC), 44100Hz, 2ch
    let mut frame = AdtsFrame::new();
    frame.data = frame_data;
    assert!(frame.parse_header());
    assert_eq!(frame.get_profile(), 1);
    assert_eq!(frame.get_sampling_freq_index(), 4);
    assert_eq!(frame.get_channel_config(), 2);
    assert_eq!(frame.get_sampling_freq(), 44100);
    assert!(frame.header.protection_absent);
}

#[test]
fn test_parse_header_bad_syncword() {
    let mut frame = AdtsFrame::new();
    frame.data = vec![0xFE, 0xF1, 0x50, 0x80, 0x00, 0x1F, 0xFC]; // wrong sync
    assert!(!frame.parse_header());
}

#[test]
fn test_parse_header_undefined_profile() {
    // profile=3 は未定義
    let audio = vec![0u8; 10];
    let frame_data = make_adts_frame(3, 4, 2, &audio, true);
    let mut frame = AdtsFrame::new();
    frame.data = frame_data;
    assert!(!frame.parse_header());
}

#[test]
fn test_parse_header_undefined_sampling_freq() {
    // sampling_freq_index=0x0C は未定義
    let audio = vec![0u8; 10];
    let frame_data = make_adts_frame(1, 0x0C, 2, &audio, true);
    let mut frame = AdtsFrame::new();
    frame.data = frame_data;
    assert!(!frame.parse_header());
}

#[test]
fn test_parse_header_invalid_channel() {
    // channel_config=4 は異常 (3,5も同様, ただし6は OK)
    let audio = vec![0u8; 10];
    let frame_data = make_adts_frame(1, 4, 4, &audio, true);
    let mut frame = AdtsFrame::new();
    frame.data = frame_data;
    assert!(!frame.parse_header());
}

#[test]
fn test_parse_header_channel_6_ok() {
    // channel_config=6 は有効 (5.1ch)
    let audio = vec![0u8; 100];
    let frame_data = make_adts_frame(1, 4, 6, &audio, true);
    let mut frame = AdtsFrame::new();
    frame.data = frame_data;
    assert!(frame.parse_header());
    assert_eq!(frame.get_channel_config(), 6);
}

#[test]
fn test_sampling_freq_table() {
    let expected = [96000u32, 88200, 64000, 48000, 44100, 32000, 24000, 22050, 16000, 12000, 11025, 8000];
    for (idx, &freq) in expected.iter().enumerate() {
        let mut frame = AdtsFrame::new();
        frame.header.sampling_freq_index = idx as u8;
        assert_eq!(frame.get_sampling_freq(), freq, "idx={}", idx);
    }
}

#[test]
fn test_frame_length_calculation() {
    let audio = vec![0xAAu8; 200];
    let frame_data = make_adts_frame(1, 4, 2, &audio, true);
    let mut frame = AdtsFrame::new();
    frame.data = frame_data.clone();
    assert!(frame.parse_header());
    assert_eq!(frame.get_frame_length() as usize, frame_data.len());
}

#[test]
fn test_parser_store_es_single_frame() {
    let audio = vec![0xBBu8; 50];
    let frame_data = make_adts_frame(1, 4, 2, &audio, true);

    let mut parser = AdtsParser::new();
    let mut frames: Vec<Vec<u8>> = Vec::new();
    let found = parser.store_es(&frame_data, &mut |f| {
        frames.push(f.data.clone());
    });
    assert!(found);
    assert_eq!(frames.len(), 1);
    assert_eq!(frames[0], frame_data);
}

#[test]
fn test_parser_store_es_two_frames() {
    let audio = vec![0xCCu8; 30];
    let frame1 = make_adts_frame(1, 4, 2, &audio, true);
    let frame2 = make_adts_frame(1, 4, 2, &audio, true);
    let mut stream = frame1.clone();
    stream.extend_from_slice(&frame2);

    let mut parser = AdtsParser::new();
    let mut count = 0;
    parser.store_es(&stream, &mut |_| { count += 1; });
    assert_eq!(count, 2);
}

#[test]
fn test_parser_store_es_split_across_calls() {
    let audio = vec![0xDDu8; 50];
    let frame_data = make_adts_frame(1, 4, 2, &audio, true);
    let split = frame_data.len() / 2;

    let mut parser = AdtsParser::new();
    let mut frames: Vec<Vec<u8>> = Vec::new();

    parser.store_es(&frame_data[..split], &mut |f| {
        frames.push(f.data.clone());
    });
    parser.store_es(&frame_data[split..], &mut |f| {
        frames.push(f.data.clone());
    });

    assert_eq!(frames.len(), 1);
    assert_eq!(frames[0], frame_data);
}

#[test]
fn lib_test_parser_reset() {
    let audio = vec![0xEEu8; 30];
    let partial = make_adts_frame(1, 4, 2, &audio, true);

    let mut parser = AdtsParser::new();
    parser.store_es(&partial[..10], &mut |_| {});
    parser.reset();
    assert_eq!(parser.frame().get_size(), 0);
    assert!(!parser.is_storing());
}

#[test]
fn test_parser_invalid_data_skipped() {
    // ランダムデータの後に有効フレームを配置
    let garbage = vec![0x00u8; 20];
    let audio = vec![0xFFu8; 40];
    let valid_frame = make_adts_frame(1, 4, 2, &audio, true);

    let mut stream = garbage;
    stream.extend_from_slice(&valid_frame);

    let mut parser = AdtsParser::new();
    let mut count = 0;
    parser.store_es(&stream, &mut |_| { count += 1; });
    assert_eq!(count, 1);
}

#[test]
fn test_adts_frame_reset() {
    let audio = vec![0u8; 50];
    let frame_data = make_adts_frame(1, 4, 2, &audio, true);
    let mut frame = AdtsFrame::new();
    frame.data = frame_data;
    frame.parse_header();
    frame.reset();
    assert_eq!(frame.get_size(), 0);
    assert_eq!(frame.get_profile(), 0);
    assert_eq!(frame.get_frame_length(), 0);
}
