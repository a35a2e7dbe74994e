use libisdb::mpeg2_video_parser::{Mpeg2Sequence, Mpeg2VideoParser, ebsp_to_rbsp};

// ---- ebsp_to_rbsp ----

#[test]
fn test_ebsp_to_rbsp_no_emulation() {
    let mut data = vec![0x01u8, 0x02, 0x03, 0x04];
    let result = ebsp_to_rbsp(&mut data);
    assert_eq!(result, Some(4));
    assert_eq!(data, vec![0x01, 0x02, 0x03, 0x04]);
}

#[test]
fn test_ebsp_to_rbsp_removes_emulation_byte() {
    // 0x00 0x00 0x03 0x00 → 0x00 0x00 0x00
    let mut data = vec![0x00u8, 0x00, 0x03, 0x00];
    let result = ebsp_to_rbsp(&mut data);
    assert_eq!(result, Some(3));
    assert_eq!(data, vec![0x00, 0x00, 0x00]);
}

#[test]
fn test_ebsp_to_rbsp_trailing_emulation_byte() {
    // 0x00 0x00 0x03 at end → 0x03 を削除して 0xAB 0x00 0x00
    let mut data = vec![0xABu8, 0x00, 0x00, 0x03];
    let result = ebsp_to_rbsp(&mut data);
    assert_eq!(result, Some(3));
    assert_eq!(data, vec![0xAB, 0x00, 0x00]);
}

#[test]
fn test_ebsp_to_rbsp_invalid_byte_after_two_zeros() {
    // 0x00 0x00 0x01 は不正(0x01 < 0x03)
    let mut data = vec![0x00u8, 0x00, 0x01];
    let result = ebsp_to_rbsp(&mut data);
    assert_eq!(result, None);
}

#[test]
fn test_ebsp_to_rbsp_invalid_byte_after_emulation() {
    // 0x00 0x00 0x03 0x04 → 0x04 > 0x03 は不正
    let mut data = vec![0x00u8, 0x00, 0x03, 0x04];
    let result = ebsp_to_rbsp(&mut data);
    assert_eq!(result, None);
}

#[test]
fn test_ebsp_to_rbsp_multiple_emulations() {
    // [0x00,0x00,0x03,0x00,0x00,0x03,0x01]
    // 1st removal: 0x03 at i=2 → skip, write data[3]=0x00; 2nd: 0x03 at i=5 → skip, write data[6]=0x01
    // → [0x00,0x00,0x00,0x00,0x01]  size=5
    let mut data = vec![0x00u8, 0x00, 0x03, 0x00, 0x00, 0x03, 0x01];
    let result = ebsp_to_rbsp(&mut data);
    assert_eq!(result, Some(5));
    assert_eq!(data, vec![0x00, 0x00, 0x00, 0x00, 0x01]);
}

// ---- make_minimal_seq_header ----

fn make_minimal_seq_header(aspect: u8, frame_rate: u8) -> Vec<u8> {
    // sequence_header: 0x000001B3, horizontal=1280, vertical=720
    // horizontal_size = (d[4]<<4) | (d[5]>>4) → d[4]=0x50, d[5]_upper=0x0 → 0x500=1280
    // vertical_size   = (d[5]&0x0F)<<8 | d[6] → d[5]_lower=0x2, d[6]=0xD0 → 0x2D0=720
    // marker bit = d[10] & 0x20
    let mut d = vec![0u8; 12];
    d[0] = 0x00; d[1] = 0x00; d[2] = 0x01; d[3] = 0xB3;
    d[4] = 0x50;
    d[5] = 0x02; // upper nibble 0 → horiz bits[3:0]=0, lower nibble 2 → vert bits[11:8]=2
    d[6] = 0xD0; // vert bits[7:0]
    d[7] = (aspect << 4) | (frame_rate & 0x0F);
    d[8] = 0x00; d[9] = 0x00;
    d[10] = 0x20; // marker bit set
    d[11] = 0x00; // constrained=0
    d
}

// ---- get_aspect_ratio ----

#[test]
fn test_get_aspect_ratio_square() {
    let mut seq = Mpeg2Sequence::new();
    seq.set_data(&make_minimal_seq_header(1, 4));
    assert!(seq.parse_header());
    assert_eq!(seq.get_aspect_ratio(), Some((1, 1)));
}

#[test]
fn test_get_aspect_ratio_4_3() {
    let mut seq = Mpeg2Sequence::new();
    seq.set_data(&make_minimal_seq_header(2, 4));
    assert!(seq.parse_header());
    assert_eq!(seq.get_aspect_ratio(), Some((4, 3)));
}

#[test]
fn test_get_aspect_ratio_16_9() {
    let mut seq = Mpeg2Sequence::new();
    seq.set_data(&make_minimal_seq_header(3, 4));
    assert!(seq.parse_header());
    assert_eq!(seq.get_aspect_ratio(), Some((16, 9)));
}

#[test]
fn test_get_aspect_ratio_221_100() {
    let mut seq = Mpeg2Sequence::new();
    seq.set_data(&make_minimal_seq_header(4, 4));
    assert!(seq.parse_header());
    assert_eq!(seq.get_aspect_ratio(), Some((221, 100)));
}

#[test]
fn test_get_aspect_ratio_invalid() {
    let mut seq = Mpeg2Sequence::new();
    seq.header.aspect_ratio_info = 0;
    assert_eq!(seq.get_aspect_ratio(), None);
}

// ---- get_frame_rate ----

#[test]
fn test_get_frame_rate_23_976() {
    let mut seq = Mpeg2Sequence::new();
    seq.set_data(&make_minimal_seq_header(3, 1));
    assert!(seq.parse_header());
    assert_eq!(seq.get_frame_rate(), Some((24000, 1001)));
}

#[test]
fn test_get_frame_rate_25() {
    let mut seq = Mpeg2Sequence::new();
    seq.set_data(&make_minimal_seq_header(3, 3));
    assert!(seq.parse_header());
    assert_eq!(seq.get_frame_rate(), Some((25, 1)));
}

#[test]
fn test_get_frame_rate_29_97() {
    let mut seq = Mpeg2Sequence::new();
    seq.set_data(&make_minimal_seq_header(3, 4));
    assert!(seq.parse_header());
    assert_eq!(seq.get_frame_rate(), Some((30000, 1001)));
}

#[test]
fn test_get_frame_rate_59_94() {
    let mut seq = Mpeg2Sequence::new();
    seq.set_data(&make_minimal_seq_header(3, 7));
    assert!(seq.parse_header());
    assert_eq!(seq.get_frame_rate(), Some((60000, 1001)));
}

#[test]
fn test_get_frame_rate_invalid_zero() {
    let mut seq = Mpeg2Sequence::new();
    seq.header.frame_rate_code = 0;
    assert_eq!(seq.get_frame_rate(), None);
}

#[test]
fn test_get_frame_rate_invalid_nine() {
    let mut seq = Mpeg2Sequence::new();
    seq.header.frame_rate_code = 9;
    assert_eq!(seq.get_frame_rate(), None);
}

// ---- parse_header validation ----

#[test]
fn lib_test_parse_header_too_short() {
    let mut seq = Mpeg2Sequence::new();
    seq.set_data(&[0x00, 0x00, 0x01, 0xB3, 0x50]);
    assert!(!seq.parse_header());
}

#[test]
fn test_parse_header_wrong_start_code() {
    let mut seq = Mpeg2Sequence::new();
    let mut d = make_minimal_seq_header(3, 4);
    d[3] = 0xB0;
    seq.set_data(&d);
    assert!(!seq.parse_header());
}

#[test]
fn test_parse_header_invalid_aspect_zero() {
    let mut seq = Mpeg2Sequence::new();
    seq.set_data(&make_minimal_seq_header(0, 4));
    assert!(!seq.parse_header());
}

#[test]
fn test_parse_header_invalid_frame_rate_zero() {
    let mut seq = Mpeg2Sequence::new();
    seq.set_data(&make_minimal_seq_header(3, 0));
    assert!(!seq.parse_header());
}

#[test]
fn test_parse_header_marker_bit_missing() {
    let mut seq = Mpeg2Sequence::new();
    let mut d = make_minimal_seq_header(3, 4);
    d[10] &= !0x20;
    seq.set_data(&d);
    assert!(!seq.parse_header());
}

#[test]
fn test_parse_header_dimensions() {
    let mut seq = Mpeg2Sequence::new();
    seq.set_data(&make_minimal_seq_header(3, 4));
    assert!(seq.parse_header());
    assert_eq!(seq.header.horizontal_size, 1280);
    assert_eq!(seq.header.vertical_size, 720);
}

// ---- Mpeg2VideoParser::store_es ----
// C++ の挙動: シーケンスは「次のスタートコード到着時」に出力される。
// 1つだけの ES では蓄積され、2つ目が来たときに1つ目が出力される。

#[test]
fn test_store_es_single_not_flushed() {
    // 1回で1シーケンスだけ送ってもまだ出力されない(次のスタートコード待ち)
    let mut parser = Mpeg2VideoParser::new();
    let es = make_minimal_seq_header(3, 4);
    let mut called = 0u32;
    let found = parser.store_es(&es, &mut |_: &Mpeg2Sequence| called += 1);
    assert!(!found);
    assert_eq!(called, 0);
}

#[test]
fn test_store_es_two_sequences_triggers_first() {
    // 2つ目のシーケンス開始で1つ目が出力される
    let mut parser = Mpeg2VideoParser::new();
    let mut es = make_minimal_seq_header(3, 4);
    es.extend_from_slice(&make_minimal_seq_header(2, 3));
    let mut called = 0u32;
    let mut last_aspect = 0u8;
    parser.store_es(&es, &mut |seq: &Mpeg2Sequence| {
        last_aspect = seq.header.aspect_ratio_info;
        called += 1;
    });
    // 最初のシーケンス(aspect=3)が出力される
    assert_eq!(called, 1);
    assert_eq!(last_aspect, 3);
}

#[test]
fn test_store_es_three_sequences() {
    // 3つ連続→2つ出力
    let mut parser = Mpeg2VideoParser::new();
    let mut es = make_minimal_seq_header(3, 4);
    es.extend_from_slice(&make_minimal_seq_header(2, 3));
    es.extend_from_slice(&make_minimal_seq_header(1, 2));
    let mut called = 0u32;
    parser.store_es(&es, &mut |_: &Mpeg2Sequence| called += 1);
    assert_eq!(called, 2);
}

#[test]
fn test_store_es_split_across_calls() {
    // 1つのシーケンスを2回に分けて送り、2つ目のシーケンスの開始で1つ目を出力
    let mut parser = Mpeg2VideoParser::new();
    let mut es = make_minimal_seq_header(3, 4);
    es.extend_from_slice(&make_minimal_seq_header(2, 3));
    let split = 6;
    let (first, second) = es.split_at(split);
    let mut called = 0u32;
    parser.store_es(first, &mut |_: &Mpeg2Sequence| called += 1);
    let found = parser.store_es(second, &mut |seq: &Mpeg2Sequence| {
        assert_eq!(seq.header.horizontal_size, 1280);
        called += 1;
    });
    assert!(found);
    assert_eq!(called, 1);
}

#[test]
fn test_store_es_no_start_code() {
    let mut parser = Mpeg2VideoParser::new();
    let es = vec![0xFFu8, 0xFF, 0xFF, 0xFF];
    let mut called = 0u32;
    let found = parser.store_es(&es, &mut |_: &Mpeg2Sequence| called += 1);
    assert!(!found);
    assert_eq!(called, 0);
}

#[test]
fn test_store_es_reset_clears_state() {
    // reset 後は蓄積が消え、改めて2つ送ると1つ出力
    let mut parser = Mpeg2VideoParser::new();
    let es = make_minimal_seq_header(3, 4);
    let mut called = 0u32;
    parser.store_es(&es, &mut |_: &Mpeg2Sequence| called += 1);
    assert_eq!(called, 0);
    parser.reset();
    let mut es2 = make_minimal_seq_header(3, 4);
    es2.extend_from_slice(&make_minimal_seq_header(2, 3));
    parser.store_es(&es2, &mut |_: &Mpeg2Sequence| called += 1);
    assert_eq!(called, 1);
}
