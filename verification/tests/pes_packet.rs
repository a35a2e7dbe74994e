use libisdb::pes_packet::{PesPacket, PesParser, PTS_CLOCK};
use libisdb::ts_packet::{TsPacket, TS_PACKET_SIZE};

fn make_ts_packet_with_payload(pid: u16, pusi: bool, cc: u8, payload: &[u8]) -> TsPacket {
    let mut data = [0u8; TS_PACKET_SIZE];
    data[0] = 0x47;
    let pusi_bit: u8 = if pusi { 0x40 } else { 0 };
    data[1] = pusi_bit | ((pid >> 8) as u8 & 0x1F);
    data[2] = pid as u8;
    data[3] = (0x01u8 << 4) | (cc & 0x0F); // payload only
    let dst = 4;
    let copy_len = payload.len().min(TS_PACKET_SIZE - dst);
    data[dst..dst + copy_len].copy_from_slice(&payload[..copy_len]);
    let mut pkt = TsPacket::new(&data);
    pkt.parse_packet(None);
    pkt
}

fn make_pes_header(stream_id: u8, pts: Option<i64>, payload_data: &[u8]) -> Vec<u8> {
    let mut pes = Vec::new();
    pes.extend_from_slice(&[0x00, 0x00, 0x01]); // start code
    pes.push(stream_id);

    let mut opt = Vec::new();
    let pts_dts_flags: u8 = if pts.is_some() { 0x02 } else { 0 }; // PTS only
    opt.push(0x80); // fixed bits
    opt.push(pts_dts_flags << 6);
    let hdl: u8 = if pts.is_some() { 5 } else { 0 };
    opt.push(hdl);

    if let Some(p) = pts {
        // PTS 33bit → 5バイトにパック (PESPacket.hpp:GetPTS の逆操作)
        // p[0]: 0b0010_HHH1  (H = bits[32:30])
        // p[1]: bits[29:22] (8 bits)
        // p[2]: bits[21:15]_1 (7 bits + marker)
        // p[3]: bits[14:7] (8 bits)
        // p[4]: bits[6:0]_1 (7 bits + marker)
        let p = p as u64;
        let b0 = ((p >> 29) & 0x06) as u8 | 0x21; // bits[31:30] in [2:1], prefix 0010, marker 1
        let b1 = ((p >> 22) & 0xFF) as u8;
        let b2 = (((p >> 15) & 0x7F) as u8) << 1 | 0x01;
        let b3 = ((p >> 7) & 0xFF) as u8;
        let b4 = ((p & 0x7F) as u8) << 1 | 0x01;
        opt.push(b0);
        opt.push(b1);
        opt.push(b2);
        opt.push(b3);
        opt.push(b4);
    }

    let packet_length = (opt.len() + payload_data.len()) as u16;
    pes.push((packet_length >> 8) as u8);
    pes.push(packet_length as u8);
    pes.extend_from_slice(&opt);
    pes.extend_from_slice(payload_data);
    pes
}

#[test]
fn test_parse_header_basic() {
    let pes_data = make_pes_header(0xE0, None, b"hello");
    let mut pkt = PesPacket::new();
    pkt.data = pes_data;
    assert!(pkt.parse_header());
    assert_eq!(pkt.get_stream_id(), 0xE0);
    assert_eq!(pkt.get_pts_dts_flags(), 0);
    assert_eq!(pkt.get_header_data_length(), 0);
}

#[test]
fn test_parse_header_with_pts() {
    let pes_data = make_pes_header(0xE0, Some(12345), b"world");
    let mut pkt = PesPacket::new();
    pkt.data = pes_data;
    assert!(pkt.parse_header());
    assert_eq!(pkt.get_pts_dts_flags(), 2); // PTS only
    let pts = pkt.get_pts_count().unwrap();
    assert_eq!(pts, 12345);
}

#[test]
fn test_parse_header_bad_start_code() {
    let mut pkt = PesPacket::new();
    pkt.data = vec![0x00, 0x01, 0x01, 0xE0, 0x00, 0x00, 0x80, 0x00, 0x00];
    assert!(!pkt.parse_header());
}

#[test]
fn test_parse_header_too_short() {
    let mut pkt = PesPacket::new();
    pkt.data = vec![0x00, 0x00, 0x01, 0xE0, 0x00];
    assert!(!pkt.parse_header());
}

#[test]
fn test_parse_header_scrambled_rejected() {
    let mut pkt = PesPacket::new();
    // scrambling_control = 0x01 (non-zero → rejected)
    pkt.data = vec![0x00, 0x00, 0x01, 0xE0, 0x00, 0x0A, 0x80 | 0x10, 0x00, 0x00];
    assert!(!pkt.parse_header());
}

#[test]
fn test_get_payload_data() {
    let pes_data = make_pes_header(0xE0, None, b"payload");
    let mut pkt = PesPacket::new();
    pkt.data = pes_data;
    pkt.parse_header();
    let payload = pkt.get_payload_data().unwrap();
    assert_eq!(payload, b"payload");
    assert_eq!(pkt.get_payload_size(), 7);
}

#[test]
fn test_get_pts_none_when_no_pts() {
    let pes_data = make_pes_header(0xE0, None, b"test");
    let mut pkt = PesPacket::new();
    pkt.data = pes_data;
    pkt.parse_header();
    assert!(pkt.get_pts_count().is_none());
}

#[test]
fn lib_test_reset() {
    let pes_data = make_pes_header(0xE0, Some(9999), b"data");
    let mut pkt = PesPacket::new();
    pkt.data = pes_data;
    pkt.parse_header();
    pkt.reset();
    assert_eq!(pkt.get_size(), 0);
    assert_eq!(pkt.get_stream_id(), 0);
}

#[test]
fn test_get_pts_value() {
    // PTS = 90000 (1秒 @ 90kHz)
    let pts_val: i64 = PTS_CLOCK;
    let pes_data = make_pes_header(0xC0, Some(pts_val), b"audio");
    let mut pkt = PesPacket::new();
    pkt.data = pes_data;
    pkt.parse_header();
    assert_eq!(pkt.get_pts_count(), Some(pts_val));
}

#[test]
fn test_parser_single_pes() {
    let pes_data = make_pes_header(0xE0, None, b"video");
    let pkt = make_ts_packet_with_payload(0x100, true, 0, &pes_data);

    let mut parser = PesParser::new();
    let mut received: Vec<Vec<u8>> = Vec::new();
    let triggered = parser.store_packet(&pkt, &mut |p| {
        received.push(p.data.clone());
    });
    assert!(triggered);
    // packet_length を元に完成するかは packet_length 依存
    // ここでは簡易確認のみ
}

#[test]
fn test_parser_reset() {
    let mut parser = PesParser::new();
    let pes_data = make_pes_header(0xE0, None, b"data");
    let pkt = make_ts_packet_with_payload(0x100, true, 0, &pes_data);
    parser.store_packet(&pkt, &mut |_| {});
    parser.reset();
    assert_eq!(parser.packet().get_size(), 0);
    assert!(!parser.is_storing());
}

#[test]
fn test_program_stream_map_no_additional_header() {
    // stream_id=0xBC (PROGRAM_STREAM_MAP) → 追加ヘッダなし
    let mut pkt = PesPacket::new();
    pkt.data = vec![0x00, 0x00, 0x01, 0xBC, 0x00, 0x05, 0xAA, 0xBB, 0xCC, 0xDD, 0xEE];
    assert!(pkt.parse_header());
    assert_eq!(pkt.get_stream_id(), 0xBC);
    // ペイロードは 6 バイト目から
    let payload = pkt.get_payload_data().unwrap();
    assert_eq!(payload[0], 0xAA);
}

#[test]
fn test_pts_clock_value() {
    assert_eq!(PTS_CLOCK, 90000);
}
