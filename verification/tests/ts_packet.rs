use libisdb::ts_packet::{TsPacket, ParseResult, TS_PACKET_SIZE, PID_NULL, NUM_PID};

fn make_packet(pid: u16, has_payload: bool, pusi: bool, cc: u8) -> [u8; TS_PACKET_SIZE] {
    let mut data = [0u8; TS_PACKET_SIZE];
    data[0] = 0x47;
    let pusi_bit: u8 = if pusi { 0x40 } else { 0 };
    let afc: u8 = if has_payload { 0x01 } else { 0x02 };
    data[1] = pusi_bit | ((pid >> 8) as u8 & 0x1F);
    data[2] = pid as u8;
    data[3] = (afc << 4) | (cc & 0x0F);
    data
}

fn make_af_packet(pid: u16, afl: u8, flags: u8, cc: u8) -> [u8; TS_PACKET_SIZE] {
    let mut data = [0u8; TS_PACKET_SIZE];
    data[0] = 0x47;
    data[1] = (pid >> 8) as u8 & 0x1F;
    data[2] = pid as u8;
    data[3] = (0x03u8 << 4) | (cc & 0x0F); // afc=3 (AF+payload)
    data[4] = afl;
    if afl > 0 {
        data[5] = flags;
    }
    data
}

#[test]
fn test_parse_ok_payload_only() {
    let data = make_packet(0x101, true, false, 5);
    let mut pkt = TsPacket::new(&data);
    assert_eq!(pkt.parse_packet(None), ParseResult::Success);
    assert_eq!(pkt.get_pid(), 0x101);
    assert!(pkt.have_payload());
    assert!(!pkt.have_adaptation_field());
    assert_eq!(pkt.get_continuity_counter(), 5);
}

#[test]
fn test_parse_bad_sync() {
    let mut data = make_packet(0x101, true, false, 0);
    data[0] = 0x00;
    let mut pkt = TsPacket::new(&data);
    assert_eq!(pkt.parse_packet(None), ParseResult::FormatError);
}

#[test]
fn test_parse_transport_error() {
    let mut data = make_packet(0x101, true, false, 0);
    data[1] |= 0x80;
    let mut pkt = TsPacket::new(&data);
    assert_eq!(pkt.parse_packet(None), ParseResult::TransportError);
}

#[test]
fn test_parse_reserved_pid_range() {
    let data = make_packet(0x0005, true, false, 0);
    let mut pkt = TsPacket::new(&data);
    assert_eq!(pkt.parse_packet(None), ParseResult::FormatError);
}

#[test]
fn test_parse_pid_boundary_low() {
    let data = make_packet(0x0001, true, false, 0);
    let mut pkt = TsPacket::new(&data);
    assert_eq!(pkt.parse_packet(None), ParseResult::Success);
}

#[test]
fn test_parse_pid_boundary_high() {
    let data = make_packet(0x0010, true, false, 0);
    let mut pkt = TsPacket::new(&data);
    assert_eq!(pkt.parse_packet(None), ParseResult::Success);
}

#[test]
fn test_payload_unit_start_indicator() {
    let data = make_packet(0x200, true, true, 0);
    let mut pkt = TsPacket::new(&data);
    pkt.parse_packet(None);
    assert!(pkt.get_payload_unit_start_indicator());
}

#[test]
fn test_get_payload_data_payload_only() {
    let data = make_packet(0x101, true, false, 0);
    let mut pkt = TsPacket::new(&data);
    pkt.parse_packet(None);
    let payload = pkt.get_payload_data().unwrap();
    assert_eq!(payload.len(), TS_PACKET_SIZE - 4);
    assert_eq!(pkt.get_payload_size(), 184);
}

#[test]
fn test_get_payload_data_af_and_payload() {
    let data = make_af_packet(0x101, 1, 0x00, 0);
    let mut pkt = TsPacket::new(&data);
    pkt.parse_packet(None);
    let payload = pkt.get_payload_data().unwrap();
    assert_eq!(payload.len(), TS_PACKET_SIZE - 6);
    assert_eq!(pkt.get_payload_size(), 182);
}

#[test]
fn test_get_payload_data_af_only() {
    let mut data = [0u8; TS_PACKET_SIZE];
    data[0] = 0x47;
    data[1] = 0x01;
    data[2] = 0x00;
    data[3] = 0x02 << 4; // afc=2 (AF only)
    data[4] = 183;
    let mut pkt = TsPacket::new(&data);
    pkt.parse_packet(None);
    assert!(pkt.get_payload_data().is_none());
    assert_eq!(pkt.get_payload_size(), 0);
}

#[test]
fn test_set_pid() {
    let data = make_packet(0x100, true, false, 0);
    let mut pkt = TsPacket::new(&data);
    pkt.parse_packet(None);
    pkt.set_pid(0x0501);
    assert_eq!(pkt.get_pid(), 0x0501);
    assert_eq!(pkt.data[1] & 0x1F, 0x05);
    assert_eq!(pkt.data[2], 0x01);
}

#[test]
fn test_continuity_check_ok() {
    let mut counters = Box::new([0x10u8; NUM_PID]);
    let pid = 0x100u16;
    for cc in 0u8..16 {
        let data = make_packet(pid, true, false, cc);
        let mut pkt = TsPacket::new(&data);
        assert_eq!(pkt.parse_packet(Some(&mut counters)), ParseResult::Success, "cc={}", cc);
    }
    let data = make_packet(pid, true, false, 0);
    let mut pkt = TsPacket::new(&data);
    assert_eq!(pkt.parse_packet(Some(&mut counters)), ParseResult::Success);
}

#[test]
fn test_continuity_check_error() {
    let mut counters = Box::new([0x10u8; NUM_PID]);
    let pid = 0x100u16;
    let data = make_packet(pid, true, false, 0);
    let mut pkt = TsPacket::new(&data);
    pkt.parse_packet(Some(&mut counters));
    let data = make_packet(pid, true, false, 2);
    let mut pkt = TsPacket::new(&data);
    assert_eq!(pkt.parse_packet(Some(&mut counters)), ParseResult::ContinuityError);
}

#[test]
fn test_null_pid_no_continuity_check() {
    let mut counters = Box::new([0x10u8; NUM_PID]);
    let data = make_packet(PID_NULL, true, false, 5);
    let mut pkt = TsPacket::new(&data);
    assert_eq!(pkt.parse_packet(Some(&mut counters)), ParseResult::Success);
    assert_eq!(counters[PID_NULL as usize], 0x10);
}

#[test]
fn test_adaptation_field_flags() {
    let data = make_af_packet(0x200, 1, 0x50, 0); // RAF | PCR
    let mut pkt = TsPacket::new(&data);
    pkt.parse_packet(None);
    assert!(pkt.have_adaptation_field());
    assert!(pkt.get_random_access_indicator());
    assert!(pkt.get_pcr_flag());
    assert!(!pkt.get_discontinuity_indicator());
}

#[test]
fn test_discontinuity_indicator() {
    let data = make_af_packet(0x200, 1, 0x80, 0);
    let mut pkt = TsPacket::new(&data);
    pkt.parse_packet(None);
    assert!(pkt.get_discontinuity_indicator());
}

#[test]
fn test_is_scrambled() {
    let mut data = make_packet(0x100, true, false, 0);
    data[3] = (data[3] & 0x3F) | 0x80; // tsc = 0b10 → scrambled
    let mut pkt = TsPacket::new(&data);
    pkt.parse_packet(None);
    assert!(pkt.is_scrambled());
}

#[test]
fn test_reparse_packet() {
    let data = make_packet(0x300, true, true, 7);
    let mut pkt = TsPacket::new(&data);
    pkt.parse_packet(None);
    pkt.reparse_packet();
    assert_eq!(pkt.get_pid(), 0x300);
    assert!(pkt.get_payload_unit_start_indicator());
    assert_eq!(pkt.get_continuity_counter(), 7);
}

#[test]
fn test_pid_null_value() {
    assert_eq!(PID_NULL, 0x1FFF);
}

#[test]
fn test_scrambling_control_undefined() {
    let mut data = make_packet(0x100, true, false, 0);
    data[3] = (data[3] & 0xCF) | 0x40; // tsc = 0b01 → undefined
    let mut pkt = TsPacket::new(&data);
    assert_eq!(pkt.parse_packet(None), ParseResult::FormatError);
}

#[test]
fn test_afc_zero_is_error() {
    let mut data = make_packet(0x100, true, false, 0);
    data[3] = data[3] & 0x0F; // afc=0 → undefined
    let mut pkt = TsPacket::new(&data);
    assert_eq!(pkt.parse_packet(None), ParseResult::FormatError);
}

#[test]
fn test_adaptation_field_length_overflow_afc2() {
    // afc=2 (AF only) で afl > 183 → FormatError
    let mut data = [0u8; TS_PACKET_SIZE];
    data[0] = 0x47;
    data[1] = 0x01;
    data[2] = 0x00;
    data[3] = 0x02 << 4; // afc=2
    data[4] = 184;       // > 183
    let mut pkt = TsPacket::new(&data);
    assert_eq!(pkt.parse_packet(None), ParseResult::FormatError);
}

#[test]
fn test_adaptation_field_length_overflow_afc3() {
    // afc=3 (AF+payload) で afl > 182 → FormatError
    let data = make_af_packet(0x100, 183, 0x00, 0); // afl=183 > 182
    let mut pkt = TsPacket::new(&data);
    assert_eq!(pkt.parse_packet(None), ParseResult::FormatError);
}
