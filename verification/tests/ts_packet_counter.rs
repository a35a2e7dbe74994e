use libisdb::ts_info::PID_PAT;
use libisdb::ts_packet::{TsPacket, TS_PACKET_SIZE};
use libisdb::ts_packet_counter::{PacketRoute, TsPacketCounter};
use std::cell::Cell;
use std::rc::Rc;

/// A payload-only packet (adaptation field control 01).
fn make_ts_packet(pid: u16, cc: u8, pusi: bool, payload: &[u8]) -> [u8; TS_PACKET_SIZE] {
    let mut p = [0xFFu8; TS_PACKET_SIZE];
    p[0] = 0x47;
    p[1] = ((pusi as u8) << 6) | ((pid >> 8) as u8 & 0x1F);
    p[2] = (pid & 0xFF) as u8;
    p[3] = 0x10 | (cc & 0x0F);
    let n = payload.len().min(184);
    p[4..4 + n].copy_from_slice(&payload[..n]);
    p
}

fn packet(bytes: &[u8; TS_PACKET_SIZE]) -> TsPacket {
    let mut pkt = TsPacket::new(bytes);
    pkt.parse_packet(None);
    pkt
}

fn zero_clock() -> impl Fn() -> u64 + Clone {
    || 0u64
}

#[test]
fn test_input_packet_count() {
    let mut counter = TsPacketCounter::new(zero_clock());
    for cc in 0..4u8 {
        let route = counter.process_packet(&packet(&make_ts_packet(0x0100, cc, true, b"x")));
        assert_eq!(route, PacketRoute::Other);
    }
    assert_eq!(counter.get_input_packet_count(), 4);
    counter.reset_input_packet_count();
    assert_eq!(counter.get_input_packet_count(), 0);
}

#[test]
fn test_scrambled_count_no_target() {
    let mut counter = TsPacketCounter::new(zero_clock());
    // no service chosen: every scrambled packet is counted
    let mut s = make_ts_packet(0x0100, 0, true, b"x");
    s[3] |= 0x80;
    counter.process_packet(&packet(&s));
    // an unscrambled one is not
    counter.process_packet(&packet(&make_ts_packet(0x0100, 1, true, b"x")));
    assert_eq!(counter.get_scrambled_packet_count(), 1);
    counter.reset_scrambled_packet_count();
    assert_eq!(counter.get_scrambled_packet_count(), 0);
}

#[test]
fn test_routes() {
    let mut counter = TsPacketCounter::new(zero_clock());
    assert_eq!(counter.process_packet(&packet(&make_ts_packet(PID_PAT, 0, true, b""))), PacketRoute::Pat);
    counter.on_pat(&[(0x0030, 0x0100)]);
    assert_eq!(counter.process_packet(&packet(&make_ts_packet(0x0100, 0, true, b""))), PacketRoute::Pmt);
    assert_eq!(counter.process_packet(&packet(&make_ts_packet(0x0101, 0, true, b""))), PacketRoute::Other);
    assert_eq!(counter.get_input_packet_count(), 3);
}

#[test]
fn test_pat_pmt_es_bitrate() {
    let time = Rc::new(Cell::new(0u64));
    let t = time.clone();
    let mut counter = TsPacketCounter::new(move || t.get());
    let service_id = 0x0030u16;
    let pmt_pid = 0x0100u16;
    let video_pid = 0x0111u16;
    // the association table: program 0x0030 with its map on 0x0100
    counter.on_pat(&[(service_id, pmt_pid)]);
    // the map of program 0x0030: one video stream 0x0111
    counter.on_pmt(service_id, &[video_pid]);
    // choosing the service starts counting its streams
    counter.set_active_service_id(service_id);
    counter.set_video_pid(video_pid);
    counter.process_packet(&packet(&make_ts_packet(video_pid, 0, true, b"video-payload")));
    assert_eq!(counter.get_video_bit_rate(), 0);
    // one second later another packet updates the rate
    time.set(1000);
    counter.process_packet(&packet(&make_ts_packet(video_pid, 1, true, b"video-payload")));
    assert!(counter.get_video_bit_rate() > 0);
    // two full payloads in one second
    assert_eq!(counter.get_video_bit_rate(), 2 * 184 * 8);
    assert_eq!(counter.get_audio_bit_rate(), 0);
}

#[test]
fn test_scrambled_count_with_target_only_es() {
    let mut counter = TsPacketCounter::new(zero_clock());
    let service_id = 0x0030u16;
    let es_pid = 0x0111u16;
    counter.on_pat(&[(service_id, 0x0100)]);
    counter.on_pmt(service_id, &[es_pid]);
    counter.set_active_service_id(service_id);
    // a scrambled packet of the chosen service's stream is counted
    let mut s_es = make_ts_packet(es_pid, 0, true, b"x");
    s_es[3] |= 0x80;
    counter.process_packet(&packet(&s_es));
    assert_eq!(counter.get_scrambled_packet_count(), 1);
    // one of another PID is not, a service being chosen
    let mut s_other = make_ts_packet(0x0500, 0, true, b"x");
    s_other[3] |= 0x80;
    counter.process_packet(&packet(&s_other));
    assert_eq!(counter.get_scrambled_packet_count(), 1);
}

#[test]
fn test_pmt_change_moves_counted_streams() {
    let mut counter = TsPacketCounter::new(zero_clock());
    counter.on_pat(&[(0x0030, 0x0100), (0x0031, 0x0101)]);
    counter.on_pmt(0x0030, &[0x0111]);
    counter.on_pmt(0x0031, &[0x0211]);
    counter.set_active_service_id(0x0030);
    // the chosen service's streams change
    counter.on_pmt(0x0030, &[0x0112]);
    let mut old_es = make_ts_packet(0x0111, 0, true, b"x");
    old_es[3] |= 0x80;
    counter.process_packet(&packet(&old_es));
    assert_eq!(counter.get_scrambled_packet_count(), 0);
    let mut new_es = make_ts_packet(0x0112, 0, true, b"x");
    new_es[3] |= 0x80;
    counter.process_packet(&packet(&new_es));
    assert_eq!(counter.get_scrambled_packet_count(), 1);
    // choosing the other service
    counter.set_active_service_id(0x0031);
    counter.process_packet(&packet(&new_es));
    assert_eq!(counter.get_scrambled_packet_count(), 1);
    let mut other = make_ts_packet(0x0211, 0, true, b"x");
    other[3] |= 0x80;
    counter.process_packet(&packet(&other));
    assert_eq!(counter.get_scrambled_packet_count(), 2);
    // a new association table forgets the streams
    counter.on_pat(&[(0x0031, 0x0101)]);
    counter.process_packet(&packet(&other));
    assert_eq!(counter.get_scrambled_packet_count(), 2);
}

#[test]
fn test_reset_clears_state() {
    let mut counter = TsPacketCounter::new(zero_clock());
    let mut s = make_ts_packet(0x0100, 0, true, b"x");
    s[3] |= 0x80;
    counter.process_packet(&packet(&s));
    assert_eq!(counter.get_input_packet_count(), 1);
    assert_eq!(counter.get_scrambled_packet_count(), 1);
    counter.set_video_pid(0x0111);
    counter.reset();
    assert_eq!(counter.get_input_packet_count(), 0);
    assert_eq!(counter.get_scrambled_packet_count(), 0);
    assert_eq!(counter.get_video_bit_rate(), 0);
}

#[test]
fn test_active_pid_setters() {
    let mut counter = TsPacketCounter::new(zero_clock());
    counter.set_active_video_pid(0x0111, true);
    counter.set_active_audio_pid(0x0112, false);
    assert_eq!(counter.get_video_bit_rate(), 0);
    assert_eq!(counter.get_audio_bit_rate(), 0);
}
