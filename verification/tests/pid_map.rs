use libisdb::pid_map::{PIDMapManager, PIDMapTarget, PID_MAX};

use libisdb::ts_packet::{TS_PACKET_SIZE, TsPacket};
use std::cell::Cell;
use std::rc::Rc;

struct CountingTarget {
    pub count: Rc<Cell<usize>>,
}

impl CountingTarget {
    fn new() -> Self {
        Self { count: Rc::new(Cell::new(0)) }
    }

    fn shared(count: &Rc<Cell<usize>>) -> Self {
        Self { count: count.clone() }
    }
}

impl PIDMapTarget for CountingTarget {
    fn store_packet(&mut self, _packet: &TsPacket) -> bool {
        self.count.set(self.count.get() + 1);
        true
    }
}

fn make_packet(pid: u16) -> TsPacket {
    let mut data = [0u8; TS_PACKET_SIZE];
    data[0] = 0x47;
    data[1] = ((pid >> 8) & 0x1F) as u8;
    data[2] = (pid & 0xFF) as u8;
    data[3] = 0x10; // adaptation_field_control=0b01 (payload only)
    let mut pkt = TsPacket::new(&data);
    pkt.parse_packet(None);
    pkt
}

#[test]
fn test_new_empty() {
    let mgr = PIDMapManager::new();
    assert_eq!(mgr.get_map_count(), 0);
}

#[test]
fn test_map_and_store() {
    let mut mgr = PIDMapManager::new();
    assert!(mgr.map_target(0x0100, Box::new(CountingTarget::new())));
    assert_eq!(mgr.get_map_count(), 1);

    let pkt = make_packet(0x0100);
    assert!(mgr.store_packet(&pkt));
}

#[test]
fn test_store_unmapped_pid() {
    let mut mgr = PIDMapManager::new();
    let pkt = make_packet(0x0100);
    assert!(!mgr.store_packet(&pkt));
}

#[test]
fn test_unmap() {
    let mut mgr = PIDMapManager::new();
    mgr.map_target(0x0010, Box::new(CountingTarget::new()));
    assert_eq!(mgr.get_map_count(), 1);
    assert!(mgr.unmap_target(0x0010));
    assert_eq!(mgr.get_map_count(), 0);
}

#[test]
fn test_unmap_nonexistent() {
    let mut mgr = PIDMapManager::new();
    assert!(!mgr.unmap_target(0x0100));
}

#[test]
fn test_remap_replaces_old_target() {
    let mut mgr = PIDMapManager::new();
    mgr.map_target(0x0100, Box::new(CountingTarget::new()));
    assert_eq!(mgr.get_map_count(), 1);
    // 再登録 → 古いターゲットが解除されカウントは 1 のまま
    mgr.map_target(0x0100, Box::new(CountingTarget::new()));
    assert_eq!(mgr.get_map_count(), 1);
}

#[test]
fn test_pid_max_boundary() {
    let mut mgr = PIDMapManager::new();
    // PID_MAX(0x1FFF) は有効
    assert!(mgr.map_target(PID_MAX, Box::new(CountingTarget::new())));
    // PID_MAX+1 は無効
    assert!(!mgr.map_target(PID_MAX + 1, Box::new(CountingTarget::new())));
    assert_eq!(mgr.get_map_count(), 1);
}

#[test]
fn test_unmap_all() {
    let mut mgr = PIDMapManager::new();
    mgr.map_target(0x0010, Box::new(CountingTarget::new()));
    mgr.map_target(0x0011, Box::new(CountingTarget::new()));
    mgr.map_target(0x0012, Box::new(CountingTarget::new()));
    assert_eq!(mgr.get_map_count(), 3);
    mgr.unmap_all_targets();
    assert_eq!(mgr.get_map_count(), 0);
}

#[test]
fn test_get_map_target_absent() {
    let mgr = PIDMapManager::new();
    assert!(mgr.get_map_target(0x0100).is_none());
}

#[test]
fn test_get_map_target_invalid_pid() {
    let mgr = PIDMapManager::new();
    assert!(mgr.get_map_target(0xFFFF).is_none());
}

#[test]
fn test_multiple_pids() {
    let mut mgr = PIDMapManager::new();
    for &pid in &[0x0010_u16, 0x0020, 0x0030] {
        mgr.map_target(pid, Box::new(CountingTarget::new()));
    }
    assert_eq!(mgr.get_map_count(), 3);

    for &pid in &[0x0010_u16, 0x0020, 0x0030] {
        let pkt = make_packet(pid);
        assert!(mgr.store_packet(&pkt));
    }

    // 無関係 PID はルーティングされない
    let pkt = make_packet(0x0040);
    assert!(!mgr.store_packet(&pkt));
}

#[test]
fn test_default() {
    let mgr = PIDMapManager::default();
    assert_eq!(mgr.get_map_count(), 0);
}

#[test]
fn test_store_packet_routing_count() {
    let mut mgr = PIDMapManager::new();
    let count100 = Rc::new(Cell::new(0usize));
    let count200 = Rc::new(Cell::new(0usize));
    mgr.map_target(0x0100, Box::new(CountingTarget::shared(&count100)));
    mgr.map_target(0x0200, Box::new(CountingTarget::shared(&count200)));

    // 0x0100 に 3 回送る
    for _ in 0..3 {
        mgr.store_packet(&make_packet(0x0100));
    }
    // 0x0200 に 2 回送る
    for _ in 0..2 {
        mgr.store_packet(&make_packet(0x0200));
    }

    // get_map_target_mut で登録済みを確認し、カウントを確認
    assert!(mgr.get_map_target_mut(0x0100).is_some());
    assert_eq!(count100.get(), 3);

    assert!(mgr.get_map_target_mut(0x0200).is_some());
    assert_eq!(count200.get(), 2);
}
