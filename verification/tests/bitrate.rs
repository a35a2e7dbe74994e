use libisdb::bitrate::{BitRateCalculator, CLOCKS_PER_SEC};

use std::cell::Cell;
use std::rc::Rc;

fn make_calc(clock: Rc<Cell<u64>>) -> BitRateCalculator<impl Fn() -> u64> {
    let c = clock.clone();
    BitRateCalculator::new(move || c.get())
}

#[test]
fn test_initial_state() {
    let clock = Rc::new(Cell::new(0u64));
    let calc = make_calc(clock.clone());
    assert_eq!(calc.get_bit_rate(), 0);
    assert_eq!(calc.get_update_interval(), CLOCKS_PER_SEC);
}

#[test]
fn test_reset() {
    let clock = Rc::new(Cell::new(500u64));
    let mut calc = make_calc(clock.clone());
    calc.initialize();
    clock.set(1500);
    let updated = calc.update(1000);
    assert!(updated);
    calc.reset();
    assert_eq!(calc.get_bit_rate(), 0);
}

#[test]
fn test_update_no_interval_not_elapsed() {
    let clock = Rc::new(Cell::new(0u64));
    let mut calc = make_calc(clock.clone());
    calc.initialize();
    clock.set(500); // 0.5 sec 経過: interval 未満
    let updated = calc.update(1000);
    assert!(!updated);
    assert_eq!(calc.get_bit_rate(), 0);
}

#[test]
fn test_update_interval_elapsed() {
    let clock = Rc::new(Cell::new(0u64));
    let mut calc = make_calc(clock.clone());
    calc.initialize();
    // 1000 ms (= CLOCKS_PER_SEC) 経過, 1000 バイト送信
    clock.set(1000);
    let updated = calc.update(1000);
    assert!(updated);
    // bit_rate = 1000 * 8 * 1000 / 1000 = 8000 bps
    assert_eq!(calc.get_bit_rate(), 8000);
}

#[test]
fn test_bit_rate_calc() {
    let clock = Rc::new(Cell::new(0u64));
    let mut calc = make_calc(clock.clone());
    calc.initialize();
    // 2000 ms, 500 バイト
    clock.set(2000);
    calc.update(500);
    // bit_rate = 500 * 8 * 1000 / 2000 = 2000 bps
    assert_eq!(calc.get_bit_rate(), 2000);
}

#[test]
fn test_get_bit_rate_stale() {
    let clock = Rc::new(Cell::new(0u64));
    let mut calc = make_calc(clock.clone());
    calc.initialize();
    clock.set(1000);
    calc.update(1000);
    // 直後は 8000 bps
    assert_eq!(calc.get_bit_rate(), 8000);
    // 2 インターバル (2000ms) 以上経過 → 0
    clock.set(3001);
    assert_eq!(calc.get_bit_rate(), 0);
}

#[test]
fn test_set_update_interval_valid() {
    let clock = Rc::new(Cell::new(0u64));
    let mut calc = make_calc(clock.clone());
    assert!(calc.set_update_interval(500));
    assert_eq!(calc.get_update_interval(), 500);
}

#[test]
fn test_set_update_interval_zero() {
    let clock = Rc::new(Cell::new(0u64));
    let mut calc = make_calc(clock.clone());
    assert!(!calc.set_update_interval(0));
    assert_eq!(calc.get_update_interval(), CLOCKS_PER_SEC);
}

#[test]
fn test_clock_rollback() {
    let clock = Rc::new(Cell::new(2000u64));
    let mut calc = make_calc(clock.clone());
    calc.initialize();
    // クロックが 1000 (過去) に戻る
    clock.set(1000);
    let updated = calc.update(1000);
    // 巻き戻しはリセット扱い: updated = false
    assert!(!updated);
    // last_clock が now に更新されているので次の update で正常動作
    clock.set(2001);
    let updated2 = calc.update(500);
    assert!(updated2);
}

#[test]
fn test_multiple_updates_accumulate() {
    let clock = Rc::new(Cell::new(0u64));
    let mut calc = make_calc(clock.clone());
    calc.initialize();
    clock.set(500);
    calc.update(200); // 累積 200
    clock.set(800);
    calc.update(300); // 累積 500
    clock.set(1000);
    let updated = calc.update(0); // elapsed = 1000ms
    assert!(updated);
    // bit_rate = 500 * 8 * 1000 / 1000 = 4000 bps
    assert_eq!(calc.get_bit_rate(), 4000);
}
