use libisdb::utilities::{byte_swap16, byte_swap32, byte_swap64, rotate_left32, rotate_right32, load16_be, load24_be, load32_be, store16_be, store24_be, store32_be, make_bcd, get_bcd_byte, get_bcd, round_off, round_up, round_down};

#[test]
fn test_byte_swap16() {
    assert_eq!(byte_swap16(0x1234), 0x3412);
    assert_eq!(byte_swap16(0x0100), 0x0001);
}

#[test]
fn test_byte_swap32() {
    assert_eq!(byte_swap32(0x12345678), 0x78563412);
    assert_eq!(byte_swap32(0x01000000), 0x00000001);
}

#[test]
fn test_byte_swap64() {
    assert_eq!(byte_swap64(0x0102030405060708), 0x0807060504030201);
}

#[test]
fn test_rotate_left32() {
    assert_eq!(rotate_left32(0x80000000, 1), 0x00000001);
    assert_eq!(rotate_left32(0x00000001, 4), 0x00000010);
}

#[test]
fn test_rotate_right32() {
    assert_eq!(rotate_right32(0x00000001, 1), 0x80000000);
    assert_eq!(rotate_right32(0x00000010, 4), 0x00000001);
}

#[test]
fn test_load16_be() {
    let data = [0xAB, 0xCD];
    assert_eq!(load16_be(&data), 0xABCD);
}

#[test]
fn test_load24_be() {
    let data = [0x01, 0x02, 0x03];
    assert_eq!(load24_be(&data), 0x010203);
}

#[test]
fn test_load32_be() {
    let data = [0x12, 0x34, 0x56, 0x78];
    assert_eq!(load32_be(&data), 0x12345678);
}

#[test]
fn test_store16_be() {
    let mut buf = [0u8; 2];
    store16_be(&mut buf, 0xABCD);
    assert_eq!(buf, [0xAB, 0xCD]);
}

#[test]
fn test_store24_be() {
    let mut buf = [0u8; 3];
    store24_be(&mut buf, 0x010203);
    assert_eq!(buf, [0x01, 0x02, 0x03]);
}

#[test]
fn test_store32_be() {
    let mut buf = [0u8; 4];
    store32_be(&mut buf, 0x12345678);
    assert_eq!(buf, [0x12, 0x34, 0x56, 0x78]);
}

#[test]
fn test_load_store_roundtrip16() {
    let mut buf = [0u8; 2];
    store16_be(&mut buf, 0xDEAD);
    assert_eq!(load16_be(&buf), 0xDEAD);
}

#[test]
fn test_load_store_roundtrip32() {
    let mut buf = [0u8; 4];
    store32_be(&mut buf, 0xDEADBEEF);
    assert_eq!(load32_be(&buf), 0xDEADBEEF);
}

#[test]
fn test_make_bcd() {
    assert_eq!(make_bcd(0), 0x00);
    assert_eq!(make_bcd(9), 0x09);
    assert_eq!(make_bcd(10), 0x10);
    assert_eq!(make_bcd(59), 0x59);
    assert_eq!(make_bcd(99), 0x99);
}

#[test]
fn test_get_bcd_byte() {
    assert_eq!(get_bcd_byte(0x00), 0);
    assert_eq!(get_bcd_byte(0x09), 9);
    assert_eq!(get_bcd_byte(0x10), 10);
    assert_eq!(get_bcd_byte(0x59), 59);
    assert_eq!(get_bcd_byte(0x99), 99);
}

#[test]
fn test_make_get_bcd_roundtrip() {
    for v in 0u8..=99 {
        assert_eq!(get_bcd_byte(make_bcd(v)), v);
    }
}

#[test]
fn test_get_bcd_multi_byte() {
    // 2 バイト(4 ニブル) = 1234
    let data = [0x12, 0x34];
    assert_eq!(get_bcd(&data, 4), 1234);
}

#[test]
fn test_get_bcd_odd_nibbles() {
    // 3 ニブル: 0x12, 0x3? → 123
    let data = [0x12, 0x30];
    assert_eq!(get_bcd(&data, 3), 123);
}

#[test]
fn test_get_bcd_single_nibble() {
    let data = [0x50];
    assert_eq!(get_bcd(&data, 1), 5);
}

#[test]
fn test_round_off() {
    assert_eq!(round_off(14, 10), 10);
    assert_eq!(round_off(15, 10), 20);
    assert_eq!(round_off(25, 10), 30);
}

#[test]
fn test_round_up() {
    assert_eq!(round_up(11, 10), 20);
    assert_eq!(round_up(10, 10), 10);
    assert_eq!(round_up(1, 10), 10);
}

#[test]
fn test_round_down() {
    assert_eq!(round_down(19, 10), 10);
    assert_eq!(round_down(20, 10), 20);
    assert_eq!(round_down(9, 10), 0);
}
