use libisdb::bitstream::BitstreamReader;

#[test]
fn test_get_bits_zero() {
    let data = [0x00u8];
    let mut r = BitstreamReader::new(&data);
    assert_eq!(r.get_bits(0), 0);
    assert_eq!(r.get_pos(), 0);
    assert!(!r.is_overrun());
}

#[test]
fn test_get_bits_single_byte() {
    let data = [0xA5u8]; // 1010_0101
    let mut r = BitstreamReader::new(&data);
    assert_eq!(r.get_bits(4), 0b1010); // 上位 4 ビット
    assert_eq!(r.get_bits(4), 0b0101); // 下位 4 ビット
    assert!(!r.is_overrun());
}

#[test]
fn test_get_bits_cross_byte() {
    // 0xFF 0x00 → bit列 1111_1111_0000_0000
    let data = [0xFFu8, 0x00u8];
    let mut r = BitstreamReader::new(&data);
    // 4 ビット読む → 0b1111
    assert_eq!(r.get_bits(4), 0b1111);
    // 次の 8 ビット(byte 境界跨ぎ) → 0b1111_0000
    assert_eq!(r.get_bits(8), 0b11110000);
}

#[test]
fn test_get_flag() {
    let data = [0b10100000u8];
    let mut r = BitstreamReader::new(&data);
    assert!(r.get_flag());  // bit 7 = 1
    assert!(!r.get_flag()); // bit 6 = 0
    assert!(r.get_flag());  // bit 5 = 1
}

#[test]
fn test_overrun() {
    let data = [0xFFu8];
    let mut r = BitstreamReader::new(&data);
    r.get_bits(8); // ぴったり消費
    assert!(!r.is_overrun());
    r.get_bits(1); // オーバーラン
    assert!(r.is_overrun());
    assert_eq!(r.get_pos(), 8); // bit_pos = bit_size
}

#[test]
fn test_skip() {
    let data = [0xA5u8]; // 1010_0101
    let mut r = BitstreamReader::new(&data);
    assert!(r.skip(4));
    assert_eq!(r.get_pos(), 4);
    assert_eq!(r.get_bits(4), 0b0101);
}

#[test]
fn test_skip_overrun() {
    let data = [0xFFu8];
    let mut r = BitstreamReader::new(&data);
    assert!(!r.skip(9)); // 9 ビット > 8 ビット
    assert!(r.is_overrun());
}

#[test]
fn test_get_ue_v_zero() {
    // ue(0) = bit "1" → code_num 0
    let data = [0b10000000u8];
    let mut r = BitstreamReader::new(&data);
    assert_eq!(r.get_ue_v(), Some(0));
}

#[test]
fn test_get_ue_v_one() {
    // ue(1) = bits "010" → code_num 1
    let data = [0b01000000u8];
    let mut r = BitstreamReader::new(&data);
    assert_eq!(r.get_ue_v(), Some(1));
}

#[test]
fn test_get_ue_v_two() {
    // ue(2) = bits "011" → code_num 2
    let data = [0b01100000u8];
    let mut r = BitstreamReader::new(&data);
    assert_eq!(r.get_ue_v(), Some(2));
}

#[test]
fn test_get_ue_v_three() {
    // ue(3) = bits "00100" → code_num 3
    let data = [0b00100000u8];
    let mut r = BitstreamReader::new(&data);
    assert_eq!(r.get_ue_v(), Some(3));
}

#[test]
fn test_get_se_v_zero() {
    // se(0): ue code_num=0, n=0 → value = (0+1)>>1 = 0, bit=0 → -0 = 0
    let data = [0b10000000u8];
    let mut r = BitstreamReader::new(&data);
    assert_eq!(r.get_se_v(), Some(0));
}

#[test]
fn test_get_se_v_pos1() {
    // se(1): ue code_num=1, n=1-1+1=1 → value=(1+1)>>1=1, bit=1 → 1
    let data = [0b01000000u8]; // "010"
    let mut r = BitstreamReader::new(&data);
    assert_eq!(r.get_se_v(), Some(1));
}

#[test]
fn test_get_se_v_neg1() {
    // se(-1): "011" code_num=2, n=2 → value=1, bit=0 → -1
    let data = [0b01100000u8];
    let mut r = BitstreamReader::new(&data);
    assert_eq!(r.get_se_v(), Some(-1));
}

#[test]
fn test_get_bits_all_ones() {
    let data = [0xFF, 0xFF];
    let mut r = BitstreamReader::new(&data);
    assert_eq!(r.get_bits(16), 0xFFFF);
    assert!(!r.is_overrun());
}

#[test]
fn test_sequential_reads() {
    let data = [0b11001010u8, 0b00110101u8];
    let mut r = BitstreamReader::new(&data);
    assert_eq!(r.get_bits(2), 0b11);
    assert_eq!(r.get_bits(2), 0b00);
    assert_eq!(r.get_bits(4), 0b1010);
    assert_eq!(r.get_bits(4), 0b0011);
    assert_eq!(r.get_bits(4), 0b0101);
    assert!(!r.is_overrun());
}

#[test]
fn test_exp_golomb_at_end_of_data_is_none_with_overrun() {
    let data = [0xFFu8];
    let mut r = BitstreamReader::new(&data);
    assert_eq!(r.get_bits(8), 0xFF);
    assert_eq!(r.get_ue_v(), None);
    assert!(r.is_overrun());
    assert_eq!(r.get_pos(), 8);

    let mut e = BitstreamReader::new(&[]);
    assert_eq!(e.get_se_v(), None);
    assert!(e.is_overrun());
    assert_eq!(e.get_pos(), 0);
}
