use libisdb::md5::{calc_md5, Md5Value};

fn hex(v: &Md5Value) -> String {
    v.0.iter().map(|b| format!("{:02x}", b)).collect()
}

#[test]
fn test_md5_empty() {
    // RFC 1321 テストベクタ: MD5("") = d41d8cd98f00b204e9800998ecf8427e
    assert_eq!(hex(&calc_md5(b"")), "d41d8cd98f00b204e9800998ecf8427e");
}

#[test]
fn test_md5_a() {
    // MD5("a") = 0cc175b9c0f1b6a831c399e269772661
    assert_eq!(hex(&calc_md5(b"a")), "0cc175b9c0f1b6a831c399e269772661");
}

#[test]
fn test_md5_abc() {
    // MD5("abc") = 900150983cd24fb0d6963f7d28e17f72
    assert_eq!(hex(&calc_md5(b"abc")), "900150983cd24fb0d6963f7d28e17f72");
}

#[test]
fn test_md5_message_digest() {
    // MD5("message digest") = f96b697d7cb7938d525a2f31aaf161d0
    assert_eq!(hex(&calc_md5(b"message digest")), "f96b697d7cb7938d525a2f31aaf161d0");
}

#[test]
fn test_md5_alphabet() {
    // MD5("abcdefghijklmnopqrstuvwxyz") = c3fcd3d76192e4007dfb496cca67e13b
    assert_eq!(hex(&calc_md5(b"abcdefghijklmnopqrstuvwxyz")), "c3fcd3d76192e4007dfb496cca67e13b");
}

#[test]
fn test_md5_long() {
    // MD5("ABCDEFGHIJKLMNOPQRSTUVWXYZabcdefghijklmnopqrstuvwxyz0123456789")
    // = d174ab98d277d9f5a5611c2c9f419d9f
    let input = b"ABCDEFGHIJKLMNOPQRSTUVWXYZabcdefghijklmnopqrstuvwxyz0123456789";
    assert_eq!(hex(&calc_md5(input)), "d174ab98d277d9f5a5611c2c9f419d9f");
}

#[test]
fn test_md5_numbers() {
    // MD5("12345678901234567890123456789012345678901234567890123456789012345678901234567890")
    // = 57edf4a22be3c955ac49da2e2107b67a
    let input = b"12345678901234567890123456789012345678901234567890123456789012345678901234567890";
    assert_eq!(hex(&calc_md5(input)), "57edf4a22be3c955ac49da2e2107b67a");
}

#[test]
fn test_md5_64_bytes() {
    // ちょうど 64 バイト (1 ブロック境界)
    let input = [b'a'; 64];
    let result = calc_md5(&input);
    // 再現性確認
    assert_eq!(result, calc_md5(&input));
}

#[test]
fn test_md5_55_bytes() {
    // 55 バイト (パディング後 1 ブロックで完結するギリギリ)
    let input = [b'b'; 55];
    let result = calc_md5(&input);
    assert_eq!(result, calc_md5(&input));
}

#[test]
fn test_md5_56_bytes() {
    // 56 バイト (2 ブロック必要になる境界)
    let input = [b'c'; 56];
    let result = calc_md5(&input);
    assert_eq!(result, calc_md5(&input));
}

#[test]
fn test_md5_returns_16_bytes() {
    let result = calc_md5(b"test");
    assert_eq!(result.0.len(), 16);
}

#[test]
fn test_md5_equality() {
    let a = calc_md5(b"hello");
    let b = calc_md5(b"hello");
    let c = calc_md5(b"world");
    assert_eq!(a, b);
    assert_ne!(a, c);
}

#[test]
fn test_md5_quick_fox() {
    // MD5("The quick brown fox jumps over the lazy dog")
    // = 9e107d9d372bb6826bd81d3542a419d6
    assert_eq!(
        hex(&calc_md5(b"The quick brown fox jumps over the lazy dog")),
        "9e107d9d372bb6826bd81d3542a419d6"
    );
}
