use zkp_verifier::hex::{hex_decode, hex_string, read_hex, HexRead};

#[test]
fn test_hex_string_exact() {
    assert_eq!(hex_string(&[0x00, 0x0f, 0xa0, 0xff]), "000fa0ff");
    assert_eq!(hex_string(&[]), "");
}

#[test]
fn test_hex_decode_roundtrip_and_cases() {
    let bytes: Vec<u8> = (0..=255u8).collect();
    assert_eq!(hex_decode(&hex_string(&bytes)), Some(bytes));
    assert_eq!(hex_decode("DEADbeef"), Some(vec![0xde, 0xad, 0xbe, 0xef]));
    assert_eq!(hex_decode("+a01"), Some(vec![0x0a, 0x01]));
    assert_eq!(hex_decode("0g"), None);
    assert_eq!(hex_decode("-1"), None);
    assert_eq!(hex_decode("zz1"), None);
    assert_eq!(hex_decode(""), Some(vec![]));
}

#[test]
fn test_read_hex_outcomes() {
    assert!(matches!(read_hex("000fab"), HexRead::Bytes(v) if v == vec![0x00, 0x0f, 0xab]));
    assert!(matches!(read_hex("0g12"), HexRead::Invalid));
    assert!(matches!(read_hex("abc"), HexRead::CutsText));
    // an invalid pair before the cut is reported first
    assert!(matches!(read_hex("zz1"), HexRead::Invalid));
    // a two-byte character in the first pair: the slice cuts it
    assert!(matches!(read_hex("a\u{e9}bc"), HexRead::CutsText));
    // a two-byte character filling a pair exactly is no number
    assert!(matches!(read_hex("\u{e9}00"), HexRead::Invalid));
}
