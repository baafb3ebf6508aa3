use time::parsing::{wsp, Integer, IntegerParseBytes};

#[test]
fn parse_unsigned() {
    assert_eq!(<u8 as Integer>::parse_bytes(b"255"), Some(255u8));
    assert_eq!(<u8 as Integer>::parse_bytes(b"256"), None);
    assert_eq!(<u8 as Integer>::parse_bytes(b"0007"), Some(7u8));
    assert_eq!(<u8 as Integer>::parse_bytes(b""), Some(0u8));
    assert_eq!(<u16 as Integer>::parse_bytes(b"65535"), Some(65_535u16));
    assert_eq!(<u16 as Integer>::parse_bytes(b"65536"), None);
    assert_eq!(<u32 as Integer>::parse_bytes(b"4294967295"), Some(u32::MAX));
    assert_eq!(<u32 as Integer>::parse_bytes(b"4294967296"), None);
    assert_eq!(<u32 as Integer>::parse_bytes(b"99999999999"), None);
}

#[test]
fn parse_through_slice() {
    let bytes: &[u8] = b"1234";
    let value: Option<u16> = bytes.parse_bytes();
    assert_eq!(value, Some(1234));
    let too_big: Option<u8> = bytes.parse_bytes();
    assert_eq!(too_big, None);
}

#[test]
fn non_digits_count_their_distance_from_zero() {
    // Bytes above `9` are not refused: each counts as its distance above `0`.
    assert_eq!(<u16 as Integer>::parse_bytes(b"1:"), Some(20u16));
}

#[test]
fn parse_reads_back_formatted_numbers() {
    for v in [0u32, 7, 10, 99, 1_000, 65_535, 123_456_789, u32::MAX] {
        assert_eq!(<u32 as Integer>::parse_bytes(v.to_string().as_bytes()), Some(v));
    }
}

#[test]
fn whitespace() {
    let item = wsp(b" rest").unwrap();
    assert_eq!(item.0, b"rest");
    let item = wsp(b"\tx").unwrap();
    assert_eq!(item.0, b"x");
    assert!(wsp(b"x ").is_none());
    assert!(wsp(b"").is_none());
    assert!(wsp(b"\n").is_none());
}
