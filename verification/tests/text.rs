use nap::text::{hex_encode, parse_u32, render_i32, render_u32};

#[test]
fn renders_unsigned_decimal() {
    assert_eq!(render_u32(0), b"0".to_vec());
    assert_eq!(render_u32(7), b"7".to_vec());
    assert_eq!(render_u32(10), b"10".to_vec());
    assert_eq!(render_u32(4294967295), b"4294967295".to_vec());
}

#[test]
fn renders_signed_decimal() {
    assert_eq!(render_i32(0), b"0".to_vec());
    assert_eq!(render_i32(1234567), b"1234567".to_vec());
    assert_eq!(render_i32(-1), b"-1".to_vec());
    assert_eq!(render_i32(-2147483648), b"-2147483648".to_vec());
    assert_eq!(render_i32(2147483647), b"2147483647".to_vec());
}

#[test]
fn parses_decimal_like_the_standard_library() {
    assert_eq!(parse_u32(b"0"), Some(0));
    assert_eq!(parse_u32(b"7"), Some(7));
    assert_eq!(parse_u32(b"+7"), Some(7));
    assert_eq!(parse_u32(b"0042"), Some(42));
    assert_eq!(parse_u32(b"4294967295"), Some(4294967295));
    assert_eq!(parse_u32(b"4294967296"), None);
    assert_eq!(parse_u32(b"99999999999999999999"), None);
    assert_eq!(parse_u32(b""), None);
    assert_eq!(parse_u32(b"+"), None);
    assert_eq!(parse_u32(b"-7"), None);
    assert_eq!(parse_u32(b"12a"), None);
    assert_eq!(parse_u32(b" 7"), None);

    // the same acceptance as str::parse::<u32>() on a few samples
    for s in ["0", "7", "+7", "0042", "4294967296", "", "+", "-7", "12a"] {
        assert_eq!(parse_u32(s.as_bytes()), s.parse::<u32>().ok());
    }
}

#[test]
fn round_trips_rendered_numbers() {
    for n in [0u32, 1, 9, 10, 99, 100, 65535, 4294967295] {
        assert_eq!(parse_u32(&render_u32(n)), Some(n));
    }
}

#[test]
fn hex_encodes_lowercase_pairs() {
    assert_eq!(hex_encode(&[]), b"".to_vec());
    assert_eq!(hex_encode(&[0x00]), b"00".to_vec());
    assert_eq!(hex_encode(&[0xde, 0xad, 0xbe, 0xef]), b"deadbeef".to_vec());
    assert_eq!(hex_encode(&[0x0f, 0xf0]), b"0ff0".to_vec());
    // agrees with the hex crate
    assert_eq!(
        String::from_utf8(hex_encode(&[1, 2, 0xab])).unwrap(),
        hex::encode([1u8, 2, 0xab])
    );
}
