use recur64::hashing::{sha256_hex, to_hex_lower};
use recur64::replay::frame::encode_shard_frame;
use recur64::text::{decimal_string, parse_u32_range};

#[test]
fn sha256_of_abc_matches_the_standard_vector() {
    assert_eq!(
        sha256_hex(b"abc"),
        "ba7816bf8f01cfea414140de5dae2223b00361a396177a9cb410ff61f20015ad"
    );
    assert_eq!(sha256_hex(b"x").len(), 64);
    assert_eq!(
        sha256_hex(b""),
        "e3b0c44298fc1c149afbf4c8996fb92427ae41e4649b934ca495991b7852b855"
    );
}

#[test]
fn frame_checksums_match_the_crc32_check_values() {
    let crc_of = |payload: &[u8]| {
        let b = encode_shard_frame(payload);
        u32::from_le_bytes([b[12], b[13], b[14], b[15]])
    };
    assert_eq!(crc_of(b"123456789"), 0xCBF4_3926);
    assert_eq!(crc_of(b""), 0);
}

#[test]
fn hex_is_lower_case_two_digits_per_byte() {
    assert_eq!(to_hex_lower(&[0x00, 0x0f, 0xa0, 0xff]), "000fa0ff");
    assert_eq!(to_hex_lower(&[]), "");
}

#[test]
fn decimal_text_round_trips() {
    assert_eq!(decimal_string(0), "0");
    assert_eq!(decimal_string(4_294_967_295), "4294967295");
    assert_eq!(parse_u32_range("x+42y", 1, 4), Some(42));
    assert_eq!(parse_u32_range("4294967296", 0, 10), None);
    assert_eq!(parse_u32_range("+", 0, 1), None);
    assert_eq!(parse_u32_range("12a", 0, 3), None);
}
