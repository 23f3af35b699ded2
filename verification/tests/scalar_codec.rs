//! Tests for the scalar codec: decimal 64-bit integers and base64 bytes.

use secretmanager::scalar::{b64_to_bytes, bytes_to_b64, dec_to_i64, i64_to_dec};

#[test]
fn i64_encodes_canonically() {
    assert_eq!(i64_to_dec(0), "0");
    assert_eq!(i64_to_dec(7), "7");
    assert_eq!(i64_to_dec(-7), "-7");
    assert_eq!(i64_to_dec(9223372036854775807), "9223372036854775807");
    assert_eq!(i64_to_dec(-9223372036854775808), "-9223372036854775808");
}

#[test]
fn i64_decodes_exactly_the_signed_decimal_forms() {
    assert_eq!(dec_to_i64("0"), Some(0));
    assert_eq!(dec_to_i64("007"), Some(7));
    assert_eq!(dec_to_i64("-0"), Some(0));
    assert_eq!(dec_to_i64("9223372036854775807"), Some(9223372036854775807));
    assert_eq!(dec_to_i64("-9223372036854775808"), Some(-9223372036854775808));
    assert_eq!(dec_to_i64(""), None);
    assert_eq!(dec_to_i64("-"), None);
    assert_eq!(dec_to_i64("+7"), None);
    assert_eq!(dec_to_i64("7a"), None);
    assert_eq!(dec_to_i64(" 7"), None);
    assert_eq!(dec_to_i64("9223372036854775808"), None);
    assert_eq!(dec_to_i64("-9223372036854775809"), None);
}

#[test]
fn i64_round_trips_through_its_text() {
    for v in [0i64, 1, -1, 42, -42, 1000000, i64::MAX, i64::MIN] {
        assert_eq!(dec_to_i64(&i64_to_dec(v)), Some(v));
    }
}

#[test]
fn base64_encodes_the_standard_alphabet_with_padding() {
    assert_eq!(bytes_to_b64(&Vec::new()), "");
    assert_eq!(bytes_to_b64(&vec![b'f']), "Zg==");
    assert_eq!(bytes_to_b64(&vec![b'f', b'o']), "Zm8=");
    assert_eq!(bytes_to_b64(&vec![b'f', b'o', b'o']), "Zm9v");
    assert_eq!(bytes_to_b64(&vec![b'f', b'o', b'o', b'b']), "Zm9vYg==");
    assert_eq!(bytes_to_b64(&vec![0xFB, 0xEF, 0xBE]), "++++");
    assert_eq!(bytes_to_b64(&vec![0xFF, 0xFF, 0xFF]), "////");
}

#[test]
fn base64_decodes_its_own_output() {
    for bytes in [
        Vec::new(),
        vec![0u8],
        vec![255u8],
        vec![1u8, 2, 3],
        vec![1u8, 2, 3, 4],
        vec![1u8, 2, 3, 4, 5],
        (0u8..=255u8).collect::<Vec<u8>>(),
    ] {
        assert_eq!(b64_to_bytes(&bytes_to_b64(&bytes)), Some(bytes));
    }
}

#[test]
fn base64_rejects_bad_padding_alphabet_and_length() {
    assert_eq!(b64_to_bytes("QQ="), None);
    assert_eq!(b64_to_bytes("Q==="), None);
    assert_eq!(b64_to_bytes("=QQQ"), None);
    assert_eq!(b64_to_bytes("QQ=Q"), None);
    assert_eq!(b64_to_bytes("QQ"), None);
    assert_eq!(b64_to_bytes("Zm9vY"), None);
    assert_eq!(b64_to_bytes("Zm-v"), None);
    assert_eq!(b64_to_bytes("Zm_v"), None);
    // trailing bits must be zero in a canonical encoding
    assert_eq!(b64_to_bytes("QR=="), None);
    assert_eq!(b64_to_bytes("QQQ="), Some(vec![0x41, 0x04]));
    assert_eq!(b64_to_bytes("QQF="), None);
}
