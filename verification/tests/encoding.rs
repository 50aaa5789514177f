use pqc_telemetry::base64::{base64_from_bytes, base64_from_str, base64_to_bytes};
use pqc_telemetry::decimal::{parse_u64_decimal, u128_to_decimal, u64_to_decimal, u64_to_padded_decimal};
use pqc_telemetry::float_syntax::is_float_text;

#[test]
fn base64_known_vectors() {
    assert_eq!(base64_from_bytes(b""), "");
    assert_eq!(base64_from_bytes(b"f"), "Zg==");
    assert_eq!(base64_from_bytes(b"fo"), "Zm8=");
    assert_eq!(base64_from_bytes(b"foo"), "Zm9v");
    assert_eq!(base64_from_bytes(b"foob"), "Zm9vYg==");
    assert_eq!(base64_from_bytes(b"fooba"), "Zm9vYmE=");
    assert_eq!(base64_from_bytes(b"foobar"), "Zm9vYmFy");
    assert_eq!(base64_from_bytes(&[0xfb, 0xff, 0xfe]), "+//+");
    assert_eq!(base64_from_str("Ready to send"), "UmVhZHkgdG8gc2VuZA==");
}

#[test]
fn base64_decodes_what_it_encodes() {
    let mut data: Vec<u8> = Vec::new();
    for n in 0..300u32 {
        let text = base64_from_bytes(&data);
        assert_eq!(text.len(), 4 * ((data.len() + 2) / 3));
        assert_eq!(base64_to_bytes(&text), Some(data.clone()));
        data.push((n * 37 % 256) as u8);
    }
}

#[test]
fn base64_rejects_non_canonical_text() {
    assert_eq!(base64_to_bytes("aGVsbG8="), Some(b"hello".to_vec()));
    // the bits that padding drops must be zero
    assert_eq!(base64_to_bytes("aGVsbG9="), None);
    // a length that is not a multiple of four
    assert_eq!(base64_to_bytes("aGVsbG8"), None);
    // a character outside the alphabet
    assert_eq!(base64_to_bytes("aGVs*G8="), None);
    // padding inside the text
    assert_eq!(base64_to_bytes("Zg==Zg=="), None);
    assert_eq!(base64_to_bytes(""), Some(Vec::new()));
}

#[test]
fn decimal_formatting() {
    assert_eq!(u64_to_decimal(0), "0");
    assert_eq!(u64_to_decimal(12345), "12345");
    assert_eq!(u64_to_decimal(u64::MAX), "18446744073709551615");
    assert_eq!(u128_to_decimal(u128::MAX), u128::MAX.to_string());
    assert_eq!(u64_to_padded_decimal(12345, 20), "00000000000000012345");
    assert_eq!(u64_to_padded_decimal(7, 3), "007");
    assert_eq!(u64_to_padded_decimal(123456, 3), "123456");
    assert_eq!(u64_to_padded_decimal(u64::MAX, 20), format!("{:020}", u64::MAX));
}

#[test]
fn decimal_parsing_matches_std() {
    let cases = [
        "0", "42", "+42", "-42", "", "+", "007", "18446744073709551615", "18446744073709551616",
        "99999999999999999999", "1 2", " 12", "12a", "٣", "00000000000000012345",
    ];
    for c in cases {
        assert_eq!(parse_u64_decimal(c), c.parse::<u64>().ok(), "input {:?}", c);
    }
}

#[test]
fn padded_decimal_parses_back() {
    for n in [0u64, 1, 9, 10, 12345, 1 << 40, u64::MAX] {
        assert_eq!(parse_u64_decimal(&u64_to_padded_decimal(n, 20)), Some(n));
    }
}

#[test]
fn float_syntax_matches_std() {
    let cases = [
        "1", "1.5", "-1.5", "+2", ".5", "5.", ".", "-", "1e5", "1E5", "1e", "1e+", "1e-3", "1.2.3", "abc",
        "inf", "-inf", "+infinity", "Infinity", "NaN", "nan", "-NaN", "infinit", "", " 1", "1 ", "0x10",
        "1_000", "46", "-3.520429", "-58.321307", "XXXX", "m", "km/h", "1e0001", "e5", "+.e1", "1.e1",
    ];
    for c in cases {
        assert_eq!(is_float_text(c), c.parse::<f64>().is_ok(), "input {:?}", c);
    }
}
