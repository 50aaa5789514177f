use pqc_telemetry::base64::base64_to_bytes;
use pqc_telemetry::framing::{
    check_nonce, frame_is_well_formed, frame_message, nonce_field, parse_frame, return_time_as_millis_from_base64,
    time_field, NonceError,
};

#[test]
fn nonce_field_is_base64_of_padded_decimal() {
    assert_eq!(nonce_field(12345), "MDAwMDAwMDAwMDAwMDAwMTIzNDU=");
    assert_eq!(nonce_field(0).len(), 28);
    assert_eq!(
        base64_to_bytes(&nonce_field(u64::MAX)),
        Some(b"18446744073709551615".to_vec())
    );
}

#[test]
fn time_field_known_value() {
    assert_eq!(time_field(1_700_000_000_123), "AAABi8/laHs=");
    assert_eq!(time_field(0), "AAAAAAAAAAA=");
}

#[test]
fn time_field_round_trip() {
    for millis in [0u128, 1, 255, 256, 1_700_000_000_123, u64::MAX as u128] {
        assert_eq!(return_time_as_millis_from_base64(&time_field(millis)), millis);
    }
    // only the low eight bytes travel
    let big: u128 = (7u128 << 64) + 99;
    assert_eq!(return_time_as_millis_from_base64(&time_field(big)), 99);
}

#[test]
fn frame_round_trip() {
    let t = time_field(1_700_000_000_123);
    let payload = "{\"speed\": {\"unit\": \"km/h\", \"value\": 42}}";
    let frame = frame_message(987654321, &t, payload);
    assert_eq!(frame.len(), 40 + payload.len());
    assert!(frame_is_well_formed(&frame));
    let parts = parse_frame(&frame);
    assert_eq!(parts.nonce, 987654321);
    assert!(!parts.is_end);
    assert_eq!(parts.body, payload);
    assert_eq!(&frame[28..40], t);
}

#[test]
fn end_frame_is_recognised() {
    let frame = frame_message(5, &time_field(9), "END");
    assert!(frame_is_well_formed(&frame));
    let parts = parse_frame(&frame);
    assert!(parts.is_end);
    assert_eq!(parts.nonce, 5);
    assert_eq!(parts.body, "END");
    let longer = parse_frame(&frame_message(6, &time_field(9), "END of session"));
    assert!(longer.is_end);
    let not_end = parse_frame(&frame_message(6, &time_field(9), "ENDx"));
    assert!(not_end.is_end);
    let lower = parse_frame(&frame_message(6, &time_field(9), "end"));
    assert!(!lower.is_end);
}

#[test]
fn malformed_frames_are_refused() {
    // too short
    assert!(!frame_is_well_formed("MDAwMDAwMDAwMDAwMDAwMTIzNDU=AAABi8/laHs="));
    // nonce field that is not base64
    let bad = format!("{}{}{}", "*".repeat(28), time_field(1), "END");
    assert!(!frame_is_well_formed(&bad));
    // nonce text that is not a number
    let not_number = format!("{}{}{}", pqc_telemetry::base64::base64_from_str("abcdefghijklmnopqrst"), time_field(1), "END");
    assert!(!frame_is_well_formed(&not_number));
    // a payload whose third byte is inside a character
    let split_char = frame_message(1, &time_field(1), "aaé");
    assert!(!frame_is_well_formed(&split_char));
}

#[test]
fn nonces_must_increase() {
    let mut largest = 0u64;
    assert_eq!(check_nonce(&mut largest, 5), Ok(()));
    assert_eq!(largest, 5);
    assert_eq!(check_nonce(&mut largest, 5), Err(NonceError::AlreadyUsed));
    assert_eq!(check_nonce(&mut largest, 3), Err(NonceError::AlreadyUsed));
    assert_eq!(largest, 5);
    assert_eq!(check_nonce(&mut largest, 6), Ok(()));
    assert_eq!(largest, 6);
    assert_eq!(check_nonce(&mut largest, 0), Err(NonceError::AlreadyUsed));
}

#[test]
fn accepted_nonces_strictly_increase() {
    let ns = [3u64, 1, 7, 7, 2, 9, 9, 10, 4];
    let mut largest = 0u64;
    let mut accepted = Vec::new();
    for n in ns {
        if check_nonce(&mut largest, n).is_ok() {
            accepted.push(n);
        }
    }
    assert_eq!(accepted, vec![3, 7, 9, 10]);
    for w in accepted.windows(2) {
        assert!(w[0] < w[1]);
    }
}
