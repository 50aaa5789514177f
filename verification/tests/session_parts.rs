use pqc_telemetry::base64::base64_to_bytes;
use pqc_telemetry::clock::{read_timer, unix_time_millis, unix_time_secs};
use pqc_telemetry::framing::{frame_message, parse_frame, return_time_as_millis_from_base64, time_field};
use pqc_telemetry::nonce::{chacha_seed_from_text, generate_nonce, generate_nonce_base64, get_time_as_millis_base64};
use pqc_telemetry::receiver::{check_message, telemetry_summary, MessageRejection, TelemetryFields};

#[test]
fn nonces_are_32_random_bytes() {
    let a = generate_nonce().unwrap();
    let b = generate_nonce().unwrap();
    assert_eq!(a.len(), 32);
    assert_eq!(b.len(), 32);
    assert_ne!(a, b);
}

#[test]
fn base64_nonce() {
    let n = generate_nonce_base64().unwrap();
    assert_eq!(n.len(), 44);
    assert_eq!(base64_to_bytes(&n).unwrap().len(), 32);
    assert_ne!(n, generate_nonce_base64().unwrap());
}

#[test]
fn time_field_of_now() {
    let before = unix_time_millis().unwrap();
    let t = get_time_as_millis_base64().unwrap();
    let after = unix_time_millis().unwrap();
    assert_eq!(t.len(), 12);
    let back = return_time_as_millis_from_base64(&t);
    assert!(before <= back && back <= after);
}

#[test]
fn clock_readings() {
    let secs = unix_time_secs().unwrap();
    assert!(secs > 1_600_000_000);
    let millis = unix_time_millis().unwrap();
    assert!(millis / 1000 >= secs as u128);
    let a = read_timer();
    let b = read_timer();
    assert!(a > 0);
    assert!(b >= a);
}

#[test]
fn chacha_seed_layout() {
    let text = b"1700000000123456";
    let seed = chacha_seed_from_text(text);
    let mut expected = [0u8; 32];
    for (i, v) in text.iter().enumerate() {
        expected[i] = *v;
    }
    for (i, v) in text.iter().enumerate() {
        expected[31 - i] = *v;
    }
    assert_eq!(seed, expected);
    // a shorter text leaves zeros in the middle
    let s = chacha_seed_from_text(b"abc");
    assert_eq!(&s[..3], b"abc");
    assert_eq!(&s[29..], b"cba");
    assert!(s[3..29].iter().all(|x| *x == 0));
    // a full text is written back to front
    let full: Vec<u8> = (0u8..32).collect();
    let s = chacha_seed_from_text(&full);
    let reversed: Vec<u8> = (0u8..32).rev().collect();
    assert_eq!(s.to_vec(), reversed);
    assert_eq!(chacha_seed_from_text(b""), [0u8; 32]);
}

fn fields(speed: Option<(&str, &str)>, id: Option<&str>, epoch: Option<u64>) -> TelemetryFields {
    TelemetryFields {
        speed: speed.map(|(v, u)| (v.to_string(), u.to_string())),
        vehicle_id: id.map(|s| s.to_string()),
        epoch,
    }
}

#[test]
fn telemetry_summary_line() {
    assert_eq!(
        telemetry_summary(&fields(Some(("42.5", "km/h")), Some("V1"), Some(1700000000))),
        "Speed: 42.5 km/h, Vehicle ID: V1, Epoch: 1700000000"
    );
    assert_eq!(telemetry_summary(&fields(None, None, None)), "Speed: N/A, Vehicle ID: N/A, Epoch: 0");
}

#[test]
fn receiver_checks_messages() {
    let t = time_field(1);
    let mut largest = 0u64;
    let telemetry = fields(Some(("10", "mph")), Some("car"), Some(3));

    let first = parse_frame(&frame_message(7, &t, "{}"));
    assert_eq!(check_message(&first, Some(&telemetry), &mut largest), Ok("Speed: 10 mph, Vehicle ID: car, Epoch: 3".to_string()));
    assert_eq!(largest, 7);

    // a replayed frame is refused
    assert_eq!(check_message(&first, Some(&telemetry), &mut largest), Err(MessageRejection::NonceReused));
    assert_eq!(largest, 7);

    // a payload that did not parse is refused and leaves the nonce unused
    let second = parse_frame(&frame_message(8, &t, "not json"));
    assert_eq!(check_message(&second, None, &mut largest), Err(MessageRejection::BadTelemetry));
    assert_eq!(largest, 7);
    assert!(check_message(&second, Some(&telemetry), &mut largest).is_ok());
    assert_eq!(largest, 8);

    // END closes without a nonce check, even with an old nonce
    let end = parse_frame(&frame_message(1, &t, "END"));
    assert_eq!(check_message(&end, None, &mut largest), Ok("END".to_string()));
    assert_eq!(largest, 8);
}
