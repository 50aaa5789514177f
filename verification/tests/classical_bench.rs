use chacha20::cipher::{KeyIvInit, StreamCipher, StreamCipherSeek};
use pqc_telemetry::bench::{lightsaber_exchange, time_lightsaber, time_ml_dsa_87};
use pqc_telemetry::cipher_bench::{
    aes_gcm_open, aes_gcm_seal, chacha20_encrypt, chacha20_round_trip, check_ed25519, time_aes_gcm, time_chacha20,
};
use pqc_telemetry::stats::histogram_summary;
use rand::rngs::StdRng;
use rand::SeedableRng;

#[test]
fn ed25519_timings_count_every_signature() {
    let mut rng = StdRng::seed_from_u64(1);
    let h = check_ed25519(b"a message to sign", 3, 4, &mut rng);
    assert_eq!(histogram_summary(&h).elements, 12);
    assert!(check_ed25519(b"x", 0, 4, &mut rng).is_empty());
}

#[test]
fn aes_gcm_timings_count_every_operation() {
    let mut rng = StdRng::seed_from_u64(2);
    let (enc, dec) = time_aes_gcm(&[7u8; 1000], 2, 5, &mut rng).unwrap();
    assert_eq!(histogram_summary(&enc).elements, 10);
    assert_eq!(histogram_summary(&dec).elements, 10);
}

#[test]
fn chacha20_timings_count_every_operation() {
    let mut rng = StdRng::seed_from_u64(3);
    let (enc, dec) = time_chacha20(&[1u8; 300], 3, 2, &mut rng).unwrap();
    assert_eq!(histogram_summary(&enc).elements, 6);
    assert_eq!(histogram_summary(&dec).elements, 6);
}

#[test]
fn chacha20_decrypts_at_the_same_position() {
    let key = [9u8; 32];
    let nonce = [0x24u8; 12];
    let message = b"vehicle telemetry, nonce and time".to_vec();
    for position in [0u64, 1, 63, 64, 1000] {
        assert_eq!(chacha20_round_trip(&key, &nonce, position, &message), Some(message.clone()));
    }
    assert_eq!(chacha20_round_trip(&key[..16], &nonce, 0, &message), None);
    assert_eq!(chacha20_round_trip(&key, &nonce[..8], 0, &message), None);
}

#[test]
fn chacha20_keystream_is_applied() {
    // the known keystream of RFC 8439 section 2.4.2 begins at block 1
    let key: Vec<u8> = (0u8..32).collect();
    let nonce = [0u8, 0, 0, 0, 0, 0, 0, 0x4a, 0, 0, 0, 0];
    let plaintext = b"Ladies and Gentlemen of the class of '99";
    let mut expected = plaintext.to_vec();
    {
        let mut c = chacha20::ChaCha20::new_from_slices(&key, &nonce).unwrap();
        c.seek(64u64);
        c.apply_keystream(&mut expected);
    }
    assert_eq!(&expected[..4], &[0x6e, 0x2e, 0x35, 0x9a]);
    assert_eq!(chacha20_encrypt(&key, &nonce, 64, plaintext), Some(expected.clone()));
    assert_eq!(chacha20_encrypt(&key, &nonce, 64, &expected), Some(plaintext.to_vec()));
    assert_eq!(chacha20_round_trip(&key, &nonce, 64, plaintext), Some(plaintext.to_vec()));
}

#[test]
fn aes_gcm_seals_and_opens() {
    let key = [5u8; 32];
    let nonce = [1u8; 12];
    let c = aes_gcm_seal(&key, &nonce, b"speed 42").unwrap();
    assert_eq!(c.len(), 8 + 16);
    assert_ne!(&c[..8], b"speed 42");
    assert_eq!(aes_gcm_open(&key, &nonce, &c), Some(b"speed 42".to_vec()));
    // a changed tag, nonce or key is refused
    let mut bad = c.clone();
    bad[20] ^= 1;
    assert_eq!(aes_gcm_open(&key, &nonce, &bad), None);
    assert_eq!(aes_gcm_open(&key, &[2u8; 12], &c), None);
    assert_eq!(aes_gcm_open(&[6u8; 32], &nonce, &c), None);
    assert_eq!(aes_gcm_seal(&key[..16], &nonce, b"x"), None);
    assert_eq!(aes_gcm_seal(&key, &nonce[..8], b"x"), None);
}

#[test]
fn lightsaber_exchange_agrees() {
    let (sent, received) = lightsaber_exchange().unwrap();
    assert_eq!(sent.len(), 32);
    assert_eq!(sent, received);
    let h = time_lightsaber(3).unwrap();
    assert_eq!(histogram_summary(&h).elements, 3);
}

#[test]
fn ml_dsa_87_benchmark_verifies() {
    let t = time_ml_dsa_87(b"message", 2).unwrap();
    assert!(t.verified);
    assert!(t.keygen_nanos > 0 && t.sign_nanos > 0 && t.verify_nanos > 0);
    let none = time_ml_dsa_87(b"message", 0).unwrap();
    assert!(none.verified);
}

#[test]
fn chacha20_keystream_ends_at_its_limit() {
    let key = [3u8; 32];
    let nonce = [0x24u8; 12];
    let limit: u64 = 274877906880;
    assert_eq!(chacha20_encrypt(&key, &nonce, limit, &[]), Some(Vec::new()));
    assert!(chacha20_encrypt(&key, &nonce, limit - 1, &[0u8]).is_some());
    assert_eq!(chacha20_encrypt(&key, &nonce, limit, &[0u8]), None);
    assert!(chacha20_encrypt(&key, &nonce, limit - 64, &[0u8; 64]).is_some());
    assert_eq!(chacha20_encrypt(&key, &nonce, limit - 63, &[0u8; 64]), None);
    assert_eq!(chacha20_round_trip(&key, &nonce, limit - 1, &[5u8]), Some(vec![5u8]));
    assert_eq!(chacha20_round_trip(&key, &nonce, limit, &[5u8]), None);
}

#[test]
fn benchmarks_without_runs_always_succeed() {
    let mut rng = StdRng::seed_from_u64(4);
    let (enc, dec) = time_aes_gcm(b"x", 0, 3, &mut rng).unwrap();
    assert_eq!(histogram_summary(&enc).elements, 0);
    assert_eq!(histogram_summary(&dec).elements, 0);
    assert!(time_chacha20(b"x", 2, 0, &mut rng).is_some());
}
