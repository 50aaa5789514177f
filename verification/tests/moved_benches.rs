use fips204::traits::SerDes;
use ntrulp::key::priv_key::PrivKey;
use ntrulp::key::pub_key::PubKey;
use ntrulp::params::params::{R3_BYTES, RQ_BYTES};
use ntrulp::poly::r3::R3;
use ntrulp::poly::rq::Rq;
use ntrulp::rng::{random_small, short_random};
use pqc_telemetry::framing::{frame_is_well_formed, frame_message, parse_frame};
use pqc_telemetry::ntru_bench::{time_ntru_blocks, NTRU_R3_BYTES, NTRU_RQ_BYTES};
use pqc_telemetry::protocol::{ml_key_to_send, sign_ready_request, ControlKeys};
use pqc_telemetry::rc_ml_dsa::{time_ml_dsa_rustcrypto_44, time_ml_dsa_rustcrypto_87};
use pqc_telemetry::stats::histogram_summary;
use rand::rngs::StdRng;
use rand::SeedableRng;

fn ntru_public_key() -> PubKey {
    let mut rng = rand::rng();
    let f: Rq = Rq::from(short_random(&mut rng).unwrap());
    loop {
        let g = R3::from(random_small(&mut rng));
        if PrivKey::compute(&f, &g).is_ok() {
            return PubKey::compute(&f, &g).unwrap();
        }
    }
}

#[test]
fn ntru_sizes_match_the_crate() {
    assert_eq!(NTRU_R3_BYTES, R3_BYTES);
    assert_eq!(NTRU_RQ_BYTES, RQ_BYTES);
}

#[test]
fn ntru_block_timings_count_every_pass() {
    let pk = ntru_public_key();
    let h = time_ntru_blocks(&pk, &[7u8; 500], 2, 3);
    assert_eq!(histogram_summary(&h).elements, 6);
    assert!(time_ntru_blocks(&pk, b"", 0, 3).is_empty());
}

#[test]
fn rustcrypto_ml_dsa_signature_verifies() {
    let mut rng = StdRng::seed_from_u64(5);
    let t = time_ml_dsa_rustcrypto_44(b"a message", 2, &mut rng).unwrap();
    assert!(t.verified);
    let t = time_ml_dsa_rustcrypto_87(b"a message", 1, &mut rng).unwrap();
    assert!(t.verified);
    let t = time_ml_dsa_rustcrypto_44(b"", 0, &mut rng).unwrap();
    assert!(t.verified);
}

#[test]
fn key_messages_in_either_order_give_the_same_keys() {
    let (pk, sk) = fips204::ml_dsa_44::try_keygen().unwrap();
    let sk = sk.into_bytes().to_vec();
    let pk = pk.into_bytes().to_vec();
    let vk = vec![9u8; 1312];
    let mut a = ControlKeys::new();
    a.absorb_sender_key(sk.clone(), pk.clone(), "one".to_string()).unwrap();
    a.absorb_verifier_key(vk.clone());
    let mut b = ControlKeys::new();
    b.absorb_verifier_key(vk);
    b.absorb_sender_key(sk, pk, "one".to_string()).unwrap();
    assert_eq!(a.private_key, b.private_key);
    assert_eq!(a.public_key, b.public_key);
    assert_eq!(a.verifying_key, b.verifying_key);
    assert_eq!(a.signing_key, b.signing_key);
    assert_eq!(a.my_id, b.my_id);
    assert_eq!((a.have_signing_key, a.have_verifier_key), (b.have_signing_key, b.have_verifier_key));
    let keys = a.into_signature_keys();
    assert!(sign_ready_request(&keys).is_ok());
    assert!(ml_key_to_send(&keys, vec![1, 2, 3]).is_ok());
}

#[test]
fn frames_with_any_time_field_come_apart() {
    let f = frame_message(77, "ABCDEFGHIJKL", "{\"speed\": 3}");
    assert!(frame_is_well_formed(&f));
    let p = parse_frame(&f);
    assert_eq!(p.nonce, 77);
    assert!(!p.is_end);
    assert_eq!(p.body, "{\"speed\": 3}");
}
