use pqc_telemetry::bench::{
    check_fips203, check_fips204, message_blocks, ml_kem_exchange, split_total_time, time_ml_dsa_44, time_ml_kem,
    total_time_report, MlKemLevel,
};
use pqc_telemetry::stats::histogram_summary;
use rand::rngs::StdRng;
use rand::SeedableRng;

#[test]
fn fips204_signature_verifies() {
    assert_eq!(check_fips204(&[0u8, 1, 2, 3, 4, 5, 6, 7, 8]), Some(true));
    assert_eq!(check_fips204(b""), Some(true));
}

#[test]
fn ml_dsa_timings_count_every_operation() {
    let (keys, signs) = time_ml_dsa_44(b"message", 2, 3).unwrap();
    assert_eq!(histogram_summary(&keys).elements, 2);
    assert_eq!(histogram_summary(&signs).elements, 6);
    let (keys, signs) = time_ml_dsa_44(b"message", 0, 3).unwrap();
    assert!(keys.is_empty() && signs.is_empty());
}

#[test]
fn ml_kem_exchanges_agree() {
    let mut rng = StdRng::seed_from_u64(11);
    for level in [MlKemLevel::MlKem512, MlKemLevel::MlKem768, MlKemLevel::MlKem1024] {
        let (sent, received) = ml_kem_exchange(level, &mut rng).unwrap();
        assert_eq!(sent.len(), 32);
        assert_eq!(sent, received);
    }
}

#[test]
fn ml_kem_timings_count_every_exchange() {
    let mut rng = StdRng::seed_from_u64(12);
    assert_eq!(histogram_summary(&time_ml_kem(MlKemLevel::MlKem768, 4, &mut rng)).elements, 4);
    let (a, b, c) = check_fips203(3, &mut rng);
    assert_eq!(histogram_summary(&a).elements, 3);
    assert_eq!(histogram_summary(&b).elements, 3);
    assert_eq!(histogram_summary(&c).elements, 3);
}

#[test]
fn message_is_cut_into_padded_blocks() {
    let blocks = message_blocks(b"abcdefg", 3);
    assert_eq!(blocks, vec![b"abc".to_vec(), b"def".to_vec(), vec![b'g', 0, 0]]);
    let exact = message_blocks(b"abcdef", 3);
    assert_eq!(exact, vec![b"abc".to_vec(), b"def".to_vec()]);
    assert!(message_blocks(b"", 4).is_empty());
    let one = message_blocks(b"xy", 5);
    assert_eq!(one, vec![vec![b'x', b'y', 0, 0, 0]]);
}

#[test]
fn total_time_split() {
    assert_eq!(split_total_time(0), (0, 0, 0, 0));
    assert_eq!(split_total_time(3_723_004), (1, 2, 3, 4));
    assert_eq!(split_total_time(59_999), (0, 0, 59, 999));
    let t: u128 = 987_654_321_012;
    let (h, m, s, ms) = split_total_time(t);
    assert_eq!(h * 3_600_000 + m * 60_000 + s * 1000 + ms, t);
    assert!(m < 60 && s < 60 && ms < 1000);
}

#[test]
fn total_time_reports() {
    assert_eq!(total_time_report(5_007), "Total time: 5.007 seconds");
    assert_eq!(total_time_report(65_040), "Total time: 1 minutes, 5.040 seconds");
    assert_eq!(total_time_report(3_723_004), "Total time: 1 hours, 2 minutes, 3.004 seconds");
    assert_eq!(total_time_report(3_600_000), "Total time: 1 hours, 0 minutes, 0.000 seconds");
    assert_eq!(total_time_report(0), "Total time: 0.000 seconds");
}

#[test]
fn ml_kem_exchange_with_fixed_coins_repeats() {
    for level in [MlKemLevel::MlKem512, MlKemLevel::MlKem768, MlKemLevel::MlKem1024] {
        let a = ml_kem_exchange(level, &mut StdRng::seed_from_u64(42)).unwrap();
        let b = ml_kem_exchange(level, &mut StdRng::seed_from_u64(42)).unwrap();
        assert_eq!(a, b);
        assert_eq!(a.0, a.1);
    }
}
