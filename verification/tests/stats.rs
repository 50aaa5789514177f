use std::collections::BTreeMap;
use pqc_telemetry::stats::{histogram_summary, record_sample, HistogramSummary};

fn histogram(samples: &[u128]) -> BTreeMap<u128, u32> {
    let mut h = BTreeMap::new();
    for s in samples {
        record_sample(&mut h, *s);
    }
    h
}

#[test]
fn record_counts_each_sample() {
    let mut h = BTreeMap::new();
    record_sample(&mut h, 5);
    record_sample(&mut h, 5);
    record_sample(&mut h, 9);
    assert_eq!(h.get(&5), Some(&2));
    assert_eq!(h.get(&9), Some(&1));
    assert_eq!(h.len(), 2);
    let before = histogram_summary(&h);
    record_sample(&mut h, 7);
    let after = histogram_summary(&h);
    assert_eq!(after.elements, before.elements + 1);
    assert_eq!(after.weighted_sum, before.weighted_sum + 7);
}

#[test]
fn summary_of_a_small_histogram() {
    // ten samples: 1..=10
    let h = histogram(&[1, 2, 3, 4, 5, 6, 7, 8, 9, 10]);
    assert_eq!(
        histogram_summary(&h),
        HistogramSummary {
            elements: 10,
            minimum: 1,
            maximum: 10,
            weighted_sum: 55,
            ninety_pct: 9,
            ninety_nine_pct: 9,
        }
    );
}

#[test]
fn summary_percentiles() {
    // 100 samples: 90 of 10, 9 of 20, one of 30
    let mut samples = vec![10u128; 90];
    samples.extend(vec![20u128; 9]);
    samples.push(30);
    let s = histogram_summary(&histogram(&samples));
    assert_eq!(s.elements, 100);
    assert_eq!(s.ninety_pct, 10);
    assert_eq!(s.ninety_nine_pct, 20);
    assert_eq!(s.maximum, 30);
    assert_eq!(s.minimum, 10);
    assert_eq!(s.weighted_sum, 900 + 180 + 30);
}

#[test]
fn summary_of_empty_histogram() {
    let s = histogram_summary(&BTreeMap::new());
    assert_eq!(
        s,
        HistogramSummary {
            elements: 0,
            minimum: 0,
            maximum: 0,
            weighted_sum: 0,
            ninety_pct: 0,
            ninety_nine_pct: 0,
        }
    );
}

#[test]
fn minimum_is_the_smallest_duration() {
    let s = histogram_summary(&histogram(&[2_000_000, 3_000_000]));
    assert_eq!(s.minimum, 2_000_000);
    assert_eq!(s.maximum, 3_000_000);
    let one = histogram_summary(&BTreeMap::from([(2_000_000u128, 1u32)]));
    assert_eq!(one.minimum, 2_000_000);
    assert_eq!(one.maximum, 2_000_000);
    assert_eq!(one.elements, 1);
}

#[test]
fn zero_duration_counts_as_a_percentile() {
    // nine of the ten samples are 0: both thresholds (9) are reached at 0
    let s = histogram_summary(&histogram(&[0, 0, 0, 0, 0, 0, 0, 0, 0, 4]));
    assert_eq!(s.ninety_pct, 0);
    assert_eq!(s.ninety_nine_pct, 0);
    assert_eq!(s.minimum, 0);
    let h = histogram_summary(&BTreeMap::from([(0u128, 10u32), (5, 1)]));
    assert_eq!(h.elements, 11);
    assert_eq!(h.minimum, 0);
    assert_eq!(h.maximum, 5);
    assert_eq!(h.ninety_pct, 0);
    assert_eq!(h.ninety_nine_pct, 0);
    let only_zero = histogram_summary(&histogram(&[0, 0]));
    assert_eq!(only_zero.ninety_pct, 0);
    assert_eq!(only_zero.maximum, 0);
}

#[test]
fn summary_statistics_are_ordered() {
    let sets: Vec<Vec<u128>> = vec![
        vec![5],
        vec![0, 7],
        vec![3, 3, 3, 100],
        vec![12, 400, 7, 7, 9, 1_500_000, 2, 2, 2, 2, 2, 31],
        (1..=250).map(|x| (x * x) as u128).collect(),
    ];
    for samples in sets {
        let s = histogram_summary(&histogram(&samples));
        assert!(s.minimum <= s.ninety_pct, "{:?}", s);
        assert!(s.ninety_pct <= s.ninety_nine_pct, "{:?}", s);
        assert!(s.ninety_nine_pct <= s.maximum, "{:?}", s);
        assert_eq!(s.elements as usize, samples.len());
    }
}
