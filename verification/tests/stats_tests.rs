use ttfb_gate::stats::{summarize, StatsError};

#[test]
fn empty_input_is_error() {
    let empty: Vec<u64> = Vec::new();
    let r = summarize(&empty);
    assert_eq!(r, Err(StatsError::EmptySampleSet));
}

#[test]
fn single_value_summary() {
    let vals: Vec<u64> = vec![123];
    let s = summarize(&vals).unwrap();
    assert_eq!(s.min_ms, 123);
    assert_eq!(s.max_ms, 123);
    assert_eq!(s.median_ms, 123);
    assert_eq!(s.p95_ms, 123);
    assert_eq!(s.p99_ms, 123);
    assert_eq!(s.mean_num_ms, 123);
    assert_eq!(s.sample_count, 1);
    assert_eq!(s.mean_floor_ms(), 123);
}

#[test]
fn identical_values_all_statistics_equal() {
    let vals: Vec<u64> = vec![42; 7];
    let s = summarize(&vals).unwrap();
    assert_eq!(s.min_ms, 42);
    assert_eq!(s.max_ms, 42);
    assert_eq!(s.median_ms, 42);
    assert_eq!(s.p95_ms, 42);
    assert_eq!(s.p99_ms, 42);
    assert_eq!(s.mean_num_ms, 42 * 7);
    assert_eq!(s.sample_count, 7);
    assert_eq!(s.mean_floor_ms(), 42);
}

#[test]
fn hundred_step_sequence_quantiles() {
    // 10, 20, ..., 1000: 100 values. The fractional median rank is
    // 0.5 * 99 = 49.5; halves round up, so the median is the value at
    // index 50. The p95 rank is 94.05 -> 94, the p99 rank 98.01 -> 98.
    let vals: Vec<u64> = (1..=100u64).map(|k| 10 * k).collect();
    let s = summarize(&vals).unwrap();
    assert_eq!(s.min_ms, 10);
    assert_eq!(s.max_ms, 1000);
    assert_eq!(s.median_ms, 510);
    assert_eq!(s.p95_ms, 950);
    assert_eq!(s.p99_ms, 990);
    assert_eq!(s.mean_num_ms, 50500);
    assert_eq!(s.sample_count, 100);
    assert_eq!(s.mean_floor_ms(), 505);
}

#[test]
fn permutation_invariance() {
    let ordered: Vec<u64> = (1..=100u64).map(|k| 10 * k).collect();
    let mut shuffled: Vec<u64> = Vec::new();
    // Interleave the halves back to front: a fixed, order-destroying shuffle.
    for k in 0..50 {
        shuffled.push(ordered[99 - k]);
        shuffled.push(ordered[k]);
    }
    assert_ne!(ordered, shuffled);
    let a = summarize(&ordered).unwrap();
    let b = summarize(&shuffled).unwrap();
    assert_eq!(a, b);
}

#[test]
fn two_values_round_up_to_upper() {
    // With two values the median rank is 0.5, which rounds up to index 1.
    let vals: Vec<u64> = vec![100, 200];
    let s = summarize(&vals).unwrap();
    assert_eq!(s.min_ms, 100);
    assert_eq!(s.max_ms, 200);
    assert_eq!(s.median_ms, 200);
    assert_eq!(s.p95_ms, 200);
    assert_eq!(s.p99_ms, 200);
    assert_eq!(s.mean_floor_ms(), 150);
}

#[test]
fn odd_length_median_is_middle() {
    let vals: Vec<u64> = vec![9, 5, 7];
    let s = summarize(&vals).unwrap();
    assert_eq!(s.min_ms, 5);
    assert_eq!(s.median_ms, 7);
    assert_eq!(s.max_ms, 9);
}

#[test]
fn ten_values_nearest_rank() {
    // Ten values: the median rank is 0.5 * 9 = 4.5, which rounds up to
    // index 5; the p95 rank is 8.55 -> 9, the p99 rank 8.91 -> 9.
    let vals: Vec<u64> = vec![8, 3, 10, 1, 6, 2, 9, 4, 7, 5];
    let s = summarize(&vals).unwrap();
    assert_eq!(s.median_ms, 6);
    assert_eq!(s.p95_ms, 10);
    assert_eq!(s.p99_ms, 10);
    assert_eq!(s.min_ms, 1);
    assert_eq!(s.max_ms, 10);
    assert_eq!(s.mean_num_ms, 55);
    assert_eq!(s.sample_count, 10);
}

#[test]
fn statistics_respect_ordering_bounds() {
    let vals: Vec<u64> = vec![31, 4, 1500, 27, 9, 271, 828, 4, 66, 210, 997];
    let s = summarize(&vals).unwrap();
    assert!(s.min_ms <= s.median_ms && s.median_ms <= s.max_ms);
    assert!(s.min_ms <= s.p95_ms && s.p95_ms <= s.max_ms);
    assert!(s.min_ms <= s.p99_ms && s.p99_ms <= s.max_ms);
    let mean = s.mean_num_ms as f64 / s.sample_count as f64;
    assert!(s.min_ms as f64 <= mean && mean <= s.max_ms as f64);
}

#[test]
fn mean_floor_rounds_down() {
    let vals: Vec<u64> = vec![1, 2];
    let s = summarize(&vals).unwrap();
    assert_eq!(s.mean_num_ms, 3);
    assert_eq!(s.sample_count, 2);
    assert_eq!(s.mean_floor_ms(), 1);
}
