use gau_rs::roots::isqrt;
use gau_rs::stats::{
    compute_percentile, rounded_mean, rounded_stddev, sum, PerformanceStats, StatsError, UNIT,
};
use gau_rs::wide::U256;

/// One unit of the samples, in the unit of the statistics.
const ONE: u128 = 1_000_000;

/// The summary after the floating-point formulas: mean, population standard
/// deviation and one percentile by linear interpolation.
fn float_mean(data: &[u64]) -> f64 {
    data.iter().map(|&x| x as f64).sum::<f64>() / data.len() as f64
}

fn float_stddev(data: &[u64]) -> f64 {
    let mean = float_mean(data);
    let variance =
        data.iter().map(|&x| (x as f64 - mean).powi(2)).sum::<f64>() / data.len() as f64;
    variance.sqrt()
}

fn float_percentile(sorted: &[u64], percentile: f64) -> f64 {
    let n = sorted.len();
    if n == 1 {
        return sorted[0] as f64;
    }
    let rank = (percentile / 100.0) * (n as f64 - 1.0);
    let lower = rank.floor() as usize;
    let upper = rank.ceil() as usize;
    if lower == upper {
        return sorted[lower] as f64;
    }
    let weight = rank - lower as f64;
    sorted[lower] as f64 * (1.0 - weight) + sorted[upper] as f64 * weight
}

/// A statistic as a number of sample units.
fn in_units(statistic: u128) -> f64 {
    statistic as f64 / ONE as f64
}

#[test]
fn the_unit_is_a_millionth() {
    assert_eq!(UNIT as u128, ONE);
}

#[test]
fn one_to_five() {
    let stats = PerformanceStats::from_data(vec![1, 2, 3, 4, 5]).unwrap();
    assert_eq!(stats.min(), ONE);
    assert_eq!(stats.max(), 5 * ONE);
    assert_eq!(stats.average(), 3 * ONE);
    assert_eq!(stats.p50(), 3 * ONE);
    // The square root of 2.
    assert_eq!(stats.stddev(), 1_414_213);
    assert!((in_units(stats.stddev()) - 2f64.sqrt()).abs() < 0.000_001);
    assert!((in_units(stats.stddev()) - 1.4142).abs() < 0.0001);
    assert_eq!(in_units(stats.min()), 1.0);
    assert_eq!(in_units(stats.max()), 5.0);
    assert_eq!(in_units(stats.average()), 3.0);
    assert_eq!(in_units(stats.p50()), 3.0);
}

#[test]
fn one_to_five_every_field() {
    let stats = PerformanceStats::from_data(vec![1, 2, 3, 4, 5]).unwrap();
    // rank = p / 100 * 4
    assert_eq!(stats.p2_5(), 1_100_000);
    assert_eq!(stats.p75(), 4_000_000);
    assert_eq!(stats.p90(), 4_600_000);
    assert_eq!(stats.p97_5(), 4_900_000);
    assert_eq!(stats.p99(), 4_960_000);
    assert_eq!(stats.p99_9(), 4_996_000);
    assert_eq!(stats.p99_99(), 4_999_600);
    assert_eq!(stats.p99_999(), 4_999_960);
}

#[test]
fn single_sample() {
    let stats = PerformanceStats::from_data(vec![7]).unwrap();
    assert_eq!(stats.min(), 7 * ONE);
    assert_eq!(stats.max(), 7 * ONE);
    assert_eq!(stats.average(), 7 * ONE);
    assert_eq!(stats.stddev(), 0);
    assert_eq!(stats.p2_5(), 7 * ONE);
    assert_eq!(stats.p50(), 7 * ONE);
    assert_eq!(stats.p75(), 7 * ONE);
    assert_eq!(stats.p90(), 7 * ONE);
    assert_eq!(stats.p97_5(), 7 * ONE);
    assert_eq!(stats.p99(), 7 * ONE);
    assert_eq!(stats.p99_9(), 7 * ONE);
    assert_eq!(stats.p99_99(), 7 * ONE);
    assert_eq!(stats.p99_999(), 7 * ONE);
}

#[test]
fn empty_dataset_fails() {
    assert_eq!(PerformanceStats::from_data(Vec::new()), Err(StatsError::EmptyDataset));
    assert_eq!(StatsError::EmptyDataset.message(), "Dataset cannot be empty");
}

#[test]
fn summary_is_repeatable() {
    let data: Vec<u64> = vec![3, 9, 27, 81, 243, 729, 2187];
    let first = PerformanceStats::from_data(data.clone());
    let second = PerformanceStats::from_data(data);
    assert_eq!(first, second);
    assert!(first.is_ok());
}

#[test]
fn summary_ignores_order() {
    let ascending = PerformanceStats::from_data(vec![1, 2, 2, 5, 8, 13]).unwrap();
    let shuffled = PerformanceStats::from_data(vec![8, 2, 13, 1, 5, 2]).unwrap();
    assert_eq!(ascending, shuffled);
    assert_eq!(shuffled.min(), ONE);
    assert_eq!(shuffled.max(), 13 * ONE);
}

#[test]
fn sorting_is_not_handed_back_unchanged() {
    // Unsorted input: the smallest sample comes last and the largest first.
    let stats = PerformanceStats::from_data(vec![50, 40, 30, 20, 10]).unwrap();
    assert_eq!(stats.min(), 10 * ONE);
    assert_eq!(stats.max(), 50 * ONE);
    assert_eq!(stats.p50(), 30 * ONE);
    assert_eq!(stats.p75(), 40 * ONE);
}

#[test]
fn interpolation_between_two_samples() {
    let stats = PerformanceStats::from_data(vec![10, 20]).unwrap();
    assert_eq!(stats.p50(), 15 * ONE);
    assert_eq!(stats.p2_5(), 10_250_000);
    assert_eq!(stats.p75(), 17_500_000);
    assert_eq!(stats.p90(), 19 * ONE);
    assert_eq!(stats.p99_999(), 19_999_900);
    assert_eq!(stats.average(), 15 * ONE);
    assert_eq!(stats.stddev(), 5 * ONE);
}

#[test]
fn fractions_of_a_unit() {
    // Five and four requests per second make four and a half on average.
    let stats = PerformanceStats::from_data(vec![5, 4]).unwrap();
    assert_eq!(stats.average(), 4_500_000);
    assert_eq!(stats.p50(), 4_500_000);
    assert_eq!(stats.stddev(), 500_000);
    // 2.5 and 3.25
    let stats = PerformanceStats::from_data(vec![2, 3, 4, 4]).unwrap();
    assert_eq!(stats.p50(), 3_500_000);
    assert_eq!(stats.average(), 3_250_000);
    assert_eq!(PerformanceStats::from_data(vec![2, 3]).unwrap().average(), 2_500_000);
    // A third of a unit is rounded down to a whole millionth.
    let stats = PerformanceStats::from_data(vec![0, 0, 1]).unwrap();
    assert_eq!(stats.average(), 333_333);
    // The variance is 2/9, its root 0.471404...
    assert_eq!(stats.stddev(), 471_404);
}

#[test]
fn percentile_on_a_sample_and_at_the_ends() {
    let sorted: Vec<u64> = vec![5, 6, 7, 8, 9];
    assert_eq!(compute_percentile(&sorted, 0), 5 * ONE);
    assert_eq!(compute_percentile(&sorted, 25_000), 6 * ONE);
    assert_eq!(compute_percentile(&sorted, 50_000), 7 * ONE);
    assert_eq!(compute_percentile(&sorted, 100_000), 9 * ONE);
    assert_eq!(compute_percentile(&sorted, 99_999), 8_999_960);
    assert_eq!(compute_percentile(&[42], 99_999), 42 * ONE);
    // A single sample is every percentile of itself, also beyond the hundredth.
    assert_eq!(compute_percentile(&[42], 100_001), 42 * ONE);
    assert_eq!(compute_percentile(&[42], u32::MAX), 42 * ONE);
}

#[test]
fn mean_is_rounded_down() {
    assert_eq!(rounded_mean(&[1, 2]), 1_500_000);
    assert_eq!(rounded_mean(&[1, 2, 4]), 2_333_333);
    assert_eq!(rounded_mean(&[u64::MAX, u64::MAX, u64::MAX]), u64::MAX as u128 * ONE);
    assert_eq!(sum(&[u64::MAX, u64::MAX]), 2 * (u64::MAX as u128));
    assert_eq!(sum(&[]), 0);
}

#[test]
fn the_widest_pair() {
    let top = u64::MAX as u128 * ONE;
    let stats = PerformanceStats::from_data(vec![u64::MAX, 0]).unwrap();
    assert_eq!(stats.min(), 0);
    assert_eq!(stats.max(), top);
    assert_eq!(stats.average(), top / 2);
    assert_eq!(stats.stddev(), top / 2);
    assert_eq!(stats.p50(), top / 2);
    assert_eq!(stats.p99_999(), u64::MAX as u128 * 999_990);
}

#[test]
fn many_samples_at_both_ends() {
    let top = u64::MAX as u128 * ONE;
    let mut data: Vec<u64> = vec![u64::MAX; 5_000];
    data.extend(vec![0u64; 5_000]);
    let stats = PerformanceStats::from_data(data).unwrap();
    assert_eq!(stats.min(), 0);
    assert_eq!(stats.max(), top);
    assert_eq!(stats.average(), top / 2);
    assert_eq!(stats.stddev(), top / 2);
    assert_eq!(stats.p2_5(), 0);
    assert_eq!(stats.p75(), top);
}

#[test]
fn large_equal_samples_have_no_spread() {
    let top = u64::MAX as u128 * ONE;
    let stats = PerformanceStats::from_data(vec![u64::MAX; 1000]).unwrap();
    assert_eq!(stats.min(), top);
    assert_eq!(stats.max(), top);
    assert_eq!(stats.average(), top);
    assert_eq!(stats.stddev(), 0);
    assert_eq!(stats.p99_999(), top);
}

#[test]
fn square_roots_are_rounded_down() {
    let root = |n: u128| isqrt(U256::product(n, 1));
    assert_eq!(root(0), 0);
    assert_eq!(root(1), 1);
    assert_eq!(root(2), 1);
    assert_eq!(root(3), 1);
    assert_eq!(root(4), 2);
    assert_eq!(root(15), 3);
    assert_eq!(root(16), 4);
    assert_eq!(root(2_000_000_000_000), 1_414_213);
    assert_eq!(root(u128::MAX), u64::MAX as u128);
    assert_eq!(root((u64::MAX as u128) * (u64::MAX as u128)), u64::MAX as u128);
    assert_eq!(root((u64::MAX as u128) * (u64::MAX as u128) - 1), u64::MAX as u128 - 1);
}

#[test]
fn square_roots_of_wide_numbers() {
    let square = U256::product(u128::MAX, u128::MAX);
    assert_eq!(isqrt(square), u128::MAX);
    assert_eq!(isqrt(square.minus(U256::product(1, 1))), u128::MAX - 1);
    assert_eq!(isqrt(square.plus(U256::product(1, 1))), u128::MAX);
    let big = 0xDEAD_BEEF_0123_4567_89AB_CDEF_0F1E_2D3Cu128;
    let below = U256::product(big, big).minus(U256::product(1, 1));
    assert_eq!(isqrt(U256::product(big, big)), big);
    assert_eq!(isqrt(below), big - 1);
    assert_eq!(isqrt(U256::product(big, big + 2)), big);
    assert_eq!(isqrt(U256::product(1 << 100, 1 << 100)), 1 << 100);
}

#[test]
fn stddev_alone() {
    assert_eq!(rounded_stddev(&[2, 4, 4, 4, 5, 5, 7, 9]), 2 * ONE);
    assert_eq!(rounded_stddev(&[9, 2, 7, 4, 5, 4, 5, 4]), 2 * ONE);
    assert_eq!(rounded_stddev(&[1_000, 2_000, 3_000, 4_000, 5_000]), 1_414_213_562);
    assert_eq!(rounded_stddev(&[u64::MAX]), 0);
    assert_eq!(rounded_stddev(&[1, 2]), 500_000);
}

#[test]
fn agrees_with_floating_point_formulas() {
    let mut data: Vec<u64> = Vec::new();
    let mut x: u64 = 12345;
    for _ in 0..1000 {
        // A fixed linear congruential sequence.
        x = x.wrapping_mul(6364136223846793005).wrapping_add(1442695040888963407);
        data.push(x >> 40);
    }
    let stats = PerformanceStats::from_data(data.clone()).unwrap();
    let mut sorted = data.clone();
    sorted.sort();
    let close = |exact: u128, float: f64| (in_units(exact) - float).abs() <= float * 1e-9 + 1e-5;
    assert_eq!(stats.min(), sorted[0] as u128 * ONE);
    assert_eq!(stats.max(), sorted[999] as u128 * ONE);
    assert!(close(stats.average(), float_mean(&data)));
    assert!(close(stats.stddev(), float_stddev(&data)));
    assert!(close(stats.p2_5(), float_percentile(&sorted, 2.5)));
    assert!(close(stats.p50(), float_percentile(&sorted, 50.0)));
    assert!(close(stats.p75(), float_percentile(&sorted, 75.0)));
    assert!(close(stats.p90(), float_percentile(&sorted, 90.0)));
    assert!(close(stats.p97_5(), float_percentile(&sorted, 97.5)));
    assert!(close(stats.p99(), float_percentile(&sorted, 99.0)));
    assert!(close(stats.p99_9(), float_percentile(&sorted, 99.9)));
    assert!(close(stats.p99_99(), float_percentile(&sorted, 99.99)));
    assert!(close(stats.p99_999(), float_percentile(&sorted, 99.999)));
}
