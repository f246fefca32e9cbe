use gau_rs::metrics::{sample_tick, ErrorKind, LiveCounter, MetricsAccumulator, Outcome};

#[test]
fn not_found_counts_as_non2xx_not_as_error() {
    let mut metrics = MetricsAccumulator::new();
    metrics.record(Outcome::Success { status_code: 404, byte_length: 120, latency: 5_000 });
    assert_eq!(metrics.non2xx(), 1);
    assert_eq!(metrics.errors(), 0);
    assert_eq!(metrics.requests(), 1);
    assert_eq!(metrics.latencies(), &vec![5_000]);
    assert_eq!(metrics.byte_lengths(), &vec![120]);
}

#[test]
fn connection_refused_counts_as_error_not_as_non2xx() {
    let mut metrics = MetricsAccumulator::new();
    metrics.record(Outcome::Failure { error_kind: ErrorKind::Network, latency: 7_000 });
    assert_eq!(metrics.errors(), 1);
    assert_eq!(metrics.non2xx(), 0);
    assert_eq!(metrics.requests(), 0);
    assert_eq!(metrics.latencies(), &vec![7_000]);
    assert!(metrics.byte_lengths().is_empty());
}

#[test]
fn admission_failure_counts_as_error() {
    let mut metrics = MetricsAccumulator::new();
    metrics.record(Outcome::Failure { error_kind: ErrorKind::Admission, latency: 0 });
    assert_eq!(metrics.errors(), 1);
    assert_eq!(metrics.requests(), 0);
    assert_eq!(metrics.latencies().len(), 1);
}

#[test]
fn status_classes() {
    let mut metrics = MetricsAccumulator::new();
    for status in [199u16, 200, 204, 299, 300, 301, 500, 100] {
        metrics.record(Outcome::Success { status_code: status, byte_length: 1, latency: 1 });
    }
    assert_eq!(metrics.requests(), 8);
    // 199, 300, 301, 500 and 100 lie outside 200..300
    assert_eq!(metrics.non2xx(), 5);
    assert_eq!(metrics.errors(), 0);
}

#[test]
fn samples_keep_their_order_of_arrival() {
    let mut metrics = MetricsAccumulator::new();
    metrics.record(Outcome::Success { status_code: 200, byte_length: 10, latency: 3 });
    metrics.record(Outcome::Failure { error_kind: ErrorKind::Network, latency: 1 });
    metrics.record(Outcome::Success { status_code: 503, byte_length: 30, latency: 2 });
    assert_eq!(metrics.latencies(), &vec![3, 1, 2]);
    assert_eq!(metrics.byte_lengths(), &vec![10, 30]);
    assert_eq!(metrics.requests() + metrics.errors(), 3);
    assert_eq!(metrics.non2xx(), 1);
    let (latencies, per_second, byte_lengths) = metrics.into_samples();
    assert_eq!(latencies, vec![3, 1, 2]);
    assert!(per_second.is_empty());
    assert_eq!(byte_lengths, vec![10, 30]);
}

#[test]
fn five_then_three_requests_per_second() {
    let mut counter = LiveCounter::new();
    let mut metrics = MetricsAccumulator::new();
    for _ in 0..5 {
        counter.increment();
    }
    assert_eq!(sample_tick(&mut counter, &mut metrics), 5);
    assert_eq!(counter.count(), 0);
    for _ in 0..3 {
        counter.increment();
    }
    assert_eq!(sample_tick(&mut counter, &mut metrics), 3);
    assert_eq!(metrics.per_second(), &vec![5, 3]);
    assert_eq!(counter.count(), 0);
}

#[test]
fn a_tick_without_requests_appends_zero() {
    let mut counter = LiveCounter::new();
    let mut metrics = MetricsAccumulator::new();
    assert_eq!(sample_tick(&mut counter, &mut metrics), 0);
    metrics.push_second(9);
    assert_eq!(metrics.per_second(), &vec![0, 9]);
    assert!(metrics.latencies().is_empty());
    assert_eq!(metrics.requests(), 0);
}

#[test]
fn outcome_carries_its_latency() {
    let ok = Outcome::Success { status_code: 200, byte_length: 0, latency: 11 };
    let failed = Outcome::Failure { error_kind: ErrorKind::Network, latency: 12 };
    assert_eq!(ok.latency(), 11);
    assert_eq!(failed.latency(), 12);
}

#[test]
fn the_sampler_ticks_from_the_first_full_second() {
    let mut cadence = gau_rs::metrics::sampler_cadence(250);
    assert_eq!(cadence.wait(), Some(1_000_000_250));
    assert_eq!(cadence.wait(), Some(2_000_000_250));
    assert_eq!(cadence.wait(), Some(3_000_000_250));
    let mut late = gau_rs::metrics::sampler_cadence(u64::MAX - 1);
    assert_eq!(late.wait(), Some(u64::MAX));
}
