use gau_rs::pacing::RateLimiter;

#[test]
fn instants_lie_on_a_grid_from_the_anchor() {
    let mut pacer = RateLimiter::every(1_000, 250);
    assert_eq!(pacer.period(), Some(250));
    for k in 0..100u64 {
        assert_eq!(pacer.wait(), Some(1_000 + k * 250));
    }
}

#[test]
fn ten_per_second() {
    let mut pacer = RateLimiter::every(0, 100_000_000);
    let mut last = 0;
    for _ in 0..21 {
        last = pacer.wait().unwrap();
    }
    assert_eq!(last, 2_000_000_000);
}

#[test]
fn an_unlimited_pacer_never_names_an_instant() {
    let mut pacer = RateLimiter::unlimited();
    assert_eq!(pacer.period(), None);
    for _ in 0..10 {
        assert_eq!(pacer.wait(), None);
    }
}

#[test]
fn instants_stop_at_the_end_of_the_clock() {
    let mut pacer = RateLimiter::every(u64::MAX - 5, 4);
    assert_eq!(pacer.wait(), Some(u64::MAX - 5));
    assert_eq!(pacer.wait(), Some(u64::MAX - 1));
    assert_eq!(pacer.wait(), Some(u64::MAX));
    assert_eq!(pacer.wait(), Some(u64::MAX));
}

#[test]
fn a_moved_anchor_restarts_the_grid() {
    let mut pacer = RateLimiter::every(0, 10);
    assert_eq!(pacer.wait(), Some(0));
    assert_eq!(pacer.wait(), Some(10));
    let mut moved = pacer.anchored_at(500);
    assert_eq!(moved.period(), Some(10));
    assert_eq!(moved.wait(), Some(500));
    assert_eq!(moved.wait(), Some(510));
}
