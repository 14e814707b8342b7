use pertaasr::stats::{throughput_per_sec, LatencySummary};

fn summary_of(samples: &[u64]) -> LatencySummary {
    let mut s = LatencySummary::new();
    for v in samples {
        s.record(*v);
    }
    s
}

fn key(s: &LatencySummary) -> (u64, u128, u64, u64, u64) {
    (s.count(), s.total_ns(), s.min_ns(), s.max_ns(), s.mean_ns())
}

#[test]
fn empty_summary_is_zero() {
    let s = LatencySummary::new();
    assert_eq!(key(&s), (0, 0, 0, 0, 0));
}

#[test]
fn record_tracks_count_sum_min_max_mean() {
    let s = summary_of(&[300, 100, 200]);
    assert_eq!(s.count(), 3);
    assert_eq!(s.total_ns(), 600);
    assert_eq!(s.min_ns(), 100);
    assert_eq!(s.max_ns(), 300);
    assert_eq!(s.mean_ns(), 200);
}

#[test]
fn mean_rounds_down() {
    let s = summary_of(&[1, 2]);
    assert_eq!(s.mean_ns(), 1);
}

#[test]
fn large_samples_do_not_overflow() {
    let s = summary_of(&[u64::MAX, u64::MAX]);
    assert_eq!(s.total_ns(), 2 * (u64::MAX as u128));
    assert_eq!(s.mean_ns(), u64::MAX);
}

#[test]
fn merge_order_does_not_matter() {
    let a = summary_of(&[5, 9]);
    let b = summary_of(&[1]);
    let c = summary_of(&[7, 3, 11]);
    let mut ab_c = a;
    ab_c.merge(&b);
    ab_c.merge(&c);
    let mut bc = b;
    bc.merge(&c);
    let mut a_bc = a;
    a_bc.merge(&bc);
    let mut cba = c;
    cba.merge(&b);
    cba.merge(&a);
    assert_eq!(key(&ab_c), key(&a_bc));
    assert_eq!(key(&ab_c), key(&cba));
    assert_eq!(key(&ab_c), key(&summary_of(&[5, 9, 1, 7, 3, 11])));
}

#[test]
fn merge_with_empty_changes_nothing() {
    let a = summary_of(&[4, 8]);
    let mut x = a;
    x.merge(&LatencySummary::new());
    assert_eq!(key(&x), key(&a));
    let mut y = LatencySummary::new();
    y.merge(&a);
    assert_eq!(key(&y), key(&a));
}

#[test]
fn throughput_formula() {
    assert_eq!(throughput_per_sec(500, 1_000_000_000), 500);
    assert_eq!(throughput_per_sec(3, 2_000_000_000), 1);
    assert_eq!(throughput_per_sec(1, 1_000), 1_000_000);
    assert_eq!(throughput_per_sec(7, 0), 0);
    assert_eq!(throughput_per_sec(u64::MAX, 1), (u64::MAX as u128) * 1_000_000_000);
}
