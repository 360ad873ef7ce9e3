use perf_grouping::ring::RollingAvg;

#[test]
fn single_sample_mean_is_that_sample() {
    let mut a = RollingAvg::new(120);
    a.push(7000);
    assert_eq!(a.mean(), 7000);
}

#[test]
fn empty_mean_is_zero() {
    let a = RollingAvg::new(120);
    assert_eq!(a.mean(), 0);
}

#[test]
fn ring_evicts_exactly_the_oldest() {
    // Capacity 3: pushing 1..=4 (in thousandths) must leave 2, 3, 4 held,
    // not 1, 2, 3.
    let mut a = RollingAvg::new(3);
    for v in 1..=4u64 {
        a.push(v * 1000);
    }
    assert_eq!(a.mean(), (2000 + 3000 + 4000) / 3);
}

#[test]
fn reset_restores_fresh_mean() {
    let fresh = RollingAvg::new(120);
    let mut a = RollingAvg::new(120);
    a.push(123);
    a.push(456);
    a.reset();
    assert_eq!(a.mean(), fresh.mean());
    assert_eq!(a.mean(), 0);
}

#[test]
fn default_window_behaves_like_fresh() {
    let mut a = RollingAvg::default();
    assert_eq!(a.mean(), 0);
    a.push(42);
    assert_eq!(a.mean(), 42);
}

#[test]
fn mean_floors_toward_zero() {
    let mut a = RollingAvg::new(2);
    a.push(1);
    a.push(2);
    assert_eq!(a.mean(), 1);
}

#[test]
fn window_of_120_keeps_last_120_of_200() {
    // 200 frames of 1.0..=200.0 milliseconds, held as microseconds: the
    // window keeps 81.0..=200.0, whose mean is 140.5 ms.
    let mut a = RollingAvg::new(120);
    for v in 1..=200u64 {
        a.push(v * 1000);
    }
    let expected: u64 = (81..=200u64).map(|v| v * 1000).sum::<u64>() / 120;
    assert_eq!(a.mean(), expected);
    assert_eq!(a.mean(), 140500);
}
