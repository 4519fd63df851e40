use rolling_bloom::RollingBloomFilter;
use rolling_bloom::ShiftByDuration;
use rolling_bloom::ShiftByInsertions;
use rolling_bloom::ShiftCondition;

const HOUR_NANOS: u128 = 3_600_000_000_000;

#[test]
fn insertion_count_trips_at_limit() {
    let mut condition = ShiftByInsertions::new(2);
    assert!(!condition.should_shift());
    assert!(!condition.should_shift_after_increment());
    assert!(condition.should_shift_after_increment());

    condition.do_shift();
    assert!(!condition.should_shift());
    assert_eq!(condition.insertion_count, 0);
    assert_eq!(condition.insertions, 2);
}

#[test]
fn insertion_count_default_limit() {
    let condition = ShiftByInsertions::default();
    assert_eq!(condition.insertions, 4096);
    assert_eq!(condition.insertion_count, 0);
}

#[test]
fn duration_window_not_elapsed() {
    // A one-hour window cannot have elapsed within this test.
    let mut condition = ShiftByDuration::new(HOUR_NANOS);
    assert_eq!(condition.duration_nanos, HOUR_NANOS);
    assert!(!condition.should_shift());
    condition.increment();
    assert!(!condition.should_shift());
    assert!(!condition.should_shift_after_increment());
}

#[test]
fn window_boundary_is_inclusive() {
    assert!(!rolling_bloom::shift::window_tripped(99, 100));
    assert!(rolling_bloom::shift::window_tripped(100, 100));
    assert!(rolling_bloom::shift::window_tripped(101, 100));
    assert!(rolling_bloom::shift::window_tripped(0, 0));
}

#[test]
fn duration_default_window() {
    let condition = ShiftByDuration::default();
    assert_eq!(condition.duration_nanos, HOUR_NANOS);
}

#[test]
fn duration_strategy_keeps_window_open() {
    // With an hour-long window, no rotation happens during the test, so
    // everything inserted stays visible.
    let mut rolling = RollingBloomFilter::<8, _, 0>::new(ShiftByDuration::new(HOUR_NANOS));
    rolling.add("hello".as_bytes());
    rolling.add("world".as_bytes());
    assert!(rolling.contains("hello".as_bytes()));
    assert!(rolling.contains("world".as_bytes()));
    assert!(!rolling.contains("foo".as_bytes()));
}
