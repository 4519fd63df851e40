use rolling_bloom::RollingBloomFilter;
use rolling_bloom::ShiftByInsertions;

#[test]
fn shift_by_insertions() {
    let shift_condition = ShiftByInsertions::new(3);
    let mut rolling_bloom_filter = RollingBloomFilter::<8, _, 0>::new(shift_condition);

    rolling_bloom_filter.add("hello".as_bytes());
    rolling_bloom_filter.add("world".as_bytes());

    assert!(rolling_bloom_filter.contains("hello".as_bytes()));
    assert!(rolling_bloom_filter.contains("world".as_bytes()));
    assert!(!rolling_bloom_filter.contains("foo".as_bytes()));

    rolling_bloom_filter.add("foo".as_bytes());
    rolling_bloom_filter.add("bar".as_bytes());

    assert!(rolling_bloom_filter.contains("foo".as_bytes()));
    assert!(rolling_bloom_filter.contains("bar".as_bytes()));
    assert!(rolling_bloom_filter.contains("hello".as_bytes()));
    assert!(rolling_bloom_filter.contains("world".as_bytes()));

    rolling_bloom_filter.add("baz".as_bytes());
    rolling_bloom_filter.add("qux".as_bytes());

    assert!(rolling_bloom_filter.contains("baz".as_bytes()));
    assert!(rolling_bloom_filter.contains("qux".as_bytes()));
    assert!(rolling_bloom_filter.contains("bar".as_bytes()));

    // The oldest filter should have been shifted, resulting in the first
    // three insertions being removed from the filter.
    assert!(!rolling_bloom_filter.contains("foo".as_bytes()));
    assert!(!rolling_bloom_filter.contains("hello".as_bytes()));
    assert!(!rolling_bloom_filter.contains("world".as_bytes()));

    rolling_bloom_filter.add("quack".as_bytes());
    assert!(rolling_bloom_filter.contains("quack".as_bytes()));
    assert!(rolling_bloom_filter.contains("bar".as_bytes()));
}

#[test]
fn default_window_uses_default_strategy() {
    let mut rolling: RollingBloomFilter<8, ShiftByInsertions, 0> = RollingBloomFilter::default();
    assert_eq!(rolling.shift_condition.insertions, 4096);
    assert_eq!(rolling.shift_condition.insertion_count, 0);
    rolling.add("hello".as_bytes());
    assert!(rolling.contains("hello".as_bytes()));
}

#[test]
fn retention_window_bounds() {
    // An element inserted right after a rotation is queryable through the
    // next rotation and gone after two rotations with no re-insertion.
    let mut rolling = RollingBloomFilter::<8, _, 0>::new(ShiftByInsertions::new(1000));

    rolling.shift();
    rolling.add("fresh".as_bytes());
    assert!(rolling.contains("fresh".as_bytes()));

    rolling.shift();
    assert!(rolling.contains("fresh".as_bytes()));

    rolling.shift();
    assert!(!rolling.contains("fresh".as_bytes()));
}

#[test]
fn limit_one_rotates_every_insertion() {
    // Every insertion rotates: an element is visible right after its own
    // insertion (dual-write puts it in the filter being promoted), and a
    // window is a single insertion, so the next insertion evicts it.
    let mut rolling = RollingBloomFilter::<8, _, 0>::new(ShiftByInsertions::new(1));

    rolling.add("one".as_bytes());
    assert!(rolling.contains("one".as_bytes()));
    rolling.add("two".as_bytes());
    assert!(rolling.contains("two".as_bytes()));
    assert!(!rolling.contains("one".as_bytes()));
    rolling.add("three".as_bytes());
    assert!(rolling.contains("three".as_bytes()));
    assert!(!rolling.contains("two".as_bytes()));
}

#[test]
fn limit_insertion_rotates_exactly_then() {
    // With limit 3, the third insertion of a window rotates on that call:
    // the counter is reset to zero; earlier insertions leave it growing.
    let mut rolling = RollingBloomFilter::<8, _, 0>::new(ShiftByInsertions::new(3));

    rolling.add("a".as_bytes());
    assert_eq!(rolling.shift_condition.insertion_count, 1);
    rolling.add("b".as_bytes());
    assert_eq!(rolling.shift_condition.insertion_count, 2);
    rolling.add("c".as_bytes());
    assert_eq!(rolling.shift_condition.insertion_count, 0);
    assert!(rolling.contains("a".as_bytes()));
    assert!(rolling.contains("b".as_bytes()));
    assert!(rolling.contains("c".as_bytes()));
}
