use rolling_bloom::BloomFilter;
use rolling_bloom::BloomHash;

#[test]
fn n8() {
    let mut filter = BloomFilter::<8, 0>::new();

    filter.add(b"hello");
    filter.add(b"world");

    assert!(filter.contains(b"hello"));
    assert!(filter.contains(b"world"));

    assert!(!filter.contains(b"foo"));
    assert!(!filter.contains(b"bar"));
}

#[test]
fn hashing_is_deterministic() {
    let first = BloomHash::<8, 0>::from_bytes(b"hello");
    let second = BloomHash::<8, 0>::from_bytes(b"hello");
    assert_eq!(first.hashes, second.hashes);
    assert_eq!(first.hashes.len(), 8);

    let third = BloomHash::<4, 0>::from_bytes(b"hello");
    let fourth = BloomHash::<4, 0>::from_bytes(b"hello");
    assert_eq!(third.hashes, fourth.hashes);
    assert_eq!(third.hashes.len(), 4);
}

#[test]
fn indices_stay_in_segment_range() {
    let hash = BloomHash::<8, 0>::from_bytes(b"some bytes to split");
    for index in hash.hashes.iter() {
        assert!(*index < 1 << 16);
    }
}

#[test]
fn segments_compose_across_counts() {
    // Both counts split the same 128-bit hash: each 32-bit segment must be
    // exactly its two 16-bit segments, low half first.
    let wide = BloomHash::<4, 0>::from_bytes(b"compose");
    let narrow = BloomHash::<8, 0>::from_bytes(b"compose");
    for i in 0..4 {
        assert_eq!(
            wide.hashes[i],
            narrow.hashes[2 * i] + (narrow.hashes[2 * i + 1] << 16)
        );
    }
}

#[test]
fn salt_changes_the_hash_space() {
    let plain = BloomHash::<8, 0>::from_bytes(b"hello");
    let salted = BloomHash::<8, 7>::from_bytes(b"hello");
    assert_ne!(plain.hashes, salted.hashes);
}

#[test]
fn repeated_add_changes_nothing() {
    let mut filter = BloomFilter::<8, 0>::new();
    filter.add(b"hello");
    let bits_after_one = filter.bits.clone();
    let len_after_one = filter.bits.len();

    filter.add(b"hello");
    assert_eq!(filter.bits, bits_after_one);
    assert_eq!(filter.bits.len(), len_after_one);
    assert!(filter.contains(b"hello"));
}

#[test]
fn empty_filter_contains_nothing() {
    let filter = BloomFilter::<8, 0>::new();
    assert!(!filter.contains(b"hello"));
    assert!(!filter.contains(b""));
}

#[test]
fn default_filter_is_empty() {
    let filter: BloomFilter<8, 0> = BloomFilter::default();
    assert_eq!(filter.bits.len(), 1 << 16);
    assert!(!filter.contains(b"hello"));
}

#[test]
fn empty_value_is_a_value() {
    let mut filter = BloomFilter::<8, 0>::new();
    filter.add(b"");
    assert!(filter.contains(b""));
}

#[test]
fn different_values_hash_differently() {
    // Would fail if the hash ignored its input and every value mapped to
    // one index set.
    let a = BloomHash::<4, 0>::from_bytes(b"hello");
    let b = BloomHash::<4, 0>::from_bytes(b"world");
    assert_ne!(a.hashes, b.hashes);
}
