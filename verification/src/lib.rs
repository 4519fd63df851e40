//! An approximate, time-windowed set-membership structure: a Bloom filter
//! that forgets old entries by rotating between two underlying filters.
//!
//! The building blocks are a hash splitter that derives a fixed number of
//! bit-array indices from one 128-bit hash, a fixed-size Bloom filter over
//! those indices, and a rolling pair of filters governed by a pluggable
//! shift condition (elapsed time or insertion count).

pub mod base;
pub mod rolling;
pub mod shift;

pub use base::BloomFilter;
pub use base::BloomHash;
pub use base::BloomHashCount;
pub use base::BloomHashCounter;
pub use rolling::RollingBloomFilter;
pub use shift::ShiftByDuration;
pub use shift::ShiftByInsertions;
pub use shift::ShiftCondition;
