//! The fixed-size Bloom filter and the hash splitter that feeds it.
//!
//! One 128-bit hash of the input bytes is split into `N` contiguous,
//! equal-width, non-overlapping bit segments; each segment, read as an
//! unsigned integer, indexes the filter's bit array of length
//! `2^(128/N)`, so every segment value is a valid index.

use vstd::arithmetic::power2::lemma2_to64;
use vstd::arithmetic::power2::pow2;
use vstd::bits::lemma_u128_shr_is_div;
use vstd::prelude::*;

verus! {

/// Carrier for the supported hash counts: `BloomHashCount` is implemented
/// exactly for the counts that split 128 bits into practical segments.
pub struct BloomHashCounter<const N: usize> {}

/// Marker trait for hash counts that can be used by the splitting scheme.
pub trait BloomHashCount {}

impl BloomHashCount for BloomHashCounter<4> {}

impl BloomHashCount for BloomHashCounter<8> {}

/// The hash counts for which the splitting scheme is defined: divisors of
/// 128 whose bit arrays stay practical (`2^32` and `2^16` bits).
pub open spec fn supported_count(n: usize) -> bool {
    n == 4 || n == 8
}

/// Width in bits of one index segment.
pub open spec fn segment_width(n: usize) -> nat
    recommends
        supported_count(n),
{
    (128 as nat) / (n as nat)
}

/// Number of bits in a filter: one for every possible segment value.
pub open spec fn filter_size(n: usize) -> nat
    recommends
        supported_count(n),
{
    pow2(segment_width(n))
}

/// The 128-bit hash that `gxhash::gxhash128` computes for the given bytes
/// and seed. Named only: the result is a deterministic function of the
/// two arguments, stable across calls.
pub uninterp spec fn gx128(input: Seq<u8>, seed: i64) -> u128;

/// Relies on `gxhash::gxhash128`: hashes an arbitrary stream of bytes to
/// a `u128`, a pure function of the bytes and the seed.
pub assume_specification[ gxhash::gxhash128 ](input: &[u8], seed: i64) -> (r: u128)
    ensures
        r == gx128(input@, seed),
;

/// The seed that a filter tagged with salt `S` hashes with.
pub open spec fn salted(s: u64) -> i64 {
    s as i64
}

/// The `i`-th index segment of hash `h` split into `n` equal widths: the
/// `128/n` bits of `h` starting at bit `i * (128/n)`.
pub open spec fn hash_index(h: u128, n: usize, i: int) -> usize
    recommends
        supported_count(n),
        0 <= i < n,
{
    (((h as nat) / pow2((i as nat) * segment_width(n))) % filter_size(n)) as usize
}

/// All `n` index segments of hash `h`, in segment order.
pub open spec fn hash_indices(h: u128, n: usize) -> Seq<usize>
    recommends
        supported_count(n),
{
    Seq::new(n as nat, |i: int| hash_index(h, n, i))
}

/// The index set that a filter with count `n` and salt `s` derives from
/// the given bytes.
pub open spec fn indices_of(input: Seq<u8>, n: usize, s: u64) -> Seq<usize>
    recommends
        supported_count(n),
{
    hash_indices(gx128(input, salted(s)), n)
}

/// The low-bits mask that keeps exactly one segment.
pub open spec fn segment_mask(n: usize) -> u128
    recommends
        supported_count(n),
{
    if n == 4 {
        0xffff_ffffu128
    } else {
        0xffffu128
    }
}

/// Shifting then masking extracts exactly the `i`-th index segment, and
/// every segment value is below the filter size.
proof fn lemma_extract_segment(h: u128, n: usize, i: int)
    requires
        supported_count(n),
        0 <= i < n,
    ensures
        0 <= i * ((128 as int) / (n as int)) < 128,
        ((h >> ((i * ((128 as int) / (n as int))) as u128)) & segment_mask(n)) == hash_index(
            h,
            n,
            i,
        ) as u128,
        (hash_index(h, n, i) as nat) < filter_size(n),
{
    lemma2_to64();
    if n == 4 {
        assert(segment_width(n) == 32);
        assert(filter_size(n) == 0x1_0000_0000);
        let s = (i * 32) as nat;
        assert((i as nat) * segment_width(n) == s);
        lemma_u128_shr_is_div(h, s as u128);
        let q = h >> (s as u128);
        assert(q & 0xffff_ffffu128 == q % 0x1_0000_0000u128 && q & 0xffff_ffffu128
            < 0x1_0000_0000u128) by (bit_vector);
    } else {
        assert(segment_width(n) == 16);
        assert(filter_size(n) == 0x1_0000);
        let s = (i * 16) as nat;
        assert((i as nat) * segment_width(n) == s);
        lemma_u128_shr_is_div(h, s as u128);
        let q = h >> (s as u128);
        assert(q & 0xffffu128 == q % 0x1_0000u128 && q & 0xffffu128 < 0x1_0000u128) by (bit_vector);
    }
}

/// An ordered record of `N` filter indices derived from one input's
/// 128-bit hash. Ephemeral: built per insertion or lookup, not stored.
pub struct BloomHash<const N: usize, const S: u64> where BloomHashCounter<N>: BloomHashCount {
    pub hashes: Vec<usize>,
}

impl<const N: usize, const S: u64> View for BloomHash<N, S> where BloomHashCounter<
    N,
>: BloomHashCount {
    type V = Seq<usize>;

    open spec fn view(&self) -> Seq<usize> {
        self.hashes@
    }
}

impl<const N: usize, const S: u64> BloomHash<N, S> where BloomHashCounter<N>: BloomHashCount {
    /// A well-formed record holds exactly `N` indices, each a valid
    /// position in a bit array of `filter_size(N)` bits.
    pub open spec fn wf(&self) -> bool {
        &&& self@.len() == N
        &&& forall|k: int| 0 <= k < N ==> (self@[k] as nat) < filter_size(N)
    }

    /// Derive the record for the given bytes: hash once, then split the
    /// 128 bits into `N` equal segments. Deterministic: equal bytes give
    /// the equal index set.
    pub fn from_bytes(value: &[u8]) -> (r: Self)
        requires
            supported_count(N),
        ensures
            r.wf(),
            r@ == indices_of(value@, N, S),
    {
        let seed: i64 = #[verifier::truncate] (S as i64);
        let hashed: u128 = gxhash::gxhash128(value, seed);
        let w: usize = 128 / N;
        let mask: u128 = if N == 4 {
            0xffff_ffff
        } else {
            0xffff
        };
        let mut hashes: Vec<usize> = Vec::with_capacity(N);
        let mut i: usize = 0;
        while i < N
            invariant
                supported_count(N),
                w == 128 as int / N as int,
                mask == segment_mask(N),
                hashed == gx128(value@, salted(S)),
                i <= N,
                hashes@.len() == i,
                forall|k: int| 0 <= k < i ==> hashes@[k] == hash_index(hashed, N, k),
                forall|k: int| 0 <= k < i ==> (hashes@[k] as nat) < filter_size(N),
            decreases N - i,
        {
            proof {
                lemma_extract_segment(hashed, N, i as int);
            }
            let shift: u128 = (i * w) as u128;
            let piece: u128 = (hashed >> shift) & mask;
            hashes.push(piece as usize);
            i = i + 1;
        }
        proof {
            assert(hashes@ =~= hash_indices(hashed, N));
        }
        BloomHash { hashes }
    }
}

/// True at every position one of `idxs` names.
pub open spec fn covers(idxs: Seq<usize>, j: int) -> bool {
    exists|m: int| 0 <= m < idxs.len() && idxs[m] == j
}

/// The bit array `bits` with every position in `idxs` set true and all
/// other positions unchanged.
pub open spec fn set_bits(bits: Seq<bool>, idxs: Seq<usize>) -> Seq<bool> {
    Seq::new(bits.len(), |j: int| bits[j] || covers(idxs, j))
}

/// The membership test: every position in `idxs` is set in `bits`.
pub open spec fn bits_contain(bits: Seq<bool>, idxs: Seq<usize>) -> bool {
    forall|m: int| 0 <= m < idxs.len() ==> bits[idxs[m] as int]
}

/// A bit array of `filter_size(n)` bits, all false.
pub open spec fn empty_bits(n: usize) -> Seq<bool>
    recommends
        supported_count(n),
{
    Seq::new(filter_size(n), |j: int| false)
}

/// A filter's bit array must be addressable: its length fits in `usize`.
pub open spec fn fits(n: usize) -> bool {
    filter_size(n) <= usize::MAX
}

/// Extending the considered prefix of `idxs` by one position covers
/// exactly the old prefix's positions plus the new index.
proof fn lemma_covers_take_step(idxs: Seq<usize>, k: int)
    requires
        0 <= k < idxs.len(),
    ensures
        forall|j: int| #[trigger]
            covers(idxs.take(k + 1), j) == (covers(idxs.take(k), j) || idxs[k] == j),
{
    assert forall|j: int| #[trigger]
        covers(idxs.take(k + 1), j) == (covers(idxs.take(k), j) || idxs[k] == j) by {
        if covers(idxs.take(k + 1), j) {
            let m = choose|m: int|
                0 <= m < idxs.take(k + 1).len() && (#[trigger] idxs.take(k + 1)[m]) == j;
            if m < k {
                assert(idxs.take(k)[m] == j);
                assert(covers(idxs.take(k), j));
            } else {
                assert(idxs[k] == j);
            }
        }
        if covers(idxs.take(k), j) {
            let m = choose|m: int| 0 <= m < idxs.take(k).len() && (#[trigger] idxs.take(k)[m]) == j;
            assert(idxs.take(k + 1)[m] == j);
            assert(covers(idxs.take(k + 1), j));
        }
        if idxs[k] == j {
            assert(idxs.take(k + 1)[k] == j);
            assert(covers(idxs.take(k + 1), j));
        }
    }
}

/// A single fixed-size Bloom filter: a bit array of `2^(128/N)` bits,
/// monotonically set and never cleared except by replacing the filter.
pub struct BloomFilter<const N: usize, const S: u64> where BloomHashCounter<N>: BloomHashCount {
    pub bits: Vec<bool>,
}

impl<const N: usize, const S: u64> View for BloomFilter<N, S> where BloomHashCounter<
    N,
>: BloomHashCount {
    type V = Seq<bool>;

    open spec fn view(&self) -> Seq<bool> {
        self.bits@
    }
}

impl<const N: usize, const S: u64> BloomFilter<N, S> where BloomHashCounter<N>: BloomHashCount {
    /// A well-formed filter has exactly one bit per possible index.
    pub open spec fn wf(&self) -> bool {
        &&& supported_count(N)
        &&& fits(N)
        &&& self@.len() == filter_size(N)
    }

    /// Create a new Bloom filter with every bit false.
    pub fn new() -> (r: Self)
        requires
            supported_count(N),
            N == 4 ==> fits(N),
        ensures
            r.wf(),
            r@ == empty_bits(N),
    {
        proof {
            lemma2_to64();
        }
        let size64: u64 = if N == 4 {
            0x1_0000_0000
        } else {
            0x1_0000
        };
        let size: usize = size64 as usize;
        let bits: Vec<bool> = vec![false; size];
        proof {
            assert(bits@ =~= empty_bits(N));
        }
        BloomFilter { bits }
    }

    /// Set every bit the hash record names; all other bits are unchanged.
    /// Idempotent: a record already present changes nothing.
    pub fn add_hash(&mut self, hash: &BloomHash<N, S>)
        requires
            old(self).wf(),
            hash.wf(),
        ensures
            final(self).wf(),
            final(self)@ == set_bits(old(self)@, hash@),
    {
        let mut k: usize = 0;
        while k < N
            invariant
                old(self).wf(),
                hash.wf(),
                k <= N,
                self@.len() == old(self)@.len(),
                forall|j: int|
                    0 <= j < self@.len() ==> self@[j] == (old(self)@[j] || covers(
                        hash@.take(k as int),
                        j,
                    )),
            decreases N - k,
        {
            let idx: usize = hash.hashes[k];
            self.bits[idx] = true;
            proof {
                lemma_covers_take_step(hash@, k as int);
                assert(covers(hash@.take(k as int + 1), idx as int));
            }
            k = k + 1;
        }
        proof {
            assert(hash@.take(N as int) =~= hash@);
            assert(self@ =~= set_bits(old(self)@, hash@));
        }
    }

    /// Add a value: derive its hash record and set those bits.
    pub fn add(&mut self, value: &[u8])
        requires
            old(self).wf(),
        ensures
            final(self).wf(),
            final(self)@ == set_bits(old(self)@, indices_of(value@, N, S)),
    {
        let hash = BloomHash::<N, S>::from_bytes(value);
        self.add_hash(&hash);
    }

    /// Conservative membership test: true exactly when every bit of the
    /// value's index set is set. A value previously added is always
    /// reported present; a value never added may be too (false positive).
    /// The result is a pure function of the bit array and the bytes.
    pub fn contains(&self, value: &[u8]) -> (r: bool)
        requires
            self.wf(),
        ensures
            r == bits_contain(self@, indices_of(value@, N, S)),
    {
        let hash = BloomHash::<N, S>::from_bytes(value);
        let mut k: usize = 0;
        while k < N
            invariant
                self.wf(),
                hash.wf(),
                hash@ == indices_of(value@, N, S),
                k <= N,
                forall|m: int| 0 <= m < k ==> self@[hash@[m] as int],
            decreases N - k,
        {
            let idx: usize = hash.hashes[k];
            if !self.bits[idx] {
                return false;
            }
            k = k + 1;
        }
        true
    }
}

impl<const S: u64> Default for BloomFilter<8, S> {
    /// Create a new Bloom filter with every bit false.
    ///
    /// Only the `2^16`-bit configuration has a `Default`: `Default` can
    /// carry no precondition, and a filter of `2^32` bits cannot be shown
    /// to fit every machine's address space. That configuration is built
    /// with `new`, whose contract assumes that it fits.
    fn default() -> (r: Self)
        ensures
            r.wf(),
            r@ == empty_bits(8),
    {
        BloomFilter::new()
    }
}

/// Every index the splitting scheme derives is a valid position in a bit
/// array of `filter_size(n)` bits, and a value's index set has exactly
/// `n` entries.
pub proof fn lemma_indices_in_range(input: Seq<u8>, n: usize, s: u64)
    requires
        supported_count(n),
    ensures
        indices_of(input, n, s).len() == n,
        forall|m: int| 0 <= m < n ==> (indices_of(input, n, s)[m] as nat) < filter_size(n),
{
    assert forall|m: int| 0 <= m < n implies (indices_of(input, n, s)[m] as nat) < filter_size(
        n,
    ) by {
        lemma_extract_segment(gx128(input, salted(s)), n, m);
    }
}

/// No false negatives: once a value's record is written into a bit array,
/// the membership test for that value is true, and it stays true in any
/// later array that only has more bits set — that is, until the filter is
/// replaced wholesale.
pub proof fn lemma_no_false_negative(
    bits: Seq<bool>,
    later: Seq<bool>,
    input: Seq<u8>,
    n: usize,
    s: u64,
)
    requires
        supported_count(n),
        bits.len() == filter_size(n),
        later.len() == filter_size(n),
        forall|j: int|
            0 <= j < later.len() && set_bits(bits, indices_of(input, n, s))[j] ==> later[j],
    ensures
        bits_contain(set_bits(bits, indices_of(input, n, s)), indices_of(input, n, s)),
        bits_contain(later, indices_of(input, n, s)),
{
    let idxs = indices_of(input, n, s);
    lemma_indices_in_range(input, n, s);
    lemma_added_is_contained(bits, idxs);
    lemma_contained_is_monotone(set_bits(bits, idxs), later, idxs);
}

/// A record just written into a bit array is contained in it: `add`
/// followed by `contains` of the same value never reports absence.
pub proof fn lemma_added_is_contained(bits: Seq<bool>, idxs: Seq<usize>)
    requires
        forall|m: int| 0 <= m < idxs.len() ==> (idxs[m] as int) < bits.len(),
    ensures
        bits_contain(set_bits(bits, idxs), idxs),
{
    assert forall|m: int| 0 <= m < idxs.len() implies set_bits(bits, idxs)[idxs[m] as int] by {
        assert(covers(idxs, idxs[m] as int));
    }
}

/// Setting bits never clears one: every bit set in the old array is
/// still set after `set_bits`, and the array keeps its length.
pub proof fn lemma_set_bits_monotone(bits: Seq<bool>, idxs: Seq<usize>)
    ensures
        set_bits(bits, idxs).len() == bits.len(),
        forall|j: int| 0 <= j < bits.len() && bits[j] ==> set_bits(bits, idxs)[j],
{
}

/// A record contained in a bit array stays contained in any array that
/// only sets more bits: containment survives further insertions.
pub proof fn lemma_contained_is_monotone(b1: Seq<bool>, b2: Seq<bool>, idxs: Seq<usize>)
    requires
        b1.len() == b2.len(),
        forall|j: int| 0 <= j < b1.len() && b1[j] ==> b2[j],
        forall|m: int| 0 <= m < idxs.len() ==> (idxs[m] as int) < b1.len(),
        bits_contain(b1, idxs),
    ensures
        bits_contain(b2, idxs),
{
    assert forall|m: int| 0 <= m < idxs.len() implies b2[idxs[m] as int] by {
        assert(b1[idxs[m] as int]);
    }
}

/// Writing the same record twice leaves the bit array exactly as one
/// write left it.
pub proof fn lemma_set_bits_idempotent(bits: Seq<bool>, idxs: Seq<usize>)
    ensures
        set_bits(set_bits(bits, idxs), idxs) == set_bits(bits, idxs),
{
    assert(set_bits(set_bits(bits, idxs), idxs) =~= set_bits(bits, idxs));
}

/// A freshly created filter contains no record: a nonempty index set is
/// never contained in an all-false bit array.
pub proof fn lemma_empty_contains_nothing(n: usize, idxs: Seq<usize>)
    requires
        idxs.len() > 0,
        forall|m: int| 0 <= m < idxs.len() ==> (idxs[m] as nat) < filter_size(n),
    ensures
        !bits_contain(empty_bits(n), idxs),
{
    assert(!empty_bits(n)[idxs[0] as int]);
}

} // verus!
