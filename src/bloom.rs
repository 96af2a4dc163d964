//! The filter: sizing, construction, insertion and membership queries.
use vstd::prelude::*;
use vstd::string::StringSliceAdditionalSpecFns;
use vstd::arithmetic::div_mod::{lemma_div_by_multiple, lemma_div_is_ordered, lemma_div_is_ordered_by_denominator};
use crate::bitmap::{bits_of, max_bitmap_len, Bitmap};
use crate::hashing::{item_hashes, probe_index, probe_of};

verus! {

/// Numerator of the rational approximation of ln 2 used in sizing.
pub const LN_2_NUMERATOR: u64 = 693_147_180_559_945_309;

/// Denominator of the rational approximation of ln 2 used in sizing.
pub const LN_2_DENOMINATOR: u64 = 1_000_000_000_000_000_000;

/// The number of hash functions that minimises the false-positive rate of a
/// bitmap of `bitmap_size` bits holding `expected` items:
/// `floor(ln 2 * bitmap_size / expected)`, and at least 1.
pub open spec fn optimal_hash_count(bitmap_size: nat, expected: nat) -> nat {
    let k = (bitmap_size * LN_2_NUMERATOR) / (expected * LN_2_DENOMINATOR);
    if k == 0 {
        1
    } else {
        k as nat
    }
}

/// `bits` with every bit index that `item` selects among its first `k` set.
pub open spec fn with_probes_set(bits: Seq<bool>, item: Seq<u8>, k: nat) -> Seq<bool> {
    Seq::new(bits.len(), |j: int| bits[j] || is_probe(item, j, k, bits.len()))
}

/// Whether `j` is one of the first `k` bit indices that `item` selects in a
/// bitmap of `m` bits.
pub open spec fn is_probe(item: Seq<u8>, j: int, k: nat, m: nat) -> bool {
    exists|i: nat| i < k && #[trigger] probe_of(item, i, m) == j
}

/// Whether every one of the first `k` bit indices that `item` selects is set.
pub open spec fn probes_all_set(bits: Seq<bool>, item: Seq<u8>, k: nat) -> bool {
    forall|i: nat| i < k ==> bits[#[trigger] probe_of(item, i, bits.len()) as int]
}

/// Why a filter could not be built.
#[derive(Debug, Clone, Copy, PartialEq, Eq, Structural)]
pub enum SizingError {
    /// The expected number of insertions is not positive.
    NoExpectedInsertions,
    /// The target false-positive rate is not strictly between 0 and 1.
    RateOutOfRange,
    /// The bitmap would hold no bit.
    EmptyBitmap,
    /// The bitmap would hold more bits than a bit-vector can.
    BitmapTooLarge,
}

/// The abstract state of a filter.
pub ghost struct BloomView {
    pub expected_insertions: int,
    pub rate_bits: u64,
    pub bit_count: nat,
    pub hash_count: nat,
    pub bits: Seq<bool>,
}

impl BloomView {
    /// A usable filter: at least one bit, at least one hash function, and a
    /// bitmap of exactly `bit_count` bits.
    pub open spec fn wf(self) -> bool {
        &&& self.expected_insertions >= 1
        &&& self.bit_count >= 1
        &&& self.hash_count >= 1
        &&& self.bits.len() == self.bit_count
    }

    /// Whether a query for `item` answers "maybe present".
    pub open spec fn contains(self, item: Seq<u8>) -> bool {
        probes_all_set(self.bits, item, self.hash_count)
    }

    /// The state after inserting `item`.
    pub open spec fn insert(self, item: Seq<u8>) -> BloomView {
        BloomView { bits: with_probes_set(self.bits, item, self.hash_count), ..self }
    }
}

/// A filter just built for `expected` items, from a rate encoded as
/// `rate_bits`, with `bit_count` bits, all unset.
pub open spec fn fresh_view(expected: int, rate_bits: u64, bit_count: nat) -> BloomView {
    BloomView {
        expected_insertions: expected,
        rate_bits,
        bit_count,
        hash_count: optimal_hash_count(bit_count, expected as nat),
        bits: Seq::new(bit_count, |j: int| false),
    }
}

/// A Bloom filter over byte strings.
pub struct Bloom {
    number_of_elements_to_be_inserted: i32,
    desired_false_positive_probability_bits: u64,
    bits_in_the_filter: usize,
    number_of_hash_functions: u64,
    bitmap: Bitmap,
}

impl View for Bloom {
    type V = BloomView;

    closed spec fn view(&self) -> BloomView {
        BloomView {
            expected_insertions: self.number_of_elements_to_be_inserted as int,
            rate_bits: self.desired_false_positive_probability_bits,
            bit_count: self.bits_in_the_filter as nat,
            hash_count: self.number_of_hash_functions as nat,
            bits: bits_of(self.bitmap),
        }
    }
}

impl Bloom {
    /// The number of hash functions for a bitmap of `bitmap_size` bits that
    /// is to hold `number_of_elements_to_be_inserted` items.
    pub fn get_optimal_number_of_hash_functions(
        bitmap_size: usize,
        number_of_elements_to_be_inserted: i32,
    ) -> (r: u64)
        requires
            number_of_elements_to_be_inserted >= 1,
        ensures
            r == optimal_hash_count(bitmap_size as nat, number_of_elements_to_be_inserted as nat),
            r >= 1,
    {
        let m = bitmap_size as u128;
        let n = number_of_elements_to_be_inserted as u128;
        proof {
            assert(m * LN_2_NUMERATOR < 0x1_0000_0000_0000_0000 * 0x1_0000_0000_0000_0000)
                by (nonlinear_arith)
                requires
                    m < 0x1_0000_0000_0000_0000,
                    LN_2_NUMERATOR < 0x1_0000_0000_0000_0000,
            ;
            assert(n * LN_2_DENOMINATOR < 0x1_0000_0000_0000_0000 * 0x1_0000_0000_0000_0000)
                by (nonlinear_arith)
                requires
                    n < 0x1_0000_0000_0000_0000,
                    LN_2_DENOMINATOR < 0x1_0000_0000_0000_0000,
            ;
            assert(n * LN_2_DENOMINATOR >= LN_2_DENOMINATOR) by (nonlinear_arith)
                requires
                    n >= 1,
            ;
        }
        let num = m * (LN_2_NUMERATOR as u128);
        let den = n * (LN_2_DENOMINATOR as u128);
        let k = num / den;
        proof {
            let d = LN_2_DENOMINATOR as int;
            lemma_div_is_ordered_by_denominator(num as int, d, den as int);
            assert(m * LN_2_NUMERATOR <= m * LN_2_DENOMINATOR) by (nonlinear_arith)
                requires
                    LN_2_NUMERATOR <= LN_2_DENOMINATOR,
            ;
            lemma_div_is_ordered(num as int, m * d, d);
            lemma_div_by_multiple(m as int, d);
            assert(k <= m);
        }
        if k == 0 {
            1
        } else {
            k as u64
        }
    }

    /// A filter for `number_of_elements_to_be_inserted` items with a bitmap of
    /// `bits_in_the_filter` unset bits, the number of hash functions derived
    /// from both. `desired_false_positive_probability_bits` is the IEEE 754
    /// encoding of the target rate from which the bitmap was sized; it is kept
    /// as given.
    pub fn with_bitmap_size(
        number_of_elements_to_be_inserted: i32,
        desired_false_positive_probability_bits: u64,
        bits_in_the_filter: usize,
    ) -> (r: Result<Bloom, SizingError>)
        ensures
            number_of_elements_to_be_inserted < 1 ==> r == Err::<Bloom, SizingError>(
                SizingError::NoExpectedInsertions,
            ),
            number_of_elements_to_be_inserted >= 1 && bits_in_the_filter == 0 ==> r == Err::<
                Bloom,
                SizingError,
            >(SizingError::EmptyBitmap),
            number_of_elements_to_be_inserted >= 1 && bits_in_the_filter > max_bitmap_len() ==> r
                == Err::<Bloom, SizingError>(SizingError::BitmapTooLarge),
            number_of_elements_to_be_inserted >= 1 && 1 <= bits_in_the_filter <= max_bitmap_len()
                ==> (r matches Ok(f) && f@ == fresh_view(
                number_of_elements_to_be_inserted as int,
                desired_false_positive_probability_bits,
                bits_in_the_filter as nat,
            )),
            r matches Ok(f) ==> f@.wf(),
    {
        if number_of_elements_to_be_inserted < 1 {
            return Err(SizingError::NoExpectedInsertions);
        }
        if bits_in_the_filter == 0 {
            return Err(SizingError::EmptyBitmap);
        }
        if bits_in_the_filter > usize::MAX / 8 {
            return Err(SizingError::BitmapTooLarge);
        }
        let number_of_hash_functions = Self::get_optimal_number_of_hash_functions(
            bits_in_the_filter,
            number_of_elements_to_be_inserted,
        );
        Ok(Bloom {
            number_of_elements_to_be_inserted,
            desired_false_positive_probability_bits,
            bits_in_the_filter,
            number_of_hash_functions,
            bitmap: Bitmap::zeroed(bits_in_the_filter),
        })
    }

    /// Records `item`: sets each bit that it selects.
    pub fn insert_item(&mut self, item: &str)
        requires
            old(self)@.wf(),
        ensures
            final(self)@ == old(self)@.insert(item.spec_bytes()),
            final(self)@.wf(),
    {
        let bytes = item.as_bytes();
        let (base_hash, delta_hash) = item_hashes(bytes);
        let ghost start = self@.bits;
        let ghost m = self@.bit_count;
        let mut i: u64 = 0;
        while i < self.number_of_hash_functions
            invariant
                self@.wf(),
                self@ == (BloomView { bits: self@.bits, ..old(self)@ }),
                m == self@.bit_count,
                start == old(self)@.bits,
                base_hash == crate::hashing::xxh3_64_of(bytes@),
                delta_hash == crate::hashing::delta_of(base_hash),
                bytes@ == item.spec_bytes(),
                i <= self.number_of_hash_functions,
                self@.bits == with_probes_set(start, bytes@, i as nat),
            decreases self.number_of_hash_functions - i,
        {
            let idx = probe_index(base_hash, delta_hash, i, self.bits_in_the_filter);
            let ghost before = self@.bits;
            self.bitmap.set(idx);
            proof {
                assert(probe_of(bytes@, i as nat, m) == idx);
                assert forall|j: int| 0 <= j < m implies is_probe(bytes@, j, (i + 1) as nat, m)
                    == (is_probe(bytes@, j, i as nat, m) || j == idx) by {
                    if is_probe(bytes@, j, (i + 1) as nat, m) {
                        let w = choose|w: nat| w < i + 1 && #[trigger] probe_of(bytes@, w, m) == j;
                        if w < i {
                            assert(is_probe(bytes@, j, i as nat, m));
                        }
                    }
                    if j == idx {
                        assert(probe_of(bytes@, i as nat, m) == j);
                    }
                    if is_probe(bytes@, j, i as nat, m) {
                        let w = choose|w: nat| w < i && #[trigger] probe_of(bytes@, w, m) == j;
                        assert(probe_of(bytes@, w, m) == j);
                    }
                }
                assert(self@.bits =~= with_probes_set(start, bytes@, (i + 1) as nat));
            }
            i = i + 1;
        }
    }

    /// Whether `item` may have been inserted: true exactly when every bit that
    /// it selects is set.
    pub fn might_contain(&self, item: &str) -> (r: bool)
        requires
            self@.wf(),
        ensures
            r == self@.contains(item.spec_bytes()),
    {
        let bytes = item.as_bytes();
        let (base_hash, delta_hash) = item_hashes(bytes);
        let ghost m = self@.bit_count;
        let mut i: u64 = 0;
        while i < self.number_of_hash_functions
            invariant
                self@.wf(),
                base_hash == crate::hashing::xxh3_64_of(bytes@),
                delta_hash == crate::hashing::delta_of(base_hash),
                bytes@ == item.spec_bytes(),
                m == self@.bit_count,
                i <= self.number_of_hash_functions,
                forall|t: nat| t < i ==> self@.bits[#[trigger] probe_of(bytes@, t, m) as int],
            decreases self.number_of_hash_functions - i,
        {
            let idx = probe_index(base_hash, delta_hash, i, self.bits_in_the_filter);
            assert(probe_of(bytes@, i as nat, m) == idx);
            if !self.bitmap.get(idx) {
                return false;
            }
            i = i + 1;
        }
        true
    }

    /// The number of items the filter was sized for.
    pub fn get_number_of_elements_to_be_inserted(self) -> (r: i32)
        ensures
            r == self@.expected_insertions,
    {
        self.number_of_elements_to_be_inserted
    }

    /// The IEEE 754 encoding of the target false-positive rate the filter was
    /// sized for.
    pub fn get_desired_false_positive_probability_bits(self) -> (r: u64)
        ensures
            r == self@.rate_bits,
    {
        self.desired_false_positive_probability_bits
    }

    /// The number of bits in the bitmap.
    pub fn get_bits_in_the_filter(&self) -> (r: usize)
        ensures
            r == self@.bit_count,
    {
        self.bits_in_the_filter
    }

    /// Whether the bit at `index` of the bitmap is set.
    pub fn is_bit_set(&self, index: usize) -> (r: bool)
        requires
            self@.wf(),
            index < self@.bit_count,
        ensures
            r == self@.bits[index as int],
    {
        self.bitmap.get(index)
    }

    /// The number of bit indices that each item selects.
    pub fn get_number_of_hash_functions(&self) -> (r: u64)
        ensures
            r == self@.hash_count,
    {
        self.number_of_hash_functions
    }
}

} // verus!
