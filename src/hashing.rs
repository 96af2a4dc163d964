//! Index derivation by double hashing over xxHash3-64.
use vstd::prelude::*;
use vstd::arithmetic::div_mod::lemma_add_mod_noop;
use twox_hash::xxhash3_64::Hasher;

verus! {

/// What xxHash3-64 (default seed and secret) yields for a byte sequence.
pub uninterp spec fn xxh3_64_of(bytes: Seq<u8>) -> u64;

/// Relies on twox_hash's `xxhash3_64::Hasher::oneshot`: the 64-bit xxHash3 of
/// the input with the default seed, a function of the bytes alone.
#[verifier::external_body]
fn xxh3_64(bytes: &[u8]) -> (r: u64)
    ensures
        r == xxh3_64_of(bytes@),
{
    Hasher::oneshot(bytes)
}

/// The ASCII decimal representation of `n`, most significant digit first,
/// without leading zeros.
pub open spec fn decimal_digits(n: nat) -> Seq<u8>
    decreases n,
{
    if n < 10 {
        seq![(48 + n) as u8]
    } else {
        decimal_digits(n / 10).push((48 + n % 10) as u8)
    }
}

/// The decimal text of `n` as bytes.
pub fn decimal_bytes(n: u64) -> (r: Vec<u8>)
    ensures
        r@ == decimal_digits(n as nat),
    decreases n,
{
    if n < 10 {
        let mut v: Vec<u8> = Vec::new();
        v.push((48 + n) as u8);
        assert(v@ =~= seq![(48 + n) as u8]);
        v
    } else {
        let mut v = decimal_bytes(n / 10);
        v.push((48 + n % 10) as u8);
        v
    }
}

/// The modulus of 64-bit wrapping arithmetic.
pub open spec fn word_modulus() -> nat {
    0x1_0000_0000_0000_0000
}

/// Double hashing: the `i`-th bit index of a bitmap of `m` bits, from the
/// base hash and the delta hash, as `(base + i * delta) mod 2^64 mod m`.
pub open spec fn probe(base: u64, delta: u64, i: nat, m: nat) -> nat {
    ((base + i * delta) % (word_modulus() as int)) as nat % m
}

/// The delta hash of an item whose base hash is `base`: the hash of the
/// decimal text of `base`.
pub open spec fn delta_of(base: u64) -> u64 {
    xxh3_64_of(decimal_digits(base as nat))
}

/// The `i`-th bit index that `item` selects in a bitmap of `m` bits.
pub open spec fn probe_of(item: Seq<u8>, i: nat, m: nat) -> nat {
    probe(xxh3_64_of(item), delta_of(xxh3_64_of(item)), i, m)
}

/// The two hashes from which every bit index of `item` derives.
pub fn item_hashes(item: &[u8]) -> (r: (u64, u64))
    ensures
        r.0 == xxh3_64_of(item@),
        r.1 == delta_of(r.0),
{
    let base_hash = xxh3_64(item);
    let digits = decimal_bytes(base_hash);
    let delta_hash = xxh3_64(digits.as_slice());
    (base_hash, delta_hash)
}

/// The `i`-th bit index in a bitmap of `m` bits, with wrapping arithmetic.
pub fn probe_index(base: u64, delta: u64, i: u64, m: usize) -> (r: usize)
    requires
        m > 0,
    ensures
        r == probe(base, delta, i as nat, m as nat),
        r < m,
{
    let h = base.wrapping_add(i.wrapping_mul(delta));
    proof {
        let w = word_modulus() as int;
        let prod = i as int * delta as int;
        assert(i.wrapping_mul(delta) as int == prod % w);
        lemma_add_mod_noop(base as int, prod, w);
        assert(base as int % w == base as int);
        assert((prod % w) % w == prod % w) by {
            vstd::arithmetic::div_mod::lemma_mod_twice(prod, w);
        }
        assert(h as int == (base as int + prod) % w);
    }
    (h % (m as u64)) as usize
}

} // verus!
