//! The bitmap behind a filter: bitvec's `BitVec`, seen as a sequence of bits.
use vstd::prelude::*;
use bitvec::order::Msb0;
use bitvec::vec::BitVec;

verus! {

/// A bit-vector of bitvec's, most significant bit first within each word.
/// Verus refuses a declaration of `BitVec` itself (its bounds are traits of
/// bitvec), so the vector is held here and reached through the wrappers below.
#[verifier::external_body]
pub struct Bitmap {
    bits: BitVec<usize, Msb0>,
}

/// The bits that a bitmap holds, in index order.
pub uninterp spec fn bits_of(v: Bitmap) -> Seq<bool>;

/// The largest length that a `BitVec` can hold: `BitSlice::MAX_BITS`,
/// that is `usize::MAX >> 3`.
pub open spec fn max_bitmap_len() -> nat {
    (usize::MAX as nat) / 8
}

impl Bitmap {
    /// Relies on bitvec's `BitVec::repeat(false, len)`: `len` unset bits. It
    /// panics when `len` exceeds `BitSlice::MAX_BITS`.
    #[verifier::external_body]
    pub(crate) fn zeroed(len: usize) -> (r: Bitmap)
        requires
            len <= max_bitmap_len(),
        ensures
            bits_of(r) == Seq::new(len as nat, |i: int| false),
    {
        Bitmap { bits: BitVec::repeat(false, len) }
    }

    /// Relies on bitvec's `BitSlice::set(index, true)`: sets one bit and
    /// leaves the others and the length as they were. It panics when `index`
    /// is out of bounds.
    #[verifier::external_body]
    pub(crate) fn set(&mut self, index: usize)
        requires
            index < bits_of(*old(self)).len(),
        ensures
            bits_of(*final(self)) == bits_of(*old(self)).update(index as int, true),
    {
        self.bits.set(index, true)
    }

    /// Relies on bitvec's `Index<usize>` for `BitSlice`: the bit at `index`.
    /// It panics when `index` is out of bounds.
    #[verifier::external_body]
    pub(crate) fn get(&self, index: usize) -> (r: bool)
        requires
            index < bits_of(*self).len(),
        ensures
            r == bits_of(*self)[index as int],
    {
        self.bits[index]
    }
}

} // verus!
