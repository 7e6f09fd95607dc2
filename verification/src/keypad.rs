//! Trusted interface to the bit-vector that stores the keypad state.
//!
//! The key-down flags live in a `bitvec::vec::BitVec`, an outside
//! collection that is opaque here, held in [`Keypad`].  [`key_bits`]
//! names the bits it holds; the wrappers below state, over that name,
//! what the crate's `repeat`, `set` and `get` do, as its source shows.

use vstd::prelude::*;

verus! {

/// The sixteen key-down flags, stored as a bit-vector.
#[verifier::external_body]
pub struct Keypad {
    bits: bitvec::vec::BitVec<bitvec::order::LocalBits, usize>,
}

/// The sequence of bits a keypad holds.
pub uninterp spec fn key_bits(k: Keypad) -> Seq<bool>;

/// Relies on `BitVec::repeat`: a vector of `len` copies of `bit`.
#[verifier::external_body]
pub(crate) fn new_keypad() -> (kb: Keypad)
    ensures
        key_bits(kb) == Seq::new(16, |i: int| false),
{
    Keypad { bits: bitvec::vec::BitVec::repeat(false, 16) }
}

/// Relies on `BitSlice::set`: writes one bit in place, all others kept
/// (it panics when `index` is out of range, which the precondition
/// rules out).
#[verifier::external_body]
pub(crate) fn set_key(kb: &mut Keypad, index: usize, value: bool)
    requires
        index < key_bits(*old(kb)).len(),
    ensures
        key_bits(*final(kb)) == key_bits(*old(kb)).update(index as int, value),
{
    kb.bits.set(index, value);
}

/// Relies on `BitSlice::get` with a `usize` index: `Some` of the bit
/// when the index is in range, `None` otherwise.
#[verifier::external_body]
pub(crate) fn get_key(kb: &Keypad, index: usize) -> (r: Option<bool>)
    ensures
        r == if index < key_bits(*kb).len() {
            Some(key_bits(*kb)[index as int])
        } else {
            None::<bool>
        },
{
    match kb.bits.get(index) {
        Some(bit) => Some(*bit),
        None => None,
    }
}

} // verus!
