//! Trusted interface to the host's random number generator.

use vstd::prelude::*;

verus! {

/// Relies on `rand::random`: draws one byte from the thread-local
/// generator.  Nothing can be promised of the value; callers must hold
/// for every byte that may come back.
#[verifier::external_body]
pub(crate) fn random_byte() -> u8 {
    rand::random::<u8>()
}

} // verus!
