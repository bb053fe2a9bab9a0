//! The randomness source.

use vstd::prelude::*;

verus! {

/// Calls `rand::random::<u8>()`, which draws a byte from the generator of the
/// current thread. Nothing is claimed of the byte: two calls may differ, and
/// every value can come.
#[verifier::external_body]
pub(crate) fn random_byte() -> (byte: u8) {
    rand::random::<u8>()
}

} // verus!
