//! The source of the random identities that the controller hands out.
use vstd::prelude::*;

verus! {

/// `rand::random::<i32>` draws a 32-bit integer from the thread's random
/// number generator. Nothing is claimed of the number: two draws may or may
/// not differ.
#[verifier::external_body]
pub(crate) fn random_i32() -> (drawn: i32) {
    rand::random::<i32>()
}

} // verus!
