//! The machine's one source of chance, used by the random-number opcode.

use vstd::prelude::*;

verus! {

/// Relies on rand::random: one byte drawn from the thread-local
/// generator.  Nothing can be promised of the value, so nothing is;
/// the caller states what holds of every outcome.
#[verifier::external_body]
pub(crate) fn random_byte() -> u8 {
    rand::random::<u8>()
}

} // verus!
