use vstd::prelude::*;

verus! {

/// A byte from `rand::random::<u8>()`, which draws from the thread-local
/// generator. Nothing is stated of the value: any byte may come back, and two
/// calls may differ.
#[verifier::external_body]
pub(crate) fn random_byte() -> (byte: u8) {
    rand::random::<u8>()
}

} // verus!
