//! The source of random bytes: the thread-local generator of the `rand`
//! crate, whose values are carried through the interpreter unseen.

use vstd::prelude::*;

verus! {

/// `rand::rngs::ThreadRng`, a handle to the thread-local generator. Nothing
/// inside it is visible to the proofs.
#[verifier::external_type_specification]
#[verifier::external_body]
pub struct ExThreadRng(rand::rngs::ThreadRng);

/// Calls `rand::thread_rng`, which hands out a handle to the generator of the
/// current thread. Nothing is claimed of the handle. The generator is seeded
/// from the operating system on its first use in a thread, and `rand` panics
/// there where the system gives no entropy.
#[verifier::external_body]
pub(crate) fn thread_generator() -> (rng: rand::rngs::ThreadRng) {
    rand::thread_rng()
}

/// Calls `rand::Rng::gen::<u8>` on the generator. The byte is uniformly
/// random, so nothing is claimed of it: callers are verified for every byte.
#[verifier::external_body]
pub(crate) fn random_byte(rng: &mut rand::rngs::ThreadRng) -> (byte: u8) {
    rand::Rng::gen::<u8>(rng)
}

} // verus!
