//! The machine's source of random bytes, taken from `rand`.
use rand::Rng;
use vstd::prelude::*;

verus! {

/// The thread-local generator of `rand`, held by the machine.
#[verifier::external_type_specification]
#[verifier::external_body]
pub struct ExThreadRng(rand::rngs::ThreadRng);

/// Relies on rand::thread_rng: hands out a handle to the thread's generator.
/// Nothing is known of the state it starts in.
pub assume_specification[ rand::thread_rng ]() -> rand::rngs::ThreadRng;

/// Relies on rand::Rng::gen for `u8`: one uniformly distributed byte. Any byte
/// may come back.
#[verifier::external_body]
pub(crate) fn random_byte(rng: &mut rand::rngs::ThreadRng) -> u8 {
    rng.gen::<u8>()
}

} // verus!
