//! The source of randomness that the dice draw from.

use rand::rngs::ThreadRng;
use rand::RngCore;
use vstd::prelude::*;

verus! {

/// Anything that hands out unsigned 32-bit integers on demand. The dice ask
/// no more of their source of randomness than this; nothing is promised of
/// the integers that come.
pub trait RandomSource {
    /// The next integer of the source.
    fn draw(&mut self) -> u32;
}

#[verifier::external_type_specification]
#[verifier::external_body]
pub struct ExThreadRng(ThreadRng);

/// `rand::RngCore::next_u32` on the generator that `rand` keeps for each
/// thread. The integer it returns is random: nothing is claimed of it. The
/// generator takes a new seed from the operating system from time to time,
/// and the thread ends there if the system has none to give.
#[verifier::external_body]
fn thread_rng_next_u32(rng: &mut ThreadRng) -> u32 {
    rng.next_u32()
}

/// `rand::thread_rng`: a handle to the generator of the calling thread, which
/// `rand` seeds from the operating system on the thread's first call, and
/// with which the thread ends there if the system has no seed to give.
/// Nothing is claimed of the handle.
#[verifier::external_body]
pub(crate) fn local_rng() -> ThreadRng {
    rand::thread_rng()
}

impl RandomSource for ThreadRng {
    fn draw(&mut self) -> u32 {
        thread_rng_next_u32(self)
    }
}

} // verus!
