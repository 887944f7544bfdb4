//! The random source handed through the renderer.
//!
//! Every stochastic decision draws a fixed-point scalar from a
//! [`RandomSource`].  A `Device` source draws from rand's thread-local
//! generator; a `Center` source deterministically returns the midpoint of the
//! asked range, which makes renders reproducible and gives the sampling loops
//! exact, provable results.

use crate::fixed::FX_MAX;
use vstd::prelude::*;

verus! {

#[verifier::external_type_specification]
#[verifier::external_body]
pub struct ExThreadRng(rand::rngs::ThreadRng);

/// Relies on rand::thread_rng: obtains a handle to the thread-local generator.
#[verifier::external_body]
fn rand_thread_rng() -> rand::rngs::ThreadRng {
    rand::thread_rng()
}

/// Relies on rand::Rng::gen_range over a half-open integer range: the result
/// is drawn uniformly from `[lo, hi)`, and the call panics only when the
/// range is empty, which the precondition rules out.
#[verifier::external_body]
fn rand_range(rng: &mut rand::rngs::ThreadRng, lo: i64, hi: i64) -> (r: i64)
    requires
        lo < hi,
    ensures
        lo <= r < hi,
{
    rand::Rng::gen_range(rng, lo..hi)
}

/// The midpoint of `[lo, hi)`: what a `Center` source draws.
pub open spec fn midpoint_s(lo: i64, hi: i64) -> i64 {
    (lo + (hi - lo) / 2) as i64
}

/// Where the renderer's uniform draws come from.
pub enum RandomSource {
    /// Every draw returns the midpoint of its range: deterministic sampling.
    Center,
    /// Draws come from the process's thread-local generator.
    Device(rand::rngs::ThreadRng),
}

impl RandomSource {
    /// The deterministic source.
    pub fn center() -> (r: RandomSource)
        ensures
            r is Center,
    {
        RandomSource::Center
    }

    /// A source backed by the thread-local generator.
    pub fn device() -> (r: RandomSource)
        ensures
            r is Device,
    {
        RandomSource::Device(rand_thread_rng())
    }

    /// Draw a scalar uniformly from `[lo, hi)`.
    pub fn draw(&mut self, lo: i64, hi: i64) -> (r: i64)
        requires
            -FX_MAX <= lo < hi <= FX_MAX,
        ensures
            lo <= r < hi,
            (*old(self)) is Center ==> r == midpoint_s(lo, hi),
            (*old(self)) is Center ==> (*final(self)) is Center,
            (*old(self)) is Device ==> (*final(self)) is Device,
    {
        match self {
            RandomSource::Center => {
                let d: u64 = (hi - lo) as u64;
                lo + ((d / 2) as i64)
            },
            RandomSource::Device(rng) => rand_range(rng, lo, hi),
        }
    }
}

} // verus!
