//! The pseudo-random generator the solver draws from.

use vstd::prelude::*;
use rand::Rng;
use rand::RngCore;
use rand::SeedableRng;
use rand_xoshiro::Xoshiro256PlusPlus;

verus! {

#[verifier::external_type_specification]
#[verifier::external_body]
pub struct ExXoshiro256PlusPlus(Xoshiro256PlusPlus);

/// Relies on `SeedableRng::seed_from_u64` of `Xoshiro256PlusPlus`: a generator
/// whose whole stream is fixed by the seed.
#[verifier::external_body]
pub fn seeded_rng(seed: u64) -> (r: Xoshiro256PlusPlus) {
    Xoshiro256PlusPlus::seed_from_u64(seed)
}

/// Relies on `Rng::random_range` over `0..n`: a value below `n` (it panics
/// only on an empty range, which `requires` leaves out).
#[verifier::external_body]
pub(crate) fn draw_below(rng: &mut Xoshiro256PlusPlus, n: usize) -> (r: usize)
    requires
        n > 0,
    ensures
        r < n,
{
    rng.random_range(0..n)
}

/// Relies on `RngCore::next_u32`: any 32-bit value.
#[verifier::external_body]
pub(crate) fn draw_u32(rng: &mut Xoshiro256PlusPlus) -> (r: u32) {
    rng.next_u32()
}

/// Relies on `Rng::random_range` over `0..=n`: a value of at most `n`; an
/// inclusive range from zero is never empty.
#[verifier::external_body]
pub(crate) fn draw_at_most(rng: &mut Xoshiro256PlusPlus, n: u64) -> (r: u64)
    ensures
        r <= n,
{
    rng.random_range(0..=n)
}

/// Relies on `RngCore::next_u64`: any 64-bit value.
#[verifier::external_body]
pub(crate) fn draw_u64(rng: &mut Xoshiro256PlusPlus) -> (r: u64) {
    rng.next_u64()
}

/// Seeds for `n` workers, drawn from the controller's generator in order,
/// so that a run is fixed by its master seed.
pub fn worker_seeds(rng: &mut Xoshiro256PlusPlus, n: usize) -> (r: Vec<u64>)
    ensures
        r@.len() == n,
{
    let mut r: Vec<u64> = Vec::new();
    let mut i: usize = 0;
    while i < n
        invariant
            i <= n,
            r@.len() == i,
        decreases n - i,
    {
        r.push(draw_u64(rng));
        i = i + 1;
    }
    r
}

} // verus!
