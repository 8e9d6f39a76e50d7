//! Candidate positions for an item: uniform over the container, or moved
//! from a reference position and kept inside the container.

use vstd::prelude::*;
use rand_xoshiro::Xoshiro256PlusPlus;
use crate::compress::Container;
use crate::descent::Pose;
use crate::random::draw_at_most;
use crate::rotation::Rotation;

verus! {

/// `v` kept within `[0, hi]`.
pub open spec fn clamp_to(v: int, hi: int) -> int {
    if v < 0 { 0 } else if v > hi { hi } else { v }
}

/// The largest coordinate of a container side that a pose can hold.
pub open spec fn side_limit(side: u64) -> int {
    if side > i64::MAX { i64::MAX as int } else { side as int }
}

fn limit_of(side: u64) -> (r: i64)
    ensures
        r == side_limit(side),
{
    if side > i64::MAX as u64 { i64::MAX } else { side as i64 }
}

/// A position drawn uniformly over the container, with the given rotation.
pub fn sample_container(rng: &mut Xoshiro256PlusPlus, c: &Container, rotation: Rotation) -> (r: Pose)
    ensures
        0 <= r.x <= side_limit(c.width),
        0 <= r.y <= side_limit(c.height),
        r.rotation == rotation,
{
    let x = draw_at_most(rng, limit_of(c.width) as u64) as i64;
    let y = draw_at_most(rng, limit_of(c.height) as u64) as i64;
    Pose { x, y, rotation }
}

/// The reference position moved by `(dx, dy)` and kept inside the
/// container, with the given rotation. The offsets are the caller's draws
/// around the reference.
pub fn focussed(reference: &Pose, dx: i64, dy: i64, c: &Container, rotation: Rotation) -> (r: Pose)
    ensures
        r.x == clamp_to(reference.x + dx, side_limit(c.width)),
        r.y == clamp_to(reference.y + dy, side_limit(c.height)),
        r.rotation == rotation,
{
    let x = clamp_i128(reference.x as i128 + dx as i128, limit_of(c.width));
    let y = clamp_i128(reference.y as i128 + dy as i128, limit_of(c.height));
    Pose { x, y, rotation }
}

fn clamp_i128(v: i128, hi: i64) -> (r: i64)
    requires
        hi >= 0,
    ensures
        r == clamp_to(v as int, hi as int),
{
    if v < 0 {
        0
    } else if v > hi as i128 {
        hi
    } else {
        v as i64
    }
}

} // verus!
