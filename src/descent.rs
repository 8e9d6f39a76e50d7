//! Coordinate descent over a pose: the caller prices the neighbours of the
//! current pose with the collision engine, and the descent moves to the best
//! strictly cheaper one or narrows its steps.
//!
//! Costs are compared as given: any encoding that keeps their order will do
//! (the bit patterns of non-negative `f64` costs keep it).

use vstd::prelude::*;
use crate::rotation::{Rotation, RotationRange};

verus! {

/// Step multiplier on success, in tenths.
pub const CD_STEP_SUCCESS: u64 = 11;
/// Step multiplier on failure, in tenths.
pub const CD_STEP_FAIL: u64 = 5;

/// A position and a rotation for an item.
#[derive(Clone, Copy, Debug, PartialEq, Eq, Structural)]
pub struct Pose {
    pub x: i64,
    pub y: i64,
    pub rotation: Rotation,
}

/// Initial and limit step sizes of one refinement level.
#[derive(Clone, Copy, Debug, PartialEq, Eq, Structural)]
pub struct CDConfig {
    pub t_step_init: u64,
    pub t_step_limit: u64,
    /// In `1 / 2^32` of a full turn.
    pub r_step_init: u32,
    pub r_step_limit: u32,
}

/// Translation steps of the first refinement, `0.25` and `0.02` of the item's
/// smallest extent; rotation steps of five degrees and one degree.
pub fn pre_refine_config(min_dim: u64) -> (r: CDConfig)
    ensures
        r.t_step_init == min_dim / 4,
        r.t_step_limit == min_dim / 50,
        r.r_step_init == 59652323,
        r.r_step_limit == 11930464,
{
    CDConfig { t_step_init: min_dim / 4, t_step_limit: min_dim / 50, r_step_init: 59652323, r_step_limit: 11930464 }
}

/// Translation steps of the final refinement, `0.01` and `0.001` of the
/// item's smallest extent; rotation steps of half a degree and a twentieth
/// of a degree.
pub fn snd_refine_config(min_dim: u64) -> (r: CDConfig)
    ensures
        r.t_step_init == min_dim / 100,
        r.t_step_limit == min_dim / 1000,
        r.r_step_init == 5965232,
        r.r_step_limit == 596523,
{
    CDConfig { t_step_init: min_dim / 100, t_step_limit: min_dim / 1000, r_step_init: 5965232, r_step_limit: 596523 }
}

/// `v` clamped into the range of `i64`.
pub open spec fn clamp_i64(v: int) -> i64 {
    if v > i64::MAX { i64::MAX } else if v < i64::MIN { i64::MIN } else { v as i64 }
}

/// `v` clamped to at most the largest `u64`.
pub open spec fn clamp_u64(v: int) -> u64 {
    if v > u64::MAX { u64::MAX } else { v as u64 }
}

/// `v` clamped to at most the largest `u32`.
pub open spec fn clamp_u32(v: int) -> u32 {
    if v > u32::MAX { u32::MAX } else { v as u32 }
}

fn offset(x: i64, step: u64, up: bool) -> (r: i64)
    ensures
        r == clamp_i64(if up { x + step } else { x - step }),
{
    let v: i128 = if up { x as i128 + step as i128 } else { x as i128 - step as i128 };
    if v > i64::MAX as i128 {
        i64::MAX
    } else if v < i64::MIN as i128 {
        i64::MIN
    } else {
        v as i64
    }
}

/// State of one descent.
#[derive(Clone, Copy, Debug, PartialEq, Eq, Structural)]
pub struct CoordinateDescent {
    pub pose: Pose,
    pub cost: u64,
    pub step_x: u64,
    pub step_y: u64,
    pub step_r: u32,
    pub config: CDConfig,
}

/// Whether the rotation axis is searched: only for a continuous rotation.
pub open spec fn rotates(p: Pose) -> bool {
    p.rotation is Turn
}

/// The neighbour along axis `k / 2` (x, y, rotation), upwards for even `k`.
pub open spec fn spec_neighbour(cd: CoordinateDescent, k: int) -> Pose {
    let p = cd.pose;
    let up = k % 2 == 0;
    if k / 2 == 0 {
        Pose { x: clamp_i64(if up { p.x + cd.step_x } else { p.x - cd.step_x }), ..p }
    } else if k / 2 == 1 {
        Pose { y: clamp_i64(if up { p.y + cd.step_y } else { p.y - cd.step_y }), ..p }
    } else {
        Pose {
            rotation: Rotation::Turn(
                (if up { (p.rotation->Turn_0 + cd.step_r) % 0x1_0000_0000 }
                 else { (p.rotation->Turn_0 - cd.step_r) % 0x1_0000_0000 }) as u32),
            ..p
        }
    }
}

/// Number of neighbours: four, or six when the rotation is searched too.
pub open spec fn n_neighbours(p: Pose) -> int {
    if rotates(p) { 6 } else { 4 }
}

/// Whether `k` is the first index of the lowest cost.
pub open spec fn is_first_min(costs: Seq<u64>, k: int) -> bool {
    &&& 0 <= k < costs.len()
    &&& forall|j: int| 0 <= j < costs.len() ==> costs[k] <= #[trigger] costs[j]
    &&& forall|j: int| 0 <= j < k ==> costs[k] < #[trigger] costs[j]
}

impl CoordinateDescent {
    /// Starts a descent at `pose`, whose cost is `cost`.
    pub fn new(pose: Pose, cost: u64, config: CDConfig) -> (r: Self)
        ensures
            r.pose == pose,
            r.cost == cost,
            r.step_x == config.t_step_init,
            r.step_y == config.t_step_init,
            r.step_r == config.r_step_init,
            r.config == config,
    {
        CoordinateDescent { pose, cost, step_x: config.t_step_init, step_y: config.t_step_init, step_r: config.r_step_init, config }
    }

    /// The poses to price next, in the order of `spec_neighbour`.
    pub fn neighbours(&self) -> (r: Vec<Pose>)
        ensures
            r@.len() == n_neighbours(self.pose),
            forall|k: int| 0 <= k < r@.len() ==> #[trigger] r@[k] == spec_neighbour(*self, k),
    {
        let p = self.pose;
        let mut r: Vec<Pose> = Vec::new();
        r.push(Pose { x: offset(p.x, self.step_x, true), ..p });
        r.push(Pose { x: offset(p.x, self.step_x, false), ..p });
        r.push(Pose { y: offset(p.y, self.step_y, true), ..p });
        r.push(Pose { y: offset(p.y, self.step_y, false), ..p });
        if let Rotation::Turn(t) = p.rotation {
            r.push(Pose { rotation: Rotation::Turn(t.wrapping_add(self.step_r)), ..p });
            r.push(Pose { rotation: Rotation::Turn(t.wrapping_sub(self.step_r)), ..p });
        }
        assert forall|k: int| 0 <= k < r@.len() implies #[trigger] r@[k] == spec_neighbour(*self, k) by {
            if k == 0 {} else if k == 1 {} else if k == 2 {} else if k == 3 {} else if k == 4 {} else {}
        }
        r
    }

    /// Takes the prices of the neighbours. Moves to the first cheapest one
    /// when it is strictly cheaper than the current pose and widens the step
    /// of its axis; otherwise stays and halves every step.
    pub fn advance(&mut self, costs: &Vec<u64>) -> (moved: bool)
        requires
            costs@.len() == n_neighbours(old(self).pose),
        ensures
            final(self).config == old(self).config,
            exists|k: int| is_first_min(costs@, k) && {
                &&& moved == (costs@[k] < old(self).cost)
                &&& moved ==> {
                    &&& final(self).pose == spec_neighbour(*old(self), k)
                    &&& final(self).cost == costs@[k]
                    &&& final(self).step_x == (if k / 2 == 0 { clamp_u64(old(self).step_x * CD_STEP_SUCCESS / 10) } else { old(self).step_x })
                    &&& final(self).step_y == (if k / 2 == 1 { clamp_u64(old(self).step_y * CD_STEP_SUCCESS / 10) } else { old(self).step_y })
                    &&& final(self).step_r == (if k / 2 == 2 { clamp_u32(old(self).step_r * CD_STEP_SUCCESS / 10) } else { old(self).step_r })
                }
            },
            !moved ==> {
                &&& final(self).pose == old(self).pose
                &&& final(self).cost == old(self).cost
                &&& final(self).step_x == old(self).step_x * CD_STEP_FAIL / 10
                &&& final(self).step_y == old(self).step_y * CD_STEP_FAIL / 10
                &&& final(self).step_r == old(self).step_r * CD_STEP_FAIL / 10
            },
            forall|a: RotationRange| #[trigger] a.admits(old(self).pose.rotation) ==> a.admits(final(self).pose.rotation),
    {
        let nbs = self.neighbours();
        let mut best: usize = 0;
        let mut i: usize = 1;
        while i < costs.len()
            invariant
                costs@.len() == n_neighbours(self.pose),
                1 <= i <= costs@.len(),
                best < i,
                forall|j: int| 0 <= j < i ==> costs@[best as int] <= #[trigger] costs@[j],
                forall|j: int| 0 <= j < best ==> costs@[best as int] < #[trigger] costs@[j],
            decreases costs@.len() - i,
        {
            if costs[i] < costs[best] {
                best = i;
            }
            i = i + 1;
        }
        assert(is_first_min(costs@, best as int));
        if costs[best] < self.cost {
            let ghost prev = *self;
            self.pose = nbs[best];
            self.cost = costs[best];
            if best / 2 == 0 {
                self.step_x = grow_u64(self.step_x);
            } else if best / 2 == 1 {
                self.step_y = grow_u64(self.step_y);
            } else {
                self.step_r = grow_u32(self.step_r);
            }
            proof {
                if best >= 4 {
                    assert(prev.pose.rotation is Turn);
                }
            }
            true
        } else {
            self.step_x = self.step_x / 2;
            self.step_y = self.step_y / 2;
            self.step_r = self.step_r / 2;
            false
        }
    }

    /// Whether every searched step is below its limit.
    pub fn is_done(&self) -> (r: bool)
        ensures
            r == (self.step_x < self.config.t_step_limit && self.step_y < self.config.t_step_limit
                && (rotates(self.pose) ==> self.step_r < self.config.r_step_limit)),
    {
        let t_done = self.step_x < self.config.t_step_limit && self.step_y < self.config.t_step_limit;
        let r_done = match self.pose.rotation {
            Rotation::Turn(_) => self.step_r < self.config.r_step_limit,
            _ => true,
        };
        t_done && r_done
    }
}

fn grow_u64(s: u64) -> (r: u64)
    ensures
        r == clamp_u64(s * CD_STEP_SUCCESS / 10),
{
    assert((s as int) * 11 <= 0xFFFF_FFFF_FFFF_FFFFint * 11);
    let v = (s as u128) * (CD_STEP_SUCCESS as u128) / 10;
    if v > u64::MAX as u128 { u64::MAX } else { v as u64 }
}

fn grow_u32(s: u32) -> (r: u32)
    ensures
        r == clamp_u32(s * CD_STEP_SUCCESS / 10),
{
    let v = (s as u64) * CD_STEP_SUCCESS / 10;
    if v > u32::MAX as u64 { u32::MAX } else { v as u32 }
}

} // verus!
