//! Rotations an item may take, and the two samplers that draw them.
//!
//! A continuous rotation is a fraction of a full turn, `k / 2^32` for a `u32`
//! `k`, so every such value lies in `[0, 2π)` and wrapping is the integer
//! wrap of `u32`. A listed angle is kept as the bit pattern of the caller's
//! `f64`, copied and never computed with, so a listed angle comes back exactly.

use vstd::prelude::*;
use rand_xoshiro::Xoshiro256PlusPlus;
use crate::problem::Item;
use crate::random::{draw_below, draw_u32};

verus! {

/// The rotations allowed for an item.
pub enum RotationRange {
    /// The angle is fixed at zero.
    Fixed,
    /// Any angle of a full turn.
    Continuous,
    /// One of the listed angles (bit patterns of the caller's `f64` radians).
    Discrete(Vec<u64>),
}

/// A rotation chosen for an item.
#[derive(Clone, Copy, Debug, PartialEq, Eq, Structural)]
pub enum Rotation {
    /// The angle zero.
    Zero,
    /// A listed angle, by its bit pattern.
    Listed(u64),
    /// `k / 2^32` of a full turn.
    Turn(u32),
}

impl RotationRange {
    /// A discrete range lists at least one angle.
    pub open spec fn wf(&self) -> bool {
        match self {
            RotationRange::Discrete(v) => v@.len() > 0,
            _ => true,
        }
    }

    /// Whether two ranges allow the same rotations.
    pub open spec fn same_as(&self, o: &RotationRange) -> bool {
        match (self, o) {
            (RotationRange::Fixed, RotationRange::Fixed) => true,
            (RotationRange::Continuous, RotationRange::Continuous) => true,
            (RotationRange::Discrete(v), RotationRange::Discrete(w)) => v@ == w@,
            _ => false,
        }
    }

    /// Whether `r` is one of the rotations this range allows.
    pub open spec fn admits(&self, r: Rotation) -> bool {
        match self {
            RotationRange::Fixed => r == Rotation::Zero,
            RotationRange::Continuous => r is Turn,
            RotationRange::Discrete(v) => r is Listed && v@.contains(r->Listed_0),
        }
    }
}

/// Whether `allowed` admits `r`.
pub fn admits(allowed: &RotationRange, r: Rotation) -> (b: bool)
    ensures
        b == allowed.admits(r),
{
    match allowed {
        RotationRange::Fixed => r == Rotation::Zero,
        RotationRange::Continuous => match r {
            Rotation::Turn(_) => true,
            _ => false,
        },
        RotationRange::Discrete(v) => match r {
            Rotation::Listed(bits) => {
                let mut i: usize = 0;
                while i < v.len()
                    invariant
                        i <= v@.len(),
                        r == Rotation::Listed(bits),
                        allowed.admits(r) <==> v@.contains(bits),
                        forall|j: int| 0 <= j < i ==> v@[j] != bits,
                    decreases v@.len() - i,
                {
                    if v[i] == bits {
                        assert(v@[i as int] == bits);
                        return true;
                    }
                    i = i + 1;
                }
                false
            },
            _ => false,
        },
    }
}

/// Draws rotations uniformly from what an item allows.
pub enum UniformRotDistr {
    /// Uniform over the full turn.
    Range,
    /// Uniform over the listed angles.
    Discrete(Vec<u64>),
    /// Always zero.
    Fixed,
}

impl UniformRotDistr {
    /// The set of rotations this sampler draws from, as a range.
    pub open spec fn range(&self) -> RotationRange {
        match self {
            UniformRotDistr::Range => RotationRange::Continuous,
            UniformRotDistr::Discrete(v) => RotationRange::Discrete(*v),
            UniformRotDistr::Fixed => RotationRange::Fixed,
        }
    }

    pub fn from_item(item: &Item) -> (r: Self)
        requires
            item.allowed_rotation.wf(),
        ensures
            r.range().same_as(&item.allowed_rotation),
            r.range().wf(),
    {
        match &item.allowed_rotation {
            RotationRange::Fixed => UniformRotDistr::Fixed,
            RotationRange::Continuous => UniformRotDistr::Range,
            RotationRange::Discrete(a_o) => UniformRotDistr::Discrete(a_o.clone()),
        }
    }

    pub fn sample(&self, rng: &mut Xoshiro256PlusPlus) -> (r: Rotation)
        requires
            self.range().wf(),
        ensures
            self.range().admits(r),
    {
        match self {
            UniformRotDistr::Fixed => Rotation::Zero,
            UniformRotDistr::Range => Rotation::Turn(draw_u32(rng)),
            UniformRotDistr::Discrete(a_o) => {
                let i = draw_below(rng, a_o.len());
                Rotation::Listed(a_o[i])
            },
        }
    }
}

/// Draws rotations close to a reference rotation.
///
/// For a continuous range the draw is the mean moved by a deviation, wrapped
/// into the full turn; for listed angles the reference itself is returned.
pub enum NormalRotDistr {
    /// Around `mean`, spread `stddev`, both in `1 / 2^32` of a full turn.
    Range { mean: u32, stddev: u32 },
    /// Always the given listed angle.
    Discrete(u64),
    /// Always zero.
    Fixed,
}

/// `(a + d)` wrapped into `[0, 2^32)`.
pub open spec fn wrap_turn(a: int, d: int) -> int {
    (a + d) % 0x1_0000_0000
}

impl NormalRotDistr {
    /// The rotation every draw of a listed or fixed sampler returns, and the
    /// mean of a continuous one.
    pub open spec fn center(&self) -> Rotation {
        match self {
            NormalRotDistr::Range { mean, .. } => Rotation::Turn(*mean),
            NormalRotDistr::Discrete(b) => Rotation::Listed(*b),
            NormalRotDistr::Fixed => Rotation::Zero,
        }
    }

    /// Whether every draw of this sampler is a rotation `allowed` admits.
    pub open spec fn draws_within(&self, allowed: RotationRange) -> bool {
        match self {
            NormalRotDistr::Range { .. } => allowed is Continuous,
            NormalRotDistr::Discrete(b) => allowed.admits(Rotation::Listed(*b)),
            NormalRotDistr::Fixed => allowed is Fixed,
        }
    }

    pub fn from_item(item: &Item, r_ref: Rotation, stddev: u32) -> (r: Self)
        requires
            item.allowed_rotation.admits(r_ref),
        ensures
            r.draws_within(item.allowed_rotation),
            r.center() == r_ref,
            r is Range <==> item.allowed_rotation is Continuous,
            r is Range ==> r->stddev == stddev,
    {
        match &item.allowed_rotation {
            RotationRange::Fixed => NormalRotDistr::Fixed,
            RotationRange::Continuous => {
                let mean = match r_ref {
                    Rotation::Turn(k) => k,
                    _ => 0,
                };
                NormalRotDistr::Range { mean, stddev }
            },
            RotationRange::Discrete(_) => {
                let b = match r_ref {
                    Rotation::Listed(b) => b,
                    _ => 0,
                };
                NormalRotDistr::Discrete(b)
            },
        }
    }

    pub fn set_mean(&mut self, mean: u32)
        ensures
            match *old(self) {
                NormalRotDistr::Range { stddev, .. } => *final(self) == (NormalRotDistr::Range { mean, stddev }),
                _ => *final(self) == *old(self),
            },
    {
        match self {
            NormalRotDistr::Range { mean: m, .. } => {
                *m = mean;
            },
            NormalRotDistr::Discrete(_) | NormalRotDistr::Fixed => {},
        }
    }

    pub fn set_stddev(&mut self, stddev: u32)
        ensures
            match *old(self) {
                NormalRotDistr::Range { mean, .. } => *final(self) == (NormalRotDistr::Range { mean, stddev }),
                _ => *final(self) == *old(self),
            },
    {
        match self {
            NormalRotDistr::Range { stddev: s, .. } => {
                *s = stddev;
            },
            NormalRotDistr::Discrete(_) | NormalRotDistr::Fixed => {},
        }
    }

    /// The draw for a given deviation from the mean: `deviation` is a sample
    /// of a normal distribution with mean zero and this sampler's `stddev`,
    /// in `1 / 2^32` of a full turn.
    pub fn sample(&self, deviation: i32) -> (r: Rotation)
        ensures
            match *self {
                NormalRotDistr::Range { mean, .. } => r is Turn && r->Turn_0 as int == wrap_turn(mean as int, deviation as int),
                _ => r == self.center(),
            },
            forall|a: RotationRange| #[trigger] self.draws_within(a) ==> a.admits(r),
    {
        match self {
            NormalRotDistr::Fixed => Rotation::Zero,
            NormalRotDistr::Range { mean, .. } => Rotation::Turn(mean.wrapping_add_signed(deviation)),
            NormalRotDistr::Discrete(r) => Rotation::Listed(*r),
        }
    }
}

} // verus!
