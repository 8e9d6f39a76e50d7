//! Decisions of the separator loop and of the explore phase. The caller runs
//! the attempts, which need the geometry, and asks here what to do next.

use vstd::prelude::*;
use crate::compress::{Container, Mode, shrunk_to, share_of};

verus! {

/// What the controller does after one separator attempt.
#[derive(Clone, Copy, Debug, PartialEq, Eq, Structural)]
pub enum SeparatorAction {
    /// The layout is feasible.
    Feasible,
    /// Attempt again.
    Continue,
    /// The search has stalled: raise the weight of the top pair, then
    /// attempt again.
    Strike,
    /// End this run: the terminator fired, the strikes are used up, or too
    /// many attempts failed in a row.
    Yield,
}

/// Limits of a separator run.
#[derive(Clone, Copy, Debug, PartialEq, Eq, Structural)]
pub struct SeparatorLimits {
    /// Non-improving attempts that make a strike.
    pub iter_no_imprv_limit: usize,
    /// Strikes after which the run yields.
    pub strike_limit: usize,
    /// Consecutive failures after which the phase ends at once, if set.
    pub max_conseq_failed_attempts: Option<usize>,
}

/// Counters of a separator run.
#[derive(Clone, Copy, Debug, PartialEq, Eq, Structural)]
pub struct SeparatorState {
    pub n_no_imprv: usize,
    pub n_strikes: usize,
    pub n_conseq_fails: usize,
}

/// `x + 1`, staying at the largest `usize`.
pub open spec fn bumped(x: usize) -> usize {
    if x == usize::MAX { x } else { (x + 1) as usize }
}

/// The counters and the action after one attempt.
pub open spec fn spec_after_attempt(s: SeparatorState, l: SeparatorLimits, improved: bool, feasible: bool, stop: bool) -> (SeparatorState, SeparatorAction) {
    if stop {
        (s, SeparatorAction::Yield)
    } else if feasible {
        (SeparatorState { n_no_imprv: 0, n_strikes: 0, n_conseq_fails: 0 }, SeparatorAction::Feasible)
    } else if improved {
        (SeparatorState { n_no_imprv: 0, ..s }, SeparatorAction::Continue)
    } else if bumped(s.n_no_imprv) < l.iter_no_imprv_limit {
        (SeparatorState { n_no_imprv: bumped(s.n_no_imprv), ..s }, SeparatorAction::Continue)
    } else {
        let t = SeparatorState { n_no_imprv: 0, n_strikes: bumped(s.n_strikes), n_conseq_fails: bumped(s.n_conseq_fails) };
        let action = match l.max_conseq_failed_attempts {
            Some(m) if t.n_conseq_fails >= m => SeparatorAction::Yield,
            _ => if t.n_strikes >= l.strike_limit { SeparatorAction::Yield } else { SeparatorAction::Strike },
        };
        (t, action)
    }
}

impl SeparatorState {
    pub fn new() -> (r: Self)
        ensures
            r == (SeparatorState { n_no_imprv: 0, n_strikes: 0, n_conseq_fails: 0 }),
    {
        SeparatorState { n_no_imprv: 0, n_strikes: 0, n_conseq_fails: 0 }
    }

    /// Books one attempt and says what to do next. A stop from the
    /// terminator yields at once; a feasible layout resets every counter; an
    /// improving attempt resets the stall counter; enough non-improving ones
    /// make a strike, and a strike beyond the limits yields.
    pub fn after_attempt(&mut self, limits: &SeparatorLimits, improved: bool, feasible: bool, stop: bool) -> (r: SeparatorAction)
        ensures
            (*final(self), r) == spec_after_attempt(*old(self), *limits, improved, feasible, stop),
    {
        if stop {
            return SeparatorAction::Yield;
        }
        if feasible {
            *self = SeparatorState { n_no_imprv: 0, n_strikes: 0, n_conseq_fails: 0 };
            return SeparatorAction::Feasible;
        }
        if improved {
            self.n_no_imprv = 0;
            return SeparatorAction::Continue;
        }
        let n = self.n_no_imprv.saturating_add(1);
        if n < limits.iter_no_imprv_limit {
            self.n_no_imprv = n;
            return SeparatorAction::Continue;
        }
        self.n_no_imprv = 0;
        self.n_strikes = self.n_strikes.saturating_add(1);
        self.n_conseq_fails = self.n_conseq_fails.saturating_add(1);
        if let Some(m) = limits.max_conseq_failed_attempts {
            if self.n_conseq_fails >= m {
                return SeparatorAction::Yield;
            }
        }
        if self.n_strikes >= limits.strike_limit {
            SeparatorAction::Yield
        } else {
            SeparatorAction::Strike
        }
    }
}

/// A run never strikes past its limits: a strike leaves both the strike count
/// below the strike limit and the failures in a row below the
/// early-termination budget, so reaching that budget yields whatever strikes
/// remain. A stop always yields.
pub proof fn lemma_separator_respects_limits(s: SeparatorState, l: SeparatorLimits, improved: bool, feasible: bool, stop: bool)
    ensures
        ({
            let (t, a) = spec_after_attempt(s, l, improved, feasible, stop);
            &&& (a == SeparatorAction::Strike ==> t.n_strikes < l.strike_limit)
            &&& (a == SeparatorAction::Strike && l.max_conseq_failed_attempts is Some ==>
                t.n_conseq_fails < l.max_conseq_failed_attempts->Some_0)
            &&& (stop ==> a == SeparatorAction::Yield)
        }),
{
}

/// The best feasible container the explore phase has seen.
pub struct ExploreState {
    pub mode: Mode,
    /// No container below this dimension is tried.
    pub lower_bound: u64,
    /// Share of the slack a ratchet closes, in thousandths.
    pub shrink_rate: u32,
    pub best: Option<Container>,
}

/// `c` ratcheted down by `rate` thousandths of its slack above `lower`.
pub open spec fn ratcheted(c: Container, mode: Mode, lower: u64, rate: u32) -> Container {
    shrunk_to(c, mode, c.width - (c.width - lower) * rate / 1000)
}

impl ExploreState {
    pub open spec fn wf(&self) -> bool {
        &&& self.shrink_rate <= 1000
        &&& self.best matches Some(b) ==> b.fits_mode(self.mode) && self.lower_bound <= b.width
    }

    pub fn new(mode: Mode, lower_bound: u64, shrink_rate: u32) -> (r: Self)
        requires
            shrink_rate <= 1000,
        ensures
            r.wf(),
            r.best is None,
            r.mode == mode,
            r.lower_bound == lower_bound,
            r.shrink_rate == shrink_rate,
    {
        ExploreState { mode, lower_bound, shrink_rate, best: None }
    }

    /// Books a feasible layout on `current`: it becomes the best when it is
    /// smaller than every feasible container seen. Returns the container to
    /// explore next, the best ratcheted down.
    pub fn on_feasible(&mut self, current: Container) -> (r: Container)
        requires
            old(self).wf(),
            current.fits_mode(old(self).mode),
            old(self).lower_bound <= current.width,
        ensures
            final(self).wf(),
            final(self).mode == old(self).mode,
            final(self).lower_bound == old(self).lower_bound,
            final(self).shrink_rate == old(self).shrink_rate,
            final(self).best == (match old(self).best {
                Some(b) => if current.area() < b.area() { Some(current) } else { Some(b) },
                None => Some(current),
            }),
            r == ratcheted(final(self).best->Some_0, old(self).mode, old(self).lower_bound, old(self).shrink_rate),
            r.fits_mode(old(self).mode),
            old(self).lower_bound <= r.width <= final(self).best->Some_0.width,
    {
        let better = match self.best {
            Some(b) => current.area_of() < b.area_of(),
            None => true,
        };
        if better {
            self.best = Some(current);
        }
        let b = match self.best {
            Some(b) => b,
            None => current,
        };
        let d = b.width - share_of(b.width - self.lower_bound, self.shrink_rate);
        match self.mode {
            Mode::Strip => Container { width: d, height: b.height },
            Mode::Square => Container { width: d, height: d },
        }
    }
}

} // verus!
