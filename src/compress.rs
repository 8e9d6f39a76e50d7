//! The container and the controller of the compress phase: it proposes ever
//! smaller containers and keeps the last one on which a feasible layout was
//! found.

use vstd::prelude::*;
use crate::layout::Layout;
use crate::problem::SPInstance;

verus! {

/// Whether the strip keeps its height or the container stays a square.
#[derive(Clone, Copy, Debug, PartialEq, Eq, Structural)]
pub enum Mode {
    Strip,
    Square,
}

/// A rectangular container, in the caller's length unit.
#[derive(Clone, Copy, Debug, PartialEq, Eq, Structural)]
pub struct Container {
    pub width: u64,
    pub height: u64,
}

impl Container {
    pub open spec fn area(&self) -> int {
        self.width * self.height
    }

    /// The exact area.
    pub fn area_of(&self) -> (r: u128)
        ensures
            r == self.area(),
    {
        assert((self.width as int) * (self.height as int) <= 0xFFFF_FFFF_FFFF_FFFFint * 0xFFFF_FFFF_FFFF_FFFFint) by (nonlinear_arith)
            requires self.width <= 0xFFFF_FFFF_FFFF_FFFFint, self.height <= 0xFFFF_FFFF_FFFF_FFFFint;
        assert((self.width as int) * (self.height as int) >= 0) by (nonlinear_arith)
            requires self.width >= 0, self.height >= 0;
        (self.width as u128) * (self.height as u128)
    }

    /// A square container has equal sides.
    pub open spec fn fits_mode(&self, mode: Mode) -> bool {
        mode == Mode::Square ==> self.width == self.height
    }
}

/// How the compress step shrinks after successes and failures, as a ratio in
/// thousandths.
#[derive(Clone, Copy, Debug, PartialEq, Eq, Structural)]
pub enum ShrinkDecayStrategy {
    /// Every step is this share of the slack.
    Static(u32),
    /// The step is multiplied by this ratio on a failure and divided by it on
    /// a success, never beyond the first step.
    FailureBased(u32),
}

impl ShrinkDecayStrategy {
    pub open spec fn wf(&self) -> bool {
        match self {
            ShrinkDecayStrategy::Static(r) => *r <= 1000,
            ShrinkDecayStrategy::FailureBased(r) => 0 < *r <= 1000,
        }
    }
}

/// `c` shrunk to dimension `d` under `mode`: a strip keeps its height, a
/// square shrinks both sides.
pub open spec fn shrunk_to(c: Container, mode: Mode, d: int) -> Container {
    match mode {
        Mode::Strip => Container { width: d as u64, height: c.height },
        Mode::Square => Container { width: d as u64, height: d as u64 },
    }
}

/// `x * rate / 1000`: the share of `x` given in thousandths.
pub fn share_of(x: u64, rate: u32) -> (r: u64)
    requires
        rate <= 1000,
    ensures
        r == x * rate / 1000,
        r <= x,
{
    assert((x as int) * (rate as int) <= (x as int) * 1000) by (nonlinear_arith)
        requires rate <= 1000, x >= 0;
    let p = (x as u128) * (rate as u128);
    let q = p / 1000;
    assert(q <= x) by (nonlinear_arith)
        requires q == (x as int) * (rate as int) / 1000, rate <= 1000, x >= 0;
    q as u64
}

/// State of the compress phase.
pub struct CompressState {
    pub mode: Mode,
    pub strategy: ShrinkDecayStrategy,
    /// The last container on which a feasible layout was found.
    pub best: Container,
    /// No container below this dimension is tried.
    pub lower_bound: u64,
    /// Share of the slack the first step takes, in thousandths.
    pub initial_rate: u32,
    /// Current step of a failure-based strategy.
    pub step: u64,
    /// Upper clamp of the step.
    pub max_step: u64,
}

impl CompressState {
    pub open spec fn wf(&self) -> bool {
        &&& self.strategy.wf()
        &&& self.best.fits_mode(self.mode)
        &&& self.lower_bound <= self.best.width
        &&& self.initial_rate <= 1000
        &&& self.step <= self.max_step
    }

    pub open spec fn slack(&self) -> int {
        self.best.width - self.lower_bound
    }

    /// Whether trying `tried` with the given outcome makes it the new best.
    pub open spec fn accepts(&self, tried: Container, feasible: bool) -> bool {
        feasible && tried.fits_mode(self.mode) && self.lower_bound <= tried.width && tried.area() <= self.best.area()
    }

    /// The step the next proposal takes.
    pub open spec fn spec_next_step(&self) -> int {
        match self.strategy {
            ShrinkDecayStrategy::Static(r) => self.slack() * r / 1000,
            ShrinkDecayStrategy::FailureBased(_) => if self.step > self.slack() { self.slack() } else { self.step as int },
        }
    }

    /// Starts compressing from a feasible container.
    pub fn new(mode: Mode, strategy: ShrinkDecayStrategy, best: Container, lower_bound: u64, initial_rate: u32) -> (r: Self)
        requires
            strategy.wf(),
            best.fits_mode(mode),
            lower_bound <= best.width,
            initial_rate <= 1000,
        ensures
            r.wf(),
            r.mode == mode,
            r.strategy == strategy,
            r.best == best,
            r.lower_bound == lower_bound,
            r.initial_rate == initial_rate,
            r.step == (best.width - lower_bound) * initial_rate / 1000,
            r.max_step == r.step,
    {
        let slack = best.width - lower_bound;
        let step = share_of(slack, initial_rate);
        CompressState { mode, strategy, best, lower_bound, initial_rate, step, max_step: step }
    }

    /// The container to try next, or none when no step is left.
    pub fn propose(&self) -> (r: Option<Container>)
        requires
            self.wf(),
        ensures
            r is None <==> self.spec_next_step() == 0,
            r matches Some(c) ==> {
                &&& c == shrunk_to(self.best, self.mode, self.best.width - self.spec_next_step())
                &&& c.fits_mode(self.mode)
                &&& self.lower_bound <= c.width < self.best.width
                &&& c.area() < self.best.area() || (c.area() == 0 && self.best.area() == 0)
            },
    {
        let slack = self.best.width - self.lower_bound;
        let step: u64 = match self.strategy {
            ShrinkDecayStrategy::Static(r) => {
                share_of(slack, r)
            },
            ShrinkDecayStrategy::FailureBased(_) => if self.step > slack { slack } else { self.step },
        };
        if step == 0 {
            return None;
        }
        let d = self.best.width - step;
        let c = match self.mode {
            Mode::Strip => Container { width: d, height: self.best.height },
            Mode::Square => Container { width: d, height: d },
        };
        assert(c.area() <= self.best.area()) by (nonlinear_arith)
            requires c.width < self.best.width, self.mode == Mode::Strip ==> c.height == self.best.height,
                self.mode == Mode::Square ==> c.height == c.width && self.best.height == self.best.width,
                c.width >= 0, c.height >= 0;
        assert(c.area() < self.best.area() || (c.area() == 0 && self.best.area() == 0)) by (nonlinear_arith)
            requires c.width < self.best.width, self.mode == Mode::Strip ==> c.height == self.best.height,
                self.mode == Mode::Square ==> c.height == c.width && self.best.height == self.best.width,
                c.width >= 0, c.height >= 0;
        Some(c)
    }

    /// Books the layout a compress iteration ended with: its container
    /// becomes the new best exactly when the layout is feasible and the
    /// container no larger than the best so far.
    pub fn record_layout(&mut self, inst: &SPInstance, layout: &Layout) -> (accepted: bool)
        requires
            old(self).wf(),
            layout.wf(*inst),
        ensures
            final(self).wf(),
            accepted == old(self).accepts(layout.spec_container(), layout.spec_is_feasible()),
            accepted ==> final(self).best == layout.spec_container(),
            !accepted ==> final(self).best == old(self).best,
            final(self).mode == old(self).mode,
            final(self).strategy == old(self).strategy,
            final(self).lower_bound == old(self).lower_bound,
    {
        let feasible = layout.is_feasible(inst);
        self.record(layout.container(), feasible)
    }

    /// Books the outcome of trying container `tried`. It becomes the new best
    /// exactly when a feasible layout was found on it and it is no larger
    /// than the best so far; the step then grows back, and on a failure it
    /// shrinks.
    pub fn record(&mut self, tried: Container, feasible: bool) -> (accepted: bool)
        requires
            old(self).wf(),
        ensures
            final(self).wf(),
            accepted == old(self).accepts(tried, feasible),
            accepted ==> final(self).best == tried,
            !accepted ==> final(self).best == old(self).best,
            final(self).mode == old(self).mode,
            final(self).strategy == old(self).strategy,
            final(self).lower_bound == old(self).lower_bound,
            final(self).initial_rate == old(self).initial_rate,
            final(self).max_step == old(self).max_step,
            old(self).strategy matches ShrinkDecayStrategy::FailureBased(r) ==> final(self).step == (
                if accepted {
                    if old(self).step * 1000 / (r as int) > old(self).max_step { old(self).max_step as int } else { old(self).step * 1000 / (r as int) }
                } else {
                    old(self).step * (r as int) / 1000
                }),
            old(self).strategy is Static ==> final(self).step == old(self).step,
    {
        let fits = match self.mode {
            Mode::Strip => true,
            Mode::Square => tried.width == tried.height,
        };
        let tried_area = tried.area_of();
        let best_area = self.best.area_of();
        let accepted = feasible && fits && self.lower_bound <= tried.width && tried_area <= best_area;
        if accepted {
            self.best = tried;
        }
        match self.strategy {
            ShrinkDecayStrategy::Static(_) => {},
            ShrinkDecayStrategy::FailureBased(r) => {
                if accepted {
                    let grown = (self.step as u128) * 1000 / (r as u128);
                    self.step = if grown > self.max_step as u128 { self.max_step } else { grown as u64 };
                } else {
                    self.step = share_of(self.step, r);
                }
            },
        }
        accepted
    }
}

/// Every container the compress phase accepts carries a feasible layout, has
/// the shape the mode asks for, and is no larger than the best before it.
pub proof fn lemma_compress_accepts_only_feasible_shrinks(before: CompressState, inst: SPInstance, layout: Layout)
    requires
        before.wf(),
        layout.wf(inst),
        before.accepts(layout.spec_container(), layout.spec_is_feasible()),
    ensures
        layout.spec_is_feasible(),
        layout.spec_container().fits_mode(before.mode),
        layout.spec_container().area() <= before.best.area(),
{
}

} // verus!
