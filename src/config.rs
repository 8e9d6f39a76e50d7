//! Configuration of a run: sampling counts, separator limits, phase budgets,
//! and how options from the command line become a configuration.

use vstd::prelude::*;
use crate::compress::{Mode, ShrinkDecayStrategy};

verus! {

/// Share of a global time budget given to exploration, in percent.
pub const DEFAULT_EXPLORE_TIME_RATIO: u64 = 80;
/// Share of a global time budget given to compression, in percent.
pub const DEFAULT_COMPRESS_TIME_RATIO: u64 = 20;
/// Consecutive failed attempts after which an early-terminating exploration
/// ends.
pub const DEFAULT_MAX_CONSEQ_FAILS_EXPL: usize = 10;
/// Decay ratio of the failure-based compress step, in thousandths.
pub const DEFAULT_FAIL_DECAY_RATIO_CMPR: u32 = 900;
/// Share of the slack the first compress step takes, in thousandths.
pub const DEFAULT_INITIAL_SHRINK_RATE: u32 = 5;
/// Share of the slack an exploration ratchet closes, in thousandths.
pub const DEFAULT_EXPLORE_SHRINK_RATE: u32 = 2;
/// Non-improving attempts that make one strike.
pub const DEFAULT_ITER_NO_IMPRV_LIMIT: usize = 200;
/// Strikes after which a separator run gives up.
pub const DEFAULT_STRIKE_LIMIT: usize = 3;

/// How many candidate poses one separator attempt samples and refines.
#[derive(Clone, Copy, Debug, PartialEq, Eq, Structural)]
pub struct SampleConfig {
    pub n_container_samples: usize,
    pub n_focussed_samples: usize,
    pub n_coord_descents: usize,
}

#[derive(Clone, Copy, Debug, PartialEq, Eq, Structural)]
pub struct SeparatorConfig {
    pub iter_no_imprv_limit: usize,
    pub strike_limit: usize,
    pub n_workers: usize,
    pub sample_config: SampleConfig,
}

#[derive(Clone, Copy, Debug, PartialEq, Eq, Structural)]
pub struct ExplorationConfig {
    /// Budget in milliseconds.
    pub time_limit: u64,
    pub max_conseq_failed_attempts: Option<usize>,
    /// Share of the slack a ratchet after a feasible layout closes, in
    /// thousandths.
    pub shrink_rate: u32,
    pub separator_config: SeparatorConfig,
}

#[derive(Clone, Copy, Debug, PartialEq, Eq, Structural)]
pub struct CompressionConfig {
    /// Budget in milliseconds.
    pub time_limit: u64,
    pub shrink_decay: ShrinkDecayStrategy,
    /// Share of the slack the first step takes, in thousandths.
    pub initial_shrink_rate: u32,
    pub separator_config: SeparatorConfig,
}

#[derive(Clone, Copy, Debug, PartialEq, Eq, Structural)]
pub struct SparrowConfig {
    pub mode: Mode,
    pub rng_seed: Option<u64>,
    pub expl_cfg: ExplorationConfig,
    pub cmpr_cfg: CompressionConfig,
}

/// A configuration that cannot be used.
#[derive(Clone, Copy, Debug, PartialEq, Eq, Structural)]
pub enum ConfigError {
    /// A global budget was given together with a per-phase one.
    ContradictoryTimeLimits,
    /// Neither a global budget nor both per-phase budgets were given.
    MissingTimeLimit,
    /// A budget too large to count in milliseconds.
    TimeLimitOutOfRange,
    /// A worker pool of no workers.
    NoWorkers,
    /// A batch whose quantity never advances.
    ZeroStep,
}

/// The options of a run as given on the command line, budgets in seconds.
#[derive(Clone, Copy, Debug, PartialEq, Eq, Structural)]
pub struct RunOptions {
    pub global_time: Option<u64>,
    pub exploration: Option<u64>,
    pub compression: Option<u64>,
    pub rng_seed: Option<u64>,
    pub early_termination: bool,
    pub n_workers: usize,
    pub mode: Mode,
}

/// Sampling counts used when none are given: many container samples, no
/// focussed ones, three refined.
pub fn lbf_sample_config() -> (r: SampleConfig)
    ensures
        r == (SampleConfig { n_container_samples: 1000, n_focussed_samples: 0, n_coord_descents: 3 }),
{
    SampleConfig { n_container_samples: 1000, n_focussed_samples: 0, n_coord_descents: 3 }
}

/// Milliseconds in `secs` seconds, if they fit.
pub open spec fn millis(secs: int) -> Option<u64> {
    if secs * 1000 <= u64::MAX { Some((secs * 1000) as u64) } else { None }
}

/// The budgets of exploration and compression, in milliseconds: a global
/// budget is split eighty to twenty, per-phase budgets are taken as they are,
/// and the two kinds exclude each other.
pub open spec fn spec_time_limits(global: Option<u64>, exploration: Option<u64>, compression: Option<u64>) -> Result<(u64, u64), ConfigError> {
    match (global, exploration, compression) {
        (Some(t), None, None) => match millis(t as int) {
            Some(ms) => Ok((
                (ms * DEFAULT_EXPLORE_TIME_RATIO / 100) as u64,
                (ms * DEFAULT_COMPRESS_TIME_RATIO / 100) as u64,
            )),
            None => Err(ConfigError::TimeLimitOutOfRange),
        },
        (Some(_), _, _) => Err(ConfigError::ContradictoryTimeLimits),
        (None, Some(e), Some(c)) => match (millis(e as int), millis(c as int)) {
            (Some(e), Some(c)) => Ok((e, c)),
            _ => Err(ConfigError::TimeLimitOutOfRange),
        },
        _ => Err(ConfigError::MissingTimeLimit),
    }
}

/// The budgets of a run, from the options in seconds.
pub fn time_limits(global: Option<u64>, exploration: Option<u64>, compression: Option<u64>) -> (r: Result<(u64, u64), ConfigError>)
    ensures
        r == spec_time_limits(global, exploration, compression),
{
    match (global, exploration, compression) {
        (Some(_), Some(_), _) | (Some(_), _, Some(_)) => Err(ConfigError::ContradictoryTimeLimits),
        (Some(t), None, None) => {
            match to_millis(t) {
                Some(ms) => Ok((percent_of(ms, DEFAULT_EXPLORE_TIME_RATIO), percent_of(ms, DEFAULT_COMPRESS_TIME_RATIO))),
                None => Err(ConfigError::TimeLimitOutOfRange),
            }
        },
        (None, Some(e), Some(c)) => {
            match (to_millis(e), to_millis(c)) {
                (Some(e), Some(c)) => Ok((e, c)),
                _ => Err(ConfigError::TimeLimitOutOfRange),
            }
        },
        _ => Err(ConfigError::MissingTimeLimit),
    }
}

/// The separator settings used when none are given.
pub open spec fn spec_default_separator(n_workers: usize) -> SeparatorConfig {
    SeparatorConfig {
        iter_no_imprv_limit: DEFAULT_ITER_NO_IMPRV_LIMIT,
        strike_limit: DEFAULT_STRIKE_LIMIT,
        n_workers,
        sample_config: SampleConfig { n_container_samples: 1000, n_focussed_samples: 0, n_coord_descents: 3 },
    }
}

/// The configuration the options describe, given budgets in milliseconds.
pub open spec fn spec_config(o: RunOptions, expl_ms: u64, cmpr_ms: u64) -> SparrowConfig {
    SparrowConfig {
        mode: o.mode,
        rng_seed: o.rng_seed,
        expl_cfg: ExplorationConfig {
            time_limit: expl_ms,
            max_conseq_failed_attempts: if o.early_termination { Some(DEFAULT_MAX_CONSEQ_FAILS_EXPL) } else { None },
            shrink_rate: DEFAULT_EXPLORE_SHRINK_RATE,
            separator_config: spec_default_separator(o.n_workers),
        },
        cmpr_cfg: CompressionConfig {
            time_limit: cmpr_ms,
            shrink_decay: if o.early_termination {
                ShrinkDecayStrategy::FailureBased(DEFAULT_FAIL_DECAY_RATIO_CMPR)
            } else {
                ShrinkDecayStrategy::Static(DEFAULT_INITIAL_SHRINK_RATE)
            },
            initial_shrink_rate: DEFAULT_INITIAL_SHRINK_RATE,
            separator_config: spec_default_separator(o.n_workers),
        },
    }
}

/// Builds the configuration of a run from its options. Budgets are checked
/// first, then the worker count.
pub fn build_config(o: RunOptions) -> (r: Result<SparrowConfig, ConfigError>)
    ensures
        r == (match spec_time_limits(o.global_time, o.exploration, o.compression) {
            Err(e) => Err(e),
            Ok((e, c)) => if o.n_workers == 0 { Err(ConfigError::NoWorkers) } else { Ok(spec_config(o, e, c)) },
        }),
{
    let (e, c) = match time_limits(o.global_time, o.exploration, o.compression) {
        Err(err) => {
            return Err(err);
        },
        Ok(t) => t,
    };
    if o.n_workers == 0 {
        return Err(ConfigError::NoWorkers);
    }
    let sep = SeparatorConfig {
        iter_no_imprv_limit: DEFAULT_ITER_NO_IMPRV_LIMIT,
        strike_limit: DEFAULT_STRIKE_LIMIT,
        n_workers: o.n_workers,
        sample_config: lbf_sample_config(),
    };
    let max_conseq = if o.early_termination { Some(DEFAULT_MAX_CONSEQ_FAILS_EXPL) } else { None };
    let decay = if o.early_termination {
        ShrinkDecayStrategy::FailureBased(DEFAULT_FAIL_DECAY_RATIO_CMPR)
    } else {
        ShrinkDecayStrategy::Static(DEFAULT_INITIAL_SHRINK_RATE)
    };
    Ok(SparrowConfig {
        mode: o.mode,
        rng_seed: o.rng_seed,
        expl_cfg: ExplorationConfig {
            time_limit: e,
            max_conseq_failed_attempts: max_conseq,
            shrink_rate: DEFAULT_EXPLORE_SHRINK_RATE,
            separator_config: sep,
        },
        cmpr_cfg: CompressionConfig {
            time_limit: c,
            shrink_decay: decay,
            initial_shrink_rate: DEFAULT_INITIAL_SHRINK_RATE,
            separator_config: sep,
        },
    })
}

/// The heavier settings of one task of a batch: every worker, more and
/// longer searches, a slowly decaying compress step.
pub open spec fn spec_task_config(base: SparrowConfig, n_workers: usize, seed: u64) -> SparrowConfig {
    let samples = SampleConfig { n_container_samples: 200, n_focussed_samples: 100, n_coord_descents: 10 };
    SparrowConfig {
        rng_seed: Some(seed),
        expl_cfg: ExplorationConfig {
            separator_config: SeparatorConfig {
                n_workers,
                sample_config: samples,
                iter_no_imprv_limit: 500,
                strike_limit: 10,
            },
            ..base.expl_cfg
        },
        cmpr_cfg: CompressionConfig {
            separator_config: SeparatorConfig {
                n_workers,
                sample_config: samples,
                ..base.cmpr_cfg.separator_config
            },
            shrink_decay: ShrinkDecayStrategy::FailureBased(980),
            ..base.cmpr_cfg
        },
        ..base
    }
}

/// The configuration of one task of a batch, from the base configuration.
pub fn batch_task_config(base: SparrowConfig, n_workers: usize, seed: u64) -> (r: SparrowConfig)
    ensures
        r == spec_task_config(base, n_workers, seed),
{
    let mut config = base;
    config.rng_seed = Some(seed);
    config.expl_cfg.separator_config.n_workers = n_workers;
    config.cmpr_cfg.separator_config.n_workers = n_workers;
    let ultra = SampleConfig { n_container_samples: 200, n_focussed_samples: 100, n_coord_descents: 10 };
    config.expl_cfg.separator_config.sample_config = ultra;
    config.cmpr_cfg.separator_config.sample_config = ultra;
    config.expl_cfg.separator_config.iter_no_imprv_limit = 500;
    config.expl_cfg.separator_config.strike_limit = 10;
    config.cmpr_cfg.shrink_decay = ShrinkDecayStrategy::FailureBased(980);
    config
}

/// The item quantities a batch runs through: from `start` up to `end` by
/// `step`. A zero step is refused, as it would never reach the end.
pub fn batch_quantities(start: usize, end: usize, step: usize) -> (r: Result<Vec<usize>, ConfigError>)
    ensures
        r is Err <==> step == 0,
        r is Err ==> r->Err_0 == ConfigError::ZeroStep,
        r matches Ok(v) ==> {
            &&& forall|k: int| 0 <= k < v@.len() ==> #[trigger] v@[k] == start + k * step
            &&& (v@.len() == 0 <==> start > end)
            &&& v@.len() > 0 ==> v@.last() <= end && v@.last() + step > end
        },
{
    if step == 0 {
        return Err(ConfigError::ZeroStep);
    }
    let mut v: Vec<usize> = Vec::new();
    if start > end {
        return Ok(v);
    }
    let mut qty = start;
    assert(v@.len() == 0);
    assert(v@.len() * step == 0) by (nonlinear_arith)
        requires v@.len() == 0;
    loop
        invariant_except_break
            start <= qty <= end,
            qty == start + v@.len() * step,
        invariant
            step > 0,
            start <= end,
            forall|k: int| 0 <= k < v@.len() ==> #[trigger] v@[k] == start + k * step,
        ensures
            v@.len() > 0,
            v@.last() <= end,
            v@.last() + step > end,
        decreases end - qty,
    {
        v.push(qty);
        assert(v@[v@.len() - 1] == start + (v@.len() - 1) * step);
        if end - qty < step {
            break;
        }
        assert(qty + step == start + v@.len() * step) by (nonlinear_arith)
            requires qty == start + (v@.len() - 1) * step;
        qty = qty + step;
    }
    Ok(v)
}

/// `x * p / 100`, for a share `p` of at most a hundred percent.
fn percent_of(x: u64, p: u64) -> (r: u64)
    requires
        p <= 100,
    ensures
        r == x * p / 100,
{
    assert((x as int) * (p as int) <= (x as int) * 100) by (nonlinear_arith)
        requires p <= 100, x >= 0;
    let q = (x as u128) * (p as u128) / 100;
    assert(q <= x) by (nonlinear_arith)
        requires q == (x as int) * (p as int) / 100, p <= 100, x >= 0;
    q as u64
}

fn to_millis(secs: u64) -> (r: Option<u64>)
    ensures
        r == millis(secs as int),
{
    if secs <= u64::MAX / 1000 {
        Some(secs * 1000)
    } else {
        None
    }
}

} // verus!
