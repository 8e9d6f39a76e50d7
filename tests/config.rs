use sparrow::compress::{Mode, ShrinkDecayStrategy};
use sparrow::config::{
    batch_quantities, batch_task_config, build_config, lbf_sample_config, time_limits, ConfigError, RunOptions,
    SampleConfig, DEFAULT_MAX_CONSEQ_FAILS_EXPL,
};

fn options() -> RunOptions {
    RunOptions {
        global_time: Some(100),
        exploration: None,
        compression: None,
        rng_seed: Some(3),
        early_termination: false,
        n_workers: 4,
        mode: Mode::Strip,
    }
}

#[test]
fn global_time_split_eighty_twenty() {
    assert_eq!(time_limits(Some(100), None, None), Ok((80_000, 20_000)));
    assert_eq!(time_limits(Some(1), None, None), Ok((800, 200)));
    assert_eq!(time_limits(Some(0), None, None), Ok((0, 0)));
}

#[test]
fn explicit_phase_budgets() {
    assert_eq!(time_limits(None, Some(30), Some(7)), Ok((30_000, 7_000)));
}

#[test]
fn contradictory_time_limits() {
    assert_eq!(time_limits(Some(10), Some(3), None), Err(ConfigError::ContradictoryTimeLimits));
    assert_eq!(time_limits(Some(10), None, Some(3)), Err(ConfigError::ContradictoryTimeLimits));
}

#[test]
fn missing_time_limit() {
    assert_eq!(time_limits(None, None, None), Err(ConfigError::MissingTimeLimit));
    assert_eq!(time_limits(None, Some(3), None), Err(ConfigError::MissingTimeLimit));
}

#[test]
fn time_limit_out_of_range() {
    assert_eq!(time_limits(Some(u64::MAX), None, None), Err(ConfigError::TimeLimitOutOfRange));
    assert_eq!(time_limits(None, Some(1), Some(u64::MAX / 10)), Err(ConfigError::TimeLimitOutOfRange));
}

#[test]
fn default_sample_config() {
    assert_eq!(lbf_sample_config(), SampleConfig { n_container_samples: 1000, n_focussed_samples: 0, n_coord_descents: 3 });
}

#[test]
fn build_config_defaults() {
    let c = build_config(options()).unwrap();
    assert_eq!(c.expl_cfg.time_limit, 80_000);
    assert_eq!(c.cmpr_cfg.time_limit, 20_000);
    assert_eq!(c.rng_seed, Some(3));
    assert_eq!(c.expl_cfg.max_conseq_failed_attempts, None);
    assert!(matches!(c.cmpr_cfg.shrink_decay, ShrinkDecayStrategy::Static(_)));
    assert_eq!(c.expl_cfg.separator_config.n_workers, 4);
    assert_eq!(c.cmpr_cfg.separator_config.sample_config, lbf_sample_config());
}

#[test]
fn build_config_early_termination() {
    let c = build_config(RunOptions { early_termination: true, ..options() }).unwrap();
    assert_eq!(c.expl_cfg.max_conseq_failed_attempts, Some(DEFAULT_MAX_CONSEQ_FAILS_EXPL));
    assert_eq!(c.expl_cfg.max_conseq_failed_attempts, Some(10));
    assert_eq!(c.cmpr_cfg.shrink_decay, ShrinkDecayStrategy::FailureBased(900));
}

#[test]
fn build_config_errors() {
    assert_eq!(build_config(RunOptions { n_workers: 0, ..options() }), Err(ConfigError::NoWorkers));
    assert_eq!(
        build_config(RunOptions { n_workers: 0, exploration: Some(1), ..options() }),
        Err(ConfigError::ContradictoryTimeLimits)
    );
}

#[test]
fn batch_task_config_heavy_settings() {
    let base = build_config(options()).unwrap();
    let c = batch_task_config(base, 16, 1234);
    assert_eq!(c.rng_seed, Some(1234));
    let ultra = SampleConfig { n_container_samples: 200, n_focussed_samples: 100, n_coord_descents: 10 };
    assert_eq!(c.expl_cfg.separator_config.sample_config, ultra);
    assert_eq!(c.cmpr_cfg.separator_config.sample_config, ultra);
    assert_eq!(c.expl_cfg.separator_config.n_workers, 16);
    assert_eq!(c.cmpr_cfg.separator_config.n_workers, 16);
    assert_eq!(c.expl_cfg.separator_config.iter_no_imprv_limit, 500);
    assert_eq!(c.expl_cfg.separator_config.strike_limit, 10);
    assert_eq!(c.cmpr_cfg.separator_config.strike_limit, base.cmpr_cfg.separator_config.strike_limit);
    assert_eq!(c.cmpr_cfg.shrink_decay, ShrinkDecayStrategy::FailureBased(980));
    assert_eq!(c.expl_cfg.time_limit, base.expl_cfg.time_limit);
}

#[test]
fn batch_quantities_default_range() {
    let v = batch_quantities(10, 50, 1).unwrap();
    assert_eq!(v.len(), 41);
    assert_eq!(v[0], 10);
    assert_eq!(v[40], 50);
}

#[test]
fn batch_quantities_with_step() {
    assert_eq!(batch_quantities(1, 10, 3), Ok(vec![1, 4, 7, 10]));
    assert_eq!(batch_quantities(1, 11, 3), Ok(vec![1, 4, 7, 10]));
    assert_eq!(batch_quantities(5, 5, 3), Ok(vec![5]));
    assert_eq!(batch_quantities(6, 5, 1), Ok(vec![]));
    assert_eq!(batch_quantities(usize::MAX - 1, usize::MAX, 5), Ok(vec![usize::MAX - 1]));
}

#[test]
fn batch_quantities_zero_step() {
    assert_eq!(batch_quantities(1, 10, 0), Err(ConfigError::ZeroStep));
}
