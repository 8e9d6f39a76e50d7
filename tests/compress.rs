use sparrow::compress::{share_of, CompressState, Container, Mode, ShrinkDecayStrategy};

#[test]
fn share_of_thousandths() {
    assert_eq!(share_of(1000, 5), 5);
    assert_eq!(share_of(999, 500), 499);
    assert_eq!(share_of(u64::MAX, 1000), u64::MAX);
    assert_eq!(share_of(7, 0), 0);
}

#[test]
fn static_strategy_proposes_share_of_slack() {
    let best = Container { width: 3000, height: 1000 };
    let s = CompressState::new(Mode::Strip, ShrinkDecayStrategy::Static(100), best, 1000, 100);
    // slack 2000, a tenth of it
    assert_eq!(s.propose(), Some(Container { width: 2800, height: 1000 }));
}

#[test]
fn no_proposal_without_slack() {
    let best = Container { width: 1000, height: 1000 };
    let s = CompressState::new(Mode::Strip, ShrinkDecayStrategy::Static(100), best, 1000, 100);
    assert_eq!(s.propose(), None);
}

#[test]
fn record_accepts_only_feasible_smaller() {
    let best = Container { width: 3000, height: 1000 };
    let mut s = CompressState::new(Mode::Strip, ShrinkDecayStrategy::Static(100), best, 1000, 100);
    let tried = Container { width: 2800, height: 1000 };
    assert!(!s.record(tried, false));
    assert_eq!(s.best, best);
    assert!(s.record(tried, true));
    assert_eq!(s.best, tried);
    // larger than the best: refused even if feasible
    assert!(!s.record(best, true));
    assert_eq!(s.best, tried);
    // below the lower bound: refused
    assert!(!s.record(Container { width: 999, height: 1000 }, true));
}

#[test]
fn failure_based_step_decays_and_recovers() {
    let best = Container { width: 11000, height: 1000 };
    let mut s = CompressState::new(Mode::Strip, ShrinkDecayStrategy::FailureBased(500), best, 1000, 100);
    assert_eq!(s.step, 1000);
    assert_eq!(s.propose(), Some(Container { width: 10000, height: 1000 }));
    assert!(!s.record(Container { width: 10000, height: 1000 }, false));
    assert_eq!(s.step, 500);
    assert_eq!(s.propose(), Some(Container { width: 10500, height: 1000 }));
    assert!(s.record(Container { width: 10500, height: 1000 }, true));
    assert_eq!(s.step, 1000);
    assert!(s.record(Container { width: 10000, height: 1000 }, true));
    // clamped at the first step
    assert_eq!(s.step, 1000);
}

#[test]
fn square_mode_shrinks_both_sides() {
    let best = Container { width: 5000, height: 5000 };
    let mut s = CompressState::new(Mode::Square, ShrinkDecayStrategy::Static(200), best, 4000, 200);
    let c = s.propose().unwrap();
    assert_eq!(c, Container { width: 4800, height: 4800 });
    // a non-square container is refused in square mode
    assert!(!s.record(Container { width: 4800, height: 4700 }, true));
    assert!(s.record(c, true));
    assert_eq!(s.best, c);
}

#[test]
fn container_area() {
    assert_eq!(Container { width: u64::MAX, height: 2 }.area_of(), 2 * (u64::MAX as u128));
}
