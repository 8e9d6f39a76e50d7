//! The decisions the solver takes on small instances, with lengths in
//! thousandths of a unit.

use sparrow::compress::{CompressState, Container, Mode, ShrinkDecayStrategy};
use sparrow::descent::Pose;
use sparrow::explore::{SeparatorAction, SeparatorLimits, SeparatorState};
use sparrow::layout::Layout;
use sparrow::problem::{Item, SPInstance};
use sparrow::random::seeded_rng;
use sparrow::rotation::{admits, Rotation, RotationRange, UniformRotDistr};

fn unit_square(id: usize, demand: usize) -> (Item, usize) {
    (Item { id, diameter: 1414, min_dim: 1000, allowed_rotation: RotationRange::Fixed }, demand)
}

#[test]
fn single_square_in_a_strip() {
    let inst = SPInstance { items: vec![unit_square(0, 1)], strip_height: 1000 };
    let mut rng = seeded_rng(0);
    let rotation = UniformRotDistr::from_item(&inst.items[0].0).sample(&mut rng);
    assert_eq!(rotation, Rotation::Zero);
    let mut l = Layout::new(Container { width: 2000, height: 1000 }, 1);
    l.place(&inst, 0, Pose { x: 500, y: 500, rotation }, &vec![0], 0).unwrap();
    assert!(l.is_feasible(&inst));
    let mut c = CompressState::new(Mode::Strip, ShrinkDecayStrategy::Static(1000), l.container(), 1000, 1000);
    let tried = c.propose().unwrap();
    assert_eq!(tried, Container { width: 1000, height: 1000 });
    l.set_container(&inst, tried, &vec![0]);
    assert!(c.record_layout(&inst, &l));
    assert_eq!(c.best.width, 1000);
    assert_eq!(c.propose(), None);
}

#[test]
fn two_squares_in_a_tight_strip() {
    let inst = SPInstance { items: vec![unit_square(0, 1), unit_square(1, 1)], strip_height: 1000 };
    let mut l = Layout::new(Container { width: 2000, height: 1000 }, 2);
    l.place(&inst, 0, Pose { x: 500, y: 500, rotation: Rotation::Zero }, &vec![0, 0], 0).unwrap();
    l.place(&inst, 1, Pose { x: 1500, y: 500, rotation: Rotation::Zero }, &vec![0, 0], 0).unwrap();
    assert!(l.is_feasible(&inst));
    let mut c = CompressState::new(Mode::Strip, ShrinkDecayStrategy::Static(500), l.container(), 2000, 500);
    assert_eq!(c.propose(), None);
    // in a narrower strip the second square sticks out, and the container is not accepted
    l.set_container(&inst, Container { width: 1900, height: 1000 }, &vec![0, 100]);
    assert!(!l.is_feasible(&inst));
    assert!(!c.record_layout(&inst, &l));
    assert_eq!(c.best.width, 2000);
}

#[test]
fn one_square_demanded_twice() {
    let inst = SPInstance { items: vec![unit_square(0, 2)], strip_height: 1000 };
    assert_eq!(inst.item_qty(0), 2);
    let mut l = Layout::new(Container { width: 2000, height: 1000 }, 2);
    let a = l.place(&inst, 0, Pose { x: 500, y: 500, rotation: Rotation::Zero }, &vec![0, 0], 0).unwrap();
    let b = l.place(&inst, 0, Pose { x: 1500, y: 500, rotation: Rotation::Zero }, &vec![0, 0], 0).unwrap();
    assert_ne!(a, b);
    assert!(l.is_feasible(&inst));
}

#[test]
fn rotated_l_shape_poses_stay_admissible() {
    let l_shape = Item { id: 0, diameter: 2828, min_dim: 2000, allowed_rotation: RotationRange::Continuous };
    let inst = SPInstance { items: vec![(l_shape, 2)], strip_height: 2000 };
    let d = UniformRotDistr::from_item(&inst.items[0].0);
    let mut rng = seeded_rng(4);
    let mut l = Layout::new(Container { width: 3000, height: 2000 }, 2);
    for id in 0..2 {
        let rotation = d.sample(&mut rng);
        assert!(admits(&inst.items[0].0.allowed_rotation, rotation));
        assert_eq!(l.place(&inst, 0, Pose { x: 1000 * id as i64, y: 1000, rotation }, &vec![0, 0], 0), Ok(id));
    }
    assert!(l.is_feasible(&inst));
}

#[test]
fn sixteen_circles_in_a_square() {
    let circle = Item { id: 0, diameter: 1000, min_dim: 1000, allowed_rotation: RotationRange::Continuous };
    let inst = SPInstance { items: vec![(circle, 16)], strip_height: 5000 };
    let mut l = Layout::new(Container { width: 5000, height: 5000 }, 16);
    for k in 0..16 {
        let pose = Pose { x: 500 + 1000 * (k % 4) as i64, y: 500 + 1000 * (k / 4) as i64, rotation: Rotation::Turn(0) };
        assert_eq!(l.place(&inst, 0, pose, &vec![0; 16], 0), Ok(k));
    }
    let mut c = CompressState::new(Mode::Square, ShrinkDecayStrategy::FailureBased(900), l.container(), 4000, 1000);
    let tried = c.propose().unwrap();
    assert_eq!(tried, Container { width: 4000, height: 4000 });
    l.set_container(&inst, tried, &vec![0; 16]);
    assert!(c.record_layout(&inst, &l));
    assert!(c.best.width <= 5000);
}

#[test]
fn cancellation_ends_the_run() {
    let limits = SeparatorLimits { iter_no_imprv_limit: 200, strike_limit: 3, max_conseq_failed_attempts: None };
    let mut s = SeparatorState::new();
    assert_eq!(s.after_attempt(&limits, false, false, false), SeparatorAction::Continue);
    assert_eq!(s.after_attempt(&limits, false, false, true), SeparatorAction::Yield);
}
