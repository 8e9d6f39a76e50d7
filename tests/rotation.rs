use sparrow::problem::Item;
use sparrow::random::seeded_rng;
use sparrow::rotation::{admits, NormalRotDistr, Rotation, RotationRange, UniformRotDistr};

fn item(allowed_rotation: RotationRange) -> Item {
    Item { id: 0, diameter: 10, min_dim: 5, allowed_rotation }
}

fn listed() -> Vec<u64> {
    vec![0.0f64.to_bits(), std::f64::consts::FRAC_PI_2.to_bits(), std::f64::consts::PI.to_bits()]
}

#[test]
fn uniform_fixed_is_zero() {
    let d = UniformRotDistr::from_item(&item(RotationRange::Fixed));
    let mut rng = seeded_rng(7);
    for _ in 0..10 {
        assert_eq!(d.sample(&mut rng), Rotation::Zero);
    }
}

#[test]
fn uniform_discrete_draws_listed_angles() {
    let angles = listed();
    let d = UniformRotDistr::from_item(&item(RotationRange::Discrete(angles.clone())));
    let mut rng = seeded_rng(42);
    let mut seen = vec![false; angles.len()];
    for _ in 0..200 {
        match d.sample(&mut rng) {
            Rotation::Listed(b) => {
                let i = angles.iter().position(|a| *a == b).expect("a listed angle");
                seen[i] = true;
                assert_eq!(f64::from_bits(b), f64::from_bits(angles[i]));
            }
            other => panic!("unexpected rotation {:?}", other),
        }
    }
    assert!(seen.iter().all(|s| *s));
}

#[test]
fn uniform_discrete_single_angle() {
    let only = 1.25f64.to_bits();
    let d = UniformRotDistr::from_item(&item(RotationRange::Discrete(vec![only])));
    let mut rng = seeded_rng(1);
    for _ in 0..20 {
        assert_eq!(d.sample(&mut rng), Rotation::Listed(only));
    }
}

#[test]
fn uniform_continuous_draws_turns() {
    let d = UniformRotDistr::from_item(&item(RotationRange::Continuous));
    let mut rng = seeded_rng(3);
    let mut distinct = std::collections::HashSet::new();
    for _ in 0..50 {
        match d.sample(&mut rng) {
            Rotation::Turn(k) => {
                distinct.insert(k);
            }
            other => panic!("unexpected rotation {:?}", other),
        }
    }
    assert!(distinct.len() > 40);
}

#[test]
fn uniform_same_seed_same_draws() {
    let d = UniformRotDistr::from_item(&item(RotationRange::Continuous));
    let mut a = seeded_rng(99);
    let mut b = seeded_rng(99);
    for _ in 0..20 {
        assert_eq!(d.sample(&mut a), d.sample(&mut b));
    }
}

#[test]
fn normal_continuous_wraps() {
    let d = NormalRotDistr::from_item(&item(RotationRange::Continuous), Rotation::Turn(u32::MAX), 100);
    assert_eq!(d.sample(1), Rotation::Turn(0));
    assert_eq!(d.sample(-1), Rotation::Turn(u32::MAX - 1));
    let d = NormalRotDistr::from_item(&item(RotationRange::Continuous), Rotation::Turn(5), 100);
    assert_eq!(d.sample(-10), Rotation::Turn(u32::MAX - 4));
    assert_eq!(d.sample(1000), Rotation::Turn(1005));
}

#[test]
fn normal_discrete_returns_reference() {
    let angles = listed();
    let d = NormalRotDistr::from_item(&item(RotationRange::Discrete(angles.clone())), Rotation::Listed(angles[2]), 100);
    assert_eq!(d.sample(12345), Rotation::Listed(angles[2]));
    assert!(matches!(d, NormalRotDistr::Discrete(b) if b == angles[2]));
}

#[test]
fn normal_fixed_returns_zero() {
    let d = NormalRotDistr::from_item(&item(RotationRange::Fixed), Rotation::Zero, 100);
    assert_eq!(d.sample(-77), Rotation::Zero);
}

#[test]
fn normal_set_mean_and_stddev() {
    let mut d = NormalRotDistr::from_item(&item(RotationRange::Continuous), Rotation::Turn(10), 3);
    d.set_mean(500);
    d.set_stddev(9);
    assert!(matches!(d, NormalRotDistr::Range { mean: 500, stddev: 9 }));
    assert_eq!(d.sample(0), Rotation::Turn(500));
    let mut f = NormalRotDistr::from_item(&item(RotationRange::Fixed), Rotation::Zero, 3);
    f.set_mean(500);
    f.set_stddev(9);
    assert!(matches!(f, NormalRotDistr::Fixed));
}

#[test]
fn admissibility_check() {
    let angles = listed();
    let range = RotationRange::Discrete(angles.clone());
    assert!(admits(&range, Rotation::Listed(angles[1])));
    assert!(!admits(&range, Rotation::Listed(1.0f64.to_bits())));
    assert!(!admits(&range, Rotation::Zero));
    assert!(admits(&RotationRange::Fixed, Rotation::Zero));
    assert!(!admits(&RotationRange::Fixed, Rotation::Turn(0)));
    assert!(admits(&RotationRange::Continuous, Rotation::Turn(17)));
    assert!(!admits(&RotationRange::Continuous, Rotation::Zero));
}
