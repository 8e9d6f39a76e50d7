use sparrow::descent::{pre_refine_config, snd_refine_config, CDConfig, CoordinateDescent, Pose};
use sparrow::rotation::Rotation;

fn config() -> CDConfig {
    CDConfig { t_step_init: 100, t_step_limit: 10, r_step_init: 1000, r_step_limit: 100 }
}

#[test]
fn refine_levels() {
    let pre = pre_refine_config(1000);
    assert_eq!((pre.t_step_init, pre.t_step_limit), (250, 20));
    assert_eq!((pre.r_step_init, pre.r_step_limit), (59652323, 11930464));
    let snd = snd_refine_config(1000);
    assert_eq!((snd.t_step_init, snd.t_step_limit), (10, 1));
    assert_eq!((snd.r_step_init, snd.r_step_limit), (5965232, 596523));
}

#[test]
fn neighbours_without_rotation() {
    let cd = CoordinateDescent::new(Pose { x: 0, y: 5, rotation: Rotation::Zero }, 50, config());
    let n = cd.neighbours();
    assert_eq!(n.len(), 4);
    assert_eq!(n[0], Pose { x: 100, y: 5, rotation: Rotation::Zero });
    assert_eq!(n[1], Pose { x: -100, y: 5, rotation: Rotation::Zero });
    assert_eq!(n[2], Pose { x: 0, y: 105, rotation: Rotation::Zero });
    assert_eq!(n[3], Pose { x: 0, y: -95, rotation: Rotation::Zero });
}

#[test]
fn neighbours_with_rotation_wrap() {
    let cd = CoordinateDescent::new(Pose { x: i64::MAX - 1, y: 0, rotation: Rotation::Turn(10) }, 50, config());
    let n = cd.neighbours();
    assert_eq!(n.len(), 6);
    assert_eq!(n[0].x, i64::MAX);
    assert_eq!(n[4].rotation, Rotation::Turn(1010));
    assert_eq!(n[5].rotation, Rotation::Turn(u32::MAX - 989));
}

#[test]
fn advance_moves_to_first_cheapest() {
    let mut cd = CoordinateDescent::new(Pose { x: 0, y: 0, rotation: Rotation::Zero }, 50, config());
    assert!(cd.advance(&vec![40, 30, 30, 60]));
    assert_eq!(cd.pose, Pose { x: -100, y: 0, rotation: Rotation::Zero });
    assert_eq!(cd.cost, 30);
    assert_eq!(cd.step_x, 110);
    assert_eq!(cd.step_y, 100);
}

#[test]
fn advance_without_improvement_halves_steps() {
    let mut cd = CoordinateDescent::new(Pose { x: 0, y: 0, rotation: Rotation::Turn(0) }, 50, config());
    assert!(!cd.advance(&vec![50, 51, 60, 70, 80, 90]));
    assert_eq!(cd.pose, Pose { x: 0, y: 0, rotation: Rotation::Turn(0) });
    assert_eq!(cd.cost, 50);
    assert_eq!((cd.step_x, cd.step_y, cd.step_r), (50, 50, 500));
}

#[test]
fn rotation_step_grows_on_rotation_win() {
    let mut cd = CoordinateDescent::new(Pose { x: 0, y: 0, rotation: Rotation::Turn(0) }, 50, config());
    assert!(cd.advance(&vec![50, 51, 60, 70, 80, 10]));
    assert_eq!(cd.pose.rotation, Rotation::Turn(u32::MAX - 999));
    assert_eq!(cd.step_r, 1100);
}

#[test]
fn descent_finishes_when_steps_below_limits() {
    let mut cd = CoordinateDescent::new(Pose { x: 0, y: 0, rotation: Rotation::Listed(7) }, 0, config());
    let mut rounds = 0;
    while !cd.is_done() {
        let n = cd.neighbours().len();
        assert!(!cd.advance(&vec![1; n]));
        rounds += 1;
    }
    // 100 -> 50 -> 25 -> 12 -> 6
    assert_eq!(rounds, 4);
    assert_eq!(cd.pose.rotation, Rotation::Listed(7));
}
