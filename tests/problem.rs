use sparrow::assertions::strip_width_is_in_check;
use sparrow::problem::{Item, ProblemError, SPInstance, SPProblem};
use sparrow::rotation::RotationRange;

fn item(id: usize, diameter: u64) -> Item {
    Item { id, diameter, min_dim: diameter, allowed_rotation: RotationRange::Fixed }
}

fn problem(items: Vec<(Item, usize)>, width: u64) -> SPProblem {
    SPProblem { instance: SPInstance { items, strip_height: 10 }, strip_width: width }
}

#[test]
fn strip_width_check_exact_bound() {
    // Twice the summed diameters: 2 * (10 * 2 + 3 * 1) = 46.
    let items = || vec![(item(0, 10), 2), (item(1, 3), 1)];
    assert!(strip_width_is_in_check(&problem(items(), 45)));
    assert!(!strip_width_is_in_check(&problem(items(), 46)));
    assert!(!strip_width_is_in_check(&problem(items(), 1000)));
}

#[test]
fn strip_width_check_without_items() {
    assert!(!strip_width_is_in_check(&problem(vec![], 0)));
    assert!(!strip_width_is_in_check(&problem(vec![], 5)));
}

#[test]
fn strip_width_check_huge_values() {
    let items = vec![(item(0, u64::MAX), usize::MAX), (item(1, u64::MAX), 3)];
    assert!(strip_width_is_in_check(&problem(items, u64::MAX)));
}

#[test]
fn single_square_strip_is_in_check() {
    // A unit square of diameter about 1.414, in thousandths, demanded once.
    let items = vec![(item(0, 1414), 1)];
    assert!(strip_width_is_in_check(&problem(items, 1000)));
}

#[test]
fn set_first_demand_updates_first_item() {
    let mut inst = SPInstance { items: vec![(item(0, 1), 1), (item(1, 2), 4)], strip_height: 3 };
    assert_eq!(inst.set_first_demand(25), Ok(()));
    assert_eq!(inst.item_qty(0), 25);
    assert_eq!(inst.item_qty(1), 4);
}

#[test]
fn set_first_demand_refuses_empty_instance() {
    let mut inst = SPInstance { items: vec![], strip_height: 3 };
    assert_eq!(inst.set_first_demand(25), Err(ProblemError::NoItems));
}
