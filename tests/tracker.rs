use sparrow::random::seeded_rng;
use sparrow::tracker::{CollisionTracker, GLS_WEIGHT_MAX_INC_RATIO, GLS_WEIGHT_MIN_INC_RATIO, WEIGHT_ONE};

#[test]
fn new_table_is_empty() {
    let t = CollisionTracker::new(3);
    assert_eq!(t.size_of(), 3);
    for i in 0..3 {
        assert_eq!(t.overlap_of(i), 0);
        for j in 0..3 {
            assert_eq!(t.pair_overlap(i, j), 0);
            assert_eq!(t.pair_weight(i, j), WEIGHT_ONE);
        }
    }
    assert_eq!(t.worst_overlapping(), None);
    assert_eq!(t.top_pair(), None);
}

#[test]
fn register_books_both_halves() {
    let mut t = CollisionTracker::new(3);
    t.register(1, &vec![5, 99, 7]);
    assert_eq!(t.pair_overlap(1, 0), 5);
    assert_eq!(t.pair_overlap(0, 1), 5);
    assert_eq!(t.pair_overlap(1, 2), 7);
    assert_eq!(t.pair_overlap(2, 1), 7);
    assert_eq!(t.pair_overlap(1, 1), 0);
    assert_eq!(t.overlap_of(1), 12);
    assert_eq!(t.overlap_of(0), 5);
    assert_eq!(t.overlap_of(2), 7);
}

#[test]
fn register_again_replaces_row() {
    let mut t = CollisionTracker::new(3);
    t.register(0, &vec![0, 4, 4]);
    t.register(1, &vec![1, 0, 2]);
    assert_eq!(t.pair_overlap(0, 1), 1);
    assert_eq!(t.pair_overlap(0, 2), 4);
    assert_eq!(t.overlap_of(0), 5);
    assert_eq!(t.overlap_of(1), 3);
    assert_eq!(t.overlap_of(2), 6);
}

#[test]
fn overlap_symmetric_after_operations() {
    let mut t = CollisionTracker::new(4);
    t.register(0, &vec![0, 3, 0, 8]);
    t.register(2, &vec![6, 1, 0, 2]);
    t.clear(3);
    t.register(1, &vec![9, 0, 5, 4]);
    for i in 0..4 {
        for j in 0..4 {
            assert_eq!(t.pair_overlap(i, j), t.pair_overlap(j, i));
        }
    }
    assert_eq!(t.pair_overlap(0, 3), 0);
    assert_eq!(t.pair_overlap(1, 3), 4);
}

#[test]
fn clear_forgets_placement() {
    let mut t = CollisionTracker::new(3);
    t.register(0, &vec![0, 4, 4]);
    t.clear(0);
    for i in 0..3 {
        assert_eq!(t.overlap_of(i), 0);
    }
}

#[test]
fn worst_overlapping_prefers_lowest_index() {
    let mut t = CollisionTracker::new(3);
    t.register(0, &vec![0, 0, 5]);
    t.register(1, &vec![0, 0, 5]);
    // overlaps: 0 -> 5, 1 -> 5, 2 -> 10
    assert_eq!(t.worst_overlapping(), Some(2));
    t.clear(2);
    t.register(0, &vec![0, 3, 0]);
    t.register(2, &vec![0, 0, 0]);
    // overlaps: 0 -> 3, 1 -> 3, 2 -> 0
    assert_eq!(t.worst_overlapping(), Some(0));
}

#[test]
fn top_pair_by_utility() {
    let mut t = CollisionTracker::new(3);
    t.register(0, &vec![0, 10, 12]);
    assert_eq!(t.top_pair(), Some((0, 2)));
    // Doubling the weight of (0, 2) halves-ish its utility: 12 / 3 < 10 / 2.
    t.increase_weight(0, 2, 2000);
    assert_eq!(t.pair_weight(0, 2), 2000);
    assert_eq!(t.pair_weight(2, 0), 2000);
    assert_eq!(t.top_pair(), Some((0, 1)));
}

#[test]
fn top_pair_ties_go_to_first_pair() {
    let mut t = CollisionTracker::new(3);
    t.register(2, &vec![7, 7, 0]);
    assert_eq!(t.top_pair(), Some((0, 2)));
}

#[test]
fn increase_weight_exact_and_saturating() {
    let mut t = CollisionTracker::new(2);
    t.increase_weight(0, 1, 1500);
    assert_eq!(t.pair_weight(0, 1), 1500);
    t.increase_weight(1, 0, 1200);
    assert_eq!(t.pair_weight(0, 1), 1800);
    for _ in 0..40 {
        t.increase_weight(0, 1, 2000);
    }
    assert_eq!(t.pair_weight(0, 1), u32::MAX);
    assert_eq!(t.pair_weight(1, 0), u32::MAX);
    assert_eq!(t.pair_weight(0, 0), WEIGHT_ONE);
}

#[test]
fn decay_weights_floors_at_one() {
    let mut t = CollisionTracker::new(3);
    t.increase_weight(0, 1, 1500);
    t.increase_weight(0, 2, 1040);
    t.decay_weights();
    assert_eq!(t.pair_weight(0, 1), 1425);
    assert_eq!(t.pair_weight(1, 0), 1425);
    assert_eq!(t.pair_weight(0, 2), WEIGHT_ONE);
    assert_eq!(t.pair_weight(1, 2), WEIGHT_ONE);
}

#[test]
fn update_weights_raises_top_pair_within_range() {
    let mut t = CollisionTracker::new(3);
    t.register(1, &vec![0, 0, 9]);
    let mut rng = seeded_rng(5);
    let p = t.update_weights(&mut rng);
    assert_eq!(p, Some((1, 2)));
    let w = t.pair_weight(1, 2);
    assert!(w >= GLS_WEIGHT_MIN_INC_RATIO && w <= GLS_WEIGHT_MAX_INC_RATIO);
    assert_eq!(t.pair_weight(2, 1), w);
    assert_eq!(t.pair_weight(0, 1), WEIGHT_ONE);
    assert_eq!(t.pair_overlap(1, 2), 9);
}

#[test]
fn update_weights_without_overlap_changes_nothing() {
    let mut t = CollisionTracker::new(2);
    let mut rng = seeded_rng(5);
    assert_eq!(t.update_weights(&mut rng), None);
    assert_eq!(t.pair_weight(0, 1), WEIGHT_ONE);
}

#[test]
fn weighted_overlap_in_thousandths() {
    let mut t = CollisionTracker::new(3);
    t.register(0, &vec![0, 2, 3]);
    t.increase_weight(0, 2, 2000);
    assert_eq!(t.weighted_overlap_of(0), 2 * 1000 + 3 * 2000);
    assert_eq!(t.weighted_overlap_of(2), 3 * 2000);
}
