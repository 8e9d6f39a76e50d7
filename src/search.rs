//! Choosing which refined samples go on to the final refinement: the
//! cheapest ones, leaving out near-duplicates of those already chosen.

use vstd::prelude::*;
use crate::descent::Pose;

verus! {

/// Two samples are duplicates when they are closer than one in this many of
/// the item's smallest extent, along both axes.
pub const UNIQUE_SAMPLE_THRESHOLD: u64 = 20;

pub open spec fn abs_diff(a: int, b: int) -> int {
    if a >= b { a - b } else { b - a }
}

/// Whether `b` lies within the duplicate threshold of `a`.
pub open spec fn spec_is_duplicate(a: Pose, b: Pose, min_dim: u64) -> bool {
    abs_diff(a.x as int, b.x as int) * UNIQUE_SAMPLE_THRESHOLD < min_dim
        && abs_diff(a.y as int, b.y as int) * UNIQUE_SAMPLE_THRESHOLD < min_dim
}

fn abs_diff_i64(a: i64, b: i64) -> (r: u64)
    ensures
        r == abs_diff(a as int, b as int),
{
    if a >= b {
        ((a as i128) - (b as i128)) as u64
    } else {
        ((b as i128) - (a as i128)) as u64
    }
}

/// Whether two samples are duplicates of each other.
pub fn is_duplicate(a: &Pose, b: &Pose, min_dim: u64) -> (r: bool)
    ensures
        r == spec_is_duplicate(*a, *b, min_dim),
{
    let dx = abs_diff_i64(a.x, b.x) as u128;
    let dy = abs_diff_i64(a.y, b.y) as u128;
    dx * (UNIQUE_SAMPLE_THRESHOLD as u128) < min_dim as u128 && dy * (UNIQUE_SAMPLE_THRESHOLD as u128) < min_dim as u128
}

/// Whether candidate `j` may still be chosen after `chosen`: it is neither
/// chosen nor a duplicate of a chosen one.
pub open spec fn eligible(cands: Seq<(Pose, u64)>, chosen: Seq<usize>, j: int, min_dim: u64) -> bool {
    forall|s: int| 0 <= s < chosen.len() ==>
        #[trigger] chosen[s] != j && !spec_is_duplicate(cands[chosen[s] as int].0, cands[j].0, min_dim)
}

fn is_eligible(cands: &Vec<(Pose, u64)>, chosen: &Vec<usize>, j: usize, min_dim: u64) -> (r: bool)
    requires
        j < cands@.len(),
        forall|s: int| 0 <= s < chosen@.len() ==> #[trigger] chosen@[s] < cands@.len(),
    ensures
        r == eligible(cands@, chosen@, j as int, min_dim),
{
    let mut s: usize = 0;
    while s < chosen.len()
        invariant
            s <= chosen@.len(),
            j < cands@.len(),
            forall|t: int| 0 <= t < chosen@.len() ==> #[trigger] chosen@[t] < cands@.len(),
            forall|t: int| 0 <= t < s ==>
                #[trigger] chosen@[t] != j && !spec_is_duplicate(cands@[chosen@[t] as int].0, cands@[j as int].0, min_dim),
        decreases chosen@.len() - s,
    {
        let c = chosen[s];
        if c == j || is_duplicate(&cands[c].0, &cands[j].0, min_dim) {
            return false;
        }
        s = s + 1;
    }
    true
}

/// Picks up to `k` candidates (pose and cost) by index: each time the
/// cheapest one, the first among equals, that is neither chosen nor a
/// duplicate of a chosen one. Stops early only when none is left.
pub fn select_best_unique(cands: &Vec<(Pose, u64)>, k: usize, min_dim: u64) -> (r: Vec<usize>)
    ensures
        r@.len() <= k,
        forall|t: int| 0 <= t < r@.len() ==> #[trigger] r@[t] < cands@.len(),
        forall|t: int| 0 <= t < r@.len() ==> eligible(cands@, r@.take(t), #[trigger] r@[t] as int, min_dim),
        forall|t: int, j: int| 0 <= t < r@.len() && 0 <= j < cands@.len() && eligible(cands@, r@.take(t), j, min_dim) ==>
            cands@[#[trigger] r@[t] as int].1 <= #[trigger] cands@[j].1,
        forall|t: int, u: int| 0 <= t < u < r@.len() ==> cands@[#[trigger] r@[t] as int].1 <= cands@[#[trigger] r@[u] as int].1,
        r@.len() < k ==> forall|j: int| 0 <= j < cands@.len() ==> !#[trigger] eligible(cands@, r@, j, min_dim),
{
    let mut r: Vec<usize> = Vec::new();
    while r.len() < k
        invariant
            r@.len() <= k,
            forall|t: int| 0 <= t < r@.len() ==> #[trigger] r@[t] < cands@.len(),
            forall|t: int| 0 <= t < r@.len() ==> eligible(cands@, r@.take(t), #[trigger] r@[t] as int, min_dim),
            forall|t: int, j: int| 0 <= t < r@.len() && 0 <= j < cands@.len() && eligible(cands@, r@.take(t), j, min_dim) ==>
                cands@[#[trigger] r@[t] as int].1 <= #[trigger] cands@[j].1,
            forall|t: int, u: int| 0 <= t < u < r@.len() ==> cands@[#[trigger] r@[t] as int].1 <= cands@[#[trigger] r@[u] as int].1,
        ensures
            r@.len() <= k,
            r@.len() < k ==> forall|j: int| 0 <= j < cands@.len() ==> !#[trigger] eligible(cands@, r@, j, min_dim),
        decreases k - r@.len(),
    {
        let mut best: Option<usize> = None;
        let mut j: usize = 0;
        while j < cands.len()
            invariant
                j <= cands@.len(),
                forall|t: int| 0 <= t < r@.len() ==> #[trigger] r@[t] < cands@.len(),
                best is None ==> forall|i: int| 0 <= i < j ==> !#[trigger] eligible(cands@, r@, i, min_dim),
                best matches Some(b) ==> b < j && eligible(cands@, r@, b as int, min_dim)
                    && forall|i: int| 0 <= i < j && eligible(cands@, r@, i, min_dim) ==> cands@[b as int].1 <= #[trigger] cands@[i].1,
            decreases cands@.len() - j,
        {
            if is_eligible(cands, &r, j, min_dim) {
                let better = match best {
                    None => true,
                    Some(b) => cands[j].1 < cands[b].1,
                };
                if better {
                    best = Some(j);
                }
            }
            j = j + 1;
        }
        match best {
            None => {
                break;
            },
            Some(b) => {
                let ghost prev = r@;
                r.push(b);
                assert(r@.take(prev.len() as int) == prev);
                assert forall|t: int| 0 <= t < r@.len() implies eligible(cands@, r@.take(t), #[trigger] r@[t] as int, min_dim) by {
                    if t < prev.len() {
                        assert(r@.take(t) == prev.take(t));
                    }
                }
                assert forall|t: int, i: int| 0 <= t < r@.len() && 0 <= i < cands@.len() && eligible(cands@, r@.take(t), i, min_dim) implies
                    cands@[#[trigger] r@[t] as int].1 <= #[trigger] cands@[i].1 by {
                    if t < prev.len() {
                        assert(r@.take(t) == prev.take(t));
                    }
                }
                assert forall|t: int, u: int| 0 <= t < u < r@.len() implies cands@[#[trigger] r@[t] as int].1 <= cands@[#[trigger] r@[u] as int].1 by {
                    assert(r@.take(t) =~= r@.take(u).take(t));
                    assert(r@.take(u).take(t) == prev.take(u).take(t)) by {
                        if u < prev.len() {
                            assert(r@.take(u) == prev.take(u));
                        }
                    }
                    assert forall|s: int| 0 <= s < t implies #[trigger] r@.take(t)[s] == r@.take(u)[s] by {}
                    assert(eligible(cands@, r@.take(u), r@[u] as int, min_dim));
                    assert(eligible(cands@, r@.take(t), r@[u] as int, min_dim));
                }
            },
        }
    }
    r
}

/// The refined candidate to move to: the first of the lowest cost, and only
/// when that cost is strictly below the cost of the current pose.
pub fn best_move(current_cost: u64, refined: &Vec<(Pose, u64)>) -> (r: Option<usize>)
    ensures
        r is None <==> forall|j: int| 0 <= j < refined@.len() ==> current_cost <= #[trigger] refined@[j].1,
        r matches Some(k) ==> {
            &&& k < refined@.len()
            &&& refined@[k as int].1 < current_cost
            &&& forall|j: int| 0 <= j < refined@.len() ==> refined@[k as int].1 <= #[trigger] refined@[j].1
            &&& forall|j: int| 0 <= j < k ==> refined@[k as int].1 < #[trigger] refined@[j].1
        },
{
    let mut best: Option<usize> = None;
    let mut best_cost: u64 = current_cost;
    let mut j: usize = 0;
    while j < refined.len()
        invariant
            j <= refined@.len(),
            best is None ==> best_cost == current_cost,
            best matches Some(k) ==> k < j && best_cost == refined@[k as int].1 && best_cost < current_cost,
            forall|i: int| 0 <= i < j ==> best_cost <= #[trigger] refined@[i].1,
            best matches Some(k) ==> forall|i: int| 0 <= i < k ==> best_cost < #[trigger] refined@[i].1,
        decreases refined@.len() - j,
    {
        if refined[j].1 < best_cost {
            best = Some(j);
            best_cost = refined[j].1;
        }
        j = j + 1;
    }
    best
}

} // verus!
