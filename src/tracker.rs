//! Book of pairwise overlap between placed items, and the guided-local-search
//! weights laid over it.
//!
//! Placements are numbered `0..n`. For every pair the table holds the overlap
//! proxy the collision engine reported and a weight, kept symmetric; the
//! overlap of one placement is the sum of its row.

use vstd::prelude::*;
use rand_xoshiro::Xoshiro256PlusPlus;
use crate::random::draw_below;

verus! {

/// A weight of one, in the thousandths that weights are kept in.
pub const WEIGHT_ONE: u32 = 1000;

/// Sum of the first `k` entries of `d`.
pub open spec fn row_sum(d: Seq<u64>, k: int) -> int
    decreases k,
{
    if k <= 0 {
        0
    } else {
        row_sum(d, k - 1) + d[k - 1]
    }
}

/// Sum over the first `k` entries of `d[j] * w[j]`.
pub open spec fn weighted_row_sum(d: Seq<u64>, w: Seq<u32>, k: int) -> int
    decreases k,
{
    if k <= 0 {
        0
    } else {
        weighted_row_sum(d, w, k - 1) + d[k - 1] * w[k - 1]
    }
}

/// Lower end of the factor a weight is raised by, in thousandths.
pub const GLS_WEIGHT_MIN_INC_RATIO: u32 = 1200;
/// Upper end of the factor a weight is raised by, in thousandths.
pub const GLS_WEIGHT_MAX_INC_RATIO: u32 = 2000;
/// Factor every weight decays by between outer iterations, in hundredths.
pub const GLS_WEIGHT_DECAY: u32 = 95;

/// Whether overlap `d1` under weight `w1` has a higher utility than `d2`
/// under `w2`, the utility being `depth / (1 + weight)`: the cross product
/// of `d1 / (1000 + w1) > d2 / (1000 + w2)`.
pub open spec fn utility_exceeds(d1: int, w1: int, d2: int, w2: int) -> bool {
    d1 * (WEIGHT_ONE + w2) > d2 * (WEIGHT_ONE + w1)
}

/// Whether the pair `(a, b)` comes before `(c, d)` in the order of indices.
pub open spec fn pair_before(a: int, b: int, c: int, d: int) -> bool {
    a < c || (a == c && b < d)
}

/// A weight raised by `factor` thousandths, saturating at the largest `u32`.
pub open spec fn raised_weight(w: int, factor: int) -> int {
    if w * factor / 1000 > u32::MAX { u32::MAX as int } else { w * factor / 1000 }
}

/// A weight after one decay step, never below one.
pub open spec fn decayed_weight(w: int) -> int {
    if w * GLS_WEIGHT_DECAY / 100 < WEIGHT_ONE { WEIGHT_ONE as int } else { w * GLS_WEIGHT_DECAY / 100 }
}

proof fn lemma_utility_transitive(d1: int, w1: int, d2: int, w2: int, d3: int, w3: int)
    requires
        d1 >= 0, d2 >= 0, d3 >= 0, w1 >= 0, w2 >= 0, w3 >= 0,
        utility_exceeds(d1, w1, d2, w2),
        !utility_exceeds(d3, w3, d2, w2),
    ensures
        utility_exceeds(d1, w1, d3, w3),
{
    let c1 = WEIGHT_ONE + w1;
    let c2 = WEIGHT_ONE + w2;
    let c3 = WEIGHT_ONE + w3;
    assert(d1 * c2 * c3 > d2 * c1 * c3) by (nonlinear_arith)
        requires d1 * c2 > d2 * c1, c3 > 0;
    assert(d2 * c3 * c1 >= d3 * c2 * c1) by (nonlinear_arith)
        requires d3 * c2 <= d2 * c3, c1 > 0;
    assert(d1 * c3 * c2 > d3 * c1 * c2) by (nonlinear_arith)
        requires d1 * c2 * c3 > d2 * c1 * c3, d2 * c3 * c1 >= d3 * c2 * c1;
    assert(d1 * c3 > d3 * c1) by (nonlinear_arith)
        requires d1 * c3 * c2 > d3 * c1 * c2, c2 > 0;
}

pub struct CollisionTracker {
    pair: Vec<Vec<u64>>,
    weights: Vec<Vec<u32>>,
}

impl CollisionTracker {
    /// Number of placements the table covers.
    pub closed spec fn size(&self) -> nat {
        self.pair@.len()
    }

    /// Overlap proxy recorded between placements `i` and `j`.
    pub closed spec fn depth(&self, i: int, j: int) -> u64 {
        self.pair@[i]@[j]
    }

    /// Weight of the pair `i`, `j`, in thousandths.
    pub closed spec fn weight(&self, i: int, j: int) -> u32 {
        self.weights@[i]@[j]
    }

    /// Total overlap of placement `i` with all others.
    pub closed spec fn overlap(&self, i: int) -> int {
        row_sum(self.pair@[i]@, self.size() as int)
    }

    /// Weighted overlap of placement `i`, in thousandths.
    pub closed spec fn weighted_overlap(&self, i: int) -> int {
        weighted_row_sum(self.pair@[i]@, self.weights@[i]@, self.size() as int)
    }

    /// The table is square and symmetric, a placement never overlaps itself,
    /// and no weight is below one.
    pub closed spec fn wf(&self) -> bool {
        &&& self.weights@.len() == self.size()
        &&& forall|i: int| 0 <= i < self.size() ==> #[trigger] self.pair@[i]@.len() == self.size()
        &&& forall|i: int| 0 <= i < self.size() ==> #[trigger] self.weights@[i]@.len() == self.size()
        &&& forall|i: int, j: int|
            0 <= i < self.size() && 0 <= j < self.size() ==> #[trigger] self.depth(i, j) == self.depth(j, i)
        &&& forall|i: int, j: int|
            0 <= i < self.size() && 0 <= j < self.size() ==> #[trigger] self.weight(i, j) == self.weight(j, i)
        &&& forall|i: int| 0 <= i < self.size() ==> #[trigger] self.depth(i, i) == 0
        &&& forall|i: int, j: int|
            0 <= i < self.size() && 0 <= j < self.size() ==> #[trigger] self.weight(i, j) >= WEIGHT_ONE
    }

    /// A table for `n` placements, free of overlap, every weight one.
    pub fn new(n: usize) -> (r: Self)
        ensures
            r.wf(),
            r.size() == n,
            forall|i: int, j: int| 0 <= i < n && 0 <= j < n ==> #[trigger] r.depth(i, j) == 0,
            forall|i: int, j: int| 0 <= i < n && 0 <= j < n ==> #[trigger] r.weight(i, j) == WEIGHT_ONE,
    {
        let mut pair: Vec<Vec<u64>> = Vec::new();
        let mut weights: Vec<Vec<u32>> = Vec::new();
        let mut i: usize = 0;
        while i < n
            invariant
                i <= n,
                pair@.len() == i,
                weights@.len() == i,
                forall|a: int| 0 <= a < i ==> #[trigger] pair@[a]@ == Seq::new(n as nat, |j: int| 0u64),
                forall|a: int| 0 <= a < i ==> #[trigger] weights@[a]@ == Seq::new(n as nat, |j: int| WEIGHT_ONE),
            decreases n - i,
        {
            let mut prow: Vec<u64> = Vec::new();
            let mut wrow: Vec<u32> = Vec::new();
            let mut j: usize = 0;
            while j < n
                invariant
                    j <= n,
                    prow@ == Seq::new(j as nat, |k: int| 0u64),
                    wrow@ == Seq::new(j as nat, |k: int| WEIGHT_ONE),
                decreases n - j,
            {
                prow.push(0);
                wrow.push(WEIGHT_ONE);
                j = j + 1;
            }
            pair.push(prow);
            weights.push(wrow);
            i = i + 1;
        }
        CollisionTracker { pair, weights }
    }

    pub fn size_of(&self) -> (r: usize)
        ensures
            r == self.size(),
    {
        self.pair.len()
    }

    /// The overlap proxy recorded between `i` and `j`.
    pub fn pair_overlap(&self, i: usize, j: usize) -> (r: u64)
        requires
            self.wf(),
            i < self.size(),
            j < self.size(),
        ensures
            r == self.depth(i as int, j as int),
    {
        self.pair[i][j]
    }

    /// The weight of the pair `i`, `j`, in thousandths.
    pub fn pair_weight(&self, i: usize, j: usize) -> (r: u32)
        requires
            self.wf(),
            i < self.size(),
            j < self.size(),
        ensures
            r == self.weight(i as int, j as int),
    {
        self.weights[i][j]
    }

    /// Records what the collision engine reports for placement `i` at its new
    /// pose: `depths[j]` is its overlap with `j`. Both halves of each pair are
    /// written; pairs without `i` and all weights are kept.
    pub fn register(&mut self, i: usize, depths: &Vec<u64>)
        requires
            old(self).wf(),
            i < old(self).size(),
            depths@.len() == old(self).size(),
        ensures
            final(self).wf(),
            final(self).size() == old(self).size(),
            forall|j: int| 0 <= j < final(self).size() && j != i ==>
                #[trigger] final(self).depth(i as int, j) == depths@[j] && final(self).depth(j, i as int) == depths@[j],
            forall|a: int, b: int| 0 <= a < final(self).size() && 0 <= b < final(self).size() && a != i && b != i ==>
                #[trigger] final(self).depth(a, b) == old(self).depth(a, b),
            forall|a: int, b: int| 0 <= a < final(self).size() && 0 <= b < final(self).size() ==>
                #[trigger] final(self).weight(a, b) == old(self).weight(a, b),
    {
        let n = self.pair.len();
        let mut j: usize = 0;
        while j < n
            invariant
                n == self.size(),
                n == old(self).size(),
                i < n,
                depths@.len() == n,
                j <= n,
                self.weights == old(self).weights,
                forall|a: int| 0 <= a < n ==> #[trigger] self.pair@[a]@.len() == n,
                forall|b: int| 0 <= b < j && b != i ==>
                    #[trigger] self.depth(i as int, b) == depths@[b] && self.depth(b, i as int) == depths@[b],
                forall|a: int, b: int| 0 <= a < n && 0 <= b < n && !((a == i && j <= b) || (b == i && j <= a)) ==>
                    #[trigger] self.depth(a, b) == self.depth(b, a),
                forall|a: int, b: int| 0 <= a < n && 0 <= b < n && a != i && b != i ==>
                    #[trigger] self.depth(a, b) == old(self).depth(a, b),
                forall|a: int, b: int| 0 <= a < n && 0 <= b < n && ((a == i && j <= b) || (b == i && j <= a)) ==>
                    #[trigger] self.depth(a, b) == old(self).depth(a, b),
                forall|a: int| 0 <= a < n ==> #[trigger] self.depth(a, a) == 0,
                old(self).wf(),
            decreases n - j,
        {
            if j != i {
                let d = depths[j];
                let ghost prev = *self;
                self.pair[i][j] = d;
                self.pair[j][i] = d;
                assert forall|a: int, b: int| 0 <= a < n && 0 <= b < n implies #[trigger] self.depth(a, b) == (
                    if (a == i && b == j) || (a == j && b == i) { d } else { prev.depth(a, b) }) by {
                    if a != i && a != j {
                        assert(self.pair@[a] == prev.pair@[a]);
                    }
                }
            }
            j = j + 1;
        }
        assert forall|a: int, b: int| 0 <= a < n && 0 <= b < n implies #[trigger] self.weight(a, b) == old(self).weight(a, b)
            && self.weight(a, b) == self.weight(b, a) && self.weight(a, b) >= WEIGHT_ONE by {
            assert(old(self).weight(a, b) == old(self).weight(b, a));
        }
    }

    /// Total overlap of placement `i` with all others.
    pub fn overlap_of(&self, i: usize) -> (r: u128)
        requires
            self.wf(),
            i < self.size(),
        ensures
            r == self.overlap(i as int),
    {
        let row = &self.pair[i];
        let n = row.len();
        let mut sum: u128 = 0;
        let mut j: usize = 0;
        while j < n
            invariant
                n == row@.len(),
                j <= n,
                sum == row_sum(row@, j as int),
            decreases n - j,
        {
            proof {
                lemma_row_sum_bound(row@, j as int);
                assert((j + 1) * 0xFFFF_FFFF_FFFF_FFFFint <= 0xFFFF_FFFF_FFFF_FFFFint * 0xFFFF_FFFF_FFFF_FFFFint) by (nonlinear_arith)
                    requires j + 1 <= 0xFFFF_FFFF_FFFF_FFFFint;
            }
            sum = sum + row[j] as u128;
            j = j + 1;
        }
        sum
    }

    /// Weighted overlap of placement `i`, in thousandths, saturating at the
    /// largest `u128`.
    pub fn weighted_overlap_of(&self, i: usize) -> (r: u128)
        requires
            self.wf(),
            i < self.size(),
        ensures
            r == (if self.weighted_overlap(i as int) > u128::MAX { u128::MAX as int } else { self.weighted_overlap(i as int) }),
    {
        let row = &self.pair[i];
        let wrow = &self.weights[i];
        let n = row.len();
        let mut sum: u128 = 0;
        let mut j: usize = 0;
        while j < n
            invariant
                n == row@.len(),
                n == wrow@.len(),
                j <= n,
                sum == (if weighted_row_sum(row@, wrow@, j as int) > u128::MAX { u128::MAX as int }
                    else { weighted_row_sum(row@, wrow@, j as int) }),
            decreases n - j,
        {
            let d = row[j];
            let w = wrow[j];
            assert((d as int) * (w as int) <= 0xFFFF_FFFF_FFFF_FFFFint * 0xFFFF_FFFFint) by (nonlinear_arith)
                requires d <= 0xFFFF_FFFF_FFFF_FFFFint, w <= 0xFFFF_FFFFint;
            assert((d as int) * (w as int) >= 0) by (nonlinear_arith)
                requires d >= 0, w >= 0;
            proof {
                lemma_weighted_row_sum_nonneg(row@, wrow@, j as int);
            }
            sum = sum.saturating_add((d as u128) * (w as u128));
            j = j + 1;
        }
        sum
    }

    /// The placement with the largest overlap, the lowest index among equals;
    /// none when no placement overlaps.
    pub fn worst_overlapping(&self) -> (r: Option<usize>)
        requires
            self.wf(),
        ensures
            r is None <==> forall|j: int| 0 <= j < self.size() ==> #[trigger] self.overlap(j) == 0,
            r matches Some(k) ==> {
                &&& k < self.size()
                &&& self.overlap(k as int) > 0
                &&& forall|j: int| 0 <= j < self.size() ==> #[trigger] self.overlap(j) <= self.overlap(k as int)
                &&& forall|j: int| 0 <= j < k ==> #[trigger] self.overlap(j) < self.overlap(k as int)
            },
    {
        let n = self.pair.len();
        let mut best: Option<usize> = None;
        let mut best_val: u128 = 0;
        let mut i: usize = 0;
        while i < n
            invariant
                self.wf(),
                n == self.size(),
                i <= n,
                best is None ==> best_val == 0,
                best matches Some(k) ==> k < i && best_val == self.overlap(k as int) && best_val > 0,
                forall|j: int| 0 <= j < i ==> #[trigger] self.overlap(j) <= best_val,
                best matches Some(k) ==> forall|j: int| 0 <= j < k ==> #[trigger] self.overlap(j) < best_val,
            decreases n - i,
        {
            let v = self.overlap_of(i);
            if v > best_val {
                best = Some(i);
                best_val = v;
            }
            i = i + 1;
        }
        proof {
            if best is None {
                assert forall|j: int| 0 <= j < self.size() implies #[trigger] self.overlap(j) == 0 by {
                    lemma_row_sum_nonneg(self.pair@[j]@, n as int);
                }
            }
        }
        best
    }

    /// Whether `(a, b)` is the pair whose weight a stall raises: an
    /// overlapping pair `a < b` of the highest utility, the first in the order
    /// of indices among equals.
    pub open spec fn is_top_pair(&self, a: int, b: int) -> bool {
        &&& 0 <= a < b < self.size()
        &&& self.depth(a, b) > 0
        &&& forall|i: int, j: int| 0 <= i < j < self.size() && self.depth(i, j) > 0 ==>
            !#[trigger] utility_exceeds(self.depth(i, j) as int, self.weight(i, j) as int, self.depth(a, b) as int, self.weight(a, b) as int)
        &&& forall|i: int, j: int| 0 <= i < j < self.size() && self.depth(i, j) > 0 && pair_before(i, j, a, b) ==>
            #[trigger] utility_exceeds(self.depth(a, b) as int, self.weight(a, b) as int, self.depth(i, j) as int, self.weight(i, j) as int)
    }

    /// Whether some pair overlaps.
    pub open spec fn has_overlap(&self) -> bool {
        exists|i: int, j: int| 0 <= i < j < self.size() && #[trigger] self.depth(i, j) > 0
    }

    /// The overlapping pair of the highest utility, the first among equals;
    /// none when no pair overlaps.
    pub fn top_pair(&self) -> (r: Option<(usize, usize)>)
        requires
            self.wf(),
        ensures
            r is None <==> !self.has_overlap(),
            r matches Some(p) ==> self.is_top_pair(p.0 as int, p.1 as int),
    {
        let n = self.pair.len();
        let mut best: Option<(usize, usize)> = None;
        let mut i: usize = 0;
        while i < n
            invariant
                self.wf(),
                n == self.size(),
                i <= n,
                best is None ==> forall|a: int, b: int| 0 <= a < i && a < b < n ==> #[trigger] self.depth(a, b) == 0,
                best matches Some(p) ==> {
                    &&& p.0 < p.1 < n && p.0 < i
                    &&& self.depth(p.0 as int, p.1 as int) > 0
                    &&& forall|a: int, b: int| 0 <= a < i && a < b < n && self.depth(a, b) > 0 ==>
                        !#[trigger] utility_exceeds(self.depth(a, b) as int, self.weight(a, b) as int, self.depth(p.0 as int, p.1 as int) as int, self.weight(p.0 as int, p.1 as int) as int)
                    &&& forall|a: int, b: int| 0 <= a < i && a < b < n && self.depth(a, b) > 0 && pair_before(a, b, p.0 as int, p.1 as int) ==>
                        #[trigger] utility_exceeds(self.depth(p.0 as int, p.1 as int) as int, self.weight(p.0 as int, p.1 as int) as int, self.depth(a, b) as int, self.weight(a, b) as int)
                },
            decreases n - i,
        {
            let mut j: usize = i + 1;
            while j < n
                invariant
                    self.wf(),
                    n == self.size(),
                    i < n,
                    i + 1 <= j <= n,
                    best is None ==> forall|a: int, b: int| 0 <= a < n && a < b < n && pair_before(a, b, i as int, j as int) ==> #[trigger] self.depth(a, b) == 0,
                    best matches Some(p) ==> {
                        &&& p.0 < p.1 < n && pair_before(p.0 as int, p.1 as int, i as int, j as int)
                        &&& self.depth(p.0 as int, p.1 as int) > 0
                        &&& forall|a: int, b: int| 0 <= a < n && a < b < n && pair_before(a, b, i as int, j as int) && self.depth(a, b) > 0 ==>
                            !#[trigger] utility_exceeds(self.depth(a, b) as int, self.weight(a, b) as int, self.depth(p.0 as int, p.1 as int) as int, self.weight(p.0 as int, p.1 as int) as int)
                        &&& forall|a: int, b: int| 0 <= a < n && a < b < n && pair_before(a, b, i as int, j as int) && self.depth(a, b) > 0 && pair_before(a, b, p.0 as int, p.1 as int) ==>
                            #[trigger] utility_exceeds(self.depth(p.0 as int, p.1 as int) as int, self.weight(p.0 as int, p.1 as int) as int, self.depth(a, b) as int, self.weight(a, b) as int)
                    },
                decreases n - j,
            {
                let d = self.pair[i][j];
                let w = self.weights[i][j];
                if d > 0 {
                    let take = match best {
                        None => true,
                        Some((bi, bj)) => {
                            let bd = self.pair[bi][bj];
                            let bw = self.weights[bi][bj];
                            assert((d as int) * (1000 + bw as int) <= 0xFFFF_FFFF_FFFF_FFFFint * 0x1_0000_03E8int) by (nonlinear_arith)
                                requires d <= 0xFFFF_FFFF_FFFF_FFFFint, bw <= 0xFFFF_FFFFint;
                            assert((bd as int) * (1000 + w as int) <= 0xFFFF_FFFF_FFFF_FFFFint * 0x1_0000_03E8int) by (nonlinear_arith)
                                requires bd <= 0xFFFF_FFFF_FFFF_FFFFint, w <= 0xFFFF_FFFFint;
                            (d as u128) * (1000 + bw as u128) > (bd as u128) * (1000 + w as u128)
                        },
                    };
                    if take {
                        proof {
                            if let Some(p) = best {
                                assert forall|a: int, b: int| 0 <= a < n && a < b < n && pair_before(a, b, i as int, j as int) && self.depth(a, b) > 0 implies
                                    #[trigger] utility_exceeds(d as int, w as int, self.depth(a, b) as int, self.weight(a, b) as int) by {
                                    lemma_utility_transitive(d as int, w as int, self.depth(p.0 as int, p.1 as int) as int, self.weight(p.0 as int, p.1 as int) as int,
                                        self.depth(a, b) as int, self.weight(a, b) as int);
                                }
                            }
                        }
                        best = Some((i, j));
                    }
                }
                proof {
                    if let Some(p) = best {
                        assert forall|a: int, b: int| 0 <= a < n && a < b < n && pair_before(a, b, i as int, j + 1) && self.depth(a, b) > 0 implies
                            !#[trigger] utility_exceeds(self.depth(a, b) as int, self.weight(a, b) as int, self.depth(p.0 as int, p.1 as int) as int, self.weight(p.0 as int, p.1 as int) as int) by {
                            if a == i && b == j {
                                if p.0 == i && p.1 == j {
                                    assert(!utility_exceeds(d as int, w as int, d as int, w as int));
                                } else {
                                    assert(!utility_exceeds(d as int, w as int, self.depth(p.0 as int, p.1 as int) as int, self.weight(p.0 as int, p.1 as int) as int));
                                }
                            } else if p.0 == i && p.1 == j {
                                assert(utility_exceeds(d as int, w as int, self.depth(a, b) as int, self.weight(a, b) as int));
                            }
                        }
                    }
                }
                j = j + 1;
            }
            i = i + 1;
        }
        proof {
            if best is None {
                assert forall|a: int, b: int| 0 <= a < b < self.size() implies #[trigger] self.depth(a, b) == 0 by {
                    assert(pair_before(a, b, n as int, 0));
                }
            }
        }
        best
    }

    /// Raises the weight of the pair `i`, `j` by `factor` thousandths.
    pub fn increase_weight(&mut self, i: usize, j: usize, factor: u32)
        requires
            old(self).wf(),
            i < old(self).size(),
            j < old(self).size(),
            GLS_WEIGHT_MIN_INC_RATIO <= factor <= GLS_WEIGHT_MAX_INC_RATIO,
        ensures
            final(self).wf(),
            final(self).size() == old(self).size(),
            final(self).weight(i as int, j as int) == raised_weight(old(self).weight(i as int, j as int) as int, factor as int),
            final(self).weight(j as int, i as int) == final(self).weight(i as int, j as int),
            forall|a: int, b: int| 0 <= a < final(self).size() && 0 <= b < final(self).size()
                && !(a == i && b == j) && !(a == j && b == i) ==>
                #[trigger] final(self).weight(a, b) == old(self).weight(a, b),
            forall|a: int, b: int| 0 <= a < final(self).size() && 0 <= b < final(self).size() ==>
                #[trigger] final(self).depth(a, b) == old(self).depth(a, b),
    {
        let w = self.weights[i][j];
        assert((w as int) * (factor as int) <= 0xFFFF_FFFFint * 2000) by (nonlinear_arith)
            requires w <= 0xFFFF_FFFFint, factor <= 2000;
        assert((w as int) * (factor as int) >= (w as int) * 1000) by (nonlinear_arith)
            requires factor >= 1000, w >= 0;
        let raised = (w as u64) * (factor as u64) / 1000;
        assert(raised >= w) by (nonlinear_arith)
            requires raised == (w as int) * (factor as int) / 1000, factor >= 1000, w >= 0;
        let nw: u32 = if raised > u32::MAX as u64 { u32::MAX } else { raised as u32 };
        let ghost prev = *self;
        self.weights[i][j] = nw;
        self.weights[j][i] = nw;
        assert forall|a: int, b: int| 0 <= a < self.size() && 0 <= b < self.size() implies #[trigger] self.weight(a, b) == (
            if (a == i && b == j) || (a == j && b == i) { nw } else { prev.weight(a, b) }) by {
            if a != i && a != j {
                assert(self.weights@[a] == prev.weights@[a]);
            }
        }
        assert forall|a: int, b: int| 0 <= a < self.size() && 0 <= b < self.size() implies
            #[trigger] self.weight(a, b) == self.weight(b, a) && self.weight(a, b) >= WEIGHT_ONE by {
            assert(prev.weight(a, b) == prev.weight(b, a));
            assert(prev.weight(a, b) >= WEIGHT_ONE);
        }
        assert forall|a: int| 0 <= a < self.size() implies #[trigger] self.weights@[a]@.len() == self.size() by {
            assert(prev.weights@[a]@.len() == self.size());
        }
        proof {
            lemma_same_depths(prev, *self);
        }
    }

    /// On a stall: raises the weight of the top pair by a factor drawn
    /// uniformly from the allowed range, and returns that pair; returns none,
    /// with nothing changed, when no pair overlaps.
    pub fn update_weights(&mut self, rng: &mut Xoshiro256PlusPlus) -> (r: Option<(usize, usize)>)
        requires
            old(self).wf(),
        ensures
            final(self).wf(),
            final(self).size() == old(self).size(),
            r is None <==> !old(self).has_overlap(),
            forall|a: int, b: int| 0 <= a < final(self).size() && 0 <= b < final(self).size() ==>
                #[trigger] final(self).depth(a, b) == old(self).depth(a, b),
            r is None ==> forall|a: int, b: int| 0 <= a < final(self).size() && 0 <= b < final(self).size() ==>
                #[trigger] final(self).weight(a, b) == old(self).weight(a, b),
            r matches Some(p) ==> {
                &&& old(self).is_top_pair(p.0 as int, p.1 as int)
                &&& exists|f: int| GLS_WEIGHT_MIN_INC_RATIO <= f <= GLS_WEIGHT_MAX_INC_RATIO
                    && #[trigger] raised_weight(old(self).weight(p.0 as int, p.1 as int) as int, f) == final(self).weight(p.0 as int, p.1 as int)
                &&& final(self).weight(p.1 as int, p.0 as int) == final(self).weight(p.0 as int, p.1 as int)
                &&& forall|a: int, b: int| 0 <= a < final(self).size() && 0 <= b < final(self).size()
                    && !(a == p.0 && b == p.1) && !(a == p.1 && b == p.0) ==>
                    #[trigger] final(self).weight(a, b) == old(self).weight(a, b)
            },
    {
        let top = self.top_pair();
        match top {
            None => None,
            Some((a, b)) => {
                let k = draw_below(rng, (GLS_WEIGHT_MAX_INC_RATIO - GLS_WEIGHT_MIN_INC_RATIO + 1) as usize);
                let factor = GLS_WEIGHT_MIN_INC_RATIO + k as u32;
                self.increase_weight(a, b, factor);
                Some((a, b))
            },
        }
    }

    /// Lets every weight decay one step, never below one.
    pub fn decay_weights(&mut self)
        requires
            old(self).wf(),
        ensures
            final(self).wf(),
            final(self).size() == old(self).size(),
            forall|a: int, b: int| 0 <= a < final(self).size() && 0 <= b < final(self).size() ==>
                #[trigger] final(self).weight(a, b) == decayed_weight(old(self).weight(a, b) as int),
            forall|a: int, b: int| 0 <= a < final(self).size() && 0 <= b < final(self).size() ==>
                #[trigger] final(self).depth(a, b) == old(self).depth(a, b),
    {
        let n = self.weights.len();
        let mut i: usize = 0;
        while i < n
            invariant
                n == self.size(),
                n == old(self).size(),
                i <= n,
                old(self).wf(),
                self.pair == old(self).pair,
                self.weights@.len() == n,
                forall|a: int| 0 <= a < n ==> #[trigger] self.weights@[a]@.len() == n,
                forall|a: int, b: int| 0 <= a < i && 0 <= b < n ==>
                    #[trigger] self.weight(a, b) == decayed_weight(old(self).weight(a, b) as int),
                forall|a: int, b: int| i <= a < n && 0 <= b < n ==>
                    #[trigger] self.weight(a, b) == old(self).weight(a, b),
            decreases n - i,
        {
            let mut j: usize = 0;
            while j < n
                invariant
                    n == self.size(),
                    n == old(self).size(),
                    i < n,
                    j <= n,
                    old(self).wf(),
                    self.pair == old(self).pair,
                    self.weights@.len() == n,
                    forall|a: int| 0 <= a < n ==> #[trigger] self.weights@[a]@.len() == n,
                    forall|a: int, b: int| 0 <= a < i && 0 <= b < n ==>
                        #[trigger] self.weight(a, b) == decayed_weight(old(self).weight(a, b) as int),
                    forall|b: int| 0 <= b < j ==>
                        #[trigger] self.weight(i as int, b) == decayed_weight(old(self).weight(i as int, b) as int),
                    forall|b: int| j <= b < n ==>
                        #[trigger] self.weight(i as int, b) == old(self).weight(i as int, b),
                    forall|a: int, b: int| i < a < n && 0 <= b < n ==>
                        #[trigger] self.weight(a, b) == old(self).weight(a, b),
                decreases n - j,
            {
                let w = self.weights[i][j];
                assert(w == self.weight(i as int, j as int));
                let d = (w as u64) * (GLS_WEIGHT_DECAY as u64) / 100;
                assert(d <= w) by (nonlinear_arith)
                    requires d == (w as int) * 95 / 100, w >= 0;
                let nw: u32 = if d < WEIGHT_ONE as u64 { WEIGHT_ONE } else { d as u32 };
                let ghost prev = *self;
                self.weights[i][j] = nw;
                assert forall|a: int, b: int| 0 <= a < n && 0 <= b < n implies #[trigger] self.weight(a, b) == (
                    if a == i && b == j { nw } else { prev.weight(a, b) }) by {
                    if a != i {
                        assert(self.weights@[a] == prev.weights@[a]);
                    }
                }
                assert(w == old(self).weight(i as int, j as int));
                assert(nw == decayed_weight(w as int));
                j = j + 1;
            }
            i = i + 1;
        }
        assert forall|a: int, b: int| 0 <= a < n && 0 <= b < n implies
            #[trigger] self.weight(a, b) == self.weight(b, a) && self.weight(a, b) >= WEIGHT_ONE by {
            assert(old(self).weight(a, b) == old(self).weight(b, a));
            assert(self.weight(b, a) == decayed_weight(old(self).weight(b, a) as int));
        }
        proof {
            lemma_same_depths(*old(self), *self);
        }
    }

    /// Forgets placement `i`: every pair with it is set to no overlap.
    pub fn clear(&mut self, i: usize)
        requires
            old(self).wf(),
            i < old(self).size(),
        ensures
            final(self).wf(),
            final(self).size() == old(self).size(),
            forall|j: int| 0 <= j < final(self).size() ==>
                #[trigger] final(self).depth(i as int, j) == 0 && final(self).depth(j, i as int) == 0,
            forall|a: int, b: int| 0 <= a < final(self).size() && 0 <= b < final(self).size() && a != i && b != i ==>
                #[trigger] final(self).depth(a, b) == old(self).depth(a, b),
            forall|a: int, b: int| 0 <= a < final(self).size() && 0 <= b < final(self).size() ==>
                #[trigger] final(self).weight(a, b) == old(self).weight(a, b),
    {
        let n = self.pair.len();
        let mut zeros: Vec<u64> = Vec::new();
        let mut j: usize = 0;
        while j < n
            invariant
                j <= n,
                zeros@ == Seq::new(j as nat, |k: int| 0u64),
            decreases n - j,
        {
            zeros.push(0);
            j = j + 1;
        }
        self.register(i, &zeros);
    }
}

/// A row sum is at most its length times the largest `u64`.
proof fn lemma_row_sum_bound(d: Seq<u64>, k: int)
    requires
        0 <= k <= d.len(),
    ensures
        0 <= row_sum(d, k) <= k * 0xFFFF_FFFF_FFFF_FFFF,
    decreases k,
{
    if k > 0 {
        lemma_row_sum_bound(d, k - 1);
    }
}

/// Row sums are never negative.
proof fn lemma_row_sum_nonneg(d: Seq<u64>, k: int)
    requires
        0 <= k <= d.len(),
    ensures
        0 <= row_sum(d, k),
    decreases k,
{
    if k > 0 {
        lemma_row_sum_nonneg(d, k - 1);
    }
}

/// Weighted row sums only grow.
proof fn lemma_weighted_row_sum_nonneg(d: Seq<u64>, w: Seq<u32>, k: int)
    requires
        0 <= k <= d.len(),
        k <= w.len(),
    ensures
        0 <= weighted_row_sum(d, w, k),
    decreases k,
{
    if k > 0 {
        lemma_weighted_row_sum_nonneg(d, w, k - 1);
        assert(d[k - 1] * w[k - 1] >= 0) by (nonlinear_arith)
            requires d[k - 1] >= 0, w[k - 1] >= 0;
    }
}

/// Two tables with the same overlap entries agree on every depth, so the
/// depth clauses of `wf` carry over between them.
proof fn lemma_same_depths(x: CollisionTracker, y: CollisionTracker)
    requires
        x.wf(),
        y.pair == x.pair,
    ensures
        forall|a: int, b: int| 0 <= a < y.size() && 0 <= b < y.size() ==> #[trigger] y.depth(a, b) == x.depth(a, b),
        forall|a: int, b: int| 0 <= a < y.size() && 0 <= b < y.size() ==> #[trigger] y.depth(a, b) == y.depth(b, a),
        forall|a: int| 0 <= a < y.size() ==> #[trigger] y.depth(a, a) == 0,
        forall|a: int| 0 <= a < y.size() ==> #[trigger] y.pair@[a]@.len() == y.size(),
{
    assert forall|a: int, b: int| 0 <= a < y.size() && 0 <= b < y.size() implies #[trigger] y.depth(a, b) == y.depth(b, a) by {
        assert(x.depth(a, b) == x.depth(b, a));
    }
    assert forall|a: int| 0 <= a < y.size() implies #[trigger] y.depth(a, a) == 0 by {
        assert(x.depth(a, a) == 0);
    }
    assert forall|a: int| 0 <= a < y.size() implies #[trigger] y.pair@[a]@.len() == y.size() by {
        assert(x.pair@[a]@.len() == x.size());
    }
}

/// The recorded overlap is symmetric: what is booked for `i` against `j` is
/// what is booked for `j` against `i`; and no placement overlaps itself.
pub proof fn lemma_overlap_symmetric(t: &CollisionTracker)
    requires
        t.wf(),
    ensures
        forall|i: int, j: int| 0 <= i < t.size() && 0 <= j < t.size() ==> #[trigger] t.depth(i, j) == t.depth(j, i),
        forall|i: int| 0 <= i < t.size() ==> #[trigger] t.depth(i, i) == 0,
{
}

/// The overlap of a placement is the sum of the depths booked for it.
pub proof fn lemma_overlap_is_row_sum(t: &CollisionTracker, i: int)
    requires
        t.wf(),
        0 <= i < t.size(),
    ensures
        t.overlap(i) == row_sum(Seq::new(t.size(), |j: int| t.depth(i, j)), t.size() as int),
{
    assert(t.pair@[i]@ == Seq::new(t.size(), |j: int| t.depth(i, j)));
}

} // verus!
