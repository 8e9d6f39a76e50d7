//! Sanity checks on a problem.

use vstd::prelude::*;
use crate::problem::{SPProblem, total_diameter, lemma_total_diameter_prefix};

verus! {

/// Whether the strip is narrower than twice the summed diameters of all
/// demanded items: a strip at least that wide means the layout has drifted.
pub fn strip_width_is_in_check(prob: &SPProblem) -> (r: bool)
    ensures
        r == (prob.strip_width < 2 * total_diameter(prob.instance.items@)),
{
    let items = &prob.instance.items;
    let w = prob.strip_width() as u128;
    let mut sum: u128 = 0;
    let mut i: usize = 0;
    while i < items.len()
        invariant
            i <= items@.len(),
            w == prob.strip_width,
            items == &prob.instance.items,
            sum == total_diameter(items@.take(i as int)),
            2 * sum <= w,
        decreases items@.len() - i,
    {
        let d = items[i].0.diameter;
        let q = items[i].1;
        assert((d as u128) * (q as u128) <= 0xFFFF_FFFF_FFFF_FFFFu128 * 0xFFFF_FFFF_FFFF_FFFFu128) by (nonlinear_arith)
            requires d <= 0xFFFF_FFFF_FFFF_FFFFu64, q <= 0xFFFF_FFFF_FFFF_FFFFu64;
        let term = (d as u128) * (q as u128);
        assert(items@.take(i + 1).drop_last() == items@.take(i as int));
        proof {
            lemma_total_diameter_prefix(items@, i + 1);
        }
        if term > w {
            return true;
        }
        sum = sum + term;
        i = i + 1;
        if w < 2 * sum {
            return true;
        }
    }
    assert(items@.take(i as int) == items@);
    w < 2 * sum
}

} // verus!
