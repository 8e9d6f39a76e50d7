//! Items, instances and the strip-packing problem, with lengths as integers in
//! the caller's fixed unit.

use vstd::prelude::*;
use crate::rotation::RotationRange;

verus! {

/// An item to be packed, as far as the decisions of the solver read it.
pub struct Item {
    pub id: usize,
    /// Diameter of the item's collision shape.
    pub diameter: u64,
    /// Smallest extent of the item's shape; step sizes are measured in it.
    pub min_dim: u64,
    pub allowed_rotation: RotationRange,
}

/// The items to pack, each with its demanded quantity.
pub struct SPInstance {
    pub items: Vec<(Item, usize)>,
    pub strip_height: u64,
}

/// A strip-packing problem: an instance and the current width of the strip.
pub struct SPProblem {
    pub instance: SPInstance,
    pub strip_width: u64,
}

/// Sum of `diameter * quantity` over the listed items.
pub open spec fn total_diameter(items: Seq<(Item, usize)>) -> int
    decreases items.len(),
{
    if items.len() == 0 {
        0
    } else {
        total_diameter(items.drop_last()) + items.last().0.diameter * items.last().1
    }
}

/// A prefix never weighs more than the whole.
pub proof fn lemma_total_diameter_prefix(items: Seq<(Item, usize)>, i: int)
    requires
        0 <= i <= items.len(),
    ensures
        0 <= total_diameter(items.take(i)) <= total_diameter(items),
    decreases items.len(),
{
    if items.len() > 0 {
        if i == items.len() {
            assert(items.take(i) == items);
            lemma_total_diameter_prefix(items.drop_last(), items.len() - 1);
            assert(items.drop_last().take(items.len() - 1) == items.drop_last());
        } else {
            lemma_total_diameter_prefix(items.drop_last(), i);
            assert(items.drop_last().take(i) == items.take(i));
        }
        assert(items.last().0.diameter * items.last().1 >= 0) by (nonlinear_arith)
            requires items.last().0.diameter >= 0, items.last().1 >= 0;
    }
}

impl SPInstance {
    /// Number of demanded copies of the item at `index`.
    pub fn item_qty(&self, index: usize) -> (r: usize)
        requires
            index < self.items@.len(),
        ensures
            r == self.items@[index as int].1,
    {
        self.items[index].1
    }

    /// Sets the demand of the first item; an instance without items is refused.
    pub fn set_first_demand(&mut self, qty: usize) -> (r: Result<(), ProblemError>)
        ensures
            r is Err <==> old(self).items@.len() == 0,
            r is Err ==> r->Err_0 == ProblemError::NoItems,
            final(self).strip_height == old(self).strip_height,
            final(self).items@.len() == old(self).items@.len(),
            r is Ok ==> final(self).items@[0].1 == qty,
            forall|k: int| 0 < k < old(self).items@.len() ==> final(self).items@[k] == old(self).items@[k],
            r is Ok ==> final(self).items@[0].0 == old(self).items@[0].0,
    {
        if self.items.len() == 0 {
            return Err(ProblemError::NoItems);
        }
        self.items[0].1 = qty;
        Ok(())
    }
}

impl SPProblem {
    pub fn strip_width(&self) -> (r: u64)
        ensures
            r == self.strip_width,
    {
        self.strip_width
    }
}

/// What is wrong with a problem or instance.
#[derive(Clone, Copy, Debug, PartialEq, Eq, Structural)]
pub enum ProblemError {
    /// The instance lists no items.
    NoItems,
}

} // verus!
