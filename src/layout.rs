//! The placement state: which item stands where, what the collision engine
//! reported for it, and the overlap table kept in step with both.

use vstd::prelude::*;
use crate::compress::Container;
use crate::descent::Pose;
use crate::problem::SPInstance;
use crate::rotation::admits;
use crate::tracker::{CollisionTracker, lemma_overlap_symmetric, lemma_overlap_is_row_sum, row_sum};

verus! {

/// An item of the instance, by index, at a pose.
#[derive(Clone, Copy, Debug, PartialEq, Eq, Structural)]
pub struct Placement {
    pub item: usize,
    pub pose: Pose,
}

/// Why a change to the layout was refused.
#[derive(Clone, Copy, Debug, PartialEq, Eq, Structural)]
pub enum LayoutError {
    /// Every placement id has been issued.
    Full,
    /// The instance has no item of that index.
    UnknownItem,
    /// The item does not allow that rotation.
    InadmissibleRotation,
    /// No item is placed under that id.
    NotPlaced,
}

/// Placements are numbered in the order they were issued; a removed id is
/// not issued again.
pub struct Layout {
    container: Container,
    placements: Vec<Option<Placement>>,
    oob: Vec<u64>,
    tracker: CollisionTracker,
    next_id: usize,
}

impl Layout {
    pub closed spec fn capacity(&self) -> nat {
        self.placements@.len()
    }

    pub closed spec fn placement(&self, id: int) -> Option<Placement> {
        self.placements@[id]
    }

    /// How far placement `id` leaves the container, as last reported.
    pub closed spec fn out_of_bounds(&self, id: int) -> u64 {
        self.oob@[id]
    }

    /// Overlap proxy recorded between placements `a` and `b`.
    pub closed spec fn depth(&self, a: int, b: int) -> u64 {
        self.tracker.depth(a, b)
    }

    /// Total overlap recorded for placement `id`.
    pub closed spec fn overlap(&self, id: int) -> int {
        self.tracker.overlap(id)
    }

    pub closed spec fn spec_container(&self) -> Container {
        self.container
    }

    /// The id the next placement gets.
    pub closed spec fn spec_next_id(&self) -> nat {
        self.next_id as nat
    }

    /// Every placement is inside the container and overlaps nothing.
    pub open spec fn spec_is_feasible(&self) -> bool {
        forall|id: int| 0 <= id < self.capacity() ==> #[trigger] self.out_of_bounds(id) == 0 && self.overlap(id) == 0
    }

    /// What the engine reported against `j`, as it is booked: nothing against
    /// an id under which no item stands.
    pub open spec fn booked(&self, depths: Seq<u64>, j: int) -> u64 {
        if self.placement(j) is Some { depths[j] } else { 0 }
    }

    /// The table and the placements agree: only placed items overlap or
    /// stand outside, every placed item is an item of `inst` at a rotation
    /// it allows, and no id beyond the next one is in use.
    pub closed spec fn wf(&self, inst: SPInstance) -> bool {
        &&& self.tracker.wf()
        &&& self.tracker.size() == self.placements@.len()
        &&& self.oob@.len() == self.placements@.len()
        &&& self.next_id <= self.placements@.len()
        &&& forall|a: int| self.next_id <= a < self.placements@.len() ==> #[trigger] self.placements@[a] is None
        &&& forall|a: int| 0 <= a < self.placements@.len() && self.placements@[a] is None ==> #[trigger] self.oob@[a] == 0
        &&& forall|a: int, b: int| 0 <= a < self.placements@.len() && 0 <= b < self.placements@.len()
            && (self.placements@[a] is None || self.placements@[b] is None) ==> #[trigger] self.tracker.depth(a, b) == 0
        &&& forall|a: int| 0 <= a < self.placements@.len() && self.placements@[a] is Some ==> {
            let p = #[trigger] self.placements@[a]->Some_0;
            &&& p.item < inst.items@.len()
            &&& inst.items@[p.item as int].0.allowed_rotation.admits(p.pose.rotation)
        }
    }

    /// An empty layout in `container` with room for `capacity` placements.
    pub fn new(container: Container, capacity: usize) -> (r: Self)
        ensures
            forall|inst: SPInstance| #[trigger] r.wf(inst),
            r.capacity() == capacity,
            r.spec_container() == container,
            r.spec_next_id() == 0,
            forall|id: int| 0 <= id < capacity ==> #[trigger] r.placement(id) is None,
    {
        let mut placements: Vec<Option<Placement>> = Vec::new();
        let mut oob: Vec<u64> = Vec::new();
        let mut i: usize = 0;
        while i < capacity
            invariant
                i <= capacity,
                placements@.len() == i,
                oob@.len() == i,
                forall|a: int| 0 <= a < i ==> #[trigger] placements@[a] is None,
                forall|a: int| 0 <= a < i ==> #[trigger] oob@[a] == 0,
            decreases capacity - i,
        {
            placements.push(None);
            oob.push(0);
            i = i + 1;
        }
        let tracker = CollisionTracker::new(capacity);
        Layout { container, placements, oob, tracker, next_id: 0 }
    }

    pub fn container(&self) -> (r: Container)
        ensures
            r == self.spec_container(),
    {
        self.container
    }

    pub fn capacity_of(&self) -> (r: usize)
        ensures
            r == self.capacity(),
    {
        self.placements.len()
    }

    pub fn placement_of(&self, id: usize) -> (r: Option<Placement>)
        requires
            id < self.capacity(),
        ensures
            r == self.placement(id as int),
    {
        self.placements[id]
    }

    /// Places item `item` of `inst` at `pose` under the next id, booking the
    /// engine's report for that pose: `depths[j]` against placement `j`,
    /// `oob` outside the container. Refused for an unknown item, a rotation
    /// the item does not allow, or when every id has been issued.
    pub fn place(&mut self, inst: &SPInstance, item: usize, pose: Pose, depths: &Vec<u64>, oob: u64) -> (r: Result<usize, LayoutError>)
        requires
            old(self).wf(*inst),
            depths@.len() == old(self).capacity(),
        ensures
            final(self).wf(*inst),
            final(self).capacity() == old(self).capacity(),
            final(self).spec_container() == old(self).spec_container(),
            r == (if item >= inst.items@.len() {
                Err(LayoutError::UnknownItem)
            } else if !inst.items@[item as int].0.allowed_rotation.admits(pose.rotation) {
                Err(LayoutError::InadmissibleRotation)
            } else if old(self).spec_next_id() == old(self).capacity() {
                Err(LayoutError::Full)
            } else {
                Ok::<usize, LayoutError>(old(self).spec_next_id() as usize)
            }),
            r is Err ==> *final(self) == *old(self),
            r matches Ok(id) ==> {
                &&& final(self).spec_next_id() == id + 1
                &&& final(self).placement(id as int) == Some(Placement { item, pose })
                &&& final(self).out_of_bounds(id as int) == oob
                &&& forall|j: int| 0 <= j < final(self).capacity() && j != id ==>
                    #[trigger] final(self).depth(id as int, j) == old(self).booked(depths@, j)
                        && final(self).depth(j, id as int) == old(self).booked(depths@, j)
                &&& forall|a: int, b: int| 0 <= a < final(self).capacity() && 0 <= b < final(self).capacity() && a != id && b != id ==>
                    #[trigger] final(self).depth(a, b) == old(self).depth(a, b)
                &&& forall|j: int| 0 <= j < final(self).capacity() && j != id ==>
                    #[trigger] final(self).placement(j) == old(self).placement(j)
                        && final(self).out_of_bounds(j) == old(self).out_of_bounds(j)
            },
    {
        if item >= inst.items.len() {
            return Err(LayoutError::UnknownItem);
        }
        if !admits(&inst.items[item].0.allowed_rotation, pose.rotation) {
            return Err(LayoutError::InadmissibleRotation);
        }
        if self.next_id == self.placements.len() {
            return Err(LayoutError::Full);
        }
        let id = self.next_id;
        let booked = self.booked_depths(id, depths);
        let ghost prev = *self;
        self.tracker.register(id, &booked);
        self.placements.set(id, Some(Placement { item, pose }));
        self.oob.set(id, oob);
        self.next_id = id + 1;
        proof {
            lemma_overlap_symmetric(&self.tracker);
            assert(prev.placements@[id as int] is None);
            assert forall|a: int, b: int| 0 <= a < self.placements@.len() && 0 <= b < self.placements@.len()
                && (self.placements@[a] is None || self.placements@[b] is None) implies #[trigger] self.tracker.depth(a, b) == 0 by {
                if a != id && b != id {
                    assert(prev.tracker.depth(a, b) == 0);
                } else if a == id {
                    assert(booked@[b] == prev.booked(depths@, b));
                } else {
                    assert(booked@[a] == prev.booked(depths@, a));
                }
            }
            assert forall|j: int| 0 <= j < self.capacity() && j != id implies
                #[trigger] self.depth(id as int, j) == prev.booked(depths@, j) && self.depth(j, id as int) == prev.booked(depths@, j) by {
                assert(booked@[j] == prev.booked(depths@, j));
            }
        }
        Ok(id)
    }

    /// Moves placement `id` to `pose`, booking the engine's report for it.
    /// Refused, with nothing changed, when nothing is placed under `id` or
    /// its item does not allow the rotation.
    pub fn move_item(&mut self, inst: &SPInstance, id: usize, pose: Pose, depths: &Vec<u64>, oob: u64) -> (r: Result<(), LayoutError>)
        requires
            old(self).wf(*inst),
            depths@.len() == old(self).capacity(),
        ensures
            final(self).wf(*inst),
            final(self).capacity() == old(self).capacity(),
            final(self).spec_container() == old(self).spec_container(),
            final(self).spec_next_id() == old(self).spec_next_id(),
            r == (if id >= old(self).capacity() || old(self).placement(id as int) is None {
                Err(LayoutError::NotPlaced)
            } else if !inst.items@[old(self).placement(id as int)->Some_0.item as int].0.allowed_rotation.admits(pose.rotation) {
                Err(LayoutError::InadmissibleRotation)
            } else {
                Ok::<(), LayoutError>(())
            }),
            r is Err ==> *final(self) == *old(self),
            r is Ok ==> {
                &&& final(self).placement(id as int) == Some(Placement { item: old(self).placement(id as int)->Some_0.item, pose })
                &&& final(self).out_of_bounds(id as int) == oob
                &&& forall|j: int| 0 <= j < final(self).capacity() && j != id ==>
                    #[trigger] final(self).depth(id as int, j) == old(self).booked(depths@, j)
                        && final(self).depth(j, id as int) == old(self).booked(depths@, j)
                &&& forall|a: int, b: int| 0 <= a < final(self).capacity() && 0 <= b < final(self).capacity() && a != id && b != id ==>
                    #[trigger] final(self).depth(a, b) == old(self).depth(a, b)
                &&& forall|j: int| 0 <= j < final(self).capacity() && j != id ==>
                    #[trigger] final(self).placement(j) == old(self).placement(j)
                        && final(self).out_of_bounds(j) == old(self).out_of_bounds(j)
            },
    {
        if id >= self.placements.len() {
            return Err(LayoutError::NotPlaced);
        }
        let item = match self.placements[id] {
            None => {
                return Err(LayoutError::NotPlaced);
            },
            Some(p) => p.item,
        };
        if !admits(&inst.items[item].0.allowed_rotation, pose.rotation) {
            return Err(LayoutError::InadmissibleRotation);
        }
        let booked = self.booked_depths(id, depths);
        let ghost prev = *self;
        self.tracker.register(id, &booked);
        self.placements.set(id, Some(Placement { item, pose }));
        self.oob.set(id, oob);
        proof {
            lemma_overlap_symmetric(&self.tracker);
            assert forall|a: int, b: int| 0 <= a < self.placements@.len() && 0 <= b < self.placements@.len()
                && (self.placements@[a] is None || self.placements@[b] is None) implies #[trigger] self.tracker.depth(a, b) == 0 by {
                if a != id && b != id {
                    assert(prev.tracker.depth(a, b) == 0);
                } else if a == id {
                    assert(booked@[b] == prev.booked(depths@, b));
                } else {
                    assert(booked@[a] == prev.booked(depths@, a));
                }
            }
            assert forall|j: int| 0 <= j < self.capacity() && j != id implies
                #[trigger] self.depth(id as int, j) == prev.booked(depths@, j) && self.depth(j, id as int) == prev.booked(depths@, j) by {
                assert(booked@[j] == prev.booked(depths@, j));
            }
        }
        Ok(())
    }

    /// Removes placement `id`: it no longer overlaps anything or stands
    /// outside. Refused, with nothing changed, when nothing is placed there.
    pub fn remove(&mut self, inst: &SPInstance, id: usize) -> (r: Result<(), LayoutError>)
        requires
            old(self).wf(*inst),
        ensures
            final(self).wf(*inst),
            final(self).capacity() == old(self).capacity(),
            final(self).spec_container() == old(self).spec_container(),
            final(self).spec_next_id() == old(self).spec_next_id(),
            r is Err <==> id >= old(self).capacity() || old(self).placement(id as int) is None,
            r is Err ==> r->Err_0 == LayoutError::NotPlaced && *final(self) == *old(self),
            r is Ok ==> {
                &&& final(self).placement(id as int) is None
                &&& final(self).out_of_bounds(id as int) == 0
                &&& forall|j: int| 0 <= j < final(self).capacity() ==>
                    #[trigger] final(self).depth(id as int, j) == 0 && final(self).depth(j, id as int) == 0
                &&& forall|a: int, b: int| 0 <= a < final(self).capacity() && 0 <= b < final(self).capacity() && a != id && b != id ==>
                    #[trigger] final(self).depth(a, b) == old(self).depth(a, b)
                &&& forall|j: int| 0 <= j < final(self).capacity() && j != id ==>
                    #[trigger] final(self).placement(j) == old(self).placement(j)
                        && final(self).out_of_bounds(j) == old(self).out_of_bounds(j)
            },
    {
        if id >= self.placements.len() || self.placements[id].is_none() {
            return Err(LayoutError::NotPlaced);
        }
        let ghost prev = *self;
        self.tracker.clear(id);
        self.placements.set(id, None);
        self.oob.set(id, 0);
        proof {
            lemma_overlap_symmetric(&self.tracker);
            assert forall|a: int, b: int| 0 <= a < self.placements@.len() && 0 <= b < self.placements@.len()
                && (self.placements@[a] is None || self.placements@[b] is None) implies #[trigger] self.tracker.depth(a, b) == 0 by {
                if a != id && b != id {
                    assert(prev.tracker.depth(a, b) == 0);
                }
            }
        }
        Ok(())
    }

    /// Total overlap of placement `id`.
    pub fn overlap_of(&self, inst: &SPInstance, id: usize) -> (r: u128)
        requires
            self.wf(*inst),
            id < self.capacity(),
        ensures
            r == self.overlap(id as int),
    {
        self.tracker.overlap_of(id)
    }

    /// Whether every placement is inside the container and overlaps nothing.
    pub fn is_feasible(&self, inst: &SPInstance) -> (r: bool)
        requires
            self.wf(*inst),
        ensures
            r == self.spec_is_feasible(),
    {
        let n = self.placements.len();
        let mut i: usize = 0;
        while i < n
            invariant
                self.wf(*inst),
                n == self.capacity(),
                i <= n,
                forall|id: int| 0 <= id < i ==> #[trigger] self.oob@[id] == 0,
                forall|id: int| 0 <= id < i ==> #[trigger] self.tracker.overlap(id) == 0,
            decreases n - i,
        {
            if self.oob[i] != 0 {
                assert(self.out_of_bounds(i as int) != 0);
                return false;
            }
            let v = self.tracker.overlap_of(i);
            if v != 0 {
                assert(self.out_of_bounds(i as int) == 0 && self.overlap(i as int) != 0);
                return false;
            }
            assert(self.oob@[i as int] == 0);
            assert(self.tracker.overlap(i as int) == 0);
            i = i + 1;
        }
        assert forall|id: int| 0 <= id < self.capacity() implies #[trigger] self.out_of_bounds(id) == 0 && self.overlap(id) == 0 by {
            assert(self.oob@[id] == 0 && self.tracker.overlap(id) == 0);
        }
        true
    }

    /// The placement with the largest overlap, the lowest id among equals;
    /// none when nothing overlaps.
    pub fn worst_overlapping(&self, inst: &SPInstance) -> (r: Option<usize>)
        requires
            self.wf(*inst),
        ensures
            r is None <==> forall|j: int| 0 <= j < self.capacity() ==> #[trigger] self.overlap(j) == 0,
            r matches Some(k) ==> {
                &&& k < self.capacity()
                &&& self.overlap(k as int) > 0
                &&& forall|j: int| 0 <= j < self.capacity() ==> #[trigger] self.overlap(j) <= self.overlap(k as int)
                &&& forall|j: int| 0 <= j < k ==> #[trigger] self.overlap(j) < self.overlap(k as int)
            },
    {
        let r = self.tracker.worst_overlapping();
        assert(forall|j: int| #![trigger self.overlap(j)] #![trigger self.tracker.overlap(j)] self.overlap(j) == self.tracker.overlap(j));
        r
    }

    /// Changes the container, booking how far each placement now leaves it.
    pub fn set_container(&mut self, inst: &SPInstance, container: Container, oob: &Vec<u64>)
        requires
            old(self).wf(*inst),
            oob@.len() == old(self).capacity(),
        ensures
            final(self).wf(*inst),
            final(self).spec_container() == container,
            final(self).capacity() == old(self).capacity(),
            final(self).spec_next_id() == old(self).spec_next_id(),
            forall|id: int| 0 <= id < final(self).capacity() ==>
                #[trigger] final(self).out_of_bounds(id) == old(self).booked(oob@, id)
                    && final(self).placement(id) == old(self).placement(id),
            forall|a: int, b: int| 0 <= a < final(self).capacity() && 0 <= b < final(self).capacity() ==>
                #[trigger] final(self).depth(a, b) == old(self).depth(a, b),
    {
        let n = self.placements.len();
        let mut booked: Vec<u64> = Vec::new();
        let mut j: usize = 0;
        while j < n
            invariant
                n == self.capacity(),
                oob@.len() == n,
                j <= n,
                booked@.len() == j,
                forall|k: int| 0 <= k < j ==> #[trigger] booked@[k] == self.booked(oob@, k),
            decreases n - j,
        {
            let d = if self.placements[j].is_some() { oob[j] } else { 0 };
            booked.push(d);
            j = j + 1;
        }
        self.container = container;
        self.oob = booked;
    }

    /// The engine's depths booked for `id`: zero against itself and against
    /// ids under which no item stands.
    fn booked_depths(&self, id: usize, depths: &Vec<u64>) -> (r: Vec<u64>)
        requires
            depths@.len() == self.capacity(),
        ensures
            r@.len() == self.capacity(),
            forall|j: int| 0 <= j < self.capacity() && j != id ==> #[trigger] r@[j] == self.booked(depths@, j),
    {
        let mut r: Vec<u64> = Vec::new();
        let mut j: usize = 0;
        while j < self.placements.len()
            invariant
                j <= self.capacity(),
                depths@.len() == self.capacity(),
                r@.len() == j,
                forall|k: int| 0 <= k < j && k != id ==> #[trigger] r@[k] == self.booked(depths@, k),
            decreases self.capacity() - j,
        {
            let d = if j != id && self.placements[j].is_some() { depths[j] } else { 0 };
            r.push(d);
            j = j + 1;
        }
        r
    }
}

/// Every placed item stands at a rotation its item allows.
pub proof fn lemma_placed_rotations_admissible(l: &Layout, inst: SPInstance, id: int)
    requires
        l.wf(inst),
        0 <= id < l.capacity(),
        l.placement(id) is Some,
    ensures
        l.placement(id)->Some_0.item < inst.items@.len(),
        inst.items@[l.placement(id)->Some_0.item as int].0.allowed_rotation.admits(l.placement(id)->Some_0.pose.rotation),
{
}

/// The overlap table agrees with the placements: what is booked for `a`
/// against `b` is what is booked for `b` against `a`, nothing is booked
/// against an id under which no item stands, and a placement's overlap is
/// the sum of what is booked for it.
pub proof fn lemma_layout_in_sync(l: &Layout, inst: SPInstance)
    requires
        l.wf(inst),
    ensures
        forall|a: int, b: int| 0 <= a < l.capacity() && 0 <= b < l.capacity() ==> #[trigger] l.depth(a, b) == l.depth(b, a),
        forall|a: int, b: int| 0 <= a < l.capacity() && 0 <= b < l.capacity()
            && (l.placement(a) is None || l.placement(b) is None) ==> #[trigger] l.depth(a, b) == 0,
        forall|a: int| 0 <= a < l.capacity() ==> #[trigger] l.overlap(a) == row_sum(Seq::new(l.capacity(), |b: int| l.depth(a, b)), l.capacity() as int),
{
    lemma_overlap_symmetric(&l.tracker);
    assert forall|a: int| 0 <= a < l.capacity() implies #[trigger] l.overlap(a) == row_sum(Seq::new(l.capacity(), |b: int| l.depth(a, b)), l.capacity() as int) by {
        lemma_overlap_is_row_sum(&l.tracker, a);
        assert(Seq::new(l.capacity(), |b: int| l.depth(a, b)) == Seq::new(l.tracker.size(), |b: int| l.tracker.depth(a, b)));
    }
}

} // verus!
