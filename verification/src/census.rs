//! A count for every kind of building.

use vstd::prelude::*;

use crate::building::BuildingType;

verus! {

/// A count for every kind of building.
#[derive(Clone, Copy, Debug)]
pub struct Counts {
    /// The counts, each at the index of its kind.
    pub n: [i32; 37],
}

impl View for Counts {
    type V = Map<BuildingType, int>;

    open spec fn view(&self) -> Map<BuildingType, int> {
        Map::total(|t: BuildingType| self.n@[t.index_spec()] as int)
    }
}

impl Counts {
    /// Counts that are all zero.
    pub fn new() -> (counts: Counts)
        ensures
            forall|t: BuildingType| counts@[t] == 0,
    {
        Counts {
            n: [
                0,
                0,
                0,
                0,
                0,
                0,
                0,
                0,
                0,
                0,
                0,
                0,
                0,
                0,
                0,
                0,
                0,
                0,
                0,
                0,
                0,
                0,
                0,
                0,
                0,
                0,
                0,
                0,
                0,
                0,
                0,
                0,
                0,
                0,
                0,
                0,
                0,
            ],
        }
    }

    /// The count of kind `t`.
    pub fn get(&self, t: BuildingType) -> (count: i32)
        ensures
            count == self@[t],
    {
        self.n[t.index()]
    }

    /// Sets the count of kind `t`.
    pub fn insert(&mut self, t: BuildingType, count: i32)
        ensures
            final(self)@ == old(self)@.insert(t, count as int),
    {
        self.n[t.index()] = count;
        assert(self@ =~= old(self)@.insert(t, count as int));
    }
}

} // verus!
