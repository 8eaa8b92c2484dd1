//! The spatial grid: two same-shaped row-major matrices over the map's
//! cells, one holding the occupying entity's id and one its category.
//! Both are rebuilt from scratch every tick, so stale entries from the
//! previous tick never survive.

use vstd::prelude::*;
use vstd::pervasive::VecAdditionalExecFns;
use crate::config::CELLS;
use crate::entities::ObjectType;

verus! {

/// The identity and category matrices, flattened row-major.
pub struct Grid {
    pub ids: Vec<usize>,
    pub kinds: Vec<ObjectType>,
}

/// Both matrices cover exactly the map's cells.
pub open spec fn grid_wf(ids: Seq<usize>, kinds: Seq<ObjectType>) -> bool {
    ids.len() == CELLS && kinds.len() == CELLS
}

impl Grid {
    /// A fresh, empty grid: every cell unclaimed.
    pub fn new() -> (g: Grid)
        ensures
            grid_wf(g.ids@, g.kinds@),
            forall|c: int| 0 <= c < CELLS ==> g.ids@[c] == 0,
            forall|c: int| 0 <= c < CELLS ==> g.kinds@[c] == ObjectType::Empty,
    {
        let mut ids: Vec<usize> = Vec::new();
        let mut kinds: Vec<ObjectType> = Vec::new();
        let mut i: usize = 0;
        while i < CELLS
            invariant
                i <= CELLS,
                ids@.len() == i,
                kinds@.len() == i,
                forall|c: int| 0 <= c < i ==> ids@[c] == 0,
                forall|c: int| 0 <= c < i ==> kinds@[c] == ObjectType::Empty,
            decreases CELLS - i,
        {
            ids.push(0);
            kinds.push(ObjectType::Empty);
            i = i + 1;
        }
        Grid { ids, kinds }
    }

    /// The category of cell `c`.
    pub fn kind_at(&self, c: usize) -> (r: ObjectType)
        requires
            c < self.kinds@.len(),
        ensures
            r == self.kinds@[c as int],
    {
        self.kinds[c]
    }

    /// The occupant id of cell `c`.
    pub fn id_at(&self, c: usize) -> (r: usize)
        requires
            c < self.ids@.len(),
        ensures
            r == self.ids@[c as int],
    {
        self.ids[c]
    }

    /// Claim cell `c` for entity `id` of category `kind`.
    pub fn set_cell(&mut self, c: usize, id: usize, kind: ObjectType)
        requires
            c < old(self).ids@.len(),
            c < old(self).kinds@.len(),
        ensures
            final(self).ids@ == old(self).ids@.update(c as int, id),
            final(self).kinds@ == old(self).kinds@.update(c as int, kind),
    {
        self.ids.set(c, id);
        self.kinds.set(c, kind);
    }
}

} // verus!
