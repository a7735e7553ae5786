//! Admission filters: predicates that an item must pass before a slot is
//! looked for.

use vstd::prelude::*;
use crate::grid::Grid;
use crate::item::{Item, Quality};

verus! {

/// An admission predicate over an item and the current grid.
pub trait Filter {
    /// Whether the filter lets `item` in, given `grid`.
    spec fn allows(&self, item: Item, grid: Grid) -> bool;

    fn check_allowed(&self, item: &Item, grid: &Grid) -> (allowed: bool)
        requires
            grid.wf(),
        ensures
            allowed == self.allows(*item, *grid),
    ;
}

/// Turns away oversized items that span more than `cutoff` zones.
#[derive(Debug)]
pub struct AvoidTooLarge {
    pub cutoff: u32,
}

impl Filter for AvoidTooLarge {
    open spec fn allows(&self, item: Item, grid: Grid) -> bool {
        item.quality matches Quality::Oversized { continuous_zones } ==> continuous_zones
            <= self.cutoff
    }

    fn check_allowed(&self, item: &Item, grid: &Grid) -> (allowed: bool) {
        match &item.quality {
            Quality::Fragile { .. } | Quality::Normal => true,
            Quality::Oversized { continuous_zones } => *continuous_zones <= self.cutoff,
        }
    }
}

/// Turns away fragile items that tolerate fewer than `cutoff` rows.
#[derive(Debug)]
pub struct AvoidTooFragile {
    pub cutoff: u32,
}

impl Filter for AvoidTooFragile {
    open spec fn allows(&self, item: Item, grid: Grid) -> bool {
        item.quality matches Quality::Fragile { row, .. } ==> row >= self.cutoff
    }

    fn check_allowed(&self, item: &Item, grid: &Grid) -> (allowed: bool) {
        match &item.quality {
            Quality::Oversized { .. } | Quality::Normal => true,
            Quality::Fragile { row, .. } => *row >= self.cutoff,
        }
    }
}

/// Whether every filter of `filters` lets `item` in. The order of the
/// filters does not matter, and an empty list admits everything.
pub open spec fn admitted(filters: Seq<Box<dyn Filter>>, item: Item, grid: Grid) -> bool {
    forall|i: int| 0 <= i < filters.len() ==> (#[trigger] filters[i]).allows(item, grid)
}

/// Asks each filter in turn and stops at the first that refuses.
pub fn all_allow(filters: &Vec<Box<dyn Filter>>, item: &Item, grid: &Grid) -> (ok: bool)
    requires
        grid.wf(),
    ensures
        ok == admitted(filters@, *item, *grid),
{
    let mut i: usize = 0;
    while i < filters.len()
        invariant
            grid.wf(),
            i <= filters.len(),
            forall|j: int| 0 <= j < i ==> (#[trigger] filters@[j]).allows(*item, *grid),
        decreases filters.len() - i,
    {
        if !filters[i].check_allowed(item, grid) {
            return false;
        }
        i = i + 1;
    }
    true
}

} // verus!
