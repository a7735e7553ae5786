//! Strategies: how a slot is picked for an item.

use vstd::prelude::*;
use crate::grid::Grid;
use crate::item::{Item, Quality};
use crate::position::{Position, MAXPOSITION};

verus! {

/// Whether an item of quality `q` may be stored starting at `p`, leaving
/// aside whether `p` itself is free.
///
/// A normal item may go anywhere. A fragile item needs a row below its limit.
/// An oversized item needs its whole span, which is at least one zone wide,
/// to lie on the shelf of `p` and to be free.
pub open spec fn meets(q: Quality, grid: Grid, p: Position) -> bool {
    match q {
        Quality::Normal => true,
        Quality::Fragile { row, .. } => p.row < row,
        Quality::Oversized { continuous_zones } => {
            &&& 1 <= continuous_zones
            &&& p.zone + continuous_zones <= MAXPOSITION
            &&& forall|k: int| 0 <= k < continuous_zones ==> grid.free_at(#[trigger] p.shifted(k))
        },
    }
}

/// Whether `p` is a free position of the grid at which an item of quality `q`
/// may be stored.
pub open spec fn suits(q: Quality, grid: Grid, p: Position) -> bool {
    grid.free_at(p) && meets(q, grid, p)
}

/// Whether `p` suits and no position before it in row-major order does.
pub open spec fn is_first_fit(q: Quality, grid: Grid, p: Position) -> bool {
    suits(q, grid, p) && forall|o: Position| #[trigger] suits(q, grid, o) ==> !o.precedes(p)
}

/// The first position in row-major order that suits, if any position does.
pub open spec fn first_fit(q: Quality, grid: Grid) -> Option<Position> {
    if exists|p: Position| is_first_fit(q, grid, p) {
        Some(choose|p: Position| is_first_fit(q, grid, p))
    } else {
        None
    }
}

/// At most one position is the first that suits.
pub proof fn lemma_first_fit_unique(q: Quality, grid: Grid, a: Position, b: Position)
    requires
        is_first_fit(q, grid, a),
        is_first_fit(q, grid, b),
    ensures
        a == b,
{
}

/// `first_fit` names the position that `is_first_fit` singles out.
pub proof fn lemma_first_fit_is(q: Quality, grid: Grid, p: Position)
    requires
        is_first_fit(q, grid, p),
    ensures
        first_fit(q, grid) == Some(p),
{
    let c = choose|c: Position| is_first_fit(q, grid, c);
    lemma_first_fit_unique(q, grid, c, p);
}

/// Where some position suits, there is a first one, and it does not come
/// after that position.
pub proof fn lemma_first_fit_exists(q: Quality, grid: Grid, p: Position)
    requires
        suits(q, grid, p),
    ensures
        first_fit(q, grid) matches Some(a) && is_first_fit(q, grid, a) && !p.precedes(a),
    decreases p.slot(),
{
    if is_first_fit(q, grid, p) {
        lemma_first_fit_is(q, grid, p);
    } else {
        let o = choose|o: Position| suits(q, grid, o) && o.precedes(p);
        lemma_first_fit_exists(q, grid, o);
    }
}

/// The row-major scan finds a slot exactly if some position suits, and the
/// slot it finds is the first that suits.
pub proof fn lemma_first_fit_complete(q: Quality, grid: Grid)
    ensures
        first_fit(q, grid) is None <==> forall|p: Position| !suits(q, grid, p),
        first_fit(q, grid) matches Some(a) ==> is_first_fit(q, grid, a),
{
    if exists|p: Position| suits(q, grid, p) {
        let p = choose|p: Position| suits(q, grid, p);
        lemma_first_fit_exists(q, grid, p);
    }
}

/// A search for the slot in which to store an item.
///
/// The answer depends on the item and the grid alone: asking does not change
/// what the strategy will answer later.
pub trait Strategy {
    /// The slot this strategy picks for `item` in `grid`.
    spec fn choice(&self, item: Item, grid: Grid) -> Option<Position>;

    fn allocate(&mut self, item: &Item, grid: &Grid) -> (found: Option<Position>)
        requires
            grid.wf(),
        ensures
            found == old(self).choice(*item, *grid),
            found matches Some(p) ==> suits(item.quality, *grid, p),
            forall|i: Item, g: Grid| #[trigger] final(self).choice(i, g) == old(self).choice(i, g),
    ;
}

/// Scans the grid in row-major order and takes the first slot that suits.
#[derive(Debug)]
pub struct RoundRobin {}

impl RoundRobin {
    /// Whether `item` may be stored starting at `pos`, leaving aside whether
    /// `pos` itself is free. For an oversized item every zone of the span is
    /// looked at.
    pub fn is_position_valid(&self, pos: &Position, item: &Item, grid: &Grid) -> (valid: bool)
        requires
            grid.wf(),
        ensures
            valid == meets(item.quality, *grid, *pos),
    {
        match &item.quality {
            Quality::Fragile { row, .. } => pos.row < *row,
            Quality::Oversized { continuous_zones } => {
                let span: u32 = *continuous_zones;
                if span == 0 || span > MAXPOSITION || pos.zone > MAXPOSITION - span {
                    false
                } else {
                    let mut k: u32 = 0;
                    while k < span
                        invariant
                            grid.wf(),
                            k <= span,
                            1 <= span,
                            pos.zone + span <= MAXPOSITION,
                            item.quality == (Quality::Oversized { continuous_zones: span }),
                            forall|j: int| 0 <= j < k ==> grid.free_at(#[trigger] pos.shifted(j)),
                        decreases span - k,
                    {
                        let probe = Position::new(pos.row, pos.shelf, pos.zone + k);
                        assert(probe == pos.shifted(k as int));
                        match grid.get(&probe) {
                            Some(cell) => {
                                if cell.occupied {
                                    assert(!grid.free_at(pos.shifted(k as int)));
                                    return false;
                                }
                            },
                            None => {
                                assert(!grid.free_at(pos.shifted(k as int)));
                                return false;
                            },
                        }
                        k = k + 1;
                    }
                    true
                }
            },
            Quality::Normal => true,
        }
    }
}

impl Strategy for RoundRobin {
    open spec fn choice(&self, item: Item, grid: Grid) -> Option<Position> {
        first_fit(item.quality, grid)
    }

    fn allocate(&mut self, item: &Item, grid: &Grid) -> (found: Option<Position>) {
        let mut i: u32 = 0;
        while i < MAXPOSITION
            invariant
                grid.wf(),
                i <= MAXPOSITION,
                forall|o: Position| #[trigger] suits(item.quality, *grid, o) ==> o.row >= i,
            decreases MAXPOSITION - i,
        {
            let mut j: u32 = 0;
            while j < MAXPOSITION
                invariant
                    grid.wf(),
                    i < MAXPOSITION,
                    j <= MAXPOSITION,
                    forall|o: Position| #[trigger] suits(item.quality, *grid, o) ==> o.row >= i,
                    forall|o: Position| #[trigger]
                        suits(item.quality, *grid, o) && o.row == i ==> o.shelf >= j,
                decreases MAXPOSITION - j,
            {
                let mut k: u32 = 0;
                while k < MAXPOSITION
                    invariant
                        grid.wf(),
                        i < MAXPOSITION,
                        j < MAXPOSITION,
                        k <= MAXPOSITION,
                        forall|o: Position| #[trigger]
                            suits(item.quality, *grid, o) ==> o.row >= i,
                        forall|o: Position| #[trigger]
                            suits(item.quality, *grid, o) && o.row == i ==> o.shelf >= j,
                        forall|o: Position| #[trigger]
                            suits(item.quality, *grid, o) && o.row == i && o.shelf == j ==> o.zone
                                >= k,
                    decreases MAXPOSITION - k,
                {
                    let pos = Position::new(i, j, k);
                    let free = match grid.get(&pos) {
                        Some(cell) => !cell.occupied,
                        None => false,
                    };
                    if free && self.is_position_valid(&pos, item, grid) {
                        proof {
                            lemma_first_fit_is(item.quality, *grid, pos);
                        }
                        return Some(pos);
                    }
                    k = k + 1;
                }
                j = j + 1;
            }
            i = i + 1;
        }
        None
    }
}

} // verus!
