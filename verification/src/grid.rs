//! The fixed population of storage slots.

use vstd::prelude::*;
use crate::item::Item;
use crate::layout::{claimed, released, span};
use crate::position::{Position, GRID_SLOTS, MAXPOSITION};

verus! {

/// State of one slot: whether it is taken, and the item stored there.
///
/// An item that spans several slots is stored in the first of them; the
/// others are taken but hold nothing.
#[derive(Debug, PartialEq, Eq)]
pub struct Cell {
    pub occupied: bool,
    pub resident: Option<Item>,
}

impl Cell {
    /// A free slot.
    pub fn vacant() -> (c: Cell)
        ensures
            c == (Cell { occupied: false, resident: None }),
    {
        Cell { occupied: false, resident: None }
    }

    /// A slot taken by the item stored in it.
    pub fn anchor(item: Item) -> (c: Cell)
        ensures
            c == (Cell { occupied: true, resident: Some(item) }),
    {
        Cell { occupied: true, resident: Some(item) }
    }

    /// A slot taken by an item stored in an earlier slot.
    pub fn overhang() -> (c: Cell)
        ensures
            c == (Cell { occupied: true, resident: None }),
    {
        Cell { occupied: true, resident: None }
    }
}

/// What a cell stores, if anything.
pub open spec fn resident_of() -> spec_fn(Cell) -> Option<Item> {
    |c: Cell| c.resident
}

/// The items stored in `cells`, in the order of the cells.
pub open spec fn stored_items(cells: Seq<Cell>) -> Seq<Item> {
    cells.filter_map(resident_of())
}

/// One cell for every position of the cube. The set of positions never
/// changes; only the cells do.
#[derive(Debug)]
pub struct Grid {
    cells: Vec<Cell>,
}

impl View for Grid {
    type V = Seq<Cell>;

    /// The cells in row-major order: the cell of `p` is at index `p.slot()`.
    closed spec fn view(&self) -> Seq<Cell> {
        self.cells@
    }
}

impl Grid {
    /// Every position of the cube has its cell.
    pub open spec fn wf(&self) -> bool {
        self@.len() == GRID_SLOTS
    }

    /// The cell of position `p`.
    pub open spec fn entry(&self, p: Position) -> Cell
        recommends
            p.in_grid(),
    {
        self@[p.slot()]
    }

    /// Whether `p` is a position of the grid whose cell is free.
    pub open spec fn free_at(&self, p: Position) -> bool {
        p.in_grid() && !self.entry(p).occupied
    }

    /// A grid of free cells.
    pub fn new() -> (g: Grid)
        ensures
            g.wf(),
            forall|s: int|
                0 <= s < GRID_SLOTS ==> g@[s] == (Cell { occupied: false, resident: None }),
    {
        let mut cells: Vec<Cell> = Vec::new();
        let mut s: usize = 0;
        while s < GRID_SLOTS
            invariant
                s <= GRID_SLOTS,
                cells@.len() == s,
                forall|t: int|
                    0 <= t < s ==> cells@[t] == (Cell { occupied: false, resident: None }),
            decreases GRID_SLOTS - s,
        {
            cells.push(Cell::vacant());
            s = s + 1;
        }
        Grid { cells }
    }

    /// The items stored in the grid, in row-major order of their slots.
    pub fn residents(&self) -> (items: Vec<Item>)
        requires
            self.wf(),
        ensures
            items@ == stored_items(self@),
    {
        let mut items: Vec<Item> = Vec::new();
        let mut s: usize = 0;
        while s < self.cells.len()
            invariant
                s <= self.cells.len(),
                items@ == stored_items(self@.take(s as int)),
            decreases self.cells.len() - s,
        {
            proof {
                self@.lemma_filter_map_take_succ(resident_of(), s as int);
            }
            match &self.cells[s].resident {
                Some(item) => {
                    items.push(item.clone());
                },
                None => {},
            }
            s = s + 1;
        }
        assert(self@.take(s as int) == self@);
        items
    }

    /// The cell of `p`, or nothing if `p` lies outside the grid.
    pub fn get(&self, p: &Position) -> (c: Option<&Cell>)
        requires
            self.wf(),
        ensures
            p.in_grid() ==> c == Some(&self.entry(*p)),
            !p.in_grid() ==> c is None,
    {
        if p.is_in_grid() {
            let s: usize = (p.row * 100 + p.shelf * 10 + p.zone) as usize;
            Some(&self.cells[s])
        } else {
            None
        }
    }

    /// Stores `item` at `anchor` and takes the `width` slots from there on.
    /// Answers the positions taken, the anchor first.
    pub(crate) fn claim(&mut self, item: Item, anchor: &Position, width: u32) -> (list: Vec<
        Position,
    >)
        requires
            old(self).wf(),
            anchor.in_grid(),
            1 <= width,
            anchor.zone + width <= MAXPOSITION,
            width == item.quality.width(),
        ensures
            final(self).wf(),
            final(self)@ == claimed(old(self)@, item, *anchor),
            list@ == span(*anchor, width as int),
    {
        let ghost before = self@;
        let ghost first = Cell { occupied: true, resident: Some(item) };
        let mut list: Vec<Position> = Vec::new();
        self.set(anchor, Cell::anchor(item));
        list.push(*anchor);
        let mut k: u32 = 1;
        while k < width
            invariant
                self.wf(),
                before.len() == GRID_SLOTS,
                anchor.in_grid(),
                1 <= k <= width,
                anchor.zone + width <= MAXPOSITION,
                list@.len() == k,
                forall|j: int| 0 <= j < k ==> #[trigger] list@[j] == anchor.shifted(j),
                self@[anchor.slot()] == first,
                forall|s: int|
                    anchor.slot() < s < anchor.slot() + k ==> #[trigger] self@[s] == (Cell {
                        occupied: true,
                        resident: None,
                    }),
                forall|s: int|
                    0 <= s < GRID_SLOTS && !(anchor.slot() <= s < anchor.slot() + k)
                        ==> #[trigger] self@[s] == before[s],
            decreases width - k,
        {
            let next = Position::new(anchor.row, anchor.shelf, anchor.zone + k);
            assert(next == anchor.shifted(k as int));
            self.set(&next, Cell::overhang());
            list.push(next);
            k = k + 1;
        }
        assert(self@ =~= claimed(before, item, *anchor));
        assert(list@ =~= span(*anchor, width as int));
        list
    }

    /// Frees the slots of `list`, which is a span inside the grid.
    pub(crate) fn release(&mut self, list: &Vec<Position>)
        requires
            old(self).wf(),
            list@.len() >= 1,
            list@ == span(list@[0], list@.len() as int),
            list@[0].in_grid(),
            list@[0].zone + list@.len() <= MAXPOSITION,
        ensures
            final(self).wf(),
            final(self)@ == released(old(self)@, list@),
    {
        let ghost before = self@;
        let ghost base = list@[0].slot();
        let mut k: usize = 0;
        while k < list.len()
            invariant
                self.wf(),
                before.len() == GRID_SLOTS,
                k <= list@.len(),
                list@.len() >= 1,
                list@ == span(list@[0], list@.len() as int),
                list@[0].in_grid(),
                list@[0].zone + list@.len() <= MAXPOSITION,
                base == list@[0].slot(),
                forall|s: int|
                    base <= s < base + k ==> #[trigger] self@[s] == (Cell {
                        occupied: false,
                        resident: None,
                    }),
                forall|s: int|
                    0 <= s < GRID_SLOTS && !(base <= s < base + k) ==> #[trigger] self@[s]
                        == before[s],
            decreases list.len() - k,
        {
            let p = list[k];
            assert(p == list@[0].shifted(k as int));
            self.set(&p, Cell::vacant());
            k = k + 1;
        }
        assert(self@ =~= released(before, list@));
    }

    /// Replaces the cell of `p`. Outside the grid nothing is stored and the
    /// answer is `false`.
    pub fn set(&mut self, p: &Position, cell: Cell) -> (stored: bool)
        requires
            old(self).wf(),
        ensures
            final(self).wf(),
            stored == p.in_grid(),
            stored ==> final(self)@ == old(self)@.update(p.slot(), cell),
            !stored ==> final(self)@ == old(self)@,
    {
        if p.is_in_grid() {
            let s: usize = (p.row * 100 + p.shelf * 10 + p.zone) as usize;
            self.cells.set(s, cell);
            true
        } else {
            false
        }
    }
}

} // verus!
