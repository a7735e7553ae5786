//! Coordinates of the storage grid.

use vstd::prelude::*;

verus! {

/// Number of rows, of shelves per row and of zones per shelf.
pub const MAXPOSITION: u32 = 10;

/// Number of slots in the whole grid.
pub const GRID_SLOTS: usize = 1000;

/// One slot of the grid, named by its row, shelf and zone.
///
/// Two positions are equal exactly when all three components are equal;
/// whether a slot is in use is a property of the grid, not of the position.
#[derive(Copy, Clone, Debug, PartialEq, Eq, Structural, Hash)]
pub struct Position {
    pub row: u32,
    pub shelf: u32,
    pub zone: u32,
}

impl Position {
    /// Whether all three components lie inside the grid.
    pub open spec fn in_grid(self) -> bool {
        self.row < MAXPOSITION && self.shelf < MAXPOSITION && self.zone < MAXPOSITION
    }

    /// Rank of the position in row-major order: rows outermost, zones innermost.
    pub open spec fn slot(self) -> int {
        self.row * 100 + self.shelf * 10 + self.zone
    }

    /// Whether `self` comes strictly before `other` in row-major order.
    pub open spec fn precedes(self, other: Position) -> bool {
        self.row < other.row || (self.row == other.row && (self.shelf < other.shelf || (self.shelf
            == other.shelf && self.zone < other.zone)))
    }

    /// The position `offset` zones further along the same row and shelf.
    pub open spec fn shifted(self, offset: int) -> Position
        recommends
            0 <= self.zone + offset <= u32::MAX,
    {
        Position { row: self.row, shelf: self.shelf, zone: (self.zone + offset) as u32 }
    }

    pub fn new(row: u32, shelf: u32, zone: u32) -> (p: Position)
        ensures
            p == (Position { row, shelf, zone }),
    {
        Position { row, shelf, zone }
    }

    pub fn as_tuple(&self) -> (t: (u32, u32, u32))
        ensures
            t == (self.row, self.shelf, self.zone),
    {
        (self.row, self.shelf, self.zone)
    }

    /// Whether the position lies inside the grid.
    pub fn is_in_grid(&self) -> (b: bool)
        ensures
            b == self.in_grid(),
    {
        self.row < MAXPOSITION && self.shelf < MAXPOSITION && self.zone < MAXPOSITION
    }
}

impl From<(u32, u32, u32)> for Position {
    fn from(pos: (u32, u32, u32)) -> (p: Position) {
        Position { row: pos.0, shelf: pos.1, zone: pos.2 }
    }
}

impl vstd::std_specs::convert::FromSpecImpl<(u32, u32, u32)> for Position {
    open spec fn obeys_from_spec() -> bool {
        true
    }

    open spec fn from_spec(pos: (u32, u32, u32)) -> Position {
        Position { row: pos.0, shelf: pos.1, zone: pos.2 }
    }
}

/// Inside the grid, row-major order is the order of the slot ranks, and two
/// positions with the same rank are the same position.
pub proof fn lemma_slot_order(a: Position, b: Position)
    requires
        a.in_grid(),
        b.in_grid(),
    ensures
        0 <= a.slot() < GRID_SLOTS,
        a.precedes(b) <==> a.slot() < b.slot(),
        a.slot() == b.slot() <==> a == b,
{
}

} // verus!
