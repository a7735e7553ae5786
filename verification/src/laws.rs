//! What holds of every placement, stated over its grid and indices.

use vstd::prelude::*;
use crate::engine::Placement;
use crate::filter::{admitted, Filter};
use crate::grid::{Cell, Grid};
use crate::item::{Item, Quality};
use crate::layout::{claimed, consistent, covers, lodged, released, span};
use crate::position::{Position, GRID_SLOTS, MAXPOSITION};
use crate::strategy::{first_fit, is_first_fit, lemma_first_fit_exists, lemma_first_fit_is, suits};

verus! {

/// A stored item has a position list that is not empty. Every position of
/// the list lies in the grid and is taken; the first stores the item, the
/// others store nothing.
pub proof fn lemma_stored_item_is_lodged(p: Placement, id: u32)
    requires
        p.wf(),
        p.id_index().contains_key(id),
    ensures
        p.position_index().contains_key(id),
        p.position_index()[id].len() >= 1,
        p.grid().entry(p.position_index()[id][0]) == (Cell {
            occupied: true,
            resident: Some(p.id_index()[id]),
        }),
        forall|k: int|
            0 <= k < p.position_index()[id].len() ==> {
                let at = #[trigger] p.position_index()[id][k];
                at.in_grid() && p.grid().entry(at).occupied
            },
        forall|k: int|
            1 <= k < p.position_index()[id].len() ==> p.grid().entry(
                #[trigger] p.position_index()[id][k],
            ).resident is None,
{
    reveal(consistent);
    let list = p.position_index()[id];
    assert(lodged(p.grid()@, p.id_index()[id], list));
    assert forall|k: int| 0 <= k < list.len() implies {
        let at = #[trigger] list[k];
        at.in_grid() && p.grid().entry(at).occupied && (k >= 1 ==> p.grid().entry(
            at,
        ).resident is None)
    } by {
        assert(list[k] == list[0].shifted(k));
        assert(list[k].slot() == list[0].slot() + k);
    }
}

/// The identifier index and the position index know the same identifiers,
/// and each item is filed under its own identifier.
pub proof fn lemma_indices_agree(p: Placement, id: u32)
    requires
        p.wf(),
    ensures
        p.id_index().contains_key(id) <==> p.position_index().contains_key(id),
        p.id_index().contains_key(id) ==> p.id_index()[id].id == id,
        p.id_index().dom().finite(),
{
    reveal(consistent);
}

/// An entry of the name index is filed under the item's own name, and its
/// item is a stored item.
pub proof fn lemma_named_item_is_stored(p: Placement, name: Seq<char>)
    requires
        p.wf(),
        p.name_index().contains_key(name),
    ensures
        p.name_index()[name].name@ == name,
        p.id_index().contains_key(p.name_index()[name].id),
        p.id_index()[p.name_index()[name].id] == p.name_index()[name],
{
    reveal(consistent);
}

/// A stored item takes up as many positions as its quality asks for: one,
/// or the span of an oversized item. They lie on one row and shelf, in
/// neighbouring zones, the list naming them in ascending order.
pub proof fn lemma_stored_item_spans_its_width(p: Placement, id: u32)
    requires
        p.wf(),
        p.id_index().contains_key(id),
    ensures
        p.position_index()[id].len() == p.id_index()[id].quality.width(),
        p.id_index()[id].quality matches Quality::Oversized { continuous_zones }
            ==> p.position_index()[id].len() == continuous_zones,
        forall|k: int|
            0 <= k < p.position_index()[id].len() ==> #[trigger] p.position_index()[id][k] == (
            Position {
                row: p.position_index()[id][0].row,
                shelf: p.position_index()[id][0].shelf,
                zone: (p.position_index()[id][0].zone + k) as u32,
            }),
        p.position_index()[id][0].zone + p.position_index()[id].len() <= MAXPOSITION,
        p.id_index()[id].quality matches Quality::Fragile { row, .. }
            ==> p.position_index()[id][0].row < row,
{
    reveal(consistent);
    let list = p.position_index()[id];
    assert(lodged(p.grid()@, p.id_index()[id], list));
    assert forall|k: int| 0 <= k < list.len() implies #[trigger] list[k] == list[0].shifted(k) by {}
}

/// No position is taken by two stored items.
pub proof fn lemma_no_shared_position(p: Placement, a: u32, b: u32, i: int, j: int)
    requires
        p.wf(),
        p.id_index().contains_key(a),
        p.id_index().contains_key(b),
        0 <= i < p.position_index()[a].len(),
        0 <= j < p.position_index()[b].len(),
        p.position_index()[a][i] == p.position_index()[b][j],
    ensures
        a == b,
        i == j,
{
    reveal(consistent);
    let la = p.position_index()[a];
    let lb = p.position_index()[b];
    assert(lodged(p.grid()@, p.id_index()[a], la));
    assert(lodged(p.grid()@, p.id_index()[b], lb));
    assert(la[i] == la[0].shifted(i));
    assert(lb[j] == lb[0].shifted(j));
    assert(covers(la, la[i].slot()));
    assert(covers(lb, lb[j].slot()));
}

/// A position of the grid is taken exactly if some stored item's list names it.
pub proof fn lemma_taken_means_listed(p: Placement, at: Position)
    requires
        p.wf(),
        at.in_grid(),
    ensures
        p.grid().entry(at).occupied <==> exists|id: u32, k: int|
            p.id_index().contains_key(id) && 0 <= k < p.position_index()[id].len()
                && #[trigger] p.position_index()[id][k] == at,
{
    reveal(consistent);
    let cells = p.grid()@;
    if p.grid().entry(at).occupied {
        let id = choose|id: u32|
            p.id_index().contains_key(id) && #[trigger] covers(p.position_index()[id], at.slot());
        let list = p.position_index()[id];
        assert(lodged(cells, p.id_index()[id], list));
        let k = at.slot() - list[0].slot();
        assert(list[k] == list[0].shifted(k));
        assert(list[k].slot() == at.slot());
        crate::position::lemma_slot_order(list[k], at);
        assert(p.id_index().contains_key(id) && 0 <= k < p.position_index()[id].len()
            && p.position_index()[id][k] == at);
    }
    if exists|id: u32, k: int|
        p.id_index().contains_key(id) && 0 <= k < p.position_index()[id].len()
            && #[trigger] p.position_index()[id][k] == at {
        let (id, k) = choose|id: u32, k: int|
            p.id_index().contains_key(id) && 0 <= k < p.position_index()[id].len()
                && #[trigger] p.position_index()[id][k] == at;
        lemma_stored_item_is_lodged(p, id);
    }
}

/// Once an item is removed, none of the positions it took is taken, and
/// none stores anything.
pub proof fn lemma_removed_item_leaves_no_trace(p: Placement, id: u32, k: int)
    requires
        p.wf(),
        p.id_index().contains_key(id),
        0 <= k < p.position_index()[id].len(),
    ensures
        released(p.grid()@, p.position_index()[id])[p.position_index()[id][k].slot()] == (Cell {
            occupied: false,
            resident: None,
        }),
{
    reveal(consistent);
    let list = p.position_index()[id];
    assert(lodged(p.grid()@, p.id_index()[id], list));
    assert(list[k] == list[0].shifted(k));
    assert(covers(list, list[k].slot()));
}

/// Under the row-major scan, an item that was stored and has been removed
/// finds a slot again in the grid it left, and that slot does not come after
/// the one it had: it may be the same slot or an earlier one.
pub proof fn lemma_removed_item_fits_again(p: Placement, id: u32, after: Grid)
    requires
        p.wf(),
        p.id_index().contains_key(id),
        after@ == released(p.grid()@, p.position_index()[id]),
    ensures
        first_fit(p.id_index()[id].quality, after) matches Some(a)
            && !p.position_index()[id][0].precedes(a),
{
    reveal(consistent);
    let item = p.id_index()[id];
    let list = p.position_index()[id];
    let anchor = list[0];
    assert(lodged(p.grid()@, item, list));
    assert forall|k: int| 0 <= k < list.len() implies after.free_at(
        #[trigger] anchor.shifted(k),
    ) by {
        assert(covers(list, anchor.shifted(k).slot()));
    }
    assert(anchor.shifted(0) == anchor);
    assert(suits(item.quality, after, anchor));
    lemma_first_fit_exists(item.quality, after, anchor);
}

/// Storing an item on vacant cells and giving its cells up again leaves the
/// cells as they were.
pub proof fn lemma_claim_then_release(cells: Seq<Cell>, item: Item, anchor: Position)
    requires
        cells.len() == GRID_SLOTS,
        anchor.in_grid(),
        1 <= item.quality.width(),
        anchor.zone + item.quality.width() <= MAXPOSITION,
        forall|s: int|
            anchor.slot() <= s < anchor.slot() + item.quality.width() ==> #[trigger] cells[s] == (
            Cell { occupied: false, resident: None }),
    ensures
        released(claimed(cells, item, anchor), span(anchor, item.quality.width())) == cells,
{
    let list = span(anchor, item.quality.width());
    assert(list[0] == anchor);
    assert(released(claimed(cells, item, anchor), list) =~= cells);
}

/// Filters are asked as a whole: two lists made of the same filters admit
/// the same items, in whatever order and however often each filter stands.
/// `there[i]` says where in `other` the filter `one[i]` stands, and `back[j]`
/// where in `one` the filter `other[j]` stands.
pub proof fn lemma_filter_order_is_irrelevant(
    one: Seq<Box<dyn Filter>>,
    other: Seq<Box<dyn Filter>>,
    there: Seq<int>,
    back: Seq<int>,
    item: Item,
    grid: Grid,
)
    requires
        there.len() == one.len(),
        back.len() == other.len(),
        forall|i: int|
            0 <= i < one.len() ==> 0 <= #[trigger] there[i] < other.len() && other[there[i]]
                == one[i],
        forall|j: int|
            0 <= j < other.len() ==> 0 <= #[trigger] back[j] < one.len() && one[back[j]]
                == other[j],
    ensures
        admitted(one, item, grid) == admitted(other, item, grid),
{
    if admitted(one, item, grid) {
        assert forall|j: int| 0 <= j < other.len() implies (#[trigger] other[j]).allows(
            item,
            grid,
        ) by {
            assert(one[back[j]].allows(item, grid));
        }
    }
    if admitted(other, item, grid) {
        assert forall|i: int| 0 <= i < one.len() implies (#[trigger] one[i]).allows(item, grid) by {
            assert(other[there[i]].allows(item, grid));
        }
    }
}

/// In a grid with no cell taken, whatever can be stored at all is stored at
/// row 0, shelf 0, zone 0.
pub proof fn lemma_empty_grid_starts_at_origin(q: Quality, grid: Grid)
    requires
        grid.wf(),
        forall|s: int| 0 <= s < GRID_SLOTS ==> !(#[trigger] grid@[s]).occupied,
    ensures
        first_fit(q, grid) is Some ==> first_fit(q, grid) == Some(
            Position { row: 0, shelf: 0, zone: 0 },
        ),
        first_fit(q, grid) is None <==> match q {
            Quality::Normal => false,
            Quality::Fragile { row, .. } => row == 0,
            Quality::Oversized { continuous_zones } => continuous_zones == 0 || continuous_zones
                > MAXPOSITION,
        },
{
    let origin = Position { row: 0, shelf: 0, zone: 0 };
    crate::strategy::lemma_first_fit_complete(q, grid);
    let placeable = match q {
        Quality::Normal => true,
        Quality::Fragile { row, .. } => row > 0,
        Quality::Oversized { continuous_zones } => 1 <= continuous_zones <= MAXPOSITION,
    };
    if placeable {
        assert forall|k: int| 0 <= k < q.width() implies grid.free_at(
            #[trigger] origin.shifted(k),
        ) by {}
        assert(origin.shifted(0) == origin);
        assert(suits(q, grid, origin));
        assert(is_first_fit(q, grid, origin));
        lemma_first_fit_is(q, grid, origin);
    } else {
        assert forall|p: Position| !suits(q, grid, p) by {}
    }
}

} // verus!
