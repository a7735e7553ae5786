//! How the items of a placement lie in the grid, and what that demands of
//! the indices that describe them.

use vstd::prelude::*;
use crate::grid::{resident_of, stored_items, Cell};
use crate::item::{Item, Quality};
use crate::position::{Position, GRID_SLOTS, MAXPOSITION};

verus! {

/// The `width` positions that start at `anchor` and run along its shelf.
pub open spec fn span(anchor: Position, width: int) -> Seq<Position> {
    Seq::new(width as nat, |k: int| anchor.shifted(k))
}

/// Whether the slot of rank `s` is one of those that `list` names, `list`
/// being a span.
pub open spec fn covers(list: Seq<Position>, s: int) -> bool {
    list.len() > 0 && list[0].slot() <= s < list[0].slot() + list.len()
}

/// Whether `item` lies in `cells` at the positions of `list`: the list is the
/// span that the item's quality asks for, it lies on one shelf of the grid,
/// a fragile item sits below its row limit, the first cell stores the item
/// and the others are taken but store nothing.
pub open spec fn lodged(cells: Seq<Cell>, item: Item, list: Seq<Position>) -> bool {
    &&& list.len() >= 1
    &&& list == span(list[0], item.quality.width())
    &&& list[0].in_grid()
    &&& list[0].zone + list.len() <= MAXPOSITION
    &&& (item.quality matches Quality::Fragile { row, .. } ==> list[0].row < row)
    &&& cells[list[0].slot()] == (Cell { occupied: true, resident: Some(item) })
    &&& forall|s: int|
        list[0].slot() < s < list[0].slot() + list.len() ==> #[trigger] cells[s] == (Cell {
            occupied: true,
            resident: None,
        })
}

/// Whether the grid and the three indices describe the same placement.
///
/// - The identifier index and the position index know the same identifiers.
/// - Each item is filed under its own identifier and lies where its
///   position list says.
/// - A cell is taken exactly if some item's list names it, and no two items
///   name the same cell.
/// - A free cell stores nothing.
/// - Each entry of the name index is filed under the item's own name and is
///   an item of the identifier index.
#[verifier::opaque]
pub open spec fn consistent(
    cells: Seq<Cell>,
    ids: Map<u32, Item>,
    names: Map<Seq<char>, Item>,
    lists: Map<u32, Seq<Position>>,
) -> bool {
    &&& cells.len() == GRID_SLOTS
    &&& ids.dom().finite()
    &&& forall|id: u32| ids.contains_key(id) <==> #[trigger] lists.contains_key(id)
    &&& forall|id: u32| #[trigger]
        ids.contains_key(id) ==> ids[id].id == id && lodged(cells, ids[id], lists[id])
    &&& forall|s: int|
        0 <= s < cells.len() && (#[trigger] cells[s]).occupied ==> exists|id: u32|
            ids.contains_key(id) && #[trigger] covers(lists[id], s)
    &&& forall|s: int|
        0 <= s < cells.len() && !(#[trigger] cells[s]).occupied ==> cells[s].resident is None
    &&& forall|a: u32, b: u32, s: int|
        ids.contains_key(a) && ids.contains_key(b) && #[trigger] covers(lists[a], s)
            && #[trigger] covers(lists[b], s) ==> a == b
    &&& forall|n: Seq<char>| #[trigger]
        names.contains_key(n) ==> names[n].name@ == n && ids.contains_key(names[n].id)
            && ids[names[n].id] == names[n]
}

/// The cells after `item` has been stored at `anchor`: the anchor stores the
/// item, the rest of its span is taken, every other cell is as before.
pub open spec fn claimed(cells: Seq<Cell>, item: Item, anchor: Position) -> Seq<Cell> {
    Seq::new(
        cells.len(),
        |s: int|
            if s == anchor.slot() {
                Cell { occupied: true, resident: Some(item) }
            } else if anchor.slot() < s < anchor.slot() + item.quality.width() {
                Cell { occupied: true, resident: None }
            } else {
                cells[s]
            },
    )
}

/// The cells after the positions of `list` have been given up: they are free
/// and store nothing, every other cell is as before.
pub open spec fn released(cells: Seq<Cell>, list: Seq<Position>) -> Seq<Cell> {
    Seq::new(
        cells.len(),
        |s: int|
            if covers(list, s) {
                Cell { occupied: false, resident: None }
            } else {
                cells[s]
            },
    )
}

/// In a consistent placement an indexed item has its position list, is filed
/// under its own identifier and lies where the list says.
pub proof fn lemma_indexed_item_is_lodged(
    cells: Seq<Cell>,
    ids: Map<u32, Item>,
    names: Map<Seq<char>, Item>,
    lists: Map<u32, Seq<Position>>,
    id: u32,
)
    requires
        consistent(cells, ids, names, lists),
        ids.contains_key(id),
    ensures
        lists.contains_key(id),
        ids[id].id == id,
        lodged(cells, ids[id], lists[id]),
{
    reveal(consistent);
}

/// An empty grid and empty indices are consistent.
pub proof fn lemma_empty_consistent(cells: Seq<Cell>)
    requires
        cells.len() == GRID_SLOTS,
        forall|s: int| 0 <= s < cells.len() ==> #[trigger] cells[s] == (Cell {
            occupied: false,
            resident: None,
        }),
    ensures
        consistent(
            cells,
            Map::<u32, Item>::empty(),
            Map::<Seq<char>, Item>::empty(),
            Map::<u32, Seq<Position>>::empty(),
        ),
{
    reveal(consistent);
}

/// Storing an item that is not yet known, on free cells that suit it, keeps
/// the grid and the indices consistent.
pub proof fn lemma_claim_consistent(
    cells: Seq<Cell>,
    ids: Map<u32, Item>,
    names: Map<Seq<char>, Item>,
    lists: Map<u32, Seq<Position>>,
    item: Item,
    anchor: Position,
)
    requires
        consistent(cells, ids, names, lists),
        !ids.contains_key(item.id),
        anchor.in_grid(),
        1 <= item.quality.width(),
        anchor.zone + item.quality.width() <= MAXPOSITION,
        item.quality matches Quality::Fragile { row, .. } ==> anchor.row < row,
        forall|s: int|
            anchor.slot() <= s < anchor.slot() + item.quality.width() ==> !(
            #[trigger] cells[s]).occupied,
    ensures
        consistent(
            claimed(cells, item, anchor),
            ids.insert(item.id, item),
            names.insert(item.name@, item),
            lists.insert(item.id, span(anchor, item.quality.width())),
        ),
{
    reveal(consistent);
    let width = item.quality.width();
    let cells2 = claimed(cells, item, anchor);
    let ids2 = ids.insert(item.id, item);
    let names2 = names.insert(item.name@, item);
    let list = span(anchor, width);
    let lists2 = lists.insert(item.id, list);
    assert(list[0] == anchor);
    assert(lodged(cells2, item, list));
    assert forall|id: u32| #[trigger] ids2.contains_key(id) implies ids2[id].id == id && lodged(
        cells2,
        ids2[id],
        lists2[id],
    ) by {
        if id != item.id {
            let old_list = lists[id];
            assert(lodged(cells, ids[id], old_list));
            assert(cells[old_list[0].slot()].occupied);
            let base = old_list[0].slot();
            assert forall|s: int| base < s < base + old_list.len() implies #[trigger] cells2[s]
                == (Cell { occupied: true, resident: None }) by {
                assert(cells[s].occupied);
            }
        }
    }
    assert forall|s: int| 0 <= s < cells2.len() && (#[trigger] cells2[s]).occupied implies exists|
        id: u32,
    |
        ids2.contains_key(id) && #[trigger] covers(lists2[id], s) by {
        if anchor.slot() <= s < anchor.slot() + width {
            assert(ids2.contains_key(item.id) && covers(lists2[item.id], s));
        } else {
            assert(cells[s].occupied);
            let id = choose|id: u32| ids.contains_key(id) && #[trigger] covers(lists[id], s);
            assert(ids2.contains_key(id) && covers(lists2[id], s));
        }
    }
    assert forall|a: u32, b: u32, s: int|
        ids2.contains_key(a) && ids2.contains_key(b) && #[trigger] covers(lists2[a], s)
            && #[trigger] covers(lists2[b], s) implies a == b by {
        if a != item.id && b != item.id {
            assert(covers(lists[a], s) && covers(lists[b], s));
        } else if a != b {
            let other = if a == item.id { b } else { a };
            assert(lodged(cells, ids[other], lists[other]));
            assert(covers(lists[other], s));
            assert(cells[s].occupied);
        }
    }
    assert forall|n: Seq<char>| #[trigger] names2.contains_key(n) implies names2[n].name@ == n
        && ids2.contains_key(names2[n].id) && ids2[names2[n].id] == names2[n] by {
        if n != item.name@ {
            assert(names.contains_key(n));
        }
    }
    assert forall|id: u32| ids2.contains_key(id) <==> #[trigger] lists2.contains_key(id) by {
        if id != item.id {
            assert(ids.contains_key(id) <==> lists.contains_key(id));
        }
    }
}

/// Giving up the cells of a stored item and striking it from the indices,
/// together with the name entry filed under its name, keeps the grid and the
/// indices consistent.
pub proof fn lemma_release_consistent(
    cells: Seq<Cell>,
    ids: Map<u32, Item>,
    names: Map<Seq<char>, Item>,
    lists: Map<u32, Seq<Position>>,
    id: u32,
)
    requires
        consistent(cells, ids, names, lists),
        ids.contains_key(id),
    ensures
        consistent(
            released(cells, lists[id]),
            ids.remove(id),
            names.remove(ids[id].name@),
            lists.remove(id),
        ),
{
    reveal(consistent);
    let gone = lists[id];
    let cells2 = released(cells, gone);
    let ids2 = ids.remove(id);
    let names2 = names.remove(ids[id].name@);
    let lists2 = lists.remove(id);
    assert(lists.contains_key(id));
    assert(lodged(cells, ids[id], gone));
    assert forall|other: u32| #[trigger] ids2.contains_key(other) implies ids2[other].id == other
        && lodged(cells2, ids2[other], lists2[other]) by {
        let kept = lists[other];
        assert(ids.contains_key(other));
        assert(lodged(cells, ids[other], kept));
        assert forall|s: int| covers(kept, s) implies !covers(gone, s) by {
            if covers(gone, s) {
                assert(covers(lists[other], s) && covers(lists[id], s));
            }
        }
        assert(covers(kept, kept[0].slot()));
        assert forall|s: int|
            kept[0].slot() < s < kept[0].slot() + kept.len() implies #[trigger] cells2[s] == (Cell {
            occupied: true,
            resident: None,
        }) by {
            assert(covers(kept, s));
        }
    }
    assert forall|s: int| 0 <= s < cells2.len() && (#[trigger] cells2[s]).occupied implies exists|
        other: u32,
    |
        ids2.contains_key(other) && #[trigger] covers(lists2[other], s) by {
        assert(cells[s].occupied);
        let other = choose|other: u32|
            ids.contains_key(other) && #[trigger] covers(lists[other], s);
        assert(ids2.contains_key(other) && covers(lists2[other], s));
    }
    assert forall|a: u32, b: u32, s: int|
        ids2.contains_key(a) && ids2.contains_key(b) && #[trigger] covers(lists2[a], s)
            && #[trigger] covers(lists2[b], s) implies a == b by {
        assert(covers(lists[a], s) && covers(lists[b], s));
    }
    assert forall|n: Seq<char>| #[trigger] names2.contains_key(n) implies names2[n].name@ == n
        && ids2.contains_key(names2[n].id) && ids2[names2[n].id] == names2[n] by {
        assert(names.contains_key(n));
    }
    assert forall|other: u32| ids2.contains_key(other) <==> #[trigger] lists2.contains_key(
        other,
    ) by {
        assert(ids.contains_key(other) <==> lists.contains_key(other));
    }
}

/// A cell that stores an item is the first cell of that item's list, and the
/// item is the one that the identifier index has.
pub proof fn lemma_resident_is_indexed(
    cells: Seq<Cell>,
    ids: Map<u32, Item>,
    names: Map<Seq<char>, Item>,
    lists: Map<u32, Seq<Position>>,
    s: int,
)
    requires
        consistent(cells, ids, names, lists),
        0 <= s < cells.len(),
        cells[s].resident is Some,
    ensures
        ids.contains_key(cells[s].resident->0.id),
        ids[cells[s].resident->0.id] == cells[s].resident->0,
        lists[cells[s].resident->0.id][0].slot() == s,
{
    reveal(consistent);
    assert(cells[s].occupied);
    let id = choose|id: u32| ids.contains_key(id) && #[trigger] covers(lists[id], s);
    assert(lodged(cells, ids[id], lists[id]));
}

/// Whether each stored item sits in the first cell of its own list, and each
/// indexed item is stored there.
pub open spec fn anchored(
    cells: Seq<Cell>,
    ids: Map<u32, Item>,
    lists: Map<u32, Seq<Position>>,
) -> bool {
    &&& forall|s: int|
        0 <= s < cells.len() && (#[trigger] cells[s]).resident is Some ==> {
            let x = cells[s].resident->0;
            ids.contains_key(x.id) && ids[x.id] == x && lists[x.id][0].slot() == s
        }
    &&& forall|id: u32| #[trigger]
        ids.contains_key(id) ==> ids[id].id == id && 0 <= lists[id][0].slot() < cells.len()
            && cells[lists[id][0].slot()].resident == Some(ids[id])
}

/// In a consistent placement the stored items are anchored.
pub proof fn lemma_consistent_anchored(
    cells: Seq<Cell>,
    ids: Map<u32, Item>,
    names: Map<Seq<char>, Item>,
    lists: Map<u32, Seq<Position>>,
)
    requires
        consistent(cells, ids, names, lists),
    ensures
        anchored(cells, ids, lists),
{
    reveal(consistent);
    assert forall|s: int| 0 <= s < cells.len() && (#[trigger] cells[s]).resident is Some implies {
        let x = cells[s].resident->0;
        ids.contains_key(x.id) && ids[x.id] == x && lists[x.id][0].slot() == s
    } by {
        lemma_resident_is_indexed(cells, ids, names, lists, s);
    }
    assert forall|id: u32| #[trigger] ids.contains_key(id) implies ids[id].id == id && 0
        <= lists[id][0].slot() < cells.len() && cells[lists[id][0].slot()].resident == Some(
        ids[id],
    ) by {
        assert(lodged(cells, ids[id], lists[id]));
    }
}

/// Of anchored cells, the items stored in the first `n` are indexed items
/// whose first cell is among those `n`, and all of these.
proof fn lemma_stored_prefix(
    cells: Seq<Cell>,
    ids: Map<u32, Item>,
    lists: Map<u32, Seq<Position>>,
    n: int,
)
    requires
        anchored(cells, ids, lists),
        0 <= n <= cells.len(),
    ensures
        forall|i: int|
            0 <= i < stored_items(cells.take(n)).len() ==> {
                let x = #[trigger] stored_items(cells.take(n))[i];
                ids.contains_key(x.id) && ids[x.id] == x && lists[x.id][0].slot() < n
            },
        forall|i: int, j: int|
            0 <= i < j < stored_items(cells.take(n)).len() ==> (#[trigger] stored_items(
                cells.take(n),
            )[i]).id != (#[trigger] stored_items(cells.take(n))[j]).id,
        forall|id: u32|
            ids.contains_key(id) && lists[id][0].slot() < n ==> stored_items(
                cells.take(n),
            ).contains(#[trigger] ids[id]),
    decreases n,
{
    let now = stored_items(cells.take(n));
    if n == 0 {
        assert(cells.take(0).len() == 0);
        assert(now.len() == 0);
    } else {
        lemma_stored_prefix(cells, ids, lists, n - 1);
        cells.lemma_filter_map_take_succ(resident_of(), n - 1);
        let before = stored_items(cells.take(n - 1));
        match cells[n - 1].resident {
            Some(item) => {
                assert(now == before.push(item));
                assert forall|i: int| 0 <= i < now.len() implies {
                    let x = #[trigger] now[i];
                    ids.contains_key(x.id) && ids[x.id] == x && lists[x.id][0].slot() < n
                } by {
                    if i < before.len() {
                        assert(now[i] == before[i]);
                    }
                }
                assert forall|i: int, j: int| 0 <= i < j < now.len() implies (#[trigger] now[i]).id
                    != (#[trigger] now[j]).id by {
                    assert(now[i] == before[i]);
                    if j < before.len() {
                        assert(now[j] == before[j]);
                    }
                }
                assert forall|id: u32|
                    ids.contains_key(id) && lists[id][0].slot() < n implies now.contains(
                    #[trigger] ids[id],
                ) by {
                    if lists[id][0].slot() < n - 1 {
                        assert(before.contains(ids[id]));
                        let i = choose|i: int| 0 <= i < before.len() && before[i] == ids[id];
                        assert(now[i] == ids[id]);
                    } else {
                        assert(now[before.len() as int] == ids[id]);
                    }
                }
            },
            None => {
                assert(now == before);
            },
        }
    }
}

/// The cells store exactly the items of the identifier index, each once: as
/// many items as there are identifiers, each of them indexed under its own
/// identifier, each indexed item among them, and no identifier twice.
pub proof fn lemma_stored_items_are_indexed(
    cells: Seq<Cell>,
    ids: Map<u32, Item>,
    names: Map<Seq<char>, Item>,
    lists: Map<u32, Seq<Position>>,
)
    requires
        consistent(cells, ids, names, lists),
    ensures
        stored_items(cells).len() == ids.dom().len(),
        forall|i: int|
            0 <= i < stored_items(cells).len() ==> {
                let x = #[trigger] stored_items(cells)[i];
                ids.contains_key(x.id) && ids[x.id] == x
            },
        forall|i: int, j: int|
            0 <= i < j < stored_items(cells).len() ==> (#[trigger] stored_items(cells)[i]).id != (
            #[trigger] stored_items(cells)[j]).id,
        forall|id: u32| ids.contains_key(id) ==> stored_items(cells).contains(#[trigger] ids[id]),
{
    lemma_consistent_anchored(cells, ids, names, lists);
    lemma_stored_prefix(cells, ids, lists, cells.len() as int);
    assert(cells.take(cells.len() as int) == cells);
    let stored = stored_items(cells);
    let keys = stored.map_values(|x: Item| x.id);
    assert(keys.no_duplicates());
    keys.unique_seq_to_set();
    assert(keys.to_set() =~= ids.dom()) by {
        assert forall|id: u32| ids.dom().contains(id) implies keys.to_set().contains(id) by {
            assert(stored.contains(ids[id]));
            let i = choose|i: int| 0 <= i < stored.len() && stored[i] == ids[id];
            assert(keys[i] == id);
        }
        assert forall|id: u32| keys.to_set().contains(id) implies ids.dom().contains(id) by {
            let i = choose|i: int| 0 <= i < keys.len() && keys[i] == id;
            assert(stored[i].id == id);
        }
    }
}

} // verus!
