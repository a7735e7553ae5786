//! The allocation engine: the grid, the strategy, the filters and the
//! indices, kept consistent with one another.

use std::collections::HashMap;
use vstd::hash_map::StringHashMap;
use vstd::prelude::*;
use crate::error::MyError;
use crate::filter::{admitted, all_allow, Filter};
use crate::grid::{stored_items, Cell, Grid};
use crate::item::{expired_by, Item, Quality};
use crate::laws::{lemma_removed_item_leaves_no_trace, lemma_stored_item_is_lodged};
use crate::layout::{
    claimed, consistent, lemma_claim_consistent, lemma_empty_consistent,
    lemma_indexed_item_is_lodged, lemma_release_consistent, lemma_stored_items_are_indexed,
    released, span,
};
use crate::names::{lemma_sorted_by_name, name_le, sort_by_name, sorted_by_name};
use crate::position::{Position, GRID_SLOTS};
use crate::strategy::{first_fit, suits, RoundRobin, Strategy};

verus! {

/// The views of the position lists.
pub open spec fn list_views(lists: Map<u32, Vec<Position>>) -> Map<u32, Seq<Position>> {
    lists.map_values(|list: Vec<Position>| list@)
}

/// Items stored in a grid, found again by identifier, by name and by position.
///
/// Identifiers are unique among the stored items: an item whose identifier
/// is already stored is refused. Names need not be unique: the name index
/// holds, for each name, the item stored last under it, and removing an item
/// drops the entry filed under its name, whichever item that entry held.
pub struct Placement {
    grid: Grid,
    allocation_strategy: Box<dyn Strategy>,
    id_map: HashMap<u32, Item>,
    name_map: StringHashMap<Item>,
    position_map: HashMap<u32, Vec<Position>>,
    filter_list: Vec<Box<dyn Filter>>,
}

impl Placement {
    /// The grid of slots.
    pub closed spec fn grid(&self) -> Grid {
        self.grid
    }

    /// The stored items by identifier.
    pub closed spec fn id_index(&self) -> Map<u32, Item> {
        self.id_map@
    }

    /// For each name, the item last stored under it, unless an item of that
    /// name has been removed since.
    pub closed spec fn name_index(&self) -> Map<Seq<char>, Item> {
        self.name_map@
    }

    /// For each stored item's identifier, the positions it takes up, the one
    /// that stores the item first.
    pub closed spec fn position_index(&self) -> Map<u32, Seq<Position>> {
        list_views(self.position_map@)
    }

    /// The filters an item must pass.
    pub closed spec fn filters(&self) -> Seq<Box<dyn Filter>> {
        self.filter_list@
    }

    /// The slot that the strategy picks for `item` in `grid`.
    pub closed spec fn strategy_choice(&self, item: Item, grid: Grid) -> Option<Position> {
        self.allocation_strategy.choice(item, grid)
    }

    /// The grid and the indices describe the same placement.
    pub open spec fn wf(&self) -> bool {
        &&& self.grid().wf()
        &&& consistent(self.grid()@, self.id_index(), self.name_index(), self.position_index())
    }

    /// Whether every filter lets `item` in.
    pub open spec fn admits(&self, item: Item) -> bool {
        admitted(self.filters(), item, self.grid())
    }

    /// The slot that the strategy picks for `item` in the present grid.
    pub open spec fn anchor_for(&self, item: Item) -> Option<Position> {
        self.strategy_choice(item, self.grid())
    }

    /// Whether the strategy is the row-major scan for the first slot that suits.
    pub open spec fn scans_row_major(&self) -> bool {
        forall|item: Item, grid: Grid| #[trigger]
            self.strategy_choice(item, grid) == first_fit(item.quality, grid)
    }

    /// Whether `other` has the same strategy and the same filters.
    pub open spec fn same_rules(&self, other: &Placement) -> bool {
        &&& self.filters() == other.filters()
        &&& forall|item: Item, grid: Grid| #[trigger]
            self.strategy_choice(item, grid) == other.strategy_choice(item, grid)
    }

    /// Whether `other` has the same grid and the same indices.
    pub open spec fn same_contents(&self, other: &Placement) -> bool {
        &&& self.grid() == other.grid()
        &&& self.id_index() == other.id_index()
        &&& self.name_index() == other.name_index()
        &&& self.position_index() == other.position_index()
    }

    /// How adding `item` ends: turned away by a filter, else without a slot,
    /// else refused because its identifier is already stored, else stored.
    pub open spec fn add_outcome(&self, item: Item) -> Result<(), MyError> {
        if !self.admits(item) {
            Err(MyError::BlockedByFilter(item))
        } else if self.anchor_for(item) is None {
            Err(MyError::FailedAllocation(item))
        } else if self.id_index().contains_key(item.id) {
            Err(MyError::FailedAdd(item))
        } else {
            Ok(())
        }
    }

    /// An empty placement that scans in row-major order and has no filters.
    pub fn new() -> (p: Placement)
        ensures
            p.wf(),
            forall|s: int|
                0 <= s < GRID_SLOTS ==> p.grid()@[s] == (Cell { occupied: false, resident: None }),
            p.id_index() == Map::<u32, Item>::empty(),
            p.name_index() == Map::<Seq<char>, Item>::empty(),
            p.position_index() == Map::<u32, Seq<Position>>::empty(),
            p.filters() == Seq::<Box<dyn Filter>>::empty(),
            p.scans_row_major(),
    {
        let p = Placement {
            grid: Grid::new(),
            allocation_strategy: Box::new(RoundRobin {}),
            id_map: HashMap::new(),
            name_map: StringHashMap::new(),
            position_map: HashMap::new(),
            filter_list: Vec::new(),
        };
        proof {
            assert(p.position_index() =~= Map::<u32, Seq<Position>>::empty());
            lemma_empty_consistent(p.grid@);
        }
        p
    }

    /// The grid of slots, to look into.
    pub fn storage(&self) -> (grid: &Grid)
        ensures
            *grid == self.grid(),
    {
        &self.grid
    }

    /// Replaces the filters.
    pub fn configure_filters(&mut self, list: Vec<Box<dyn Filter>>)
        requires
            old(self).wf(),
        ensures
            final(self).wf(),
            final(self).filters() == list@,
            final(self).same_contents(old(self)),
            forall|item: Item, grid: Grid| #[trigger]
                final(self).strategy_choice(item, grid) == old(self).strategy_choice(item, grid),
    {
        self.filter_list = list
    }

    /// Whether every filter lets `item` in.
    pub fn is_allowed_by_filters(&self, item: &Item) -> (allowed: bool)
        requires
            self.wf(),
        ensures
            allowed == self.admits(*item),
    {
        all_allow(&self.filter_list, item, &self.grid)
    }

    /// Stores `item` in the slot that the strategy picks for it.
    ///
    /// The item must pass every filter, the strategy must find a slot, and
    /// the identifier must not be stored already; otherwise nothing changes.
    /// On success the picked slot stores the item, the rest of its span is
    /// taken, and the three indices know the item.
    pub fn add_item(&mut self, item: Item) -> (outcome: Result<(), MyError>)
        requires
            old(self).wf(),
        ensures
            final(self).wf(),
            final(self).same_rules(old(self)),
            outcome == old(self).add_outcome(item),
            outcome is Err ==> final(self).same_contents(old(self)),
            old(self).admits(item) && (forall|p: Position|
                !suits(item.quality, old(self).grid(), p)) ==> outcome == Err::<(), MyError>(
                MyError::FailedAllocation(item),
            ),
            outcome is Ok ==> {
                let anchor = old(self).anchor_for(item)->0;
                &&& suits(item.quality, old(self).grid(), anchor)
                &&& final(self).grid()@ == claimed(old(self).grid()@, item, anchor)
                &&& final(self).id_index() == old(self).id_index().insert(item.id, item)
                &&& final(self).name_index() == old(self).name_index().insert(item.name@, item)
                &&& final(self).position_index() == old(self).position_index().insert(
                    item.id,
                    span(anchor, item.quality.width()),
                )
            },
            outcome is Ok ==> {
                let list = final(self).position_index()[item.id];
                &&& list.len() >= 1
                &&& final(self).grid().entry(list[0]).resident == Some(item)
                &&& forall|k: int|
                    0 <= k < list.len() ==> final(self).grid().entry(#[trigger] list[k]).occupied
            },
    {
        if !self.is_allowed_by_filters(&item) {
            return Err(MyError::BlockedByFilter(item));
        }
        let position = match self.allocation_strategy.allocate(&item, &self.grid) {
            Some(position) => position,
            None => {
                return Err(MyError::FailedAllocation(item));
            },
        };
        if self.id_map.contains_key(&item.id) {
            return Err(MyError::FailedAdd(item));
        }
        let width: u32 = match &item.quality {
            Quality::Oversized { continuous_zones } => *continuous_zones,
            _ => 1,
        };
        proof {
            let cells = self.grid@;
            assert forall|s: int| position.slot() <= s < position.slot() + width implies !(
            #[trigger] cells[s]).occupied by {
                let k = s - position.slot();
                assert(self.grid.free_at(position.shifted(k)));
            }
            lemma_claim_consistent(
                self.grid@,
                self.id_map@,
                self.name_map@,
                list_views(self.position_map@),
                item,
                position,
            );
        }
        let ghost lists = self.position_map@;
        let list = self.grid.claim(item.clone(), &position, width);
        self.position_map.insert(item.id, list);
        self.name_map.insert(item.name.clone(), item.clone());
        self.id_map.insert(item.id, item);
        assert(list_views(self.position_map@) =~= list_views(lists).insert(item.id, list@));
        proof {
            lemma_stored_item_is_lodged(*self, item.id);
        }
        Ok(())
    }

    /// Takes the item with this identifier out of the grid and the indices.
    ///
    /// Every slot of the item becomes free. The name entry filed under the
    /// item's name goes too, whichever item it held. Filters are not asked.
    pub fn remove_item(&mut self, id: u32) -> (outcome: Result<(), MyError>)
        requires
            old(self).wf(),
        ensures
            final(self).wf(),
            final(self).same_rules(old(self)),
            !old(self).id_index().contains_key(id) ==> outcome == Err::<(), MyError>(
                MyError::FailedRemove(id),
            ) && final(self).same_contents(old(self)),
            old(self).id_index().contains_key(id) ==> {
                &&& outcome == Ok::<(), MyError>(())
                &&& final(self).grid()@ == released(
                    old(self).grid()@,
                    old(self).position_index()[id],
                )
                &&& final(self).id_index() == old(self).id_index().remove(id)
                &&& final(self).name_index() == old(self).name_index().remove(
                    old(self).id_index()[id].name@,
                )
                &&& final(self).position_index() == old(self).position_index().remove(id)
                &&& forall|k: int|
                    0 <= k < old(self).position_index()[id].len() ==> final(self).grid().entry(
                        #[trigger] old(self).position_index()[id][k],
                    ) == (Cell { occupied: false, resident: None })
            },
    {
        let item = match self.id_map.remove(&id) {
            Some(item) => item,
            None => {
                assert(self.id_map@ =~= old(self).id_map@);
                return Err(MyError::FailedRemove(id));
            },
        };
        let ghost lists = self.position_map@;
        proof {
            lemma_release_consistent(
                old(self).grid@,
                old(self).id_map@,
                old(self).name_map@,
                list_views(lists),
                id,
            );
            lemma_indexed_item_is_lodged(
                old(self).grid@,
                old(self).id_map@,
                old(self).name_map@,
                list_views(lists),
                id,
            );
        }
        match self.position_map.remove(&id) {
            Some(list) => {
                assert(list@ == list_views(lists)[id]);
                self.grid.release(&list);
            },
            None => {},
        }
        self.name_map.remove(item.name.as_str());
        assert(list_views(self.position_map@) =~= list_views(lists).remove(id));
        assert(self.grid@ == released(old(self).grid@, list_views(lists)[id]));
        assert(self.id_map@ == old(self).id_map@.remove(id));
        assert(self.name_map@ == old(self).name_map@.remove(old(self).id_map@[id].name@));
        assert forall|k: int| 0 <= k < list_views(lists)[id].len() implies self.grid.entry(
            #[trigger] list_views(lists)[id][k],
        ) == (Cell { occupied: false, resident: None }) by {
            lemma_removed_item_leaves_no_trace(*old(self), id, k);
        }
        Ok(())
    }

    /// The stored items sorted by name, ignoring case. Items whose names
    /// are level come in row-major order of their slots.
    pub fn alphabetical(&self) -> (list: Vec<Item>)
        requires
            self.wf(),
        ensures
            sorted_by_name(stored_items(self.grid()@), list@),
            list@.len() == self.id_index().dom().len(),
            forall|i: int, j: int| 0 <= i < j < list@.len() ==> name_le(list@[i], list@[j]),
            forall|i: int|
                0 <= i < list@.len() ==> self.id_index().contains_key((#[trigger] list@[i]).id)
                    && self.id_index()[list@[i].id] == list@[i],
    {
        let residents = self.grid.residents();
        let list = sort_by_name(residents);
        proof {
            lemma_stored_items_are_indexed(
                self.grid@,
                self.id_map@,
                self.name_map@,
                list_views(self.position_map@),
            );
            lemma_sorted_by_name(residents@, list@);
            assert forall|i: int| 0 <= i < list@.len() implies self.id_map@.contains_key(
                (#[trigger] list@[i]).id,
            ) && self.id_map@[list@[i].id] == list@[i] by {
                assert(residents@.contains(list@[i]));
                let k = choose|k: int| 0 <= k < residents@.len() && residents@[k] == list@[i];
                assert(self.id_map@.contains_key(residents@[k].id));
            }
        }
        list
    }

    /// The stored fragile items that expire on `expiration_date` (day,
    /// month, year) or before it, in row-major order of their slots; nothing
    /// if there is none. No item comes twice.
    pub fn check_expired_products(&self, expiration_date: [u32; 3]) -> (found: Option<Vec<Item>>)
        requires
            self.wf(),
        ensures
            match found {
                Some(list) => list@.len() > 0 && list@ == stored_items(self.grid()@).filter(
                    expired_by(expiration_date),
                ),
                None => stored_items(self.grid()@).filter(expired_by(expiration_date)).len() == 0,
            },
            found matches Some(list) ==> forall|i: int, j: int|
                0 <= i < j < list@.len() ==> (#[trigger] list@[i]).id != (#[trigger] list@[j]).id,
    {
        let residents = self.grid.residents();
        let mut expired_items: Vec<Item> = Vec::new();
        proof {
            lemma_stored_items_are_indexed(
                self.grid@,
                self.id_map@,
                self.name_map@,
                list_views(self.position_map@),
            );
        }
        let mut i: usize = 0;
        while i < residents.len()
            invariant
                i <= residents@.len(),
                expired_items@ == residents@.take(i as int).filter(expired_by(expiration_date)),
                forall|a: int, b: int|
                    0 <= a < b < residents@.len() ==> (#[trigger] residents@[a]).id != (
                    #[trigger] residents@[b]).id,
                forall|a: int|
                    0 <= a < expired_items@.len() ==> exists|b: int|
                        0 <= b < i && #[trigger] residents@[b] == #[trigger] expired_items@[a],
                forall|a: int, b: int|
                    0 <= a < b < expired_items@.len() ==> (#[trigger] expired_items@[a]).id != (
                    #[trigger] expired_items@[b]).id,
            decreases residents.len() - i,
        {
            proof {
                assert(residents@.take(i as int + 1) == residents@.take(i as int).push(
                    residents@[i as int],
                ));
                residents@.take(i as int).lemma_filter_push(
                    residents@[i as int],
                    expired_by(expiration_date),
                );
            }
            if residents[i].is_expired(&expiration_date) {
                let ghost before = expired_items@;
                expired_items.push(residents[i].clone());
                assert forall|a: int| 0 <= a < expired_items@.len() implies exists|b: int|
                    0 <= b < i + 1 && #[trigger] residents@[b] == #[trigger] expired_items@[a] by {
                    if a < before.len() {
                        let b = choose|b: int|
                            0 <= b < i && #[trigger] residents@[b] == #[trigger] before[a];
                        assert(residents@[b] == expired_items@[a]);
                    } else {
                        assert(residents@[i as int] == expired_items@[a]);
                    }
                }
                assert forall|a: int, b: int| 0 <= a < b < expired_items@.len() implies (
                #[trigger] expired_items@[a]).id != (#[trigger] expired_items@[b]).id by {
                    if b == before.len() {
                        let c = choose|c: int|
                            0 <= c < i && #[trigger] residents@[c] == #[trigger] before[a];
                        assert(residents@[c].id != residents@[i as int].id);
                    } else {
                        assert(before[a].id != before[b].id);
                    }
                }
            }
            i = i + 1;
        }
        assert(residents@.take(i as int) == residents@);
        if expired_items.len() == 0 {
            None
        } else {
            Some(expired_items)
        }
    }

    /// The stored item with this identifier.
    pub fn id_search(&self, search_id: u32) -> (found: Option<&Item>)
        ensures
            found == (if self.id_index().contains_key(search_id) {
                Some(&self.id_index()[search_id])
            } else {
                None
            }),
    {
        self.id_map.get(&search_id)
    }

    /// The item filed under this name.
    pub fn name_search(&self, search_name: String) -> (found: Option<&Item>)
        ensures
            found == (if self.name_index().contains_key(search_name@) {
                Some(&self.name_index()[search_name@])
            } else {
                None
            }),
    {
        self.name_map.get(search_name.as_str())
    }

    /// The positions that the item with this identifier takes up, the one
    /// that stores it first.
    pub fn position_search(&self, id: u32) -> (found: Option<Vec<Position>>)
        ensures
            match found {
                Some(list) => self.position_index().contains_key(id) && list@
                    == self.position_index()[id],
                None => !self.position_index().contains_key(id),
            },
    {
        match self.position_map.get(&id) {
            Some(list) => Some(list.clone()),
            None => None,
        }
    }
}

} // verus!
