//! Ordering of items by name, ignoring case.

use std::cmp::Ordering;
use itertools::Itertools;
use vstd::prelude::*;
use crate::item::Item;
use crate::text::{lowercase, text_precedes};

verus! {

/// The key by which an item is sorted: its name in lower case.
pub open spec fn name_key(item: Item) -> Seq<char> {
    lowercase(item.name@)
}

/// Whether `a` sorts strictly before `b`.
pub open spec fn name_precedes(a: Item, b: Item) -> bool {
    text_precedes(name_key(a), name_key(b))
}

/// Whether `a` sorts before `b` or level with it.
pub open spec fn name_le(a: Item, b: Item) -> bool {
    name_precedes(a, b) || name_key(a) == name_key(b)
}

/// Whether `after` holds the items of `before`, with `after[i]` taken from
/// index `from[i]` and no index taken twice.
pub open spec fn rearranges(from: Seq<int>, before: Seq<Item>, after: Seq<Item>) -> bool {
    &&& from.len() == before.len()
    &&& after.len() == before.len()
    &&& forall|i: int|
        0 <= i < from.len() ==> 0 <= #[trigger] from[i] < before.len() && after[i]
            == before[from[i]]
    &&& forall|i: int, j: int|
        0 <= i < j < from.len() ==> #[trigger] from[i] != #[trigger] from[j]
}

/// Whether `from` rearranges `before` into `after` so that the names
/// ascend, items of equal key staying in the order they had in `before`.
pub open spec fn sorts_by_name(from: Seq<int>, before: Seq<Item>, after: Seq<Item>) -> bool {
    &&& rearranges(from, before, after)
    &&& forall|i: int, j: int|
        0 <= i < j < after.len() ==> name_precedes(#[trigger] after[i], #[trigger] after[j]) || (
        name_key(after[i]) == name_key(after[j]) && from[i] < from[j])
}

/// Whether `after` is `before` sorted by name, items of equal key staying in
/// the order they had in `before`.
pub open spec fn sorted_by_name(before: Seq<Item>, after: Seq<Item>) -> bool {
    exists|from: Seq<int>| sorts_by_name(from, before, after)
}

/// Calls `str::to_lowercase` of std. Taken on trust: the result is the
/// lower-case form of `text`, which depends on the characters of `text`
/// alone.
#[verifier::external_body]
fn lowered(text: &String) -> (lower: String)
    ensures
        lower@ == lowercase(text@),
{
    text.to_lowercase()
}

/// Calls `Ord::cmp` of std on two strings. Taken on trust: strings are
/// ordered lexicographically by their bytes, which orders them by the code
/// points of their characters, a shorter string coming before its extensions.
#[verifier::external_body]
fn text_order(a: &String, b: &String) -> (o: Ordering)
    ensures
        o == Ordering::Less <==> text_precedes(a@, b@),
        o == Ordering::Equal <==> a@ == b@,
        o == Ordering::Greater <==> text_precedes(b@, a@),
{
    a.cmp(b)
}

/// Compares two items by their names in lower case.
pub fn name_order(a: &Item, b: &Item) -> (o: Ordering)
    ensures
        o == Ordering::Less <==> name_precedes(*a, *b),
        o == Ordering::Equal <==> name_key(*a) == name_key(*b),
        o == Ordering::Greater <==> name_precedes(*b, *a),
{
    let la = lowered(&a.name);
    let lb = lowered(&b.name);
    text_order(&la, &lb)
}

/// Calls `Itertools::sorted_by` of itertools with `name_order` as the
/// comparison. Taken on trust: the same items come back in ascending order,
/// and the sort is stable, so items that compare equal keep their relative
/// order. The comparison is a total order of the keys, as the sort expects.
#[verifier::external_body]
pub(crate) fn sort_by_name(items: Vec<Item>) -> (sorted: Vec<Item>)
    ensures
        sorted_by_name(items@, sorted@),
{
    items.into_iter().sorted_by(|a, b| name_order(a, b)).collect()
}

/// A sequence sorted by name has the length of the unsorted one, is
/// non-decreasing, and holds the same items.
pub proof fn lemma_sorted_by_name(before: Seq<Item>, after: Seq<Item>)
    requires
        sorted_by_name(before, after),
    ensures
        after.len() == before.len(),
        forall|i: int, j: int| 0 <= i < j < after.len() ==> name_le(after[i], after[j]),
        forall|i: int| 0 <= i < after.len() ==> before.contains(#[trigger] after[i]),
{
    let from = choose|from: Seq<int>| sorts_by_name(from, before, after);
    assert forall|i: int, j: int| 0 <= i < j < after.len() implies name_le(after[i], after[j]) by {
        assert(name_precedes(after[i], after[j]) || name_key(after[i]) == name_key(after[j]));
    }
    assert forall|i: int| 0 <= i < after.len() implies before.contains(#[trigger] after[i]) by {
        assert(after[i] == before[from[i]]);
    }
}

} // verus!
