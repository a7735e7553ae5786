//! Inventory records and the placement constraints they carry.

use vstd::prelude::*;

verus! {

/// What an item demands of the slot it is stored in.
#[derive(Copy, Clone, Debug, PartialEq, Eq, Hash)]
pub enum Quality {
    /// Needs a row strictly below `row`; `expiration_date` is day, month, year.
    Fragile { expiration_date: [u32; 3], row: u32 },
    /// Needs `continuous_zones` neighbouring zones on one row and shelf.
    Oversized { continuous_zones: u32 },
    /// Fits anywhere.
    Normal,
}

impl Quality {
    /// Number of slots an item of this quality takes up.
    pub open spec fn width(self) -> int {
        match self {
            Quality::Oversized { continuous_zones } => continuous_zones as int,
            _ => 1,
        }
    }
}

/// An inventory record. Records are values: to change one, remove it and add
/// the changed record.
#[derive(Debug, PartialEq, Eq, Hash)]
pub struct Item {
    pub id: u32,
    pub name: String,
    pub quantity: u32,
    pub quality: Quality,
}

/// Whether the day `date` is the day `reference` or an earlier one. Both are
/// day, month, year; the year weighs most, then the month, then the day.
pub open spec fn on_or_before(date: [u32; 3], reference: [u32; 3]) -> bool {
    reference[2] > date[2] || (reference[2] == date[2] && (reference[1] > date[1] || (reference[1]
        == date[1] && reference[0] >= date[0])))
}

/// Whether `item` is fragile and expires on `reference` or before it.
pub open spec fn expired(item: Item, reference: [u32; 3]) -> bool {
    item.quality matches Quality::Fragile { expiration_date, .. } && on_or_before(
        expiration_date,
        reference,
    )
}

/// The test for having expired by `reference`.
pub open spec fn expired_by(reference: [u32; 3]) -> spec_fn(Item) -> bool {
    |item: Item| expired(item, reference)
}

impl Item {
    /// Whether the item is fragile and expires on `reference` or before it.
    pub fn is_expired(&self, reference: &[u32; 3]) -> (due: bool)
        ensures
            due == expired(*self, *reference),
    {
        match &self.quality {
            Quality::Fragile { expiration_date, .. } => {
                let current_day = reference[0];
                let current_month = reference[1];
                let current_year = reference[2];
                let item_day = expiration_date[0];
                let item_month = expiration_date[1];
                let item_year = expiration_date[2];
                current_year > item_year || (current_year == item_year && current_month
                    > item_month) || (current_year == item_year && current_month == item_month
                    && current_day >= item_day)
            },
            _ => false,
        }
    }
}

impl Clone for Item {
    fn clone(&self) -> (copy: Item)
        ensures
            copy == *self,
    {
        Item {
            id: self.id,
            name: self.name.clone(),
            quantity: self.quantity,
            quality: self.quality,
        }
    }
}

} // verus!
