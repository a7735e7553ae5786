//! Placement of inventory items into a fixed cube of storage slots.
//!
//! A [`Placement`] owns the grid of slots, the strategy that picks a slot
//! for an item, the filters that gate admission, and three indices (by
//! identifier, by name, by identifier to occupied slots) that it keeps
//! consistent with the grid.

pub mod engine;
pub mod error;
pub mod filter;
pub mod grid;
pub mod item;
pub mod laws;
pub mod layout;
pub mod names;
pub mod position;
pub mod strategy;
pub mod text;

pub use crate::engine::Placement;
pub use crate::error::MyError;
pub use crate::filter::{AvoidTooFragile, AvoidTooLarge, Filter};
pub use crate::grid::{Cell, Grid};
pub use crate::item::{Item, Quality};
pub use crate::position::Position;
pub use crate::strategy::{RoundRobin, Strategy};
