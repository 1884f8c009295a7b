//! A capacity-bounded, ordered inventory of game items.
//!
//! An [`item::Item`] is an immutable value record: a name, a category and a
//! non-negative worth. An [`inventory::Inventory`] holds items in insertion
//! order, never more than its fixed number of slots, and offers insertion,
//! removal by position, lookup, a fullness check and the total worth of what
//! it holds.

pub mod inventory;
pub mod item;
