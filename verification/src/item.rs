//! The item record and its closed set of categories.

use vstd::prelude::*;

verus! {

/// The kinds an item can belong to. Purely a classification: no kind carries
/// data or behaviour of its own.
#[derive(Debug, Clone, PartialEq, Eq, Structural)]
pub enum ItemType {
    Weapon,
    Armor,
    Potion,
}

/// One inventory entry: a display name, a category and a non-negative worth.
/// An item is never mutated in place after construction; replacing it is the
/// only way to "change" it.
#[derive(Debug, Clone, PartialEq)]
pub struct Item {
    pub name: String,
    pub item_type: ItemType,
    pub value: u32,
}

impl Item {
    /// Builds an item with the given fields set verbatim. No validation and
    /// no failure path.
    pub fn new(name: &str, item_type: ItemType, value: u32) -> (r: Item)
        ensures
            r.name@ == name@,
            r.item_type == item_type,
            r.value == value,
    {
        Item { name: name.to_owned(), item_type, value }
    }
}

} // verus!
