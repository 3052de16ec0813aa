//! What a menu offers and which of its options a key picks.

use vstd::prelude::*;
use vstd::string::StringExecFns;
use crate::entity::Entity;

verus! {

/// Most options that a menu can offer: one for each letter.
pub const MENU_CAPACITY: usize = 26;

/// The place of the letter `key` in the alphabet, counted from 0, without
/// regard to its case; nothing for what is no letter from `a` to `z`.
pub open spec fn letter_index(key: char) -> Option<int> {
    if 'a' <= key <= 'z' {
        Some(key as int - 'a' as int)
    } else if 'A' <= key <= 'Z' {
        Some(key as int - 'A' as int)
    } else {
        None
    }
}

/// The option that `key` picks from a menu of `options` options: the one
/// at the place of the letter, if the menu has that many.
pub open spec fn picked_option(key: char, options: int) -> Option<usize> {
    match letter_index(key) {
        Some(index) => if index < options {
            Some(index as usize)
        } else {
            None
        },
        None => None,
    }
}

/// What the inventory menu offers: the names of the items, or one line
/// that says that there are none.
pub open spec fn inventory_lines(inventory: Seq<Seq<char>>) -> Seq<Seq<char>> {
    if inventory.len() == 0 {
        seq!["Inventory is empty."@]
    } else {
        inventory
    }
}

/// The option that `key` picks from a menu of `options` options.
pub fn menu_choice(key: char, options: usize) -> (choice: Option<usize>)
    requires
        options <= MENU_CAPACITY,
    ensures
        choice == picked_option(key, options as int),
{
    let index: u32 = if 'a' <= key && key <= 'z' {
        key as u32 - 'a' as u32
    } else if 'A' <= key && key <= 'Z' {
        key as u32 - 'A' as u32
    } else {
        return None;
    };
    if (index as usize) < options {
        Some(index as usize)
    } else {
        None
    }
}

/// What the inventory menu offers.
pub fn inventory_options(inventory: &Vec<Entity>) -> (options: Vec<String>)
    ensures
        options.deep_view() == inventory_lines(
            Seq::new(inventory.len() as nat, |i: int| inventory[i].name@),
        ),
{
    let mut options: Vec<String> = Vec::new();
    if inventory.len() == 0 {
        options.push(String::from_str("Inventory is empty."));
        assert(options.deep_view() =~= seq!["Inventory is empty."@]);
        return options;
    }
    let mut i: usize = 0;
    while i < inventory.len()
        invariant
            0 <= i <= inventory.len(),
            options.len() == i,
            forall|j: int| 0 <= j < i ==> (#[trigger] options[j])@ == inventory[j].name@,
        decreases inventory.len() - i,
    {
        options.push(inventory[i].get_name());
        i = i + 1;
    }
    assert(options.deep_view() =~= Seq::new(inventory.len() as nat, |i: int| inventory[i].name@));
    options
}

/// The slot that was picked in the inventory menu: the option that was
/// picked, unless the inventory is empty and the menu held no item.
pub fn inventory_choice(items: usize, picked: Option<usize>) -> (slot: Option<usize>)
    ensures
        slot == if items > 0 {
            picked
        } else {
            None
        },
{
    if items > 0 {
        picked
    } else {
        None
    }
}

} // verus!
