//! The letters of a menu: which letter stands before which entry, and which
//! entry a key picks.

use vstd::prelude::*;
use vstd::string::StringExecFns;
use crate::inventory::INVENTORY_CAPACITY;
use crate::object::{world, Object, ObjectView};

verus! {

/// The most entries a menu can have: one for each letter from `a` to `z`.
pub const MENU_CAPACITY: usize = 26;

/// The letter that stands before entry number `index`: `a` for the first,
/// `b` for the second, and so on.
pub open spec fn letter_of(index: int) -> char {
    (97 + index) as char
}

/// The entry that a key picks from a menu of `count` entries: the one whose
/// letter it is, whether typed small or large, if there is such an entry.
pub open spec fn choice_of(key: char, count: int) -> Option<int> {
    if 'a' <= key <= 'z' && key as int - 97 < count {
        Some(key as int - 97)
    } else if 'A' <= key <= 'Z' && key as int - 65 < count {
        Some(key as int - 65)
    } else {
        None
    }
}

/// The letter that stands before entry number `index`.
pub fn menu_letter(index: usize) -> (letter: char)
    requires
        index < MENU_CAPACITY,
    ensures
        letter == letter_of(index as int),
        'a' <= letter <= 'z',
{
    (97u8 + index as u8) as char
}

/// The entry that the key picks from a menu of `count` entries, if any.
pub fn menu_choice(key: char, count: usize) -> (choice: Option<usize>)
    requires
        count <= MENU_CAPACITY,
    ensures
        match choice {
            Some(index) => choice_of(key, count as int) == Some(index as int),
            None => choice_of(key, count as int) is None,
        },
{
    let code = key as u32;
    let index = if 'a' <= key && key <= 'z' {
        (code - 97) as usize
    } else if 'A' <= key && key <= 'Z' {
        (code - 65) as usize
    } else {
        return None;
    };
    if index < count {
        Some(index)
    } else {
        None
    }
}

/// One line of a menu: the entry's letter in brackets, a blank, and the
/// entry's text.
pub open spec fn line_of(index: int, text: Seq<char>) -> Seq<char> {
    seq!['(', letter_of(index), ')', ' '] + text
}

/// The line that shows entry number `index` of a menu.
pub fn menu_line(index: usize, text: &str) -> (line: String)
    requires
        index < MENU_CAPACITY,
    ensures
        line@ == line_of(index as int, text@),
{
    let mut line = String::new();
    line.push('(');
    line.push(menu_letter(index));
    line.push(')');
    line.push(' ');
    line.append(text);
    assert(line@ =~= line_of(index as int, text@));
    line
}

/// The lines of a menu, one for each entry and in the same order.
pub fn menu_lines(options: &Vec<String>) -> (lines: Vec<String>)
    requires
        options@.len() <= MENU_CAPACITY,
    ensures
        lines@.len() == options@.len(),
        forall|i: int| 0 <= i < options@.len() ==> (#[trigger] lines@[i])@ == line_of(i, options@[i]@),
{
    let mut lines: Vec<String> = Vec::new();
    let mut i: usize = 0;
    while i < options.len()
        invariant
            i <= options@.len() <= MENU_CAPACITY,
            lines@.len() == i,
            forall|j: int| 0 <= j < i ==> (#[trigger] lines@[j])@ == line_of(j, options@[j]@),
        decreases options@.len() - i,
    {
        lines.push(menu_line(i, options[i].as_str()));
        i += 1;
    }
    lines
}

/// The entries of the inventory menu: the names of what the player carries,
/// in the order of the slots, or a single line that says that there is
/// nothing.
pub open spec fn inventory_entries(inventory: Seq<ObjectView>) -> Seq<Seq<char>> {
    if inventory.len() == 0 {
        seq!["Inventory is empty"@]
    } else {
        inventory.map_values(|item: ObjectView| item.name)
    }
}

/// The entries of the inventory menu.
pub fn inventory_options(inventory: &[Object]) -> (options: Vec<String>)
    ensures
        options@.map_values(|text: String| text@) == inventory_entries(world(inventory@)),
{
    let mut options: Vec<String> = Vec::new();
    if inventory.len() == 0 {
        options.push(String::from_str("Inventory is empty"));
    } else {
        let mut i: usize = 0;
        while i < inventory.len()
            invariant
                i <= inventory@.len(),
                options@.len() == i,
                forall|j: int| 0 <= j < i ==> (#[trigger] options@[j])@ == inventory@[j].name@,
            decreases inventory@.len() - i,
        {
            options.push(inventory[i].name.clone());
            i += 1;
        }
    }
    assert(options@.map_values(|text: String| text@) =~= inventory_entries(world(inventory@)));
    options
}

/// The slot that a key picks from the inventory menu, if any. The line that
/// stands for an empty inventory cannot be picked.
pub fn inventory_choice(key: char, inventory: &[Object]) -> (choice: Option<usize>)
    requires
        inventory@.len() <= INVENTORY_CAPACITY,
    ensures
        match choice {
            Some(slot) => choice_of(key, inventory@.len() as int) == Some(slot as int),
            None => choice_of(key, inventory@.len() as int) is None,
        },
        choice matches Some(slot) ==> slot < inventory@.len(),
{
    menu_choice(key, inventory.len())
}

} // verus!
