//! A turn-based dungeon crawl: level generation, entities, combat, simple
//! monster behaviour and an inventory, all as rules on plain data.
//!
//! Drawing and input are left to the program that uses the library.

use vstd::prelude::*;

use crate::gamemap::GameMap;
use crate::gui::{Message, Messages};
use crate::object::Object;

pub mod ai;
pub mod colors;
pub mod fov;
pub mod gamemap;
pub mod gui;
pub mod inventory;
pub mod menu;
pub mod object;
pub mod text;
pub mod turn;

verus! {

pub const SCREEN_WIDTH: i32 = 80;

pub const SCREEN_HEIGHT: i32 = 50;

/// The player is always the first entity of the world.
pub const PLAYER_ID: usize = 0;

/// Everything of a level but the entities that walk it.
pub struct Game {
    pub map: GameMap,
    pub messages: Messages,
    /// What the player carries, in the order in which it was picked up.
    pub inventory: Vec<Object>,
}

impl Game {
    /// Whether this state differs from `before` only by `lines` at the end of
    /// the log.
    pub open spec fn logged(self, before: Game, lines: Seq<Message>) -> bool {
        &&& self.map == before.map
        &&& self.inventory == before.inventory
        &&& self.messages@ =~= before.messages@ + lines
    }
}

/// Borrows two different elements of one slice mutably at the same time, in
/// the order in which their indices were given.
///
/// The slice is cut in two at the larger index, so the two borrows can never
/// overlap, whichever index is the larger one.
pub fn mut_two<T>(first_index: usize, second_index: usize, items: &mut [T]) -> (pair: (
    &mut T,
    &mut T,
))
    requires
        first_index != second_index,
        first_index < old(items)@.len(),
        second_index < old(items)@.len(),
    ensures
        *pair.0 == old(items)@[first_index as int],
        *pair.1 == old(items)@[second_index as int],
        final(items)@ == old(items)@.update(first_index as int, *final(pair.0)).update(
            second_index as int,
            *final(pair.1),
        ),
{
    let split_at_index = if first_index < second_index {
        second_index
    } else {
        first_index
    };
    let (first_slice, second_slice) = items.split_at_mut(split_at_index);
    if first_index < second_index {
        (&mut first_slice[first_index], &mut second_slice[0])
    } else {
        (&mut second_slice[0], &mut first_slice[second_index])
    }
}

} // verus!
