//! Picking items up and using them.

use vstd::prelude::*;
use vstd::string::StringExecFns;
use crate::{Game, PLAYER_ID};
use crate::colors::{green, light_violet, red, white};
use crate::gui::Message;
use crate::object::{healed, world, Object, ObjectView};

verus! {

/// What an item does when it is used.
#[derive(Clone, Copy, Debug, PartialEq, Eq, Structural)]
pub enum Item {
    /// Gives the player some hit points back.
    Heal,
}

/// How the use of an item ended.
#[derive(Clone, Copy, Debug, PartialEq, Eq, Structural)]
pub enum UseResult {
    /// The item did its work and is gone.
    UsedUp,
    /// Nothing happened and the item is still there.
    Cancelled,
}

/// How many hit points a healing potion gives back.
pub const HEAL_AMOUNT: i32 = 4;

/// How many items the player can carry: one for each letter of the menu.
pub const INVENTORY_CAPACITY: usize = 26;

/// The entities without number `id`: the last one has taken its place, so
/// the numbers of all the others are what they were.
pub open spec fn taken_out(entities: Seq<ObjectView>, id: int) -> Seq<ObjectView> {
    entities.update(id, entities.last()).drop_last()
}

/// The log line for an item that does not fit into the inventory.
pub open spec fn inventory_full_message(item: ObjectView) -> Message {
    ("Your inventory is full, cannot pick up "@ + item.name, red())
}

/// The log line for an item that went into the inventory.
pub open spec fn picked_up_message(item: ObjectView) -> Message {
    ("You picked up a "@ + item.name + "!"@, green())
}

/// Whether the state `after` is what picking up entity number `id` makes of
/// the state `before`.
///
/// With a full inventory only the log has grown, by the line that says so.
/// Otherwise the entity has left the world for the end of the inventory,
/// and the log says that.
pub open spec fn picked_up(
    before: Game,
    world_before: Seq<Object>,
    after: Game,
    world_after: Seq<Object>,
    id: int,
) -> bool {
    &&& after.map == before.map
    &&& before.inventory@.len() >= INVENTORY_CAPACITY ==> {
        &&& world_after == world_before
        &&& after.inventory == before.inventory
        &&& after.messages@ =~= before.messages@.push(inventory_full_message(world_before[id]@))
    }
    &&& before.inventory@.len() < INVENTORY_CAPACITY ==> {
        &&& world(world_after) =~= taken_out(world(world_before), id)
        &&& world(after.inventory@) =~= world(before.inventory@).push(world_before[id]@)
        &&& after.messages@ =~= before.messages@.push(picked_up_message(world_before[id]@))
    }
}

/// Moves entity number `object_id` from the world into the inventory, if
/// there is room for it. If the inventory is full, the log says so and
/// nothing else changes.
///
/// The player is never picked up and so stays number 0; the entity that was
/// last in the world gets the number of the one that left.
pub fn pick_item_up(object_id: usize, game: &mut Game, objects: &mut Vec<Object>)
    requires
        0 < object_id < old(objects)@.len(),
    ensures
        picked_up(*old(game), old(objects)@, *final(game), final(objects)@, object_id as int),
{
    if game.inventory.len() >= INVENTORY_CAPACITY {
        let mut line = String::from_str("Your inventory is full, cannot pick up ");
        line.append(objects[object_id].name.as_str());
        game.messages.add(line, red());
    } else {
        let item = objects.swap_remove(object_id);
        let mut line = String::from_str("You picked up a ");
        line.append(item.name.as_str());
        line.append("!");
        game.messages.add(line, green());
        game.inventory.push(item);
        assert(world(objects@) =~= taken_out(world(old(objects)@), object_id as int));
        assert(world(game.inventory@) =~= world(old(game).inventory@).push(item@));
    }
}

/// Whether a healing potion would be wasted on `player`: only a fighter who
/// has lost hit points can use one.
pub open spec fn heal_result(player: ObjectView) -> UseResult {
    match player.fighter {
        Some(f) => if f.hp == f.max_hp {
            UseResult::Cancelled
        } else {
            UseResult::UsedUp
        },
        None => UseResult::Cancelled,
    }
}

/// The log line of a healing potion: that it worked, or that the player
/// needs none. Nothing is said to a player who cannot fight.
pub open spec fn heal_log(player: ObjectView) -> Seq<Message> {
    match player.fighter {
        Some(f) => if f.hp == f.max_hp {
            seq![("You are already at full hp."@, red())]
        } else {
            seq![("Healted."@, light_violet())]
        },
        None => Seq::empty(),
    }
}

/// The entities after the player drank a healing potion.
pub open spec fn after_heal(entities: Seq<ObjectView>) -> Seq<ObjectView> {
    let player = entities[PLAYER_ID as int];
    match heal_result(player) {
        UseResult::UsedUp => entities.update(PLAYER_ID as int, healed(player, HEAL_AMOUNT as int)),
        UseResult::Cancelled => entities,
    }
}

/// Whether the player's hit points and the potion's stay in the range of the
/// machine's integers when added.
pub open spec fn heal_fits(player: ObjectView) -> bool {
    player.fighter matches Some(f) ==> f.hp != f.max_hp ==> f.hp + HEAL_AMOUNT <= i32::MAX
}

/// The player drinks a healing potion: it gives four hit points back, up to
/// the player's maximum, unless none are missing.
pub fn cast_heal(_inventory_id: usize, game: &mut Game, objects: &mut [Object]) -> (result:
    UseResult)
    requires
        old(objects)@.len() > 0,
        heal_fits(old(objects)@[0]@),
    ensures
        result == heal_result(old(objects)@[0]@),
        world(final(objects)@) == after_heal(world(old(objects)@)),
        final(game).logged(*old(game), heal_log(old(objects)@[0]@)),
{
    if let Some(fighter) = objects[PLAYER_ID].fighter {
        if fighter.hp == fighter.max_hp {
            game.messages.add(String::from_str("You are already at full hp."), red());
            return UseResult::Cancelled;
        }
        game.messages.add(String::from_str("Healted."), light_violet());
        objects[PLAYER_ID].heal(HEAL_AMOUNT);
        assert(world(objects@) =~= after_heal(world(old(objects)@)));
        return UseResult::UsedUp;
    }
    UseResult::Cancelled
}

/// How the use of `item` ends.
pub open spec fn use_result(item: ObjectView, player: ObjectView) -> UseResult {
    match item.item {
        Some(Item::Heal) => heal_result(player),
        None => UseResult::Cancelled,
    }
}

/// The entities after `item` was used.
pub open spec fn after_use(item: ObjectView, entities: Seq<ObjectView>) -> Seq<ObjectView> {
    match item.item {
        Some(Item::Heal) => after_heal(entities),
        None => entities,
    }
}

/// The log lines for the use of `item`: what its effect says, and a word
/// that nothing came of it where nothing did.
pub open spec fn use_log(item: ObjectView, player: ObjectView) -> Seq<Message> {
    match item.item {
        Some(Item::Heal) => match heal_result(player) {
            UseResult::UsedUp => heal_log(player),
            UseResult::Cancelled => heal_log(player).push(("Cancelled"@, white())),
        },
        None => seq![("The "@ + item.name + " cannot be used."@, white())],
    }
}

/// Whether the item in slot `inventory_id` can be used: there is such a slot,
/// and if its item works on the player, there is a player and the numbers
/// stay in range.
pub open spec fn item_can_be_used(
    inventory: Seq<ObjectView>,
    entities: Seq<ObjectView>,
    slot: int,
) -> bool {
    &&& 0 <= slot < inventory.len()
    &&& inventory[slot].item is Some ==> entities.len() > 0 && heal_fits(entities[0])
}

/// Whether the item in slot `inventory_id` can be used.
pub fn can_use_item(inventory_id: usize, game: &Game, objects: &[Object]) -> (ok: bool)
    ensures
        ok == item_can_be_used(world(game.inventory@), world(objects@), inventory_id as int),
{
    if inventory_id >= game.inventory.len() {
        return false;
    }
    if game.inventory[inventory_id].item.is_none() {
        return true;
    }
    if objects.len() == 0 {
        return false;
    }
    match objects[PLAYER_ID].fighter {
        Some(f) => f.hp == f.max_hp || f.hp <= i32::MAX - HEAL_AMOUNT,
        None => true,
    }
}

/// Uses the item in slot `inventory_id` of the inventory. An item that did
/// its work leaves the inventory, and the items behind it move up; any other
/// stays where it is.
pub fn use_item(inventory_id: usize, game: &mut Game, objects: &mut [Object])
    requires
        item_can_be_used(
            world(old(game).inventory@),
            world(old(objects)@),
            inventory_id as int,
        ),
    ensures
        final(game).map == old(game).map,
        world(final(objects)@) == after_use(
            old(game).inventory@[inventory_id as int]@,
            world(old(objects)@),
        ),
        world(final(game).inventory@) == match use_result(
            old(game).inventory@[inventory_id as int]@,
            old(objects)@[0]@,
        ) {
            UseResult::UsedUp => world(old(game).inventory@).remove(inventory_id as int),
            UseResult::Cancelled => world(old(game).inventory@),
        },
        final(game).messages@ == old(game).messages@ + use_log(
            old(game).inventory@[inventory_id as int]@,
            old(objects)@[0]@,
        ),
{
    if let Some(item) = game.inventory[inventory_id].item {
        let result = match item {
            Item::Heal => cast_heal(inventory_id, game, objects),
        };
        match result {
            UseResult::UsedUp => {
                game.inventory.remove(inventory_id);
                assert(world(game.inventory@) =~= world(old(game).inventory@).remove(
                    inventory_id as int,
                ));
            },
            UseResult::Cancelled => {
                game.messages.add(String::from_str("Cancelled"), white());
            },
        }
    } else {
        let mut line = String::from_str("The ");
        line.append(game.inventory[inventory_id].name.as_str());
        line.append(" cannot be used.");
        game.messages.add(line, white());
    }
    assert(game.messages@ =~= old(game).messages@ + use_log(
        old(game).inventory@[inventory_id as int]@,
        old(objects)@[0]@,
    ));
}

/// A healing potion is wasted on a player whose hit points are all there:
/// nobody changes, the log gets exactly one line, and the potion is not used
/// up, so it keeps its slot. Used from the inventory, that line is followed
/// by the word that nothing came of it.
pub proof fn lemma_heal_at_full_health(potion: ObjectView, entities: Seq<ObjectView>)
    requires
        entities.len() > 0,
        potion.item == Some(Item::Heal),
        entities[0].fighter matches Some(f) && f.hp == f.max_hp,
    ensures
        heal_result(entities[0]) == UseResult::Cancelled,
        after_heal(entities) == entities,
        heal_log(entities[0]) == seq![("You are already at full hp."@, red())],
        use_result(potion, entities[0]) == UseResult::Cancelled,
        after_use(potion, entities) == entities,
        use_log(potion, entities[0]) == seq![
            ("You are already at full hp."@, red()),
            ("Cancelled"@, white()),
        ],
{
    assert(use_log(potion, entities[0]) =~= seq![
        ("You are already at full hp."@, red()),
        ("Cancelled"@, white()),
    ]);
}

/// A healing potion gives a hurt player four hit points back, but never
/// more than the player's maximum, and is used up.
pub proof fn lemma_heal_restores(potion: ObjectView, entities: Seq<ObjectView>)
    requires
        entities.len() > 0,
        potion.item == Some(Item::Heal),
        entities[0].fighter matches Some(f) && f.hp != f.max_hp && f.hp + HEAL_AMOUNT <= i32::MAX,
    ensures
        use_result(potion, entities[0]) == UseResult::UsedUp,
        after_use(potion, entities)[0].fighter.unwrap().hp == if entities[0].fighter.unwrap().hp
            + HEAL_AMOUNT > entities[0].fighter.unwrap().max_hp {
            entities[0].fighter.unwrap().max_hp as int
        } else {
            entities[0].fighter.unwrap().hp + HEAL_AMOUNT
        },
        after_use(potion, entities)[0].fighter.unwrap().hp <= entities[0].fighter.unwrap().max_hp,
{
}

} // verus!
