//! The order of play: what a key press makes the player do, and the turn of
//! the monsters that follows the player's move.

use vstd::prelude::*;
use crate::{Game, PLAYER_ID};
use crate::ai::{after_ai_turn, ai_can_act, ai_take_turn, ai_turn_log, can_ai_act};
use crate::fov::FovMap;
use crate::gamemap::{grid, Grid};
use crate::gui::Message;
use crate::inventory::{pick_item_up, picked_up};
use crate::object::{
    after_player_move, can_player_move, player_can_move, player_move_log, player_move_or_attack,
    world, Object, ObjectView,
};

verus! {

/// What the player's key press amounted to.
#[derive(Clone, Copy, Debug, PartialEq, Eq, Structural)]
pub enum PlayerAction {
    /// The player acted, and it is the monsters' turn.
    TookTurn,
    /// Time stands still.
    DidntTakeTurn,
    /// The player wants to leave.
    Exit,
}

/// The entities after entity number `id` has had its chance to act: one
/// that has a mind of its own takes its turn, any other stays as it is.
pub open spec fn after_chance(entities: Seq<ObjectView>, g: Grid, fov: &FovMap, id: int) -> Seq<
    ObjectView,
> {
    if entities[id].ai is Some {
        after_ai_turn(entities, g, fov.visible(entities[id].x, entities[id].y), id)
    } else {
        entities
    }
}

/// The log lines that the chance of entity number `id` produces.
pub open spec fn chance_log(entities: Seq<ObjectView>, fov: &FovMap, id: int) -> Seq<Message> {
    if entities[id].ai is Some {
        ai_turn_log(entities, fov.visible(entities[id].x, entities[id].y), id)
    } else {
        Seq::empty()
    }
}

/// The entities after those numbered from `from` up to, but not including,
/// `until` have had their chance to act, one after the other in the order of
/// their numbers. Each one meets the world as those before it left it.
pub open spec fn after_monsters(
    entities: Seq<ObjectView>,
    g: Grid,
    fov: &FovMap,
    from: int,
    until: int,
) -> Seq<ObjectView>
    decreases until - from,
{
    if from >= until {
        entities
    } else {
        after_monsters(after_chance(entities, g, fov, from), g, fov, from + 1, until)
    }
}

/// The log lines of the same, in the order in which they are written.
pub open spec fn monsters_log(
    entities: Seq<ObjectView>,
    g: Grid,
    fov: &FovMap,
    from: int,
    until: int,
) -> Seq<Message>
    decreases until - from,
{
    if from >= until {
        Seq::empty()
    } else {
        chance_log(entities, fov, from) + monsters_log(
            after_chance(entities, g, fov, from),
            g,
            fov,
            from + 1,
            until,
        )
    }
}

/// Whether each of the same can act when its chance comes.
pub open spec fn monsters_can_act(
    entities: Seq<ObjectView>,
    g: Grid,
    fov: &FovMap,
    from: int,
    until: int,
) -> bool
    decreases until - from,
{
    if from >= until {
        true
    } else {
        &&& entities[from].ai is Some ==> ai_can_act(entities, g, fov, from)
        &&& monsters_can_act(after_chance(entities, g, fov, from), g, fov, from + 1, until)
    }
}

/// The monsters' turn: every entity with a mind of its own acts once, in
/// the order of the entities' numbers.
pub fn monsters_turn(fov_map: &FovMap, game: &mut Game, objects: &mut [Object])
    requires
        monsters_can_act(
            world(old(objects)@),
            grid(&old(game).map),
            fov_map,
            0,
            old(objects)@.len() as int,
        ),
    ensures
        world(final(objects)@) == after_monsters(
            world(old(objects)@),
            grid(&old(game).map),
            fov_map,
            0,
            old(objects)@.len() as int,
        ),
        final(game).logged(
            *old(game),
            monsters_log(
                world(old(objects)@),
                grid(&old(game).map),
                fov_map,
                0,
                old(objects)@.len() as int,
            ),
        ),
{
    let count = objects.len();
    let ghost g = grid(&game.map);
    let ghost start = world(objects@);
    let ghost mut written = Seq::<Message>::empty();
    let mut id: usize = 0;
    while id < count
        invariant
            id <= count,
            count == objects@.len(),
            g == grid(&game.map),
            monsters_can_act(world(objects@), g, fov_map, id as int, count as int),
            after_monsters(world(objects@), g, fov_map, id as int, count as int) == after_monsters(
                start,
                g,
                fov_map,
                0,
                count as int,
            ),
            written + monsters_log(world(objects@), g, fov_map, id as int, count as int)
                == monsters_log(start, g, fov_map, 0, count as int),
            game.logged(*old(game), written),
        decreases count - id,
    {
        let ghost now = world(objects@);
        let ghost rest = monsters_log(
            after_chance(now, g, fov_map, id as int),
            g,
            fov_map,
            id + 1,
            count as int,
        );
        if objects[id].ai.is_some() {
            ai_take_turn(id, fov_map, game, objects);
        }
        proof {
            assert(world(objects@) == after_chance(now, g, fov_map, id as int));
            assert((written + chance_log(now, fov_map, id as int)) + rest =~= written + (chance_log(
                now,
                fov_map,
                id as int,
            ) + rest));
            written = written + chance_log(now, fov_map, id as int);
        }
        id += 1;
    }
    assert(written + Seq::<Message>::empty() =~= written);
}

/// Letting the entities up to `until` act and then number `until` is the
/// same as letting those up to and including `until` act.
proof fn lemma_one_more_monster(
    entities: Seq<ObjectView>,
    g: Grid,
    fov: &FovMap,
    from: int,
    until: int,
)
    requires
        from <= until,
    ensures
        after_monsters(entities, g, fov, from, until + 1) == after_chance(
            after_monsters(entities, g, fov, from, until),
            g,
            fov,
            until,
        ),
        monsters_log(entities, g, fov, from, until + 1) == monsters_log(
            entities,
            g,
            fov,
            from,
            until,
        ) + chance_log(after_monsters(entities, g, fov, from, until), fov, until),
        monsters_can_act(entities, g, fov, from, until + 1) == (monsters_can_act(
            entities,
            g,
            fov,
            from,
            until,
        ) && (after_monsters(entities, g, fov, from, until)[until].ai is Some ==> ai_can_act(
            after_monsters(entities, g, fov, from, until),
            g,
            fov,
            until,
        ))),
    decreases until - from,
{
    if from < until {
        let next = after_chance(entities, g, fov, from);
        lemma_one_more_monster(next, g, fov, from + 1, until);
        assert(monsters_log(entities, g, fov, from, until + 1) =~= monsters_log(
            entities,
            g,
            fov,
            from,
            until,
        ) + chance_log(after_monsters(entities, g, fov, from, until), fov, until));
    } else {
        reveal_with_fuel(after_monsters, 2);
        reveal_with_fuel(monsters_log, 2);
        reveal_with_fuel(monsters_can_act, 2);
        assert(monsters_log(entities, g, fov, from, until + 1) =~= monsters_log(
            entities,
            g,
            fov,
            from,
            until,
        ) + chance_log(after_monsters(entities, g, fov, from, until), fov, until));
    }
}

/// If some of the entities cannot act, neither can more of them.
proof fn lemma_stuck_stays_stuck(
    entities: Seq<ObjectView>,
    g: Grid,
    fov: &FovMap,
    from: int,
    until: int,
    end: int,
)
    requires
        from <= until <= end,
        !monsters_can_act(entities, g, fov, from, until),
    ensures
        !monsters_can_act(entities, g, fov, from, end),
    decreases end - until,
{
    if until < end {
        lemma_one_more_monster(entities, g, fov, from, until);
        lemma_stuck_stays_stuck(entities, g, fov, from, until + 1, end);
    }
}

/// The monsters' turn, for a caller who does not know whether all of them
/// can act: every entity with a mind of its own acts once, in the order of
/// the entities' numbers, until one comes up that cannot. The answer is the
/// number of that one, and nothing if there was none; the monsters before
/// it have acted, it and those after it have not.
pub fn try_monsters_turn(fov_map: &FovMap, game: &mut Game, objects: &mut [Object]) -> (stuck:
    Option<usize>)
    ensures
        stuck is None == monsters_can_act(
            world(old(objects)@),
            grid(&old(game).map),
            fov_map,
            0,
            old(objects)@.len() as int,
        ),
        match stuck {
            Some(id) => {
                &&& id < old(objects)@.len()
                &&& world(final(objects)@) == after_monsters(
                    world(old(objects)@),
                    grid(&old(game).map),
                    fov_map,
                    0,
                    id as int,
                )
                &&& final(game).logged(
                    *old(game),
                    monsters_log(world(old(objects)@), grid(&old(game).map), fov_map, 0, id as int),
                )
                &&& monsters_can_act(
                    world(old(objects)@),
                    grid(&old(game).map),
                    fov_map,
                    0,
                    id as int,
                )
                &&& final(objects)@[id as int].ai is Some
                &&& !ai_can_act(world(final(objects)@), grid(&old(game).map), fov_map, id as int)
            },
            None => {
                &&& world(final(objects)@) == after_monsters(
                    world(old(objects)@),
                    grid(&old(game).map),
                    fov_map,
                    0,
                    old(objects)@.len() as int,
                )
                &&& final(game).logged(
                    *old(game),
                    monsters_log(
                        world(old(objects)@),
                        grid(&old(game).map),
                        fov_map,
                        0,
                        old(objects)@.len() as int,
                    ),
                )
            },
        },
{
    let count = objects.len();
    let ghost g = grid(&game.map);
    let ghost start = world(objects@);
    let mut id: usize = 0;
    while id < count
        invariant
            id <= count,
            count == objects@.len(),
            count == old(objects)@.len(),
            start == world(old(objects)@),
            g == grid(&game.map),
            g == grid(&old(game).map),
            monsters_can_act(start, g, fov_map, 0, id as int),
            world(objects@) == after_monsters(start, g, fov_map, 0, id as int),
            game.logged(*old(game), monsters_log(start, g, fov_map, 0, id as int)),
        decreases count - id,
    {
        proof {
            lemma_one_more_monster(start, g, fov_map, 0, id as int);
        }
        if objects[id].ai.is_some() {
            if !can_ai_act(id, fov_map, game, objects) {
                proof {
                    lemma_stuck_stays_stuck(start, g, fov_map, 0, id + 1, count as int);
                }
                return Some(id);
            }
            let ghost met = world(objects@);
            ai_take_turn(id, fov_map, game, objects);
            assert(world(objects@) == after_chance(met, g, fov_map, id as int));
            assert(world(objects@).len() == met.len());
        }
        assert(game.messages@ =~= old(game).messages@ + monsters_log(
            start,
            g,
            fov_map,
            0,
            id + 1,
        ));
        id += 1;
    }
    None
}

/// What follows the player's action: after a turn of a player who is still
/// alive the monsters take theirs; otherwise nothing happens.
pub fn finish_turn(
    action: PlayerAction,
    fov_map: &FovMap,
    game: &mut Game,
    objects: &mut [Object],
)
    requires
        old(objects)@.len() > 0,
        old(objects)@[0].alive && action == PlayerAction::TookTurn ==> monsters_can_act(
            world(old(objects)@),
            grid(&old(game).map),
            fov_map,
            0,
            old(objects)@.len() as int,
        ),
    ensures
        old(objects)@[0].alive && action == PlayerAction::TookTurn ==> {
            &&& world(final(objects)@) == after_monsters(
                world(old(objects)@),
                grid(&old(game).map),
                fov_map,
                0,
                old(objects)@.len() as int,
            )
            &&& final(game).logged(
                *old(game),
                monsters_log(
                    world(old(objects)@),
                    grid(&old(game).map),
                    fov_map,
                    0,
                    old(objects)@.len() as int,
                ),
            )
        },
        !(old(objects)@[0].alive && action == PlayerAction::TookTurn) ==> {
            &&& final(objects)@ == old(objects)@
            &&& final(game).logged(*old(game), Seq::empty())
        },
{
    if objects[PLAYER_ID].alive && action == PlayerAction::TookTurn {
        monsters_turn(fov_map, game, objects);
    }
}

/// What follows the player's action, for a caller who does not know whether
/// all the monsters can act: as `finish_turn`, but the monsters' turn stops
/// at the first one that cannot act, and the answer is its number.
pub fn try_finish_turn(
    action: PlayerAction,
    fov_map: &FovMap,
    game: &mut Game,
    objects: &mut [Object],
) -> (stuck: Option<usize>)
    requires
        old(objects)@.len() > 0,
    ensures
        !(old(objects)@[0].alive && action == PlayerAction::TookTurn) ==> {
            &&& stuck is None
            &&& final(objects)@ == old(objects)@
            &&& final(game).logged(*old(game), Seq::empty())
        },
        old(objects)@[0].alive && action == PlayerAction::TookTurn ==> {
            &&& stuck is None == monsters_can_act(
                world(old(objects)@),
                grid(&old(game).map),
                fov_map,
                0,
                old(objects)@.len() as int,
            )
            &&& world(final(objects)@) == after_monsters(
                world(old(objects)@),
                grid(&old(game).map),
                fov_map,
                0,
                match stuck {
                    Some(id) => id as int,
                    None => old(objects)@.len() as int,
                },
            )
            &&& final(game).logged(
                *old(game),
                monsters_log(
                    world(old(objects)@),
                    grid(&old(game).map),
                    fov_map,
                    0,
                    match stuck {
                        Some(id) => id as int,
                        None => old(objects)@.len() as int,
                    },
                ),
            )
        },
{
    if objects[PLAYER_ID].alive && action == PlayerAction::TookTurn {
        try_monsters_turn(fov_map, game, objects)
    } else {
        None
    }
}

/// A key press, as far as the rules care about it.
#[derive(Clone, Copy, Debug, PartialEq, Eq, Structural)]
pub enum Key {
    Up,
    Down,
    Left,
    Right,
    /// The key that picks up what lies at the player's feet.
    PickUp,
    /// The key that opens the inventory.
    Inventory,
    /// The key that switches between a window and the whole screen.
    Fullscreen,
    /// The key that ends the game.
    Escape,
    /// Any other key, or none.
    Other,
}

/// What is left to do for the program around the library after a key press.
#[derive(Clone, Copy, Debug, PartialEq, Eq, Structural)]
pub enum Request {
    Nothing,
    /// Let the player choose from the inventory, and use what was chosen.
    ChooseItem,
    /// Switch between a window and the whole screen.
    ToggleFullscreen,
}

/// The step that a key stands for, if it is one of the four arrows.
pub open spec fn direction_of(key: Key) -> Option<(int, int)> {
    match key {
        Key::Up => Some((0, -1)),
        Key::Down => Some((0, 1)),
        Key::Left => Some((-1, 0)),
        Key::Right => Some((1, 0)),
        _ => None,
    }
}

/// What a key press amounts to. A dead player can still switch the screen
/// and leave, and nothing else; only a step or a blow takes a turn.
pub open spec fn action_of(key: Key, alive: bool) -> PlayerAction {
    match key {
        Key::Escape => PlayerAction::Exit,
        Key::Up | Key::Down | Key::Left | Key::Right => if alive {
            PlayerAction::TookTurn
        } else {
            PlayerAction::DidntTakeTurn
        },
        _ => PlayerAction::DidntTakeTurn,
    }
}

/// What a key press leaves to the program around the library.
pub open spec fn request_of(key: Key, alive: bool) -> Request {
    match key {
        Key::Fullscreen => Request::ToggleFullscreen,
        Key::Inventory => if alive {
            Request::ChooseItem
        } else {
            Request::Nothing
        },
        _ => Request::Nothing,
    }
}

/// Whether entity number `i` is an item that lies on `(x, y)`.
pub open spec fn item_at(entities: Seq<ObjectView>, x: int, y: int, i: int) -> bool {
    entities[i].item is Some && entities[i].x == x && entities[i].y == y
}

/// The first item on `(x, y)` among the entities from number `from` on.
pub open spec fn item_from(entities: Seq<ObjectView>, x: int, y: int, from: int) -> Option<int>
    decreases entities.len() - from,
{
    if from < 0 || from >= entities.len() {
        None
    } else if item_at(entities, x, y, from) {
        Some(from)
    } else {
        item_from(entities, x, y, from + 1)
    }
}

/// The first item that lies on `(x, y)`, if there is one.
pub open spec fn first_item(entities: Seq<ObjectView>, x: int, y: int) -> Option<int> {
    item_from(entities, x, y, 0)
}

/// The first item that lies on `(x, y)`, if there is one.
pub fn find_item(x: i32, y: i32, objects: &[Object]) -> (found: Option<usize>)
    ensures
        match found {
            Some(i) => first_item(world(objects@), x as int, y as int) == Some(i as int),
            None => first_item(world(objects@), x as int, y as int) is None,
        },
        found matches Some(i) ==> i < objects@.len(),
{
    let mut i: usize = 0;
    while i < objects.len()
        invariant
            i <= objects@.len(),
            first_item(world(objects@), x as int, y as int) == item_from(
                world(objects@),
                x as int,
                y as int,
                i as int,
            ),
        decreases objects@.len() - i,
    {
        if objects[i].x == x && objects[i].y == y && objects[i].item.is_some() {
            return Some(i);
        }
        i += 1;
    }
    None
}

/// Whether the rules can answer the key: there is a player; if the player is
/// alive and the key is an arrow, a push that way is possible; and if the
/// player is alive and the key picks up, what lies underfoot is not the
/// player.
pub open spec fn key_can_be_handled(key: Key, entities: Seq<ObjectView>, g: Grid) -> bool {
    let player = entities[PLAYER_ID as int];
    &&& entities.len() > 0
    &&& player.alive ==> match direction_of(key) {
        Some(step) => player_can_move(entities, g, step.0, step.1),
        None => key == Key::PickUp ==> first_item(entities, player.x, player.y) != Some(
            PLAYER_ID as int,
        ),
    }
}

/// Whether the rules can answer the key.
pub fn can_handle_key(key: Key, game: &Game, objects: &[Object]) -> (ok: bool)
    ensures
        ok == key_can_be_handled(key, world(objects@), grid(&game.map)),
{
    if objects.len() == 0 {
        return false;
    }
    if !objects[PLAYER_ID].alive {
        return true;
    }
    match key {
        Key::Up => can_player_move(0, -1, game, objects),
        Key::Down => can_player_move(0, 1, game, objects),
        Key::Left => can_player_move(-1, 0, game, objects),
        Key::Right => can_player_move(1, 0, game, objects),
        Key::PickUp => {
            let (x, y) = objects[PLAYER_ID].position();
            match find_item(x, y, objects) {
                Some(id) => id != PLAYER_ID,
                None => true,
            }
        },
        _ => true,
    }
}

/// Answers a key press.
///
/// While the player is alive, an arrow is a push that way, which takes a
/// turn whether or not it leads anywhere, and the pick-up key moves the
/// first item underfoot into the inventory. Choosing from the inventory
/// and switching the screen are left to the caller: see `Request`.
pub fn handle_keys(key: Key, game: &mut Game, objects: &mut Vec<Object>) -> (answer: (
    PlayerAction,
    Request,
))
    requires
        key_can_be_handled(key, world(old(objects)@), grid(&old(game).map)),
    ensures
        answer.0 == action_of(key, old(objects)@[0].alive),
        answer.1 == request_of(key, old(objects)@[0].alive),
        match direction_of(key) {
            Some(step) => if old(objects)@[0].alive {
                &&& world(final(objects)@) == after_player_move(
                    world(old(objects)@),
                    grid(&old(game).map),
                    step.0,
                    step.1,
                )
                &&& final(game).logged(
                    *old(game),
                    player_move_log(world(old(objects)@), step.0, step.1),
                )
            } else {
                final(objects)@ == old(objects)@ && final(game).logged(*old(game), Seq::empty())
            },
            None => if key == Key::PickUp && old(objects)@[0].alive {
                match first_item(
                    world(old(objects)@),
                    old(objects)@[0].x as int,
                    old(objects)@[0].y as int,
                ) {
                    Some(id) => picked_up(*old(game), old(objects)@, *final(game), final(objects)@, id),
                    None => final(objects)@ == old(objects)@ && final(game).logged(
                        *old(game),
                        Seq::empty(),
                    ),
                }
            } else {
                final(objects)@ == old(objects)@ && final(game).logged(*old(game), Seq::empty())
            },
        },
{
    let alive = objects[PLAYER_ID].alive;
    match key {
        Key::Up => {
            if alive {
                player_move_or_attack(0, -1, game, objects);
                (PlayerAction::TookTurn, Request::Nothing)
            } else {
                (PlayerAction::DidntTakeTurn, Request::Nothing)
            }
        },
        Key::Down => {
            if alive {
                player_move_or_attack(0, 1, game, objects);
                (PlayerAction::TookTurn, Request::Nothing)
            } else {
                (PlayerAction::DidntTakeTurn, Request::Nothing)
            }
        },
        Key::Left => {
            if alive {
                player_move_or_attack(-1, 0, game, objects);
                (PlayerAction::TookTurn, Request::Nothing)
            } else {
                (PlayerAction::DidntTakeTurn, Request::Nothing)
            }
        },
        Key::Right => {
            if alive {
                player_move_or_attack(1, 0, game, objects);
                (PlayerAction::TookTurn, Request::Nothing)
            } else {
                (PlayerAction::DidntTakeTurn, Request::Nothing)
            }
        },
        Key::PickUp => {
            if alive {
                let (x, y) = objects[PLAYER_ID].position();
                let item_id = find_item(x, y, objects);
                if let Some(item_id) = item_id {
                    pick_item_up(item_id, game, objects);
                }
            }
            (PlayerAction::DidntTakeTurn, Request::Nothing)
        },
        Key::Inventory => {
            if alive {
                (PlayerAction::DidntTakeTurn, Request::ChooseItem)
            } else {
                (PlayerAction::DidntTakeTurn, Request::Nothing)
            }
        },
        Key::Fullscreen => (PlayerAction::DidntTakeTurn, Request::ToggleFullscreen),
        Key::Escape => (PlayerAction::Exit, Request::Nothing),
        Key::Other => (PlayerAction::DidntTakeTurn, Request::Nothing),
    }
}

} // verus!
