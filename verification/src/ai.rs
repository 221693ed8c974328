//! What monsters do on their turn.

use vstd::prelude::*;
use crate::{mut_two, Game, PLAYER_ID};
use crate::fov::FovMap;
use crate::gamemap::{grid, in_grid, on_map, Grid};
use crate::gui::Message;
use crate::object::{
    after_attack, attack_fits, attack_log, move_by, moved_by, world, Object, ObjectView,
};

verus! {

/// The behaviour that drives an entity during the monsters' turn.
#[derive(Clone, Copy, Debug, PartialEq, Eq, Structural)]
pub enum Ai {
    /// Walk towards the player while far away, strike when next to the player.
    Basic,
}

/// One coordinate of a single step along the straight line to a target that
/// is `d` cells away along this axis and `across` cells along the other.
///
/// It is the coordinate of the vector of length one that points to the
/// target, rounded to the nearest whole number: one cell towards the target
/// if `2 * |d|` is at least the distance, which is the root of
/// `d * d + across * across`, and none otherwise. Squared, the test reads
/// `3 * d * d >= across * across`; the two sides are never equal unless
/// both are zero, so there is no tie to break.
pub open spec fn toward(d: int, across: int) -> int {
    if d > 0 && 3 * d * d >= across * across {
        1
    } else if d < 0 && 3 * d * d >= across * across {
        -1
    } else {
        0
    }
}

/// Whether `a` is at least two cells away from `b`, as the crow flies.
pub open spec fn far_apart(a: ObjectView, b: ObjectView) -> bool {
    (b.x - a.x) * (b.x - a.x) + (b.y - a.y) * (b.y - a.y) >= 4
}

fn step_toward(d: i64, across: i64) -> (step: i32)
    requires
        -0x1_0000_0000 < d < 0x1_0000_0000,
        -0x1_0000_0000 < across < 0x1_0000_0000,
    ensures
        step == toward(d as int, across as int),
{
    assert(0 <= d * d <= 0x1_0000_0000 * 0x1_0000_0000) by (nonlinear_arith)
        requires
            -0x1_0000_0000 < d < 0x1_0000_0000,
    ;
    assert(0 <= across * across <= 0x1_0000_0000 * 0x1_0000_0000) by (nonlinear_arith)
        requires
            -0x1_0000_0000 < across < 0x1_0000_0000,
    ;
    assert(3 * d * d == 3 * (d * d)) by (nonlinear_arith);
    let near = 3 * (d as i128 * d as i128) >= across as i128 * across as i128;
    if d > 0 && near {
        1
    } else if d < 0 && near {
        -1
    } else {
        0
    }
}

/// Moves entity number `id` one step along the straight line to
/// `(target_x, target_y)`, which may be a diagonal step, if nothing blocks
/// the cell it would reach.
pub fn move_towards(id: usize, target_x: i32, target_y: i32, game: &Game, objects: &mut [Object])
    requires
        id < old(objects)@.len(),
        in_grid(
            grid(&game.map),
            old(objects)@[id as int].x + toward(
                target_x - old(objects)@[id as int].x,
                target_y - old(objects)@[id as int].y,
            ),
            old(objects)@[id as int].y + toward(
                target_y - old(objects)@[id as int].y,
                target_x - old(objects)@[id as int].x,
            ),
        ),
    ensures
        world(final(objects)@) == moved_by(
            world(old(objects)@),
            grid(&game.map),
            id as int,
            toward(
                target_x - old(objects)@[id as int].x,
                target_y - old(objects)@[id as int].y,
            ),
            toward(
                target_y - old(objects)@[id as int].y,
                target_x - old(objects)@[id as int].x,
            ),
        ),
{
    let (x, y) = objects[id].position();
    let dx = target_x as i64 - x as i64;
    let dy = target_y as i64 - y as i64;
    let step_x = step_toward(dx, dy);
    let step_y = step_toward(dy, dx);
    move_by(id, step_x, step_y, game, objects);
}

/// The entities after monster number `id` has had its turn.
///
/// A monster that the player cannot see does nothing. One that is seen
/// steps towards the player while it is two or more cells away, and attacks
/// when it is nearer.
pub open spec fn after_ai_turn(entities: Seq<ObjectView>, g: Grid, seen: bool, id: int) -> Seq<
    ObjectView,
> {
    let monster = entities[id];
    let player = entities[PLAYER_ID as int];
    if !seen {
        entities
    } else if far_apart(monster, player) {
        moved_by(
            entities,
            g,
            id,
            toward(player.x - monster.x, player.y - monster.y),
            toward(player.y - monster.y, player.x - monster.x),
        )
    } else {
        entities.update(PLAYER_ID as int, after_attack(monster, player))
    }
}

/// The log lines of the turn of monster number `id`: those of its attack, if
/// it made one.
pub open spec fn ai_turn_log(entities: Seq<ObjectView>, seen: bool, id: int) -> Seq<Message> {
    let monster = entities[id];
    let player = entities[PLAYER_ID as int];
    if seen && !far_apart(monster, player) {
        attack_log(monster, player)
    } else {
        Seq::empty()
    }
}

/// Whether monster number `id` can have its turn: it is not the player, it
/// stands where the field of view reaches, and if it is seen then either the
/// cell it would step to is on the map or the blow it would strike can be
/// struck.
pub open spec fn ai_can_act(entities: Seq<ObjectView>, g: Grid, fov: &FovMap, id: int) -> bool {
    let monster = entities[id];
    let player = entities[PLAYER_ID as int];
    &&& 0 < id < entities.len()
    &&& fov.contains(monster.x, monster.y)
    &&& fov.visible(monster.x, monster.y) ==> if far_apart(monster, player) {
        in_grid(
            g,
            monster.x + toward(player.x - monster.x, player.y - monster.y),
            monster.y + toward(player.y - monster.y, player.x - monster.x),
        )
    } else {
        attack_fits(monster, player)
    }
}

fn is_far(dx: i64, dy: i64) -> (far: bool)
    ensures
        far == (dx * dx + dy * dy >= 4),
{
    let far = dx >= 2 || dx <= -2 || dy >= 2 || dy <= -2;
    assert(far == (dx * dx + dy * dy >= 4)) by (nonlinear_arith)
        requires
            far == (dx >= 2 || dx <= -2 || dy >= 2 || dy <= -2),
    ;
    far
}

/// Whether monster number `monster_id` can have its turn.
pub fn can_ai_act(monster_id: usize, fov_map: &FovMap, game: &Game, objects: &[Object]) -> (ok:
    bool)
    ensures
        ok == ai_can_act(world(objects@), grid(&game.map), fov_map, monster_id as int),
{
    if monster_id == PLAYER_ID || monster_id >= objects.len() {
        return false;
    }
    let (monster_x, monster_y) = objects[monster_id].position();
    if !fov_map.has_cell(monster_x, monster_y) {
        return false;
    }
    if !fov_map.is_in_fov(monster_x, monster_y) {
        return true;
    }
    let (px, py) = objects[PLAYER_ID].position();
    let dx = px as i64 - monster_x as i64;
    let dy = py as i64 - monster_y as i64;
    if is_far(dx, dy) {
        let step_x = step_toward(dx, dy);
        let step_y = step_toward(dy, dx);
        on_map(monster_x as i64 + step_x as i64, monster_y as i64 + step_y as i64, &game.map)
    } else {
        objects[monster_id].can_attack(&objects[PLAYER_ID])
    }
}

/// The turn of monster number `monster_id`.
pub fn ai_take_turn(monster_id: usize, fov_map: &FovMap, game: &mut Game, objects: &mut [Object])
    requires
        ai_can_act(world(old(objects)@), grid(&old(game).map), fov_map, monster_id as int),
    ensures
        world(final(objects)@) == after_ai_turn(
            world(old(objects)@),
            grid(&old(game).map),
            fov_map.visible(
                old(objects)@[monster_id as int].x as int,
                old(objects)@[monster_id as int].y as int,
            ),
            monster_id as int,
        ),
        final(game).logged(
            *old(game),
            ai_turn_log(
                world(old(objects)@),
                fov_map.visible(
                    old(objects)@[monster_id as int].x as int,
                    old(objects)@[monster_id as int].y as int,
                ),
                monster_id as int,
            ),
        ),
{
    let (monster_x, monster_y) = objects[monster_id].position();
    if fov_map.is_in_fov(monster_x, monster_y) {
        let (px, py) = objects[PLAYER_ID].position();
        let dx = px as i64 - monster_x as i64;
        let dy = py as i64 - monster_y as i64;
        if is_far(dx, dy) {
            move_towards(monster_id, px, py, game, objects);
        } else {
            let (monster, player) = mut_two(monster_id, PLAYER_ID, objects);
            monster.attack(player, game);
            proof {
                let before = old(objects)@;
                assert(objects@ =~= before.update(0, objects@[0]));
                assert(world(objects@) =~= world(before).update(0, objects@[0]@));
            }
        }
    }
}

} // verus!
