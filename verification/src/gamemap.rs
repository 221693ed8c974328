//! The dungeon: a grid of tiles, and the generator that digs rooms and
//! corridors into it.

use vstd::prelude::*;
use rand::Rng;
use crate::PLAYER_ID;
use crate::ai::Ai;
use crate::colors::{darker_green, desaturated_green, violet, Color};
use crate::fov::FovMap;
use crate::inventory::Item;
use crate::object::{world, DeathCallback, Fighter, Object, ObjectView};

verus! {

pub const MAP_WIDTH: i32 = 80;

pub const MAP_HEIGHT: i32 = 45;

/// The longest side a generated room can have.
pub const ROOM_MAX_SIZE: i32 = 10;

/// The shortest side a generated room can have.
pub const ROOM_MIN_SIZE: i32 = 6;

/// How many rooms the generator tries to place.
pub const MAX_ROOMS: i32 = 30;

/// The most monsters the generator tries to put into one room.
pub const MAX_ROOM_MONSTERS: i32 = 3;

/// The most items the generator tries to put into one room.
pub const MAX_ROOM_ITEMS: i32 = 2;

/// The grid, column by column: `map[x][y]`.
pub type GameMap = Vec<Vec<Tile>>;

/// The grid as the rules see it.
pub type Grid = Seq<Seq<Tile>>;

/// One cell of the grid.
#[derive(Clone, Copy, Debug, PartialEq, Eq, Structural)]
pub struct Tile {
    /// Nothing can walk here.
    pub blocked: bool,
    /// Nothing can be seen through it.
    pub block_sight: bool,
    /// The player has seen this tile at least once.
    pub explored: bool,
}

impl Tile {
    pub open spec fn spec_empty() -> Tile {
        Tile { blocked: false, block_sight: false, explored: false }
    }

    pub open spec fn spec_wall() -> Tile {
        Tile { blocked: true, block_sight: true, explored: false }
    }

    /// Open floor that nobody has seen yet.
    #[verifier::when_used_as_spec(spec_empty)]
    pub fn empty() -> (tile: Self)
        ensures
            tile == Tile::spec_empty(),
    {
        Tile { blocked: false, block_sight: false, explored: false }
    }

    /// Solid rock that nobody has seen yet.
    #[verifier::when_used_as_spec(spec_wall)]
    pub fn wall() -> (tile: Self)
        ensures
            tile == Tile::spec_wall(),
    {
        Tile { blocked: true, block_sight: true, explored: false }
    }
}

/// The tiles of a map, as nested sequences.
pub open spec fn grid(map: &GameMap) -> Grid {
    map@.map_values(|column: Vec<Tile>| column@)
}

/// Whether `(x, y)` is a cell of the grid.
pub open spec fn in_grid(g: Grid, x: int, y: int) -> bool {
    0 <= x < g.len() && 0 <= y < g[x].len()
}

/// Whether `(x, y)` is a cell of the map.
pub fn on_map(x: i64, y: i64, map: &GameMap) -> (inside: bool)
    ensures
        inside == in_grid(grid(map), x as int, y as int),
{
    if x < 0 || y < 0 {
        return false;
    }
    if x as u64 >= map.len() as u64 {
        return false;
    }
    let column = &map[x as usize];
    assert(grid(map)[x as int] == column@);
    (y as u64) < column.len() as u64
}

/// Whether the grid has `width` columns of `height` cells each.
pub open spec fn rectangular(g: Grid, width: int, height: int) -> bool {
    &&& g.len() == width
    &&& forall|x: int| 0 <= x < width ==> (#[trigger] g[x]).len() == height
}

/// Half of `sum`, rounded towards zero.
pub open spec fn half(sum: int) -> int {
    if sum >= 0 {
        sum / 2
    } else {
        -((-sum) / 2)
    }
}

/// A rectangular room, given by two opposite corners. The corners and the
/// lines between them are the room's walls; what lies strictly between is
/// its floor.
#[derive(Clone, Copy, Debug, PartialEq, Eq, Structural)]
pub struct RectRoom {
    pub x1: i32,
    pub y1: i32,
    pub x2: i32,
    pub y2: i32,
}

impl RectRoom {
    /// The room with one corner at `(x, y)` that reaches `w` cells to the
    /// right and `h` cells down.
    pub fn new(x: i32, y: i32, w: i32, h: i32) -> (room: Self)
        requires
            i32::MIN <= x + w <= i32::MAX,
            i32::MIN <= y + h <= i32::MAX,
        ensures
            room.x1 == x,
            room.y1 == y,
            room.x2 == x + w,
            room.y2 == y + h,
    {
        RectRoom { x1: x, y1: y, x2: x + w, y2: y + h }
    }

    /// The cell in the middle of the room.
    pub open spec fn spec_center(&self) -> (int, int) {
        (half(self.x1 + self.x2), half(self.y1 + self.y2))
    }

    /// The cell in the middle of the room.
    pub fn center(&self) -> (c: (i32, i32))
        ensures
            (c.0 as int, c.1 as int) == self.spec_center(),
    {
        (halve(self.x1 as i64 + self.x2 as i64), halve(self.y1 as i64 + self.y2 as i64))
    }

    /// Whether the two rooms share a cell, walls included. Rooms that only
    /// touch along a wall do overlap in this sense.
    pub open spec fn overlaps(&self, other: &RectRoom) -> bool {
        &&& self.x1 <= other.x2
        &&& self.x2 >= other.x1
        &&& self.y1 <= other.y2
        &&& self.y2 >= other.y1
    }

    pub fn intersects_with(&self, other: &RectRoom) -> (hit: bool)
        ensures
            hit == self.overlaps(other),
    {
        (self.x1 <= other.x2) && (self.x2 >= other.x1) && (self.y1 <= other.y2) && (self.y2
            >= other.y1)
    }

    /// Whether `(x, y)` is a cell of the room's floor.
    pub open spec fn inside(&self, x: int, y: int) -> bool {
        self.x1 < x < self.x2 && self.y1 < y < self.y2
    }
}

fn halve(sum: i64) -> (h: i32)
    requires
        2 * i32::MIN <= sum <= 2 * i32::MAX,
    ensures
        h == half(sum as int),
{
    if sum >= 0 {
        (sum / 2) as i32
    } else {
        (-((-sum) / 2)) as i32
    }
}

/// Whether `(x, y)` lies on the horizontal line at height `at` between the
/// columns `x1` and `x2`, ends included, in whichever order they are given.
pub open spec fn on_h_tunnel(x1: int, x2: int, at: int, x: int, y: int) -> bool {
    y == at && (x1 <= x <= x2 || x2 <= x <= x1)
}

/// Whether `(x, y)` lies on the vertical line in column `at` between the rows
/// `y1` and `y2`, ends included, in whichever order they are given.
pub open spec fn on_v_tunnel(y1: int, y2: int, at: int, x: int, y: int) -> bool {
    x == at && (y1 <= y <= y2 || y2 <= y <= y1)
}

/// The grid with the floor of `room` dug out.
pub open spec fn with_room(g: Grid, room: RectRoom) -> Grid {
    Seq::new(
        g.len(),
        |x: int|
            Seq::new(
                g[x].len(),
                |y: int|
                    if room.inside(x, y) {
                        Tile::empty()
                    } else {
                        g[x][y]
                    },
            ),
    )
}

/// The grid with a horizontal tunnel dug out.
pub open spec fn with_h_tunnel(g: Grid, x1: int, x2: int, at: int) -> Grid {
    Seq::new(
        g.len(),
        |x: int|
            Seq::new(
                g[x].len(),
                |y: int|
                    if on_h_tunnel(x1, x2, at, x, y) {
                        Tile::empty()
                    } else {
                        g[x][y]
                    },
            ),
    )
}

/// The grid with a vertical tunnel dug out.
pub open spec fn with_v_tunnel(g: Grid, y1: int, y2: int, at: int) -> Grid {
    Seq::new(
        g.len(),
        |x: int|
            Seq::new(
                g[x].len(),
                |y: int|
                    if on_v_tunnel(y1, y2, at, x, y) {
                        Tile::empty()
                    } else {
                        g[x][y]
                    },
            ),
    )
}

/// Turns one cell into open floor.
fn dig(map: &mut GameMap, x: usize, y: usize)
    requires
        in_grid(grid(old(map)), x as int, y as int),
    ensures
        grid(final(map)) == grid(old(map)).update(
            x as int,
            grid(old(map))[x as int].update(y as int, Tile::empty()),
        ),
{
    map[x][y] = Tile::empty();
    assert(grid(map) =~= grid(old(map)).update(
        x as int,
        grid(old(map))[x as int].update(y as int, Tile::empty()),
    ));
}

/// What `create_room` has dug when it is about to visit `(x, y)`: the room's
/// floor in the columns before `x`, and in column `x` above `y`.
spec fn room_dug_until(g: Grid, room: RectRoom, x: int, y: int) -> Grid {
    Seq::new(
        g.len(),
        |cx: int|
            Seq::new(
                g[cx].len(),
                |cy: int|
                    if room.inside(cx, cy) && (cx < x || (cx == x && cy < y)) {
                        Tile::empty()
                    } else {
                        g[cx][cy]
                    },
            ),
    )
}

/// Digs out the floor of `room`: every cell strictly between its walls
/// becomes open floor, whatever it was before.
pub fn create_room(room: RectRoom, map: &mut GameMap)
    requires
        forall|x: int, y: int| room.inside(x, y) ==> in_grid(grid(old(map)), x, y),
    ensures
        grid(final(map)) == with_room(grid(old(map)), room),
{
    let ghost g0 = grid(map);
    let mut x: i64 = room.x1 as i64 + 1;
    assert(grid(map) =~~= room_dug_until(g0, room, x as int, room.y1 + 1));
    while x < room.x2 as i64
        invariant
            room.x1 < x,
            forall|x: int, y: int| room.inside(x, y) ==> in_grid(g0, x, y),
            grid(map) == room_dug_until(g0, room, x as int, room.y1 + 1),
        decreases room.x2 - x,
    {
        let mut y: i64 = room.y1 as i64 + 1;
        while y < room.y2 as i64
            invariant
                room.x1 < x < room.x2,
                room.y1 < y,
                forall|x: int, y: int| room.inside(x, y) ==> in_grid(g0, x, y),
                grid(map) == room_dug_until(g0, room, x as int, y as int),
            decreases room.y2 - y,
        {
            assert(room.inside(x as int, y as int));
            assert(in_grid(g0, x as int, y as int));
            dig(map, x as usize, y as usize);
            y += 1;
            assert(grid(map) =~~= room_dug_until(g0, room, x as int, y as int));
        }
        x += 1;
        assert(grid(map) =~~= room_dug_until(g0, room, x as int, room.y1 + 1));
    }
    assert(grid(map) =~~= with_room(g0, room));
}

/// What `create_h_tunnel` has dug when it is about to visit column `x`.
spec fn h_tunnel_dug_until(g: Grid, x1: int, x2: int, at: int, x: int) -> Grid {
    Seq::new(
        g.len(),
        |cx: int|
            Seq::new(
                g[cx].len(),
                |cy: int|
                    if on_h_tunnel(x1, x2, at, cx, cy) && cx < x {
                        Tile::empty()
                    } else {
                        g[cx][cy]
                    },
            ),
    )
}

/// Digs a horizontal tunnel in row `y` from column `x1` to column `x2`, ends
/// included, whichever of the two is the smaller.
pub fn create_h_tunnel(x1: i32, x2: i32, y: i32, map: &mut GameMap)
    requires
        forall|cx: int, cy: int|
            on_h_tunnel(x1 as int, x2 as int, y as int, cx, cy) ==> in_grid(
                grid(old(map)),
                cx,
                cy,
            ),
    ensures
        grid(final(map)) == with_h_tunnel(grid(old(map)), x1 as int, x2 as int, y as int),
{
    let ghost g0 = grid(map);
    let low = if x1 < x2 {
        x1
    } else {
        x2
    };
    let high = if x1 < x2 {
        x2
    } else {
        x1
    };
    let mut x: i64 = low as i64;
    assert(grid(map) =~~= h_tunnel_dug_until(g0, x1 as int, x2 as int, y as int, x as int));
    while x <= high as i64
        invariant
            low <= x <= high + 1,
            low <= high,
            (low == x1 && high == x2) || (low == x2 && high == x1),
            forall|cx: int, cy: int|
                on_h_tunnel(x1 as int, x2 as int, y as int, cx, cy) ==> in_grid(g0, cx, cy),
            grid(map) == h_tunnel_dug_until(g0, x1 as int, x2 as int, y as int, x as int),
        decreases high + 1 - x,
    {
        assert(on_h_tunnel(x1 as int, x2 as int, y as int, x as int, y as int));
        assert(in_grid(g0, x as int, y as int));
        dig(map, x as usize, y as usize);
        x += 1;
        assert(grid(map) =~~= h_tunnel_dug_until(g0, x1 as int, x2 as int, y as int, x as int));
    }
    assert(grid(map) =~~= with_h_tunnel(g0, x1 as int, x2 as int, y as int));
}

/// What `create_v_tunnel` has dug when it is about to visit row `y`.
spec fn v_tunnel_dug_until(g: Grid, y1: int, y2: int, at: int, y: int) -> Grid {
    Seq::new(
        g.len(),
        |cx: int|
            Seq::new(
                g[cx].len(),
                |cy: int|
                    if on_v_tunnel(y1, y2, at, cx, cy) && cy < y {
                        Tile::empty()
                    } else {
                        g[cx][cy]
                    },
            ),
    )
}

/// Digs a vertical tunnel in column `x` from row `y1` to row `y2`, ends
/// included, whichever of the two is the smaller.
pub fn create_v_tunnel(y1: i32, y2: i32, x: i32, map: &mut GameMap)
    requires
        forall|cx: int, cy: int|
            on_v_tunnel(y1 as int, y2 as int, x as int, cx, cy) ==> in_grid(
                grid(old(map)),
                cx,
                cy,
            ),
    ensures
        grid(final(map)) == with_v_tunnel(grid(old(map)), y1 as int, y2 as int, x as int),
{
    let ghost g0 = grid(map);
    let low = if y1 < y2 {
        y1
    } else {
        y2
    };
    let high = if y1 < y2 {
        y2
    } else {
        y1
    };
    let mut y: i64 = low as i64;
    assert(grid(map) =~~= v_tunnel_dug_until(g0, y1 as int, y2 as int, x as int, y as int));
    while y <= high as i64
        invariant
            low <= y <= high + 1,
            low <= high,
            (low == y1 && high == y2) || (low == y2 && high == y1),
            forall|cx: int, cy: int|
                on_v_tunnel(y1 as int, y2 as int, x as int, cx, cy) ==> in_grid(g0, cx, cy),
            grid(map) == v_tunnel_dug_until(g0, y1 as int, y2 as int, x as int, y as int),
        decreases high + 1 - y,
    {
        assert(on_v_tunnel(y1 as int, y2 as int, x as int, x as int, y as int));
        assert(in_grid(g0, x as int, y as int));
        dig(map, x as usize, y as usize);
        y += 1;
        assert(grid(map) =~~= v_tunnel_dug_until(g0, y1 as int, y2 as int, x as int, y as int));
    }
    assert(grid(map) =~~= with_v_tunnel(g0, y1 as int, y2 as int, x as int));
}

/// Whether something that blocks movement stands on `(x, y)`.
pub open spec fn occupied(entities: Seq<ObjectView>, x: int, y: int) -> bool {
    exists|i: int|
        0 <= i < entities.len() && (#[trigger] entities[i]).blocks && entities[i].x == x
            && entities[i].y == y
}

/// Whether nothing can step onto `(x, y)`: the tile is blocked, or something
/// that blocks movement stands on it.
pub open spec fn blocked_at(g: Grid, entities: Seq<ObjectView>, x: int, y: int) -> bool {
    g[x][y].blocked || occupied(entities, x, y)
}

/// Whether nothing can step onto `(x, y)`.
pub fn is_blocked(x: i32, y: i32, map: &GameMap, objects: &[Object]) -> (blocked: bool)
    requires
        in_grid(grid(map), x as int, y as int),
    ensures
        blocked == blocked_at(grid(map), world(objects@), x as int, y as int),
{
    if map[x as usize][y as usize].blocked {
        return true;
    }
    let mut i: usize = 0;
    while i < objects.len()
        invariant
            i <= objects@.len(),
            forall|j: int|
                0 <= j < i ==> !((#[trigger] world(objects@)[j]).blocks && world(objects@)[j].x
                    == x && world(objects@)[j].y == y),
        decreases objects@.len() - i,
    {
        if objects[i].blocks && objects[i].x == x && objects[i].y == y {
            assert(world(objects@)[i as int].blocks);
            return true;
        }
        i += 1;
    }
    false
}

/// A number drawn from `low..high` with `rand::Rng::gen_range`, on the
/// generator that `rand::thread_rng` hands out.
///
/// Trusted: the number lies in the range. The call panics on an empty range,
/// so one must not be given.
#[verifier::external_body]
fn random_range(low: i32, high: i32) -> (n: i32)
    requires
        low < high,
    ensures
        low <= n < high,
{
    rand::thread_rng().gen_range(low..high)
}

/// A coin that `rand::Rng::gen_ratio` throws on the generator that
/// `rand::thread_rng` hands out: heads `numerator` times out of
/// `denominator`.
///
/// Trusted: odds of all or nothing always come out that way. The call panics
/// on odds that make no sense, so such must not be given.
#[verifier::external_body]
fn random_ratio(numerator: u32, denominator: u32) -> (heads: bool)
    requires
        0 < denominator,
        numerator <= denominator,
    ensures
        numerator == denominator ==> heads,
        numerator == 0 ==> !heads,
{
    rand::thread_rng().gen_ratio(numerator, denominator)
}

/// A fair coin thrown with `rand::random`. Nothing is known of how it lands.
#[verifier::external_body]
fn random_bool() -> bool {
    rand::random()
}

/// An orc, alive, standing on `(x, y)`.
pub open spec fn orc_at(x: int, y: int) -> ObjectView {
    ObjectView {
        x: x,
        y: y,
        glyph: 'o',
        color: desaturated_green(),
        name: "ork"@,
        blocks: true,
        alive: true,
        fighter: Some(
            Fighter { max_hp: 10, hp: 10, defense: 0, power: 3, on_death: DeathCallback::Monster },
        ),
        ai: Some(Ai::Basic),
        item: None,
    }
}

/// A troll, alive, standing on `(x, y)`.
pub open spec fn troll_at(x: int, y: int) -> ObjectView {
    ObjectView {
        x: x,
        y: y,
        glyph: 'T',
        color: darker_green(),
        name: "troll"@,
        blocks: true,
        alive: true,
        fighter: Some(
            Fighter { max_hp: 16, hp: 16, defense: 1, power: 4, on_death: DeathCallback::Monster },
        ),
        ai: Some(Ai::Basic),
        item: None,
    }
}

/// A healing potion lying on `(x, y)`.
pub open spec fn potion_at(x: int, y: int) -> ObjectView {
    ObjectView {
        x: x,
        y: y,
        glyph: '!',
        color: violet(),
        name: "healing potion"@,
        blocks: false,
        alive: false,
        fighter: None,
        ai: None,
        item: Some(Item::Heal),
    }
}

/// The weaker and more common of the two monsters.
pub fn orc(x: i32, y: i32) -> (monster: Object)
    ensures
        monster@ == orc_at(x as int, y as int),
{
    let mut ork = Object::new(x, y, 'o', "ork", desaturated_green(), true);
    ork.fighter = Some(
        Fighter { max_hp: 10, hp: 10, defense: 0, power: 3, on_death: DeathCallback::Monster },
    );
    ork.ai = Some(Ai::Basic);
    ork.alive = true;
    ork
}

/// The stronger and rarer of the two monsters.
pub fn troll(x: i32, y: i32) -> (monster: Object)
    ensures
        monster@ == troll_at(x as int, y as int),
{
    let mut troll = Object::new(x, y, 'T', "troll", darker_green(), true);
    troll.fighter = Some(
        Fighter { max_hp: 16, hp: 16, defense: 1, power: 4, on_death: DeathCallback::Monster },
    );
    troll.ai = Some(Ai::Basic);
    troll.alive = true;
    troll
}

/// An item that heals whoever uses it.
pub fn healing_potion(x: i32, y: i32) -> (potion: Object)
    ensures
        potion@ == potion_at(x as int, y as int),
{
    let mut object = Object::new(x, y, '!', "healing potion", violet(), false);
    object.item = Some(Item::Heal);
    object
}

/// Whether the entity at `index` stands on the floor of `room`, on a cell
/// that nothing before it in the list blocks.
pub open spec fn placed_in(entities: Seq<ObjectView>, g: Grid, room: RectRoom, index: int) -> bool {
    let o = entities[index];
    room.inside(o.x, o.y) && !blocked_at(g, entities.subrange(0, index), o.x, o.y)
}

/// Whether `after` is `before` with the new inhabitants of `room` at its
/// end: first the monsters, from position `before.len()` on, then the items,
/// from position `items_from` on.
pub open spec fn populated_from(
    before: Seq<ObjectView>,
    after: Seq<ObjectView>,
    g: Grid,
    room: RectRoom,
    items_from: int,
) -> bool {
    &&& before.len() <= items_from <= after.len()
    &&& items_from - before.len() <= MAX_ROOM_MONSTERS
    &&& after.len() - items_from <= MAX_ROOM_ITEMS
    &&& after.subrange(0, before.len() as int) =~= before
    &&& forall|i: int|
        before.len() <= i < items_from ==> #[trigger] placed_in(after, g, room, i) && (after[i]
            == orc_at(after[i].x, after[i].y) || after[i] == troll_at(after[i].x, after[i].y))
    &&& forall|i: int|
        items_from <= i < after.len() ==> #[trigger] placed_in(after, g, room, i) && after[i]
            == potion_at(after[i].x, after[i].y)
}

/// Whether `after` is `before` with new inhabitants of `room` at its end: at
/// most three monsters, each an orc or a troll, followed by at most two
/// healing potions.
pub open spec fn populated(
    before: Seq<ObjectView>,
    after: Seq<ObjectView>,
    g: Grid,
    room: RectRoom,
) -> bool {
    exists|items_from: int| #[trigger] populated_from(before, after, g, room, items_from)
}

proof fn lemma_world_push(objects: Seq<Object>, o: Object)
    ensures
        world(objects.push(o)) == world(objects).push(o@),
{
    assert(world(objects.push(o)) =~= world(objects).push(o@));
}

/// The entities after `newcomer` was to be put on its cell: it has joined
/// them at the end unless the cell is blocked, in which case nothing has
/// changed.
pub open spec fn with_newcomer(entities: Seq<ObjectView>, g: Grid, newcomer: ObjectView) -> Seq<
    ObjectView,
> {
    if blocked_at(g, entities, newcomer.x, newcomer.y) {
        entities
    } else {
        entities.push(newcomer)
    }
}

/// Puts a monster on `(x, y)` if nothing blocks the cell: an orc if `is_orc`,
/// else a troll. On a blocked cell nothing happens.
pub fn place_monster(x: i32, y: i32, is_orc: bool, map: &GameMap, objects: &mut Vec<Object>)
    requires
        in_grid(grid(map), x as int, y as int),
    ensures
        final(objects)@.subrange(0, old(objects)@.len() as int) == old(objects)@,
        world(final(objects)@) == with_newcomer(
            world(old(objects)@),
            grid(map),
            if is_orc {
                orc_at(x as int, y as int)
            } else {
                troll_at(x as int, y as int)
            },
        ),
{
    if !is_blocked(x, y, map, objects) {
        let monster = if is_orc {
            orc(x, y)
        } else {
            troll(x, y)
        };
        proof {
            lemma_world_push(objects@, monster);
        }
        objects.push(monster);
    }
    assert(objects@.subrange(0, old(objects)@.len() as int) =~= old(objects)@);
}

/// Puts a healing potion on `(x, y)` if nothing blocks the cell. On a blocked
/// cell nothing happens.
pub fn place_item(x: i32, y: i32, map: &GameMap, objects: &mut Vec<Object>)
    requires
        in_grid(grid(map), x as int, y as int),
    ensures
        final(objects)@.subrange(0, old(objects)@.len() as int) == old(objects)@,
        world(final(objects)@) == with_newcomer(
            world(old(objects)@),
            grid(map),
            potion_at(x as int, y as int),
        ),
{
    if !is_blocked(x, y, map, objects) {
        let potion = healing_potion(x, y);
        proof {
            lemma_world_push(objects@, potion);
        }
        objects.push(potion);
    }
    assert(objects@.subrange(0, old(objects)@.len() as int) =~= old(objects)@);
}

/// Puts monsters and items on the floor of `room`.
///
/// Up to three times a cell of the floor is drawn and, if nothing blocks it,
/// a monster is put there: an orc four times out of five, else a troll. Then
/// the same is done up to two times for healing potions. A draw that hits a
/// blocked cell is not repeated.
pub fn place_objects(room: RectRoom, map: &GameMap, objects: &mut Vec<Object>)
    requires
        room.x1 + 1 < room.x2,
        room.y1 + 1 < room.y2,
        forall|x: int, y: int| room.inside(x, y) ==> in_grid(grid(map), x, y),
    ensures
        final(objects)@.subrange(0, old(objects)@.len() as int) == old(objects)@,
        populated(world(old(objects)@), world(final(objects)@), grid(map), room),
{
    let ghost before = objects@;
    let num_monsters = random_range(0, MAX_ROOM_MONSTERS + 1);
    let mut n: i32 = 0;
    assert(objects@.subrange(0, before.len() as int) =~= before);
    assert(world(objects@).subrange(0, before.len() as int) =~= world(before));
    while n < num_monsters
        invariant
            0 <= n <= num_monsters <= MAX_ROOM_MONSTERS,
            room.x1 + 1 < room.x2,
            room.y1 + 1 < room.y2,
            forall|x: int, y: int| room.inside(x, y) ==> in_grid(grid(map), x, y),
            objects@.subrange(0, before.len() as int) == before,
            populated_from(world(before), world(objects@), grid(map), room, objects@.len() as int),
            objects@.len() <= before.len() + n,
        decreases num_monsters - n,
    {
        let x = random_range(room.x1 + 1, room.x2);
        let y = random_range(room.y1 + 1, room.y2);
        assert(room.inside(x as int, y as int));
        let is_orc = random_ratio(4, 5);
        let ghost earlier = objects@;
        place_monster(x, y, is_orc, map, objects);
        proof {
            let w = world(objects@);
            assert(w.len() == objects@.len());
            assert(objects@.subrange(0, before.len() as int) =~= before) by {
                assert(objects@.subrange(0, earlier.len() as int) == earlier);
                assert(earlier.subrange(0, before.len() as int) == before);
                assert forall|i: int| 0 <= i < before.len() implies objects@[i] == before[i] by {
                    assert(objects@.subrange(0, earlier.len() as int)[i] == objects@[i]);
                    assert(earlier.subrange(0, before.len() as int)[i] == earlier[i]);
                }
            }
            assert(w.subrange(0, before.len() as int) =~= world(before));
            assert(w.subrange(0, earlier.len() as int) =~= world(earlier));
            assert forall|i: int| before.len() <= i < objects@.len() implies #[trigger] placed_in(
                w,
                grid(map),
                room,
                i,
            ) && (w[i] == orc_at(w[i].x, w[i].y) || w[i] == troll_at(w[i].x, w[i].y)) by {
                if i < earlier.len() {
                    assert(placed_in(world(earlier), grid(map), room, i));
                    assert(w.subrange(0, i) =~= world(earlier).subrange(0, i));
                }
            }
        }
        n += 1;
    }
    let ghost items_from = objects@.len() as int;
    let num_items = random_range(0, MAX_ROOM_ITEMS + 1);
    let mut n: i32 = 0;
    while n < num_items
        invariant
            0 <= n <= num_items <= MAX_ROOM_ITEMS,
            room.x1 + 1 < room.x2,
            room.y1 + 1 < room.y2,
            forall|x: int, y: int| room.inside(x, y) ==> in_grid(grid(map), x, y),
            objects@.subrange(0, before.len() as int) == before,
            populated_from(world(before), world(objects@), grid(map), room, items_from),
            objects@.len() <= items_from + n,
        decreases num_items - n,
    {
        let x = random_range(room.x1 + 1, room.x2);
        let y = random_range(room.y1 + 1, room.y2);
        assert(room.inside(x as int, y as int));
        let ghost earlier = objects@;
        place_item(x, y, map, objects);
        proof {
            let w = world(objects@);
            assert(w.len() == objects@.len());
            assert(objects@.subrange(0, before.len() as int) =~= before) by {
                assert(objects@.subrange(0, earlier.len() as int) == earlier);
                assert(earlier.subrange(0, before.len() as int) == before);
                assert forall|i: int| 0 <= i < before.len() implies objects@[i] == before[i] by {
                    assert(objects@.subrange(0, earlier.len() as int)[i] == objects@[i]);
                    assert(earlier.subrange(0, before.len() as int)[i] == earlier[i]);
                }
            }
            assert(w.subrange(0, before.len() as int) =~= world(before));
            assert(w.subrange(0, earlier.len() as int) =~= world(earlier));
            assert forall|i: int| before.len() <= i < items_from implies #[trigger] placed_in(
                w,
                grid(map),
                room,
                i,
            ) && (w[i] == orc_at(w[i].x, w[i].y) || w[i] == troll_at(w[i].x, w[i].y)) by {
                assert(placed_in(world(earlier), grid(map), room, i));
                assert(w.subrange(0, i) =~= world(earlier).subrange(0, i));
            }
            assert forall|i: int| items_from <= i < objects@.len() implies #[trigger] placed_in(
                w,
                grid(map),
                room,
                i,
            ) && w[i] == potion_at(w[i].x, w[i].y) by {
                if i < earlier.len() {
                    assert(placed_in(world(earlier), grid(map), room, i));
                    assert(w.subrange(0, i) =~= world(earlier).subrange(0, i));
                }
            }
        }
        n += 1;
    }
}

/// One step of the generator that was not rejected: the room it dug, which
/// way round it dug the corridor to the room before, and how many monsters
/// and items it managed to put into the room.
pub ghost struct Placement {
    pub room: RectRoom,
    /// The corridor leaves the earlier room sideways and turns up or down
    /// to reach this one; otherwise it leaves up or down and turns sideways.
    pub horizontal_first: bool,
    pub monsters: nat,
    pub items: nat,
}

/// Whether the generator can draw `room` for a grid of this size: each side
/// within the limits, and all of it on the grid with a cell to spare at the
/// far ends.
pub open spec fn room_fits(room: RectRoom, width: int, height: int) -> bool {
    &&& ROOM_MIN_SIZE <= room.x2 - room.x1 <= ROOM_MAX_SIZE
    &&& ROOM_MIN_SIZE <= room.y2 - room.y1 <= ROOM_MAX_SIZE
    &&& 0 <= room.x1 && room.x2 < width
    &&& 0 <= room.y1 && room.y2 < height
}

/// Whether every room fits the grid and no two rooms overlap.
pub open spec fn well_laid_out(layout: Seq<Placement>, width: int, height: int) -> bool {
    &&& forall|i: int| 0 <= i < layout.len() ==> room_fits((#[trigger] layout[i]).room, width, height)
    &&& forall|i: int, j: int|
        0 <= i < j < layout.len() ==> !(#[trigger] layout[i]).room.overlaps(
            &(#[trigger] layout[j]).room,
        )
}

/// Whether `(x, y)` is on the floor of room number `i`.
pub open spec fn in_room(layout: Seq<Placement>, i: int, x: int, y: int) -> bool {
    layout[i].room.inside(x, y)
}

/// Whether `(x, y)` is on the corridor from `previous` to `room`: two
/// straight tunnels between the centres of the two rooms, which meet at a
/// right angle. The first tunnel starts at the centre of `previous` and the
/// second ends at the centre of `room`.
pub open spec fn on_corridor(
    previous: RectRoom,
    room: RectRoom,
    horizontal_first: bool,
    x: int,
    y: int,
) -> bool {
    let from = previous.spec_center();
    let to = room.spec_center();
    if horizontal_first {
        on_h_tunnel(from.0, to.0, from.1, x, y) || on_v_tunnel(from.1, to.1, to.0, x, y)
    } else {
        on_v_tunnel(from.1, to.1, from.0, x, y) || on_h_tunnel(from.0, to.0, to.1, x, y)
    }
}

/// Whether `(x, y)` is on the corridor that joins room number `i` to the room
/// before it.
pub open spec fn in_corridor(layout: Seq<Placement>, i: int, x: int, y: int) -> bool {
    on_corridor(layout[i - 1].room, layout[i].room, layout[i].horizontal_first, x, y)
}

/// Whether `(x, y)` has been dug out: it is on the floor of a room, or on the
/// corridor between two rooms that were placed one after the other.
pub open spec fn is_floor(layout: Seq<Placement>, x: int, y: int) -> bool {
    ||| exists|i: int| 0 <= i < layout.len() && #[trigger] in_room(layout, i, x, y)
    ||| exists|i: int| 1 <= i < layout.len() && #[trigger] in_corridor(layout, i, x, y)
}

/// The level that a layout stands for: open floor where something was dug,
/// solid rock everywhere else, and nothing explored yet.
pub open spec fn dungeon(layout: Seq<Placement>, width: int, height: int) -> Grid {
    Seq::new(
        width as nat,
        |x: int|
            Seq::new(
                height as nat,
                |y: int|
                    if is_floor(layout, x, y) {
                        Tile::empty()
                    } else {
                        Tile::wall()
                    },
            ),
    )
}

/// The grid after the generator has dug `room` and joined it to `previous`.
pub open spec fn with_corridor(
    g: Grid,
    previous: RectRoom,
    room: RectRoom,
    horizontal_first: bool,
) -> Grid {
    let from = previous.spec_center();
    let to = room.spec_center();
    if horizontal_first {
        with_v_tunnel(with_h_tunnel(g, from.0, to.0, from.1), from.1, to.1, to.0)
    } else {
        with_h_tunnel(with_v_tunnel(g, from.1, to.1, from.0), from.0, to.0, to.1)
    }
}

/// Joins `room` to `previous` by a corridor between their centres: a
/// horizontal and a vertical tunnel that meet at a right angle. The corridor
/// leaves the centre of `previous` sideways if `horizontal_first`, and
/// upwards or downwards if not.
pub fn connect_rooms(previous: RectRoom, room: RectRoom, horizontal_first: bool, map: &mut GameMap)
    requires
        forall|x: int, y: int|
            on_corridor(previous, room, horizontal_first, x, y) ==> in_grid(grid(old(map)), x, y),
    ensures
        grid(final(map)) == with_corridor(grid(old(map)), previous, room, horizontal_first),
{
    let (prev_x, prev_y) = previous.center();
    let (new_x, new_y) = room.center();
    let ghost g0 = grid(map);
    if horizontal_first {
        assert forall|cx: int, cy: int|
            on_h_tunnel(prev_x as int, new_x as int, prev_y as int, cx, cy) implies in_grid(
            g0,
            cx,
            cy,
        ) by {
            assert(on_corridor(previous, room, horizontal_first, cx, cy));
        }
        create_h_tunnel(prev_x, new_x, prev_y, map);
        assert forall|cx: int, cy: int|
            on_v_tunnel(prev_y as int, new_y as int, new_x as int, cx, cy) implies in_grid(
            grid(map),
            cx,
            cy,
        ) by {
            assert(on_corridor(previous, room, horizontal_first, cx, cy));
            assert(in_grid(g0, cx, cy));
        }
        create_v_tunnel(prev_y, new_y, new_x, map);
    } else {
        assert forall|cx: int, cy: int|
            on_v_tunnel(prev_y as int, new_y as int, prev_x as int, cx, cy) implies in_grid(
            g0,
            cx,
            cy,
        ) by {
            assert(on_corridor(previous, room, horizontal_first, cx, cy));
        }
        create_v_tunnel(prev_y, new_y, prev_x, map);
        assert forall|cx: int, cy: int|
            on_h_tunnel(prev_x as int, new_x as int, new_y as int, cx, cy) implies in_grid(
            grid(map),
            cx,
            cy,
        ) by {
            assert(on_corridor(previous, room, horizontal_first, cx, cy));
            assert(in_grid(g0, cx, cy));
        }
        create_h_tunnel(prev_x, new_x, new_y, map);
    }
}

proof fn lemma_floor_after_push(layout: Seq<Placement>, p: Placement, x: int, y: int)
    ensures
        is_floor(layout.push(p), x, y) <==> (is_floor(layout, x, y) || p.room.inside(x, y) || (
        layout.len() > 0 && in_corridor(layout.push(p), layout.len() as int, x, y))),
{
    let longer = layout.push(p);
    let n = layout.len() as int;
    if is_floor(layout, x, y) {
        if exists|i: int| 0 <= i < layout.len() && #[trigger] in_room(layout, i, x, y) {
            let i = choose|i: int| 0 <= i < layout.len() && #[trigger] in_room(layout, i, x, y);
            assert(in_room(longer, i, x, y));
        } else {
            let i = choose|i: int| 1 <= i < layout.len() && #[trigger] in_corridor(layout, i, x, y);
            assert(in_corridor(longer, i, x, y));
        }
    }
    if p.room.inside(x, y) {
        assert(in_room(longer, n, x, y));
    }
    if is_floor(longer, x, y) {
        if exists|i: int| 0 <= i < longer.len() && #[trigger] in_room(longer, i, x, y) {
            let i = choose|i: int| 0 <= i < longer.len() && #[trigger] in_room(longer, i, x, y);
            if i < n {
                assert(in_room(layout, i, x, y));
            }
        } else {
            let i = choose|i: int| 1 <= i < longer.len() && #[trigger] in_corridor(longer, i, x, y);
            if i < n {
                assert(in_corridor(layout, i, x, y));
            }
        }
    }
}

proof fn lemma_first_room(p: Placement, width: int, height: int)
    requires
        0 <= width,
        0 <= height,
    ensures
        dungeon(seq![p], width, height) == with_room(
            dungeon(Seq::<Placement>::empty(), width, height),
            p.room,
        ),
{
    let none = Seq::<Placement>::empty();
    assert(none.push(p) =~= seq![p]);
    assert forall|x: int, y: int| #[trigger]
        is_floor(seq![p], x, y) == (is_floor(none, x, y) || p.room.inside(x, y)) by {
        lemma_floor_after_push(none, p, x, y);
    }
    assert(dungeon(seq![p], width, height) =~~= with_room(dungeon(none, width, height), p.room));
}

proof fn lemma_next_room(layout: Seq<Placement>, p: Placement, width: int, height: int)
    requires
        0 <= width,
        0 <= height,
        layout.len() > 0,
    ensures
        dungeon(layout.push(p), width, height) == with_corridor(
            with_room(dungeon(layout, width, height), p.room),
            layout.last().room,
            p.room,
            p.horizontal_first,
        ),
{
    let longer = layout.push(p);
    let n = layout.len() as int;
    assert(longer[n - 1] == layout.last());
    assert(longer[n] == p);
    assert forall|x: int, y: int| #[trigger]
        is_floor(longer, x, y) == (is_floor(layout, x, y) || p.room.inside(x, y) || in_corridor(
            longer,
            n,
            x,
            y,
        )) by {
        lemma_floor_after_push(layout, p, x, y);
    }
    assert(dungeon(longer, width, height) =~~= with_corridor(
        with_room(dungeon(layout, width, height), p.room),
        layout.last().room,
        p.room,
        p.horizontal_first,
    ));
}

/// The centre of a room that fits the grid is a cell of its floor.
proof fn lemma_center_inside(room: RectRoom, width: int, height: int)
    requires
        room_fits(room, width, height),
    ensures
        room.inside(room.spec_center().0, room.spec_center().1),
        0 < room.spec_center().0 < width,
        0 < room.spec_center().1 < height,
{
}

/// Whether `room` overlaps one of `rooms`.
pub fn intersects_any(room: &RectRoom, rooms: &Vec<RectRoom>) -> (hit: bool)
    ensures
        hit == exists|i: int| 0 <= i < rooms@.len() && room.overlaps(&#[trigger] rooms@[i]),
{
    let mut i: usize = 0;
    while i < rooms.len()
        invariant
            i <= rooms@.len(),
            forall|j: int| 0 <= j < i ==> !room.overlaps(&#[trigger] rooms@[j]),
        decreases rooms@.len() - i,
    {
        if room.intersects_with(&rooms[i]) {
            return true;
        }
        i += 1;
    }
    false
}

/// How many entities the generator put into the rooms before room number
/// `r`.
pub open spec fn inhabitants_before(layout: Seq<Placement>, r: int) -> int
    decreases r,
{
    if r <= 0 {
        0
    } else {
        inhabitants_before(layout, r - 1) + layout[r - 1].monsters + layout[r - 1].items
    }
}

/// Whether inhabitant number `k` of room number `r` is what the generator
/// makes it. The inhabitants of the rooms follow the `first` entities that
/// were there before, room by room, in each room the monsters before the
/// items. A monster is an orc or a troll and an item is a healing potion.
/// Each stands on the floor of its room, and not on a cell where an earlier
/// entity other than the player stands in the way.
pub open spec fn settled(
    layout: Seq<Placement>,
    first: int,
    entities: Seq<ObjectView>,
    r: int,
    k: int,
) -> bool {
    let index = first + inhabitants_before(layout, r) + k;
    let o = entities[index];
    &&& layout[r].room.inside(o.x, o.y)
    &&& if k < layout[r].monsters {
        o == orc_at(o.x, o.y) || o == troll_at(o.x, o.y)
    } else {
        o == potion_at(o.x, o.y)
    }
    &&& forall|j: int|
        1 <= j < index && (#[trigger] entities[j]).blocks ==> !(entities[j].x == o.x
            && entities[j].y == o.y)
}

/// Whether a level with the grid `g` and the entities `after` is what the
/// generator makes of the entities `before` when `layout` lists the rooms
/// that it managed to place.
///
/// There is at least one room and there are at most thirty. The rooms fit
/// the map and keep apart. The grid is the dungeon that the rooms and the
/// corridors between them make. The player stands in the middle of the
/// first room and is otherwise as before, the other entities that were
/// there before are untouched, and behind them come the inhabitants of the
/// rooms, at most three monsters and two items each.
pub open spec fn generated(
    layout: Seq<Placement>,
    g: Grid,
    before: Seq<ObjectView>,
    after: Seq<ObjectView>,
) -> bool {
    &&& 1 <= layout.len() <= MAX_ROOMS
    &&& well_laid_out(layout, MAP_WIDTH as int, MAP_HEIGHT as int)
    &&& g == dungeon(layout, MAP_WIDTH as int, MAP_HEIGHT as int)
    &&& forall|r: int|
        0 <= r < layout.len() ==> (#[trigger] layout[r]).monsters <= MAX_ROOM_MONSTERS
            && layout[r].items <= MAX_ROOM_ITEMS
    &&& after.len() == before.len() + inhabitants_before(layout, layout.len() as int)
    &&& after[0] == (ObjectView {
        x: layout[0].room.spec_center().0,
        y: layout[0].room.spec_center().1,
        ..before[0]
    })
    &&& forall|i: int| 1 <= i < before.len() ==> #[trigger] after[i] == before[i]
    &&& forall|r: int, k: int|
        0 <= r < layout.len() && 0 <= k < layout[r].monsters + layout[r].items ==> #[trigger] settled(
            layout,
            before.len() as int,
            after,
            r,
            k,
        )
}

/// What holds between two rounds of the generator.
spec fn generating(
    layout: Seq<Placement>,
    g: Grid,
    before: Seq<ObjectView>,
    now: Seq<ObjectView>,
) -> bool {
    &&& layout.len() <= MAX_ROOMS
    &&& well_laid_out(layout, MAP_WIDTH as int, MAP_HEIGHT as int)
    &&& g == dungeon(layout, MAP_WIDTH as int, MAP_HEIGHT as int)
    &&& forall|r: int|
        0 <= r < layout.len() ==> (#[trigger] layout[r]).monsters <= MAX_ROOM_MONSTERS
            && layout[r].items <= MAX_ROOM_ITEMS
    &&& 1 <= before.len()
    &&& now.len() == before.len() + inhabitants_before(layout, layout.len() as int)
    &&& now[0] == if layout.len() == 0 {
        before[0]
    } else {
        ObjectView {
            x: layout[0].room.spec_center().0,
            y: layout[0].room.spec_center().1,
            ..before[0]
        }
    }
    &&& forall|i: int| 1 <= i < before.len() ==> #[trigger] now[i] == before[i]
    &&& forall|r: int, k: int|
        0 <= r < layout.len() && 0 <= k < layout[r].monsters + layout[r].items ==> #[trigger] settled(
            layout,
            before.len() as int,
            now,
            r,
            k,
        )
}

/// A new room at the end does not change how many live in the rooms before.
proof fn lemma_inhabitants_after_push(layout: Seq<Placement>, p: Placement, r: int)
    requires
        r <= layout.len(),
    ensures
        inhabitants_before(layout.push(p), r) == inhabitants_before(layout, r),
    decreases r,
{
    if r > 0 {
        lemma_inhabitants_after_push(layout, p, r - 1);
        assert(layout.push(p)[r - 1] == layout[r - 1]);
    }
}

/// The later a room, the more live in the rooms before it.
proof fn lemma_inhabitants_grow(layout: Seq<Placement>, r: int, s: int)
    requires
        0 <= r <= s,
    ensures
        0 <= inhabitants_before(layout, r) <= inhabitants_before(layout, s),
    decreases s,
{
    if r < s {
        lemma_inhabitants_grow(layout, r, s - 1);
    } else if r > 0 {
        lemma_inhabitants_grow(layout, r - 1, r - 1);
    }
}

/// One accepted room keeps everything true that the generator relies on.
proof fn lemma_room_accepted(
    layout: Seq<Placement>,
    p: Placement,
    before: Seq<ObjectView>,
    earlier: Seq<ObjectView>,
    crowded: Seq<ObjectView>,
    now: Seq<ObjectView>,
    g: Grid,
)
    requires
        layout.len() < MAX_ROOMS,
        generating(layout, dungeon(layout, MAP_WIDTH as int, MAP_HEIGHT as int), before, earlier),
        room_fits(p.room, MAP_WIDTH as int, MAP_HEIGHT as int),
        forall|i: int| 0 <= i < layout.len() ==> !p.room.overlaps(&(#[trigger] layout[i]).room),
        populated_from(earlier, crowded, g, p.room, (earlier.len() + p.monsters) as int),
        crowded.len() == earlier.len() + p.monsters + p.items,
        now.len() == crowded.len(),
        forall|i: int| 1 <= i < crowded.len() ==> #[trigger] now[i] == crowded[i],
        now[0] == if layout.len() == 0 {
            ObjectView { x: p.room.spec_center().0, y: p.room.spec_center().1, ..crowded[0] }
        } else {
            crowded[0]
        },
    ensures
        generating(
            layout.push(p),
            dungeon(layout.push(p), MAP_WIDTH as int, MAP_HEIGHT as int),
            before,
            now,
        ),
{
    let longer = layout.push(p);
    let n = layout.len() as int;
    let first = before.len() as int;
    assert(forall|i: int| 0 <= i < earlier.len() ==> crowded.subrange(0, earlier.len() as int)[i]
        == crowded[i]);
    assert forall|i: int, j: int| 0 <= i < j < longer.len() implies !(#[trigger] longer[i]).room.overlaps(
        &(#[trigger] longer[j]).room,
    ) by {
        if j == n {
            assert(!p.room.overlaps(&layout[i].room));
        } else {
            assert(!layout[i].room.overlaps(&layout[j].room));
        }
    }
    assert forall|i: int| 0 <= i < longer.len() implies room_fits(
        (#[trigger] longer[i]).room,
        MAP_WIDTH as int,
        MAP_HEIGHT as int,
    ) by {
        if i < n {
            assert(room_fits(layout[i].room, MAP_WIDTH as int, MAP_HEIGHT as int));
        }
    }
    assert forall|r: int| 0 <= r < longer.len() implies (#[trigger] longer[r]).monsters
        <= MAX_ROOM_MONSTERS && longer[r].items <= MAX_ROOM_ITEMS by {
        if r < n {
            assert(layout[r].monsters <= MAX_ROOM_MONSTERS);
        }
    }
    lemma_inhabitants_after_push(layout, p, n);
    lemma_inhabitants_grow(layout, 0, n);
    assert(longer[n] == p);
    assert(inhabitants_before(longer, n + 1) == inhabitants_before(layout, n) + p.monsters
        + p.items);
    assert forall|r: int, k: int|
        0 <= r < longer.len() && 0 <= k < longer[r].monsters + longer[r].items implies #[trigger] settled(
        longer,
        first,
        now,
        r,
        k,
    ) by {
        lemma_inhabitants_after_push(layout, p, r);
        let index = first + inhabitants_before(longer, r) + k;
        let o = now[index];
        lemma_inhabitants_grow(layout, 0, r);
        if r < n {
            assert(longer[r] == layout[r]);
            assert(settled(layout, first, earlier, r, k));
            lemma_inhabitants_grow(layout, r + 1, n);
            assert(index < earlier.len());
            assert(now[index] == earlier[index]);
            assert forall|j: int| 1 <= j < index && (#[trigger] now[j]).blocks implies !(now[j].x
                == o.x && now[j].y == o.y) by {
                assert(earlier[j] == now[j]);
            }
        } else {
            assert(index == earlier.len() + k);
            assert(placed_in(crowded, g, p.room, index));
            assert forall|j: int| 1 <= j < index && (#[trigger] now[j]).blocks implies !(now[j].x
                == o.x && now[j].y == o.y) by {
                assert(crowded.subrange(0, index)[j] == now[j]);
            }
        }
    }
}

/// Generates a level: digs up to thirty rooms into solid rock, joins each
/// to the one before by a corridor, fills them with monsters and items, and
/// puts the player into the middle of the first room.
///
/// Each round draws a room of random size at a random place. A room that
/// overlaps an earlier one is dropped and not drawn again, so a level may
/// have fewer rooms; the first draw always succeeds. What came out is
/// described by the list of the rooms that were placed: see `generated`.
pub fn make_map(objects: &mut Vec<Object>) -> (map: GameMap)
    requires
        old(objects)@.len() > 0,
    ensures
        exists|layout: Seq<Placement>| #[trigger]
            generated(layout, grid(&map), world(old(objects)@), world(final(objects)@)),
{
    let mut game_map = vec![vec![Tile::wall(); MAP_HEIGHT as usize]; MAP_WIDTH as usize];
    let mut rooms: Vec<RectRoom> = Vec::new();
    let ghost mut layout = Seq::<Placement>::empty();
    let ghost before = world(objects@);
    assert(grid(&game_map) =~~= dungeon(layout, MAP_WIDTH as int, MAP_HEIGHT as int));
    let mut round: i32 = 0;
    while round < MAX_ROOMS
        invariant
            0 <= round <= MAX_ROOMS,
            layout.len() <= round,
            round > 0 ==> layout.len() > 0,
            rooms@.len() == layout.len(),
            forall|i: int| 0 <= i < layout.len() ==> (#[trigger] layout[i]).room == rooms@[i],
            generating(layout, grid(&game_map), before, world(objects@)),
        decreases MAX_ROOMS - round,
    {
        let w = random_range(ROOM_MIN_SIZE, ROOM_MAX_SIZE + 1);
        let h = random_range(ROOM_MIN_SIZE, ROOM_MAX_SIZE + 1);
        let x = random_range(0, MAP_WIDTH - w);
        let y = random_range(0, MAP_HEIGHT - h);
        let new_room = RectRoom::new(x, y, w, h);
        let failed = intersects_any(&new_room, &rooms);
        if !failed {
            let ghost earlier = world(objects@);
            proof {
                lemma_center_inside(new_room, MAP_WIDTH as int, MAP_HEIGHT as int);
            }
            create_room(new_room, &mut game_map);
            place_objects(new_room, &game_map, objects);
            let ghost crowded = world(objects@);
            let ghost g1 = grid(&game_map);
            let ghost items_from = choose|k: int| #[trigger]
                populated_from(earlier, crowded, g1, new_room, k);
            let ghost mut p = Placement {
                room: new_room,
                horizontal_first: false,
                monsters: (items_from - earlier.len()) as nat,
                items: (crowded.len() - items_from) as nat,
            };
            let (new_x, new_y) = new_room.center();
            if rooms.is_empty() {
                objects[PLAYER_ID].move_to(new_x, new_y);
                proof {
                    lemma_first_room(p, MAP_WIDTH as int, MAP_HEIGHT as int);
                    assert(layout =~= Seq::<Placement>::empty());
                    assert(layout.push(p) =~= seq![p]);
                }
            } else {
                let previous = rooms[rooms.len() - 1];
                proof {
                    assert(layout.last().room == previous);
                    assert(room_fits(layout.last().room, MAP_WIDTH as int, MAP_HEIGHT as int));
                    lemma_center_inside(previous, MAP_WIDTH as int, MAP_HEIGHT as int);
                }
                let turn_late = random_bool();
                proof {
                    p = Placement { horizontal_first: turn_late, ..p };
                }
                connect_rooms(previous, new_room, turn_late, &mut game_map);
                proof {
                    lemma_next_room(layout, p, MAP_WIDTH as int, MAP_HEIGHT as int);
                }
            }
            rooms.push(new_room);
            proof {
                assert forall|i: int| 0 <= i < layout.len() implies !p.room.overlaps(
                    &(#[trigger] layout[i]).room,
                ) by {
                    assert(layout[i].room == rooms@[i]);
                }
                lemma_room_accepted(layout, p, before, earlier, crowded, world(objects@), g1);
                layout = layout.push(p);
            }
        }
        round += 1;
    }
    assert(generated(layout, grid(&game_map), before, world(objects@)));
    game_map
}

/// In a generated level, whoever stands on open floor can look at each of
/// the eight cells around without leaving the map; so a step from open
/// floor is never a step off the map.
pub proof fn lemma_floor_has_neighbours(
    layout: Seq<Placement>,
    g: Grid,
    before: Seq<ObjectView>,
    after: Seq<ObjectView>,
    x: int,
    y: int,
    dx: int,
    dy: int,
)
    requires
        generated(layout, g, before, after),
        in_grid(g, x, y),
        !g[x][y].blocked,
        -1 <= dx <= 1,
        -1 <= dy <= 1,
    ensures
        in_grid(g, x + dx, y + dy),
{
    lemma_floor_is_room_or_corridor(layout, g, before, after, x, y);
}

/// A generated level has the size of the map, whichever rooms were placed.
pub proof fn lemma_level_fills_the_map(
    layout: Seq<Placement>,
    g: Grid,
    before: Seq<ObjectView>,
    after: Seq<ObjectView>,
)
    requires
        generated(layout, g, before, after),
    ensures
        rectangular(g, MAP_WIDTH as int, MAP_HEIGHT as int),
{
}

/// A generated level has at most five new entities for each of its rooms.
pub proof fn lemma_inhabitants_are_few(
    layout: Seq<Placement>,
    g: Grid,
    before: Seq<ObjectView>,
    after: Seq<ObjectView>,
)
    requires
        generated(layout, g, before, after),
    ensures
        before.len() <= after.len() <= before.len() + layout.len() * (MAX_ROOM_MONSTERS
            + MAX_ROOM_ITEMS),
{
    lemma_inhabitants_bound(layout, layout.len() as int);
}

proof fn lemma_inhabitants_bound(layout: Seq<Placement>, r: int)
    requires
        0 <= r <= layout.len(),
        forall|i: int|
            0 <= i < layout.len() ==> (#[trigger] layout[i]).monsters <= MAX_ROOM_MONSTERS
                && layout[i].items <= MAX_ROOM_ITEMS,
    ensures
        0 <= inhabitants_before(layout, r) <= r * (MAX_ROOM_MONSTERS + MAX_ROOM_ITEMS),
    decreases r,
{
    if r > 0 {
        lemma_inhabitants_bound(layout, r - 1);
        assert(layout[r - 1].monsters <= MAX_ROOM_MONSTERS);
    }
}

/// No two rooms of a generated level overlap or even touch, in whichever
/// order the two are taken.
pub proof fn lemma_rooms_never_overlap(
    layout: Seq<Placement>,
    g: Grid,
    before: Seq<ObjectView>,
    after: Seq<ObjectView>,
    i: int,
    j: int,
)
    requires
        generated(layout, g, before, after),
        0 <= i < layout.len(),
        0 <= j < layout.len(),
        i != j,
    ensures
        !layout[i].room.overlaps(&layout[j].room),
{
    if i < j {
        assert(!layout[i].room.overlaps(&layout[j].room));
    } else {
        assert(!layout[j].room.overlaps(&layout[i].room));
    }
}

/// Every cell of a generated level is either open floor or solid rock, and
/// none is explored. A cell is open exactly if it belongs to the floor of a
/// room or lies on a corridor, that is on one of the two straight tunnels
/// that run between the centres of two rooms placed one after the other.
/// The open cells keep clear of the edge of the map.
pub proof fn lemma_floor_is_room_or_corridor(
    layout: Seq<Placement>,
    g: Grid,
    before: Seq<ObjectView>,
    after: Seq<ObjectView>,
    x: int,
    y: int,
)
    requires
        generated(layout, g, before, after),
        0 <= x < MAP_WIDTH,
        0 <= y < MAP_HEIGHT,
    ensures
        g[x][y] == Tile::empty() || g[x][y] == Tile::wall(),
        g[x][y] == Tile::empty() <==> is_floor(layout, x, y),
        is_floor(layout, x, y) <==> {
            ||| exists|i: int| 0 <= i < layout.len() && (#[trigger] layout[i]).room.inside(x, y)
            ||| exists|i: int| 1 <= i < layout.len() && #[trigger] in_corridor(layout, i, x, y)
        },
        is_floor(layout, x, y) ==> 0 < x < MAP_WIDTH - 1 && 0 < y < MAP_HEIGHT - 1,
{
    if exists|i: int| 0 <= i < layout.len() && #[trigger] in_room(layout, i, x, y) {
        let i = choose|i: int| 0 <= i < layout.len() && #[trigger] in_room(layout, i, x, y);
        assert(layout[i].room.inside(x, y));
        assert(room_fits(layout[i].room, MAP_WIDTH as int, MAP_HEIGHT as int));
    }
    if exists|i: int| 0 <= i < layout.len() && (#[trigger] layout[i]).room.inside(x, y) {
        let i = choose|i: int| 0 <= i < layout.len() && (#[trigger] layout[i]).room.inside(x, y);
        assert(in_room(layout, i, x, y));
    }
    if exists|i: int| 1 <= i < layout.len() && #[trigger] in_corridor(layout, i, x, y) {
        let i = choose|i: int| 1 <= i < layout.len() && #[trigger] in_corridor(layout, i, x, y);
        assert(room_fits(layout[i - 1].room, MAP_WIDTH as int, MAP_HEIGHT as int));
        assert(room_fits(layout[i].room, MAP_WIDTH as int, MAP_HEIGHT as int));
        lemma_center_inside(layout[i - 1].room, MAP_WIDTH as int, MAP_HEIGHT as int);
        lemma_center_inside(layout[i].room, MAP_WIDTH as int, MAP_HEIGHT as int);
    }
}

/// The grid after the player has looked around: every cell in sight is
/// explored now, and no cell has changed in any other way.
pub open spec fn looked_at(g: Grid, fov: &FovMap) -> Grid {
    Seq::new(
        g.len(),
        |x: int|
            Seq::new(
                g[x].len(),
                |y: int|
                    if x < MAP_WIDTH && y < MAP_HEIGHT && fov.visible(x, y) {
                        Tile { explored: true, ..g[x][y] }
                    } else {
                        g[x][y]
                    },
            ),
    )
}

/// The grid while `explore` is at work, about to visit `(x, y)`.
spec fn looked_at_until(g: Grid, fov: &FovMap, x: int, y: int) -> Grid {
    Seq::new(
        g.len(),
        |cx: int|
            Seq::new(
                g[cx].len(),
                |cy: int|
                    if cx < MAP_WIDTH && cy < MAP_HEIGHT && fov.visible(cx, cy) && (cy < y || (cy
                        == y && cx < x)) {
                        Tile { explored: true, ..g[cx][cy] }
                    } else {
                        g[cx][cy]
                    },
            ),
    )
}

fn mark_explored(map: &mut GameMap, x: usize, y: usize)
    requires
        in_grid(grid(old(map)), x as int, y as int),
    ensures
        grid(final(map)) == grid(old(map)).update(
            x as int,
            grid(old(map))[x as int].update(
                y as int,
                Tile { explored: true, ..grid(old(map))[x as int][y as int] },
            ),
        ),
{
    map[x][y].explored = true;
    assert(grid(map) =~= grid(old(map)).update(
        x as int,
        grid(old(map))[x as int].update(
            y as int,
            Tile { explored: true, ..grid(old(map))[x as int][y as int] },
        ),
    ));
}

/// Whether the map and the field of view both reach as far as a level does.
pub open spec fn covers_level(g: Grid, fov: &FovMap) -> bool {
    forall|x: int, y: int|
        0 <= x < MAP_WIDTH && 0 <= y < MAP_HEIGHT ==> #[trigger] in_grid(g, x, y) && fov.contains(
            x,
            y,
        )
}

/// Whether the map and the field of view both reach as far as a level does.
pub fn can_explore(map: &GameMap, fov: &FovMap) -> (ok: bool)
    ensures
        ok == covers_level(grid(map), fov),
{
    let (width, height) = fov.size();
    if width < MAP_WIDTH || height < MAP_HEIGHT {
        assert(!covers_level(grid(map), fov)) by {
            if covers_level(grid(map), fov) {
                assert(in_grid(grid(map), MAP_WIDTH - 1, MAP_HEIGHT - 1));
                assert(fov.contains(MAP_WIDTH - 1, MAP_HEIGHT - 1));
            }
        }
        return false;
    }
    if map.len() < MAP_WIDTH as usize {
        assert(!covers_level(grid(map), fov)) by {
            if covers_level(grid(map), fov) {
                assert(in_grid(grid(map), MAP_WIDTH - 1, 0));
            }
        }
        return false;
    }
    let mut x: usize = 0;
    while x < MAP_WIDTH as usize
        invariant
            x <= MAP_WIDTH,
            map@.len() >= MAP_WIDTH,
            fov.width() >= MAP_WIDTH,
            fov.height() >= MAP_HEIGHT,
            forall|cx: int, cy: int|
                0 <= cx < x && 0 <= cy < MAP_HEIGHT ==> #[trigger] in_grid(grid(map), cx, cy),
        decreases MAP_WIDTH - x,
    {
        assert(grid(map)[x as int] == map@[x as int]@);
        if map[x].len() < MAP_HEIGHT as usize {
            assert(!covers_level(grid(map), fov)) by {
                if covers_level(grid(map), fov) {
                    assert(in_grid(grid(map), x as int, MAP_HEIGHT - 1));
                }
            }
            return false;
        }
        x += 1;
    }
    true
}

/// Marks every tile that the player sees right now as explored. A tile that
/// was explored before stays so.
pub fn explore(map: &mut GameMap, fov: &FovMap)
    requires
        covers_level(grid(old(map)), fov),
    ensures
        grid(final(map)) == looked_at(grid(old(map)), fov),
{
    let ghost g0 = grid(map);
    let mut y: i32 = 0;
    assert(grid(map) =~~= looked_at_until(g0, fov, 0, 0));
    while y < MAP_HEIGHT
        invariant
            0 <= y <= MAP_HEIGHT,
            forall|x: int, y: int|
                0 <= x < MAP_WIDTH && 0 <= y < MAP_HEIGHT ==> #[trigger] in_grid(g0, x, y)
                    && fov.contains(x, y),
            grid(map) == looked_at_until(g0, fov, 0, y as int),
        decreases MAP_HEIGHT - y,
    {
        let mut x: i32 = 0;
        while x < MAP_WIDTH
            invariant
                0 <= y < MAP_HEIGHT,
                0 <= x <= MAP_WIDTH,
                forall|x: int, y: int|
                    0 <= x < MAP_WIDTH && 0 <= y < MAP_HEIGHT ==> #[trigger] in_grid(g0, x, y)
                        && fov.contains(x, y),
                grid(map) == looked_at_until(g0, fov, x as int, y as int),
            decreases MAP_WIDTH - x,
        {
            assert(in_grid(g0, x as int, y as int) && fov.contains(x as int, y as int));
            if fov.is_in_fov(x, y) {
                mark_explored(map, x as usize, y as usize);
            }
            x += 1;
            assert(grid(map) =~~= looked_at_until(g0, fov, x as int, y as int));
        }
        y += 1;
        assert(grid(map) =~~= looked_at_until(g0, fov, 0, y as int));
    }
    assert(grid(map) =~~= looked_at(g0, fov));
}

/// Looking around never makes the player forget: what was explored stays
/// explored, what is in sight becomes explored, nothing else does, and walls
/// stay walls and floor stays floor.
pub proof fn lemma_explored_stays(g: Grid, fov: &FovMap, x: int, y: int)
    requires
        in_grid(g, x, y),
    ensures
        g[x][y].explored ==> looked_at(g, fov)[x][y].explored,
        looked_at(g, fov)[x][y].explored ==> g[x][y].explored || fov.visible(x, y),
        looked_at(g, fov)[x][y].blocked == g[x][y].blocked,
        looked_at(g, fov)[x][y].block_sight == g[x][y].block_sight,
{
}

pub open spec fn spec_tile_color(visible: bool, wall: bool) -> Color {
    if visible {
        if wall {
            Color { r: 130, g: 110, b: 50 }
        } else {
            Color { r: 200, g: 180, b: 50 }
        }
    } else {
        if wall {
            Color { r: 0, g: 0, b: 100 }
        } else {
            Color { r: 50, g: 50, b: 150 }
        }
    }
}

/// The colour in which a tile is painted: lit or dark, wall or ground.
#[verifier::when_used_as_spec(spec_tile_color)]
pub fn tile_color(visible: bool, wall: bool) -> (color: Color)
    ensures
        color == spec_tile_color(visible, wall),
{
    if visible {
        if wall {
            Color { r: 130, g: 110, b: 50 }
        } else {
            Color { r: 200, g: 180, b: 50 }
        }
    } else {
        if wall {
            Color { r: 0, g: 0, b: 100 }
        } else {
            Color { r: 50, g: 50, b: 150 }
        }
    }
}

} // verus!
