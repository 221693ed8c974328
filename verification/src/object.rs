//! Entities: the player, monsters, items and corpses, and how they fight.

use vstd::prelude::*;
use vstd::string::StringExecFns;
use crate::{mut_two, Game, PLAYER_ID};
use crate::ai::Ai;
use crate::colors::{dark_red, orange, red, white, Color};
use crate::gamemap::{blocked_at, grid, in_grid, is_blocked, on_map, Grid};
use crate::gui::Message;
use crate::inventory::Item;
use crate::text::{append_decimal, decimal};

verus! {

/// Anything that has a place on the map.
#[derive(Debug)]
pub struct Object {
    pub x: i32,
    pub y: i32,
    pub glyph: char,
    pub color: Color,
    pub name: String,
    /// Nothing else can walk onto its tile.
    pub blocks: bool,
    pub alive: bool,
    /// Present on whatever can fight and be fought.
    pub fighter: Option<Fighter>,
    /// Present on whatever acts by itself.
    pub ai: Option<Ai>,
    /// Present on whatever can be picked up.
    pub item: Option<Item>,
}

/// What an entity needs in order to fight.
#[derive(Clone, Copy, Debug, PartialEq, Eq, Structural)]
pub struct Fighter {
    pub max_hp: i32,
    pub hp: i32,
    pub defense: i32,
    pub power: i32,
    pub on_death: DeathCallback,
}

/// Which of the two ways of dying applies to a fighter.
#[derive(Clone, Copy, Debug, PartialEq, Eq, Structural)]
pub enum DeathCallback {
    Player,
    Monster,
}

/// An entity as the rules see it.
pub ghost struct ObjectView {
    pub x: int,
    pub y: int,
    pub glyph: char,
    pub color: Color,
    pub name: Seq<char>,
    pub blocks: bool,
    pub alive: bool,
    pub fighter: Option<Fighter>,
    pub ai: Option<Ai>,
    pub item: Option<Item>,
}

impl View for Object {
    type V = ObjectView;

    open spec fn view(&self) -> ObjectView {
        ObjectView {
            x: self.x as int,
            y: self.y as int,
            glyph: self.glyph,
            color: self.color,
            name: self.name@,
            blocks: self.blocks,
            alive: self.alive,
            fighter: self.fighter,
            ai: self.ai,
            item: self.item,
        }
    }
}

/// A list of entities as the rules see it.
pub open spec fn world(objects: Seq<Object>) -> Seq<ObjectView> {
    objects.map_values(|o: Object| o@)
}

/// The attack strength of an entity; zero for one that cannot fight.
pub open spec fn power_of(o: ObjectView) -> int {
    match o.fighter {
        Some(f) => f.power as int,
        None => 0,
    }
}

/// The armour of an entity; zero for one that cannot fight.
pub open spec fn defense_of(o: ObjectView) -> int {
    match o.fighter {
        Some(f) => f.defense as int,
        None => 0,
    }
}

/// The entity after losing `damage` hit points. Only a fighter can lose any,
/// and only a positive amount.
pub open spec fn hurt(o: ObjectView, damage: int) -> ObjectView {
    match o.fighter {
        Some(f) => if damage > 0 {
            ObjectView { fighter: Some(Fighter { hp: (f.hp - damage) as i32, ..f }), ..o }
        } else {
            o
        },
        None => o,
    }
}

/// Whether the entity is a fighter with no hit points left.
pub open spec fn is_dying(o: ObjectView) -> bool {
    o.fighter matches Some(f) && f.hp <= 0
}

/// What is left of a dying entity.
///
/// The player only turns into a corpse marker. A monster also stops blocking
/// its tile, can neither fight nor act any more, and is renamed.
pub open spec fn corpse_of(o: ObjectView) -> ObjectView {
    match o.fighter {
        Some(f) => match f.on_death {
            DeathCallback::Player => ObjectView {
                alive: false,
                glyph: '%',
                color: dark_red(),
                ..o
            },
            DeathCallback::Monster => ObjectView {
                alive: false,
                glyph: '%',
                color: dark_red(),
                blocks: false,
                fighter: None,
                ai: None,
                name: "remains of "@ + o.name,
                ..o
            },
        },
        None => o,
    }
}

/// The log line that announces the death of a dying entity.
pub open spec fn death_notice(o: ObjectView) -> Message {
    match o.fighter {
        Some(f) => match f.on_death {
            DeathCallback::Player => ("You died!"@, red()),
            DeathCallback::Monster => (o.name + " is dead!"@, orange()),
        },
        None => (Seq::empty(), white()),
    }
}

/// The entity after taking `damage`: hurt, and turned into a corpse if that
/// left it without hit points.
pub open spec fn after_damage(o: ObjectView, damage: int) -> ObjectView {
    let h = hurt(o, damage);
    if is_dying(h) {
        corpse_of(h)
    } else {
        h
    }
}

/// The log lines that taking `damage` produces: a death notice or nothing.
pub open spec fn damage_log(o: ObjectView, damage: int) -> Seq<Message> {
    let h = hurt(o, damage);
    if is_dying(h) {
        seq![death_notice(h)]
    } else {
        Seq::empty()
    }
}

/// How many hit points an attack takes off, if the number is positive.
pub open spec fn attack_damage(attacker: ObjectView, target: ObjectView) -> int {
    power_of(attacker) - defense_of(target)
}

/// The log line for an attack that hurts.
pub open spec fn hit_message(attacker: ObjectView, target: ObjectView) -> Message {
    (
        attacker.name + " attacks "@ + target.name + " for "@ + decimal(
            attack_damage(attacker, target),
        ) + " hit points."@,
        white(),
    )
}

/// The log line for an attack that the target's armour absorbs.
pub open spec fn miss_message(attacker: ObjectView, target: ObjectView) -> Message {
    (attacker.name + " attacks "@ + target.name + ", but it has no effect!"@, white())
}

/// The target after an attack.
pub open spec fn after_attack(attacker: ObjectView, target: ObjectView) -> ObjectView {
    if attack_damage(attacker, target) > 0 {
        after_damage(target, attack_damage(attacker, target))
    } else {
        target
    }
}

/// The log lines of an attack: the blow, then the death notice if it killed.
pub open spec fn attack_log(attacker: ObjectView, target: ObjectView) -> Seq<Message> {
    if attack_damage(attacker, target) > 0 {
        seq![hit_message(attacker, target)] + damage_log(
            target,
            attack_damage(attacker, target),
        )
    } else {
        seq![miss_message(attacker, target)]
    }
}

/// The entity after drinking `amount` hit points: never more than its maximum.
pub open spec fn healed(o: ObjectView, amount: int) -> ObjectView {
    match o.fighter {
        Some(f) => ObjectView {
            fighter: Some(
                Fighter {
                    hp: if f.hp + amount > f.max_hp {
                        f.max_hp
                    } else {
                        (f.hp + amount) as i32
                    },
                    ..f
                },
            ),
            ..o
        },
        None => o,
    }
}

impl DeathCallback {
    /// Runs the death transition that this tag selects.
    fn callback(self, object: &mut Object, game: &mut Game)
        requires
            old(object).fighter matches Some(f) && f.on_death == self,
        ensures
            final(object)@ == corpse_of(old(object)@),
            final(game).logged(*old(game), seq![death_notice(old(object)@)]),
    {
        match self {
            DeathCallback::Player => player_death(object, game),
            DeathCallback::Monster => monster_death(object, game),
        }
    }
}

/// The player dies: the glyph turns into a corpse marker, and that is all.
fn player_death(player: &mut Object, game: &mut Game)
    ensures
        final(player)@ == (ObjectView {
            alive: false,
            glyph: '%',
            color: dark_red(),
            ..old(player)@
        }),
        final(game).logged(*old(game), seq![("You died!"@, red())]),
{
    game.messages.add(String::from_str("You died!"), red());
    player.alive = false;
    player.glyph = '%';
    player.color = dark_red();
}

/// A monster dies: it turns into a corpse that is in nobody's way and can
/// neither fight nor act.
fn monster_death(monster: &mut Object, game: &mut Game)
    ensures
        final(monster)@ == (ObjectView {
            alive: false,
            glyph: '%',
            color: dark_red(),
            blocks: false,
            fighter: None,
            ai: None,
            name: "remains of "@ + old(monster).name@,
            ..old(monster)@
        }),
        final(game).logged(*old(game), seq![(old(monster).name@ + " is dead!"@, orange())]),
{
    let mut notice = monster.name.clone();
    notice.append(" is dead!");
    game.messages.add(notice, orange());
    monster.alive = false;
    monster.glyph = '%';
    monster.color = dark_red();
    monster.blocks = false;
    monster.fighter = None;
    monster.ai = None;
    let mut name = String::from_str("remains of ");
    name.append(monster.name.as_str());
    monster.name = name;
}

impl Object {
    /// A lifeless entity without any component: a thing with a place, a look
    /// and a name.
    pub fn new(x: i32, y: i32, glyph: char, name: &str, color: Color, blocks: bool) -> (object:
        Self)
        ensures
            object@ == (ObjectView {
                x: x as int,
                y: y as int,
                glyph: glyph,
                color: color,
                name: name@,
                blocks: blocks,
                alive: false,
                fighter: None,
                ai: None,
                item: None,
            }),
    {
        Object {
            x,
            y,
            glyph,
            color,
            name: String::from_str(name),
            blocks,
            alive: false,
            fighter: None,
            ai: None,
            item: None,
        }
    }

    /// Puts the entity on `(x, y)`, whatever is there.
    pub fn move_to(&mut self, x: i32, y: i32)
        ensures
            *final(self) == (Object { x: x, y: y, ..*old(self) }),
    {
        self.x = x;
        self.y = y;
    }

    /// The cell on which the entity stands.
    pub fn position(&self) -> (p: (i32, i32))
        ensures
            p == (self.x, self.y),
    {
        (self.x, self.y)
    }

    /// Takes `damage` hit points off a fighter and lets it die if none are
    /// left. Anything else is left as it is, and so is a fighter if `damage`
    /// is not positive, unless it is out of hit points already.
    pub fn take_damage(&mut self, damage: i32, game: &mut Game)
        requires
            old(self).fighter matches Some(f) ==> damage > 0 ==> f.hp - damage >= i32::MIN,
        ensures
            final(self)@ == after_damage(old(self)@, damage as int),
            final(game).logged(*old(game), damage_log(old(self)@, damage as int)),
    {
        if let Some(mut fighter) = self.fighter {
            if damage > 0 {
                fighter.hp = fighter.hp - damage;
                self.fighter = Some(fighter);
            }
        }
        if let Some(fighter) = self.fighter {
            if fighter.hp <= 0 {
                self.alive = false;
                fighter.on_death.callback(self, game);
            }
        }
    }

    /// Whether this entity can hit `target` without a number leaving the
    /// range of the machine's integers.
    pub fn can_attack(&self, target: &Object) -> (ok: bool)
        ensures
            ok == attack_fits(self@, target@),
    {
        let power: i64 = match self.fighter {
            Some(f) => f.power as i64,
            None => 0,
        };
        let defense: i64 = match target.fighter {
            Some(f) => f.defense as i64,
            None => 0,
        };
        let damage: i64 = power - defense;
        if damage < i32::MIN as i64 || damage > i32::MAX as i64 {
            return false;
        }
        match target.fighter {
            Some(f) => damage <= 0 || f.hp as i64 - damage >= i32::MIN as i64,
            None => true,
        }
    }

    /// Hits `target`. The blow takes off the attacker's power less the
    /// target's defense; if that is not positive the blow has no effect.
    pub fn attack(&mut self, target: &mut Object, game: &mut Game)
        requires
            attack_fits(old(self)@, old(target)@),
        ensures
            *final(self) == *old(self),
            final(target)@ == after_attack(old(self)@, old(target)@),
            final(game).logged(*old(game), attack_log(old(self)@, old(target)@)),
    {
        let power = match self.fighter {
            Some(f) => f.power,
            None => 0,
        };
        let defense = match target.fighter {
            Some(f) => f.defense,
            None => 0,
        };
        let damage = power - defense;
        let mut line = self.name.clone();
        line.append(" attacks ");
        line.append(target.name.as_str());
        if damage > 0 {
            line.append(" for ");
            append_decimal(&mut line, damage);
            line.append(" hit points.");
            game.messages.add(line, white());
            target.take_damage(damage, game);
        } else {
            line.append(", but it has no effect!");
            game.messages.add(line, white());
        }
    }

    /// Gives a fighter `amount` hit points back, but never more than its
    /// maximum.
    pub fn heal(&mut self, amount: i32)
        requires
            old(self).fighter matches Some(f) ==> i32::MIN <= f.hp + amount <= i32::MAX,
        ensures
            final(self)@ == healed(old(self)@, amount as int),
    {
        if let Some(mut fighter) = self.fighter {
            fighter.hp = fighter.hp + amount;
            if fighter.hp > fighter.max_hp {
                fighter.hp = fighter.max_hp;
            }
            self.fighter = Some(fighter);
        }
    }
}

/// The entities after number `id` has tried to step by `(dx, dy)`: it
/// stands on the new cell unless something blocks that, in which case nothing
/// has changed.
pub open spec fn moved_by(entities: Seq<ObjectView>, g: Grid, id: int, dx: int, dy: int) -> Seq<
    ObjectView,
> {
    let o = entities[id];
    if blocked_at(g, entities, o.x + dx, o.y + dy) {
        entities
    } else {
        entities.update(id, ObjectView { x: o.x + dx, y: o.y + dy, ..o })
    }
}

proof fn lemma_world_update(objects: Seq<Object>, id: int, o: Object)
    requires
        0 <= id < objects.len(),
    ensures
        world(objects.update(id, o)) == world(objects).update(id, o@),
{
    assert(world(objects.update(id, o)) =~= world(objects).update(id, o@));
}

/// Moves entity number `id` by `(dx, dy)` if nothing blocks the cell it would
/// reach. A blocked step is dropped without a word.
pub fn move_by(id: usize, dx: i32, dy: i32, game: &Game, objects: &mut [Object])
    requires
        id < old(objects)@.len(),
        old(objects)@[id as int].x + dx <= i32::MAX,
        old(objects)@[id as int].y + dy <= i32::MAX,
        in_grid(
            grid(&game.map),
            old(objects)@[id as int].x + dx,
            old(objects)@[id as int].y + dy,
        ),
    ensures
        world(final(objects)@) == moved_by(
            world(old(objects)@),
            grid(&game.map),
            id as int,
            dx as int,
            dy as int,
        ),
{
    let (x, y) = objects[id].position();
    if !is_blocked(x + dx, y + dy, &game.map, objects) {
        objects[id].move_to(x + dx, y + dy);
        proof {
            lemma_world_update(old(objects)@, id as int, objects@[id as int]);
        }
    }
}

/// Whether entity number `i` is a fighter that stands on `(x, y)`.
pub open spec fn fighter_at(entities: Seq<ObjectView>, x: int, y: int, i: int) -> bool {
    entities[i].fighter is Some && entities[i].x == x && entities[i].y == y
}

/// The first fighter on `(x, y)` among the entities from number `from` on.
pub open spec fn fighter_from(entities: Seq<ObjectView>, x: int, y: int, from: int) -> Option<int>
    decreases entities.len() - from,
{
    if from < 0 || from >= entities.len() {
        None
    } else if fighter_at(entities, x, y, from) {
        Some(from)
    } else {
        fighter_from(entities, x, y, from + 1)
    }
}

/// The first fighter that stands on `(x, y)`, if there is one.
pub open spec fn first_fighter(entities: Seq<ObjectView>, x: int, y: int) -> Option<int> {
    fighter_from(entities, x, y, 0)
}

/// The first fighter that stands on `(x, y)`, if there is one.
pub fn find_fighter(x: i32, y: i32, objects: &[Object]) -> (found: Option<usize>)
    ensures
        match found {
            Some(i) => first_fighter(world(objects@), x as int, y as int) == Some(i as int),
            None => first_fighter(world(objects@), x as int, y as int) is None,
        },
        found matches Some(i) ==> i < objects@.len(),
{
    let mut i: usize = 0;
    while i < objects.len()
        invariant
            i <= objects@.len(),
            first_fighter(world(objects@), x as int, y as int) == fighter_from(
                world(objects@),
                x as int,
                y as int,
                i as int,
            ),
        decreases objects@.len() - i,
    {
        if objects[i].fighter.is_some() && objects[i].x == x && objects[i].y == y {
            return Some(i);
        }
        i += 1;
    }
    None
}

/// The entities after the player has pushed towards `(dx, dy)`: if a fighter
/// stands there, the first such has been attacked, else the player has tried
/// to step there.
pub open spec fn after_player_move(entities: Seq<ObjectView>, g: Grid, dx: int, dy: int) -> Seq<
    ObjectView,
> {
    let player = entities[PLAYER_ID as int];
    match first_fighter(entities, player.x + dx, player.y + dy) {
        Some(target) => entities.update(target, after_attack(player, entities[target])),
        None => moved_by(entities, g, PLAYER_ID as int, dx, dy),
    }
}

/// The log lines that the player's push towards `(dx, dy)` produces: those of
/// an attack, or none for a step.
pub open spec fn player_move_log(entities: Seq<ObjectView>, dx: int, dy: int) -> Seq<Message> {
    let player = entities[PLAYER_ID as int];
    match first_fighter(entities, player.x + dx, player.y + dy) {
        Some(target) => attack_log(player, entities[target]),
        None => Seq::empty(),
    }
}

/// Whether `attacker` can hit `target` without a number leaving the range of
/// the machine's integers.
pub open spec fn attack_fits(attacker: ObjectView, target: ObjectView) -> bool {
    &&& i32::MIN <= attack_damage(attacker, target) <= i32::MAX
    &&& target.fighter matches Some(f) ==> attack_damage(attacker, target) > 0 ==> f.hp
        - attack_damage(attacker, target) >= i32::MIN
}

/// Whether the player can push towards `(dx, dy)`: the cell is one that
/// integers can name; if a fighter stands there it is not the player
/// and the blow can be struck; and if none does, the cell is on the map.
pub open spec fn player_can_move(entities: Seq<ObjectView>, g: Grid, dx: int, dy: int) -> bool {
    let player = entities[PLAYER_ID as int];
    &&& entities.len() > 0
    &&& i32::MIN <= player.x + dx <= i32::MAX
    &&& i32::MIN <= player.y + dy <= i32::MAX
    &&& match first_fighter(entities, player.x + dx, player.y + dy) {
        Some(target) => target != PLAYER_ID && attack_fits(player, entities[target]),
        None => in_grid(g, player.x + dx, player.y + dy),
    }
}

/// Whether the player can push towards `(dx, dy)`.
pub fn can_player_move(dx: i32, dy: i32, game: &Game, objects: &[Object]) -> (ok: bool)
    ensures
        ok == player_can_move(world(objects@), grid(&game.map), dx as int, dy as int),
{
    if objects.len() == 0 {
        return false;
    }
    let x: i64 = objects[PLAYER_ID].x as i64 + dx as i64;
    let y: i64 = objects[PLAYER_ID].y as i64 + dy as i64;
    if x < i32::MIN as i64 || x > i32::MAX as i64 || y < i32::MIN as i64 || y > i32::MAX as i64 {
        return false;
    }
    match find_fighter(x as i32, y as i32, objects) {
        Some(target) => target != PLAYER_ID && objects[PLAYER_ID].can_attack(&objects[target]),
        None => on_map(x, y, &game.map),
    }
}

/// The player pushes towards `(dx, dy)`: attacks the first fighter that
/// stands there, or steps there if there is none and nothing is in the way.
pub fn player_move_or_attack(dx: i32, dy: i32, game: &mut Game, objects: &mut [Object])
    requires
        player_can_move(world(old(objects)@), grid(&old(game).map), dx as int, dy as int),
    ensures
        world(final(objects)@) == after_player_move(
            world(old(objects)@),
            grid(&old(game).map),
            dx as int,
            dy as int,
        ),
        final(game).logged(*old(game), player_move_log(world(old(objects)@), dx as int, dy as int)),
{
    let x = objects[PLAYER_ID].x + dx;
    let y = objects[PLAYER_ID].y + dy;
    let target_id = find_fighter(x, y, objects);
    match target_id {
        Some(target_id) => {
            let (player, target) = mut_two(PLAYER_ID, target_id, objects);
            player.attack(target, game);
            proof {
                let before = old(objects)@;
                assert(objects@ =~= before.update(target_id as int, objects@[target_id as int]));
                lemma_world_update(before, target_id as int, objects@[target_id as int]);
            }
        },
        None => {
            move_by(PLAYER_ID, dx, dy, game, objects);
        },
    }
}

/// A blow from an attacker whose power does not exceed the target's defense
/// leaves the target as it was and is logged as having no effect. A stronger
/// attacker takes exactly the difference off the target's hit points, and
/// the target keeps the rest unless it dies of the blow.
pub proof fn lemma_attack_takes_power_less_defense(attacker: ObjectView, target: ObjectView)
    requires
        target.fighter is Some,
        attack_fits(attacker, target),
    ensures
        power_of(attacker) <= defense_of(target) ==> {
            &&& after_attack(attacker, target) == target
            &&& attack_log(attacker, target) == seq![miss_message(attacker, target)]
        },
        power_of(attacker) > defense_of(target) ==> {
            &&& after_attack(attacker, target) == after_damage(
                target,
                power_of(attacker) - defense_of(target),
            )
            &&& hurt(target, power_of(attacker) - defense_of(target)).fighter.unwrap().hp
                == target.fighter.unwrap().hp - (power_of(attacker) - defense_of(target))
            &&& attack_log(attacker, target)[0] == hit_message(attacker, target)
        },
        power_of(attacker) > defense_of(target) && after_attack(attacker, target).fighter is Some
            ==> after_attack(attacker, target).fighter.unwrap().hp == target.fighter.unwrap().hp
            - (power_of(attacker) - defense_of(target)),
{
}

/// A monster that is left without hit points dies, once and for all: it is
/// no longer alive, blocks nothing, can neither fight nor act, and is called
/// the remains of what it was; its death is announced in one line. Whatever
/// damage it takes afterwards changes nothing and says nothing.
pub proof fn lemma_monster_dies_once(monster: ObjectView, damage: int, later: int)
    requires
        monster.fighter matches Some(f) && f.on_death == DeathCallback::Monster && (if damage
            > 0 {
            i32::MIN <= f.hp - damage <= 0
        } else {
            f.hp <= 0
        }),
    ensures
        !after_damage(monster, damage).alive,
        !after_damage(monster, damage).blocks,
        after_damage(monster, damage).fighter is None,
        after_damage(monster, damage).ai is None,
        after_damage(monster, damage).name == "remains of "@ + monster.name,
        damage_log(monster, damage) == seq![(monster.name + " is dead!"@, orange())],
        after_damage(after_damage(monster, damage), later) == after_damage(monster, damage),
        damage_log(after_damage(monster, damage), later) == Seq::<Message>::empty(),
{
}

/// After healing, a fighter never has more hit points than its maximum.
pub proof fn lemma_heal_stays_within_max(o: ObjectView, amount: int)
    requires
        o.fighter matches Some(f) && i32::MIN <= f.hp + amount,
    ensures
        healed(o, amount).fighter.unwrap().hp <= o.fighter.unwrap().max_hp,
        healed(o, amount).fighter.unwrap().max_hp == o.fighter.unwrap().max_hp,
{
}

} // verus!
