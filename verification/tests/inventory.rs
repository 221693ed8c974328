use roguelike::colors::{white, Color};
use roguelike::gamemap::{healing_potion, orc, Tile};
use roguelike::gui::Messages;
use roguelike::inventory::{
    can_use_item, cast_heal, pick_item_up, use_item, Item, UseResult, HEAL_AMOUNT,
    INVENTORY_CAPACITY,
};
use roguelike::object::{DeathCallback, Fighter, Object};
use roguelike::Game;

fn log(game: &Game) -> Vec<(String, Color)> {
    game.messages.iter().cloned().collect()
}

fn names(objects: &[Object]) -> Vec<String> {
    objects.iter().map(|o| o.name.clone()).collect()
}

fn empty_game() -> Game {
    Game { map: vec![vec![Tile::empty(); 10]; 10], messages: Messages::new(), inventory: vec![] }
}

fn player_with(hp: i32, max_hp: i32) -> Object {
    let mut player = Object::new(1, 1, '@', "Franta", white(), true);
    player.alive = true;
    player.fighter =
        Some(Fighter { max_hp, hp, defense: 2, power: 5, on_death: DeathCallback::Player });
    player
}

#[test]
fn the_limits_of_the_inventory() {
    assert_eq!(INVENTORY_CAPACITY, 26);
    assert_eq!(HEAL_AMOUNT, 4);
}

#[test]
fn picking_up_moves_the_item_into_the_inventory() {
    let mut game = empty_game();
    let mut objects = vec![player_with(30, 30), healing_potion(1, 1), orc(5, 5)];
    pick_item_up(1, &mut game, &mut objects);
    assert_eq!(names(&objects), vec!["Franta", "ork"]);
    assert_eq!(names(&game.inventory), vec!["healing potion"]);
    assert_eq!(game.inventory[0].item, Some(Item::Heal));
    assert_eq!(game.inventory[0].position(), (1, 1));
    assert_eq!(
        log(&game),
        vec![("You picked up a healing potion!".to_string(), Color { r: 0, g: 255, b: 0 })]
    );
}

#[test]
fn the_last_entity_takes_the_number_of_the_one_picked_up() {
    let mut game = empty_game();
    let mut first = healing_potion(1, 1);
    first.name = "first".to_string();
    let mut second = healing_potion(2, 2);
    second.name = "second".to_string();
    let mut third = healing_potion(3, 3);
    third.name = "third".to_string();
    let mut objects = vec![player_with(30, 30), first, second, third];
    pick_item_up(1, &mut game, &mut objects);
    assert_eq!(names(&objects), vec!["Franta", "third", "second"]);
    pick_item_up(2, &mut game, &mut objects);
    assert_eq!(names(&objects), vec!["Franta", "third"]);
    assert_eq!(names(&game.inventory), vec!["first", "second"]);
}

#[test]
fn a_full_inventory_takes_nothing_more() {
    let mut game = empty_game();
    for i in 0..26 {
        game.inventory.push(healing_potion(i, 0));
    }
    let mut rare = healing_potion(1, 1);
    rare.name = "rare potion".to_string();
    let mut objects = vec![player_with(30, 30), orc(2, 2), rare];
    pick_item_up(2, &mut game, &mut objects);
    assert_eq!(names(&objects), vec!["Franta", "ork", "rare potion"]);
    assert_eq!(objects[2].position(), (1, 1));
    assert_eq!(game.inventory.len(), 26);
    assert!(game.inventory.iter().all(|item| item.name == "healing potion"));
    assert_eq!(
        log(&game),
        vec![(
            "Your inventory is full, cannot pick up rare potion".to_string(),
            Color { r: 255, g: 0, b: 0 }
        )]
    );
}

#[test]
fn the_last_free_slot_can_be_filled() {
    let mut game = empty_game();
    for i in 0..25 {
        game.inventory.push(healing_potion(i, 0));
    }
    let mut objects = vec![player_with(30, 30), healing_potion(1, 1)];
    pick_item_up(1, &mut game, &mut objects);
    assert_eq!(objects.len(), 1);
    assert_eq!(game.inventory.len(), 26);
}

#[test]
fn anything_can_be_picked_up() {
    let mut game = empty_game();
    let mut objects = vec![player_with(30, 30), orc(1, 1)];
    pick_item_up(1, &mut game, &mut objects);
    assert_eq!(names(&game.inventory), vec!["ork"]);
    assert_eq!(log(&game)[0].0, "You picked up a ork!");
}

#[test]
fn a_potion_heals_a_hurt_player() {
    let mut game = empty_game();
    game.inventory.push(healing_potion(0, 0));
    let mut objects = vec![player_with(10, 30)];
    assert!(can_use_item(0, &game, &objects));
    use_item(0, &mut game, &mut objects);
    assert_eq!(objects[0].fighter.unwrap().hp, 14);
    assert_eq!(objects[0].fighter.unwrap().max_hp, 30);
    assert!(game.inventory.is_empty());
    assert_eq!(log(&game), vec![("Healted.".to_string(), Color { r: 159, g: 63, b: 255 })]);
}

#[test]
fn a_potion_heals_no_further_than_the_maximum() {
    let mut game = empty_game();
    game.inventory.push(healing_potion(0, 0));
    let mut objects = vec![player_with(28, 30)];
    use_item(0, &mut game, &mut objects);
    assert_eq!(objects[0].fighter.unwrap().hp, 30);
    assert!(game.inventory.is_empty());
}

#[test]
fn a_potion_is_kept_by_a_player_in_full_health() {
    let mut game = empty_game();
    game.inventory.push(healing_potion(0, 0));
    let mut objects = vec![player_with(30, 30), orc(3, 3)];
    use_item(0, &mut game, &mut objects);
    assert_eq!(objects[0].fighter.unwrap().hp, 30);
    assert_eq!(objects[1].fighter.unwrap().hp, 10);
    assert_eq!(names(&game.inventory), vec!["healing potion"]);
    assert_eq!(
        log(&game),
        vec![
            ("You are already at full hp.".to_string(), Color { r: 255, g: 0, b: 0 }),
            ("Cancelled".to_string(), Color { r: 255, g: 255, b: 255 }),
        ]
    );
}

#[test]
fn the_spell_itself_says_one_thing_to_a_player_in_full_health() {
    let mut game = empty_game();
    game.inventory.push(healing_potion(0, 0));
    let mut objects = vec![player_with(30, 30)];
    let result = cast_heal(0, &mut game, &mut objects);
    assert_eq!(result, UseResult::Cancelled);
    assert_eq!(objects[0].fighter.unwrap().hp, 30);
    assert_eq!(game.inventory.len(), 1);
    assert_eq!(log(&game), vec![("You are already at full hp.".to_string(), Color { r: 255, g: 0, b: 0 })]);
}

#[test]
fn the_spell_uses_itself_up_on_a_hurt_player() {
    let mut game = empty_game();
    let mut objects = vec![player_with(-5, 30)];
    let result = cast_heal(7, &mut game, &mut objects);
    assert_eq!(result, UseResult::UsedUp);
    assert_eq!(objects[0].fighter.unwrap().hp, -1);
    assert_eq!(log(&game)[0].0, "Healted.");
}

#[test]
fn the_spell_is_lost_on_a_player_who_cannot_fight() {
    let mut game = empty_game();
    game.inventory.push(healing_potion(0, 0));
    let mut player = player_with(1, 30);
    player.fighter = None;
    let mut objects = vec![player];
    use_item(0, &mut game, &mut objects);
    assert_eq!(game.inventory.len(), 1);
    assert_eq!(log(&game), vec![("Cancelled".to_string(), white())]);
}

#[test]
fn using_an_item_moves_the_later_ones_up() {
    let mut game = empty_game();
    for name in ["a", "b", "c"] {
        let mut potion = healing_potion(0, 0);
        potion.name = name.to_string();
        game.inventory.push(potion);
    }
    let mut objects = vec![player_with(1, 30)];
    use_item(1, &mut game, &mut objects);
    assert_eq!(names(&game.inventory), vec!["a", "c"]);
    use_item(0, &mut game, &mut objects);
    assert_eq!(names(&game.inventory), vec!["c"]);
    assert_eq!(objects[0].fighter.unwrap().hp, 9);
}

#[test]
fn what_is_no_item_cannot_be_used() {
    let mut game = empty_game();
    game.inventory.push(orc(0, 0));
    let mut objects = vec![player_with(10, 30)];
    use_item(0, &mut game, &mut objects);
    assert_eq!(names(&game.inventory), vec!["ork"]);
    assert_eq!(objects[0].fighter.unwrap().hp, 10);
    assert_eq!(log(&game), vec![("The ork cannot be used.".to_string(), white())]);
}

#[test]
fn what_is_no_item_needs_no_player() {
    let mut game = empty_game();
    game.inventory.push(orc(0, 0));
    let mut objects: Vec<Object> = vec![];
    assert!(can_use_item(0, &game, &objects));
    use_item(0, &mut game, &mut objects);
    assert_eq!(log(&game)[0].0, "The ork cannot be used.");
}

#[test]
fn can_use_item_checks_slot_player_and_range() {
    let mut game = empty_game();
    let objects = vec![player_with(10, 30)];
    assert!(!can_use_item(0, &game, &objects));
    game.inventory.push(healing_potion(0, 0));
    assert!(can_use_item(0, &game, &objects));
    assert!(!can_use_item(1, &game, &objects));
    assert!(!can_use_item(0, &game, &[]));
    assert!(can_use_item(0, &game, &[player_with(i32::MAX, i32::MAX)]));
    assert!(!can_use_item(0, &game, &[player_with(i32::MAX, 30)]));
    assert!(!can_use_item(0, &game, &[player_with(i32::MAX - 3, 30)]));
    assert!(can_use_item(0, &game, &[player_with(i32::MAX - 4, 30)]));
}
