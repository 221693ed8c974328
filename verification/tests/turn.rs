use roguelike::colors::white;
use roguelike::fov::FovMap;
use roguelike::gamemap::{healing_potion, orc, troll, GameMap, Tile};
use roguelike::gui::Messages;
use roguelike::object::{DeathCallback, Fighter, Object};
use roguelike::turn::{
    can_handle_key, find_item, finish_turn, handle_keys, monsters_turn, try_finish_turn,
    try_monsters_turn, Key, PlayerAction, Request,
};
use roguelike::Game;

fn texts(game: &Game) -> Vec<String> {
    game.messages.iter().map(|line| line.0.clone()).collect()
}

fn names(objects: &[Object]) -> Vec<String> {
    objects.iter().map(|o| o.name.clone()).collect()
}

fn open_game(width: usize, height: usize) -> Game {
    let map: GameMap = vec![vec![Tile::empty(); height]; width];
    Game { map, messages: Messages::new(), inventory: vec![] }
}

fn lit(width: i32, height: i32) -> FovMap {
    let mut fov = FovMap::new(width, height);
    for x in 0..width {
        for y in 0..height {
            fov.set_in_fov(x, y, true);
        }
    }
    fov
}

fn player_at(x: i32, y: i32) -> Object {
    let mut player = Object::new(x, y, '@', "Franta", white(), true);
    player.alive = true;
    player.fighter =
        Some(Fighter { max_hp: 30, hp: 30, defense: 2, power: 5, on_death: DeathCallback::Player });
    player
}

#[test]
fn monsters_act_in_the_order_of_their_numbers() {
    let mut game = open_game(10, 10);
    let fov = lit(10, 10);
    let mut objects = vec![player_at(1, 1), troll(1, 2), healing_potion(5, 5), orc(2, 1), orc(7, 7)];
    monsters_turn(&fov, &mut game, &mut objects);
    assert_eq!(
        texts(&game),
        vec!["troll attacks Franta for 2 hit points.", "ork attacks Franta for 1 hit points."]
    );
    assert_eq!(objects[0].fighter.unwrap().hp, 27);
    assert_eq!(objects[4].position(), (6, 6));
    assert_eq!(objects[2].position(), (5, 5));
}

#[test]
fn a_monster_meets_the_world_as_the_one_before_left_it() {
    let mut game = open_game(10, 10);
    let fov = lit(10, 10);
    let mut objects = vec![player_at(1, 1), orc(3, 1), orc(4, 1), orc(5, 1)];
    monsters_turn(&fov, &mut game, &mut objects);
    assert_eq!(objects[1].position(), (2, 1));
    assert_eq!(objects[2].position(), (3, 1));
    assert_eq!(objects[3].position(), (4, 1));
    let mut objects = vec![player_at(1, 1), orc(5, 1), orc(4, 1), orc(3, 1)];
    monsters_turn(&fov, &mut game, &mut objects);
    assert_eq!(objects[1].position(), (5, 1));
    assert_eq!(objects[2].position(), (4, 1));
    assert_eq!(objects[3].position(), (2, 1));
}

#[test]
fn what_has_no_mind_does_not_act() {
    let mut game = open_game(10, 10);
    let fov = lit(10, 10);
    let mut corpse = orc(1, 2);
    corpse.ai = None;
    let mut objects = vec![player_at(1, 1), corpse, healing_potion(6, 6)];
    monsters_turn(&fov, &mut game, &mut objects);
    assert_eq!(game.messages.len(), 0);
    assert_eq!(objects[0].fighter.unwrap().hp, 30);
    assert_eq!(objects[2].position(), (6, 6));
}

#[test]
fn a_slain_monster_never_acts_again() {
    let mut game = open_game(10, 10);
    let fov = lit(10, 10);
    let mut objects = vec![player_at(1, 1), orc(1, 2)];
    handle_keys(Key::Down, &mut game, &mut objects);
    handle_keys(Key::Down, &mut game, &mut objects);
    assert_eq!(objects[1].name, "remains of ork");
    let lines = game.messages.len();
    monsters_turn(&fov, &mut game, &mut objects);
    assert_eq!(game.messages.len(), lines);
    assert_eq!(objects[0].fighter.unwrap().hp, 30);
}

#[test]
fn monsters_go_on_hitting_a_dead_player() {
    let mut game = open_game(10, 10);
    let fov = lit(10, 10);
    let mut player = player_at(1, 1);
    player.fighter.as_mut().unwrap().hp = 1;
    let mut objects = vec![player, orc(1, 2), orc(2, 1)];
    monsters_turn(&fov, &mut game, &mut objects);
    assert_eq!(objects[0].fighter.unwrap().hp, -1);
    assert_eq!(
        texts(&game),
        vec![
            "ork attacks Franta for 1 hit points.",
            "You died!",
            "ork attacks Franta for 1 hit points.",
            "You died!",
        ]
    );
}

#[test]
fn the_monsters_turn_follows_a_turn_of_the_living_player() {
    let fov = lit(10, 10);
    let mut game = open_game(10, 10);
    let mut objects = vec![player_at(1, 1), orc(5, 5)];
    finish_turn(PlayerAction::DidntTakeTurn, &fov, &mut game, &mut objects);
    assert_eq!(objects[1].position(), (5, 5));
    finish_turn(PlayerAction::Exit, &fov, &mut game, &mut objects);
    assert_eq!(objects[1].position(), (5, 5));
    finish_turn(PlayerAction::TookTurn, &fov, &mut game, &mut objects);
    assert_eq!(objects[1].position(), (4, 4));
    objects[0].alive = false;
    finish_turn(PlayerAction::TookTurn, &fov, &mut game, &mut objects);
    assert_eq!(objects[1].position(), (4, 4));
    assert_eq!(try_finish_turn(PlayerAction::TookTurn, &fov, &mut game, &mut objects), None);
    assert_eq!(objects[1].position(), (4, 4));
    objects[0].alive = true;
    assert_eq!(try_finish_turn(PlayerAction::DidntTakeTurn, &fov, &mut game, &mut objects), None);
    assert_eq!(objects[1].position(), (4, 4));
    assert_eq!(try_finish_turn(PlayerAction::TookTurn, &fov, &mut game, &mut objects), None);
    assert_eq!(objects[1].position(), (3, 3));
}

#[test]
fn the_turn_stops_at_a_monster_that_cannot_act() {
    let fov = lit(10, 10);
    let mut game = open_game(10, 10);
    let mut objects = vec![player_at(1, 1), orc(5, 5), orc(20, 5), orc(7, 7)];
    assert_eq!(try_monsters_turn(&fov, &mut game, &mut objects), Some(2));
    assert_eq!(objects[1].position(), (4, 4));
    assert_eq!(objects[2].position(), (20, 5));
    assert_eq!(objects[3].position(), (7, 7));
    objects[2].ai = None;
    assert_eq!(try_monsters_turn(&fov, &mut game, &mut objects), None);
    assert_eq!(objects[1].position(), (3, 3));
    assert_eq!(objects[3].position(), (6, 6));
    assert_eq!(try_finish_turn(PlayerAction::TookTurn, &fov, &mut game, &mut objects), None);
    objects[2].ai = objects[1].ai;
    assert_eq!(try_finish_turn(PlayerAction::TookTurn, &fov, &mut game, &mut objects), Some(2));
}

#[test]
fn a_player_with_a_mind_of_its_own_cannot_have_a_turn() {
    let fov = lit(10, 10);
    let mut game = open_game(10, 10);
    let mut player = player_at(1, 1);
    player.ai = orc(0, 0).ai;
    let mut objects = vec![player, orc(5, 5)];
    assert_eq!(try_monsters_turn(&fov, &mut game, &mut objects), Some(0));
    assert_eq!(objects[1].position(), (5, 5));
}

#[test]
fn the_turn_of_nobody() {
    let fov = lit(10, 10);
    let mut game = open_game(10, 10);
    let mut objects: Vec<Object> = vec![];
    monsters_turn(&fov, &mut game, &mut objects);
    assert_eq!(try_monsters_turn(&fov, &mut game, &mut objects), None);
    assert_eq!(game.messages.len(), 0);
}

#[test]
fn arrows_move_the_player_and_take_a_turn() {
    let mut game = open_game(10, 10);
    let mut objects = vec![player_at(5, 5)];
    assert_eq!(handle_keys(Key::Up, &mut game, &mut objects), (PlayerAction::TookTurn, Request::Nothing));
    assert_eq!(objects[0].position(), (5, 4));
    assert_eq!(handle_keys(Key::Left, &mut game, &mut objects), (PlayerAction::TookTurn, Request::Nothing));
    assert_eq!(objects[0].position(), (4, 4));
    assert_eq!(handle_keys(Key::Down, &mut game, &mut objects), (PlayerAction::TookTurn, Request::Nothing));
    assert_eq!(objects[0].position(), (4, 5));
    assert_eq!(handle_keys(Key::Right, &mut game, &mut objects), (PlayerAction::TookTurn, Request::Nothing));
    assert_eq!(objects[0].position(), (5, 5));
}

#[test]
fn a_blocked_step_still_takes_a_turn() {
    let mut game = open_game(10, 10);
    game.map[5][4] = Tile::wall();
    let mut objects = vec![player_at(5, 5)];
    assert_eq!(handle_keys(Key::Up, &mut game, &mut objects), (PlayerAction::TookTurn, Request::Nothing));
    assert_eq!(objects[0].position(), (5, 5));
}

#[test]
fn an_arrow_towards_a_monster_is_a_blow() {
    let mut game = open_game(10, 10);
    let mut objects = vec![player_at(5, 5), troll(6, 5)];
    assert_eq!(handle_keys(Key::Right, &mut game, &mut objects).0, PlayerAction::TookTurn);
    assert_eq!(objects[0].position(), (5, 5));
    assert_eq!(objects[1].fighter.unwrap().hp, 12);
    assert_eq!(texts(&game), vec!["Franta attacks troll for 4 hit points."]);
}

#[test]
fn a_dead_player_can_only_leave_or_switch_the_screen() {
    let mut game = open_game(10, 10);
    let mut player = player_at(5, 5);
    player.alive = false;
    let mut objects = vec![player, healing_potion(5, 5)];
    for key in [Key::Up, Key::Down, Key::Left, Key::Right, Key::PickUp, Key::Inventory, Key::Other] {
        assert!(can_handle_key(key, &game, &objects));
        assert_eq!(
            handle_keys(key, &mut game, &mut objects),
            (PlayerAction::DidntTakeTurn, Request::Nothing)
        );
    }
    assert_eq!(
        handle_keys(Key::Fullscreen, &mut game, &mut objects),
        (PlayerAction::DidntTakeTurn, Request::ToggleFullscreen)
    );
    assert_eq!(handle_keys(Key::Escape, &mut game, &mut objects), (PlayerAction::Exit, Request::Nothing));
    assert_eq!(objects[0].position(), (5, 5));
    assert_eq!(objects.len(), 2);
    assert_eq!(game.messages.len(), 0);
}

#[test]
fn keys_that_take_no_turn() {
    let mut game = open_game(10, 10);
    let mut objects = vec![player_at(5, 5)];
    assert_eq!(
        handle_keys(Key::Inventory, &mut game, &mut objects),
        (PlayerAction::DidntTakeTurn, Request::ChooseItem)
    );
    assert_eq!(
        handle_keys(Key::Fullscreen, &mut game, &mut objects),
        (PlayerAction::DidntTakeTurn, Request::ToggleFullscreen)
    );
    assert_eq!(handle_keys(Key::Other, &mut game, &mut objects), (PlayerAction::DidntTakeTurn, Request::Nothing));
    assert_eq!(handle_keys(Key::PickUp, &mut game, &mut objects), (PlayerAction::DidntTakeTurn, Request::Nothing));
    assert_eq!(handle_keys(Key::Escape, &mut game, &mut objects), (PlayerAction::Exit, Request::Nothing));
    assert_eq!(objects[0].position(), (5, 5));
    assert_eq!(game.messages.len(), 0);
}

#[test]
fn the_pick_up_key_takes_the_first_item_underfoot() {
    let mut game = open_game(10, 10);
    let mut near = healing_potion(5, 5);
    near.name = "near".to_string();
    let mut objects = vec![player_at(5, 5), healing_potion(4, 5), orc(6, 6), near, healing_potion(5, 5)];
    assert_eq!(find_item(5, 5, &objects), Some(3));
    assert_eq!(find_item(4, 5, &objects), Some(1));
    assert_eq!(find_item(6, 6, &objects), None);
    assert!(can_handle_key(Key::PickUp, &game, &objects));
    assert_eq!(handle_keys(Key::PickUp, &mut game, &mut objects), (PlayerAction::DidntTakeTurn, Request::Nothing));
    assert_eq!(names(&objects), vec!["Franta", "healing potion", "ork", "healing potion"]);
    assert_eq!(names(&game.inventory), vec!["near"]);
    assert_eq!(texts(&game), vec!["You picked up a near!"]);
    handle_keys(Key::PickUp, &mut game, &mut objects);
    assert_eq!(objects.len(), 3);
    handle_keys(Key::PickUp, &mut game, &mut objects);
    assert_eq!(objects.len(), 3);
    assert_eq!(game.messages.len(), 2);
}

#[test]
fn can_handle_key_knows_what_cannot_be_answered() {
    let game = open_game(10, 10);
    assert!(!can_handle_key(Key::Other, &game, &[]));
    let mut objects = vec![player_at(0, 0)];
    assert!(!can_handle_key(Key::Up, &game, &objects));
    assert!(!can_handle_key(Key::Left, &game, &objects));
    assert!(can_handle_key(Key::Down, &game, &objects));
    assert!(can_handle_key(Key::Right, &game, &objects));
    assert!(can_handle_key(Key::PickUp, &game, &objects));
    objects[0].item = healing_potion(0, 0).item;
    assert!(!can_handle_key(Key::PickUp, &game, &objects));
    assert!(can_handle_key(Key::Inventory, &game, &objects));
}
