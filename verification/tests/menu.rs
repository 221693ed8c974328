use roguelike::colors::{
    dark_red, darker_green, desaturated_green, green, light_violet, orange, red, violet, white,
    Color,
};
use roguelike::fov::FovMap;
use roguelike::gamemap::{healing_potion, orc, troll};
use roguelike::gui::{get_names_under_mouse, Messages};
use roguelike::menu::{
    inventory_choice, inventory_options, menu_choice, menu_letter, menu_line, menu_lines,
    MENU_CAPACITY,
};
use roguelike::text::append_decimal;
use roguelike::{PLAYER_ID, SCREEN_HEIGHT, SCREEN_WIDTH};

fn decimal(n: i32) -> String {
    let mut text = String::from("n=");
    append_decimal(&mut text, n);
    text
}

#[test]
fn the_screen_and_the_player() {
    assert_eq!((SCREEN_WIDTH, SCREEN_HEIGHT), (80, 50));
    assert_eq!(PLAYER_ID, 0);
    assert_eq!(MENU_CAPACITY, 26);
}

#[test]
fn letters_run_from_a_to_z() {
    assert_eq!(menu_letter(0), 'a');
    assert_eq!(menu_letter(1), 'b');
    assert_eq!(menu_letter(25), 'z');
}

#[test]
fn a_letter_picks_its_entry() {
    assert_eq!(menu_choice('a', 3), Some(0));
    assert_eq!(menu_choice('c', 3), Some(2));
    assert_eq!(menu_choice('z', 26), Some(25));
}

#[test]
fn a_capital_letter_picks_the_same_entry() {
    assert_eq!(menu_choice('A', 3), Some(0));
    assert_eq!(menu_choice('C', 3), Some(2));
    assert_eq!(menu_choice('Z', 26), Some(25));
}

#[test]
fn a_letter_beyond_the_entries_picks_nothing() {
    assert_eq!(menu_choice('d', 3), None);
    assert_eq!(menu_choice('D', 3), None);
    assert_eq!(menu_choice('a', 0), None);
    assert_eq!(menu_choice('z', 25), None);
}

#[test]
fn what_is_no_letter_picks_nothing() {
    for key in ['1', ' ', '\0', '`', '{', '@', '[', 'é', 'ß', 'ж', 'ª', '\n'] {
        assert_eq!(menu_choice(key, 26), None, "{:?}", key);
    }
}

#[test]
fn a_menu_line_shows_letter_and_text() {
    assert_eq!(menu_line(0, "healing potion"), "(a) healing potion");
    assert_eq!(menu_line(25, ""), "(z) ");
}

#[test]
fn menu_lines_follow_the_entries() {
    let options = vec!["sword".to_string(), "shield".to_string(), "žluťoučký kůň".to_string()];
    assert_eq!(menu_lines(&options), vec!["(a) sword", "(b) shield", "(c) žluťoučký kůň"]);
    assert!(menu_lines(&vec![]).is_empty());
}

#[test]
fn an_empty_inventory_says_so() {
    assert_eq!(inventory_options(&[]), vec!["Inventory is empty"]);
    assert_eq!(inventory_choice('a', &[]), None);
}

#[test]
fn the_inventory_menu_lists_the_names() {
    let inventory = vec![healing_potion(0, 0), orc(0, 0)];
    assert_eq!(inventory_options(&inventory), vec!["healing potion", "ork"]);
    assert_eq!(inventory_choice('a', &inventory), Some(0));
    assert_eq!(inventory_choice('B', &inventory), Some(1));
    assert_eq!(inventory_choice('c', &inventory), None);
    assert_eq!(inventory_choice('!', &inventory), None);
}

#[test]
fn numbers_are_written_in_decimal() {
    assert_eq!(decimal(0), "n=0");
    assert_eq!(decimal(7), "n=7");
    assert_eq!(decimal(10), "n=10");
    assert_eq!(decimal(1205), "n=1205");
    assert_eq!(decimal(-1), "n=-1");
    assert_eq!(decimal(-90), "n=-90");
    assert_eq!(decimal(i32::MAX), "n=2147483647");
    assert_eq!(decimal(i32::MIN), "n=-2147483648");
}

#[test]
fn a_new_log_is_empty() {
    let log = Messages::new();
    assert_eq!(log.len(), 0);
    assert_eq!(log.iter().count(), 0);
}

#[test]
fn the_log_keeps_the_order_of_its_lines() {
    let mut log = Messages::new();
    log.add("Welcome stranger!".to_string(), red());
    log.add("second".to_string(), white());
    log.add("second".to_string(), green());
    assert_eq!(log.len(), 3);
    assert_eq!(log.get(0), &("Welcome stranger!".to_string(), Color { r: 255, g: 0, b: 0 }));
    assert_eq!(log.get(2), &("second".to_string(), Color { r: 0, g: 255, b: 0 }));
    let forth: Vec<&str> = log.iter().map(|line| line.0.as_str()).collect();
    assert_eq!(forth, vec!["Welcome stranger!", "second", "second"]);
    let back: Vec<Color> = log.iter().rev().map(|line| line.1).collect();
    assert_eq!(back, vec![green(), white(), red()]);
}

#[test]
fn the_names_of_what_is_seen_under_the_mouse() {
    let mut fov = FovMap::new(10, 10);
    fov.set_in_fov(3, 3, true);
    let objects = vec![orc(3, 3), troll(4, 4), healing_potion(3, 3), troll(3, 3)];
    assert_eq!(get_names_under_mouse(3, 3, &objects, &fov), "ork, healing potion, troll");
    assert_eq!(get_names_under_mouse(4, 4, &objects, &fov), "");
    assert_eq!(get_names_under_mouse(5, 5, &objects, &fov), "");
    fov.set_in_fov(4, 4, true);
    assert_eq!(get_names_under_mouse(4, 4, &objects, &fov), "troll");
    assert_eq!(get_names_under_mouse(50, 50, &objects, &fov), "");
}

#[test]
fn nothing_is_seen_on_a_new_field_of_view() {
    let fov = FovMap::new(4, 3);
    assert_eq!(fov.size(), (4, 3));
    for x in 0..4 {
        for y in 0..3 {
            assert!(!fov.is_in_fov(x, y));
        }
    }
}

#[test]
fn a_mark_touches_one_cell() {
    let mut fov = FovMap::new(4, 3);
    fov.set_in_fov(3, 2, true);
    fov.set_in_fov(0, 1, true);
    fov.set_in_fov(0, 1, false);
    for x in 0..4 {
        for y in 0..3 {
            assert_eq!(fov.is_in_fov(x, y), (x, y) == (3, 2));
        }
    }
    assert_eq!(fov.size(), (4, 3));
}

#[test]
fn the_field_of_view_knows_its_cells() {
    let fov = FovMap::new(4, 3);
    assert!(fov.has_cell(0, 0));
    assert!(fov.has_cell(3, 2));
    assert!(!fov.has_cell(4, 2));
    assert!(!fov.has_cell(3, 3));
    assert!(!fov.has_cell(-1, 0));
    assert!(!fov.has_cell(0, -1));
    assert!(FovMap::new(1, 1).has_cell(0, 0));
}

#[test]
fn the_colours_of_the_game() {
    assert_eq!(white(), Color { r: 255, g: 255, b: 255 });
    assert_eq!(red(), Color { r: 255, g: 0, b: 0 });
    assert_eq!(dark_red(), Color { r: 191, g: 0, b: 0 });
    assert_eq!(orange(), Color { r: 255, g: 127, b: 0 });
    assert_eq!(green(), Color { r: 0, g: 255, b: 0 });
    assert_eq!(desaturated_green(), Color { r: 63, g: 127, b: 63 });
    assert_eq!(darker_green(), Color { r: 0, g: 127, b: 0 });
    assert_eq!(violet(), Color { r: 127, g: 0, b: 255 });
    assert_eq!(light_violet(), Color { r: 159, g: 63, b: 255 });
}
