use roguelike::color::white;
use roguelike::entity::{DeathCallback, Entity};
use roguelike::fov::FovMap;
use roguelike::game::Game;
use roguelike::message::Messages;
use roguelike::tile::{Tile, TileGrid};
use roguelike::turn::{find_item_underfoot, player_controls, PlayerAction};

fn open_game() -> Game {
    let mut map = TileGrid::new();
    for x in 0..80 {
        for y in 0..43 {
            map.set(x, y, Tile::empty());
        }
    }
    Game { map, messages: Messages::new(), inventory: vec![], dungeon_level: 1 }
}

fn lit_everywhere() -> FovMap {
    let mut fov = FovMap::new(80, 43);
    for x in 0..80 {
        for y in 0..43 {
            fov.set_in_fov(x, y, true);
        }
    }
    fov
}

fn player(x: i32, y: i32) -> Entity {
    let mut player = Entity::new(x, y, '@', white(), "Player", true);
    player.make_alive();
    player.make_fighter(30, 30, 2, 5, DeathCallback::Player);
    player
}

fn lines(game: &Game) -> Vec<String> {
    game.messages.iter().map(|line| line.0.clone()).collect()
}

#[test]
fn player_steps_where_nobody_fights() {
    let mut game = open_game();
    let mut entities = vec![player(10, 10), Entity::spawn_item(11, 10, true)];
    Entity::player_move_or_attack(0, 1, 0, &mut game, &mut entities);
    assert_eq!(entities[0].get_coordinates(), (11, 10));
    assert_eq!(game.messages.len(), 0);
}

#[test]
fn player_attacks_first_fighter_on_the_cell() {
    let mut game = open_game();
    let mut corpse = Entity::spawn_monster(11, 10, false);
    corpse.blocks = false;
    let mut entities =
        vec![player(10, 10), Entity::spawn_monster(11, 10, true), corpse];
    Entity::player_move_or_attack(0, 1, 0, &mut game, &mut entities);
    assert_eq!(entities[0].get_coordinates(), (10, 10));
    assert_eq!(entities[1].get_fighter().unwrap().hp, 5);
    assert_eq!(entities[2].get_fighter().unwrap().hp, 16);
    assert_eq!(lines(&game), vec!["Player attacks Ork for 5 hit points.".to_string()]);
}

#[test]
fn dead_player_does_not_move() {
    let mut game = open_game();
    let mut dead = player(10, 10);
    dead.alive = false;
    let mut entities = vec![dead, Entity::spawn_monster(11, 10, true)];
    let before = entities.clone();
    Entity::player_move_or_attack(0, 1, 0, &mut game, &mut entities);
    Entity::player_move_or_attack(0, 0, 1, &mut game, &mut entities);
    assert_eq!(entities, before);
    assert_eq!(game.messages.len(), 0);
}

#[test]
fn monster_out_of_view_rests() {
    let mut game = open_game();
    let fov = FovMap::new(80, 43);
    let mut entities = vec![player(10, 10), Entity::spawn_monster(11, 10, true)];
    let before = entities.clone();
    Entity::ai_take_turn(1, &fov, &mut game, &mut entities);
    assert_eq!(entities, before);
    assert_eq!(game.messages.len(), 0);
}

#[test]
fn monster_in_view_approaches_from_afar() {
    let mut game = open_game();
    let fov = lit_everywhere();
    let mut entities = vec![player(10, 10), Entity::spawn_monster(14, 10, true)];
    Entity::ai_take_turn(1, &fov, &mut game, &mut entities);
    assert_eq!(entities[1].get_coordinates(), (13, 10));
    // At a distance of exactly 2 it still approaches.
    entities[1].set_position(12, 10);
    Entity::ai_take_turn(1, &fov, &mut game, &mut entities);
    assert_eq!(entities[1].get_coordinates(), (11, 10));
    assert_eq!(game.messages.len(), 0);
    assert_eq!(entities[0].get_fighter().unwrap().hp, 30);
}

#[test]
fn monster_next_to_player_attacks() {
    let mut game = open_game();
    let fov = lit_everywhere();
    // Diagonal neighbours are nearer than 2.
    let mut entities = vec![player(10, 10), Entity::spawn_monster(11, 11, true)];
    Entity::ai_take_turn(1, &fov, &mut game, &mut entities);
    assert_eq!(entities[1].get_coordinates(), (11, 11));
    assert_eq!(entities[0].get_fighter().unwrap().hp, 29);
    assert_eq!(lines(&game), vec!["Ork attacks Player for 1 hit points.".to_string()]);
}

#[test]
fn monster_spares_player_without_hit_points() {
    let mut game = open_game();
    let fov = lit_everywhere();
    let mut fallen = player(10, 10);
    fallen.fighter.as_mut().unwrap().hp = 0;
    let mut entities = vec![fallen, Entity::spawn_monster(11, 10, true)];
    let before = entities.clone();
    Entity::ai_take_turn(1, &fov, &mut game, &mut entities);
    assert_eq!(entities, before);
    assert_eq!(game.messages.len(), 0);
}

#[test]
fn mobs_turn_runs_monsters_in_roster_order() {
    let mut game = open_game();
    let fov = lit_everywhere();
    let mut entities = vec![
        player(10, 10),
        Entity::spawn_monster(11, 10, false),
        Entity::spawn_item(10, 10, true),
        Entity::spawn_monster(10, 11, true),
        Entity::spawn_monster(20, 10, true),
    ];
    Entity::mobs_turn(&mut game, &fov, &mut entities, true);
    assert_eq!(entities[0].get_fighter().unwrap().hp, 30 - 2 - 1);
    assert_eq!(entities[4].get_coordinates(), (19, 10));
    assert_eq!(
        lines(&game),
        vec![
            "Troll attacks Player for 2 hit points.".to_string(),
            "Ork attacks Player for 1 hit points.".to_string(),
        ]
    );
}

#[test]
fn mobs_wait_when_player_took_no_turn_or_is_dead() {
    let mut game = open_game();
    let fov = lit_everywhere();
    let mut entities = vec![player(10, 10), Entity::spawn_monster(11, 10, true)];
    let before = entities.clone();
    Entity::mobs_turn(&mut game, &fov, &mut entities, false);
    assert_eq!(entities, before);
    entities[0].alive = false;
    let before = entities.clone();
    Entity::mobs_turn(&mut game, &fov, &mut entities, true);
    assert_eq!(entities, before);
    assert_eq!(game.messages.len(), 0);
}

#[test]
fn mobs_stop_attacking_once_player_is_dead() {
    let mut game = open_game();
    let fov = lit_everywhere();
    let mut weak = player(10, 10);
    weak.fighter.as_mut().unwrap().hp = 2;
    weak.set_xp(11);
    let mut entities = vec![
        weak,
        Entity::spawn_monster(11, 10, false),
        Entity::spawn_monster(10, 11, true),
    ];
    Entity::mobs_turn(&mut game, &fov, &mut entities, true);
    assert!(!entities[0].is_alive());
    assert_eq!(entities[0].get_fighter().unwrap().hp, 0);
    assert_eq!(entities[1].get_fighter().unwrap().xp, 100 + 11);
    assert_eq!(entities[2].get_fighter().unwrap().xp, 35);
    assert_eq!(
        lines(&game),
        vec!["Troll attacks Player for 2 hit points.".to_string(), "You died!".to_string()]
    );
}

#[test]
fn has_hit_points_needs_a_fighter_with_some() {
    let mut e = player(0, 0);
    assert!(e.has_hit_points());
    e.fighter.as_mut().unwrap().hp = 0;
    assert!(!e.has_hit_points());
    assert!(!Entity::new(0, 0, 'x', white(), "Thing", false).has_hit_points());
}

#[test]
fn controls_move_uses_the_turn() {
    let mut game = open_game();
    let fov = lit_everywhere();
    let mut entities = vec![player(10, 10)];
    let took = player_controls(PlayerAction::Move { dx: 0, dy: -1 }, &fov, &mut game, &mut entities);
    assert!(took);
    assert_eq!(entities[0].get_coordinates(), (10, 9));
    let took = player_controls(PlayerAction::Idle, &fov, &mut game, &mut entities);
    assert!(!took);
    assert_eq!(entities[0].get_coordinates(), (10, 9));
}

#[test]
fn controls_pick_up_takes_item_underfoot() {
    let mut game = open_game();
    let fov = lit_everywhere();
    let mut entities = vec![
        player(10, 10),
        Entity::spawn_monster(12, 10, true),
        Entity::spawn_item(10, 10, false),
        Entity::spawn_item(10, 10, true),
    ];
    assert_eq!(find_item_underfoot(&entities), Some(2));
    let took = player_controls(PlayerAction::PickUp, &fov, &mut game, &mut entities);
    assert!(!took);
    assert_eq!(game.inventory.len(), 1);
    assert_eq!(game.inventory[0].get_name(), "scroll of lightning bolt");
    assert_eq!(entities.len(), 3);
    // The last entity has taken the place of the one picked up.
    assert_eq!(entities[2].get_name(), "healing potion");
    assert_eq!(lines(&game), vec!["You picked up a scroll of lightning bolt!".to_string()]);
}

#[test]
fn controls_pick_up_without_item_does_nothing() {
    let mut game = open_game();
    let fov = lit_everywhere();
    let mut entities = vec![player(10, 10), Entity::spawn_item(11, 10, true)];
    assert_eq!(find_item_underfoot(&entities), None);
    let before = entities.clone();
    assert!(!player_controls(PlayerAction::PickUp, &fov, &mut game, &mut entities));
    assert_eq!(entities, before);
    assert_eq!(game.inventory.len(), 0);
    assert_eq!(game.messages.len(), 0);
}

#[test]
fn controls_of_the_dead_change_nothing_but_movement_still_counts() {
    let mut game = open_game();
    game.inventory.push(Entity::spawn_item(0, 0, true));
    let fov = lit_everywhere();
    let mut dead = player(10, 10);
    dead.alive = false;
    let mut entities = vec![dead, Entity::spawn_item(10, 10, true)];
    let before = entities.clone();
    assert!(!player_controls(PlayerAction::PickUp, &fov, &mut game, &mut entities));
    assert!(!player_controls(PlayerAction::UseItem { slot: 0 }, &fov, &mut game, &mut entities));
    assert!(!player_controls(PlayerAction::DropItem { slot: 0 }, &fov, &mut game, &mut entities));
    assert!(player_controls(PlayerAction::Move { dx: 1, dy: 0 }, &fov, &mut game, &mut entities));
    assert_eq!(entities, before);
    assert_eq!(game.inventory.len(), 1);
    assert_eq!(game.messages.len(), 0);
}
