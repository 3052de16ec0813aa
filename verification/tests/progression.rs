use roguelike::color::{white, yellow};
use roguelike::entity::{DeathCallback, Entity, Fighter};
use roguelike::fov::{FovMap, FovRequest, FOV_LIGHT_WALLS, TORCH_RADIUS};
use roguelike::game::Game;
use roguelike::message::Messages;
use roguelike::progression::LevelUpChoice;
use roguelike::tile::{TileGrid, MAP_HEIGHT, MAP_WIDTH};

fn game() -> Game {
    Game { map: TileGrid::new(), messages: Messages::new(), inventory: vec![], dungeon_level: 1 }
}

fn player_with_xp(xp: i32) -> Entity {
    let mut player = Entity::new(0, 0, '@', white(), "Player", true);
    player.make_alive();
    player.make_fighter(30, 30, 2, 5, DeathCallback::Player);
    player.set_xp(xp);
    player
}

fn lines(game: &Game) -> Vec<String> {
    game.messages.iter().map(|line| line.0.clone()).collect()
}

#[test]
fn level_up_waits_for_the_threshold() {
    let mut game = game();
    let mut entities = vec![player_with_xp(349)];
    let before = entities.clone();
    assert!(!entities[0].is_level_up_due());
    assert!(!Entity::level_up(LevelUpChoice::Hp, &mut game, &mut entities));
    assert_eq!(entities, before);
    assert_eq!(game.messages.len(), 0);
}

#[test]
fn level_up_at_the_threshold_spends_all_of_it() {
    let mut game = game();
    let mut entities = vec![player_with_xp(350)];
    assert!(entities[0].is_level_up_due());
    assert!(Entity::level_up(LevelUpChoice::Power, &mut game, &mut entities));
    assert_eq!(entities[0].get_level(), 2);
    assert_eq!(
        entities[0].get_fighter(),
        Some(Fighter { max_hp: 30, hp: 30, defense: 2, power: 6, xp: 0, on_death: DeathCallback::Player })
    );
    assert_eq!(
        lines(&game),
        vec!["Your battle skills grow stronger! You reached level 2!".to_string()]
    );
    assert_eq!(game.messages.color(0), yellow());
}

#[test]
fn level_up_keeps_what_is_beyond_the_threshold() {
    let mut game = game();
    let mut entities = vec![player_with_xp(900)];
    // Level 1 takes 200 + 150, level 2 takes 200 + 300: 50 are left.
    assert!(Entity::level_up(LevelUpChoice::Hp, &mut game, &mut entities));
    assert_eq!(entities[0].get_level(), 2);
    assert_eq!(entities[0].get_fighter().unwrap().xp, 550);
    assert_eq!(entities[0].get_fighter().unwrap().get_hp(), (50, 50));
    assert!(Entity::level_up(LevelUpChoice::Defense, &mut game, &mut entities));
    assert_eq!(entities[0].get_level(), 3);
    assert_eq!(entities[0].get_fighter().unwrap().xp, 50);
    assert_eq!(entities[0].get_fighter().unwrap().defense, 3);
    assert!(!Entity::level_up(LevelUpChoice::Defense, &mut game, &mut entities));
    assert_eq!(entities[0].get_level(), 3);
    assert_eq!(entities[0].get_fighter().unwrap().xp, 50);
    assert_eq!(game.messages.len(), 2);
    assert_eq!(game.messages.text(1), "Your battle skills grow stronger! You reached level 3!");
}

#[test]
fn level_up_choice_by_index() {
    assert_eq!(LevelUpChoice::from_index(0), Some(LevelUpChoice::Hp));
    assert_eq!(LevelUpChoice::from_index(1), Some(LevelUpChoice::Power));
    assert_eq!(LevelUpChoice::from_index(2), Some(LevelUpChoice::Defense));
    assert_eq!(LevelUpChoice::from_index(3), None);
    assert_eq!(LevelUpChoice::from_index(usize::MAX), None);
}

#[test]
fn entity_without_fighter_never_levels_up() {
    let thing = Entity::new(0, 0, 'x', white(), "Thing", false);
    assert!(!thing.is_level_up_due());
}

#[test]
fn next_level_rests_descends_and_leaves_the_others_behind() {
    let mut game = game();
    game.inventory.push(Entity::spawn_item(0, 0, true));
    game.messages.add("before", white());
    let mut hurt = player_with_xp(12);
    hurt.fighter.as_mut().unwrap().hp = 7;
    let mut entities = vec![hurt, Entity::spawn_monster(3, 3, true), Entity::spawn_item(4, 4, true)];
    let mut fov = FovMap::new(MAP_WIDTH, MAP_HEIGHT);
    fov.set_in_fov(1, 1, true);

    let request = Entity::next_level(&mut game, &mut entities, &mut fov);

    assert_eq!(game.dungeon_level, 2);
    assert_eq!(game.inventory.len(), 1);
    assert_eq!(
        lines(&game),
        vec![
            "before".to_string(),
            "You take a moment to rest, and recover your strength.".to_string(),
            "After a rare moment of peace, you descend deeper into the heart of the dungeon..."
                .to_string(),
        ]
    );
    assert_eq!(entities[0].get_name(), "Player");
    assert_eq!(entities[0].get_fighter().unwrap().get_hp(), (22, 30));
    assert_eq!(entities[0].get_fighter().unwrap().xp, 12);
    assert!(game.map.is_well_formed());
    let (x, y) = entities[0].get_coordinates();
    assert!(game.map.get(x, y).get_is_passable());
    assert_eq!(
        request,
        FovRequest::Compute {
            origin_x: x,
            origin_y: y,
            radius: TORCH_RADIUS,
            light_walls: FOV_LIGHT_WALLS
        }
    );
    for e in entities[1..].iter() {
        // Whoever is here now was spawned on the new level.
        let (x, y) = e.get_coordinates();
        assert!(game.map.get(x, y).get_is_passable());
        assert!(!(e.get_coordinates() == (3, 3) && e.get_name() == "Ork") || game.map.get(3, 3).get_is_passable());
    }
    for x in 0..MAP_WIDTH {
        for y in 0..MAP_HEIGHT {
            let tile = game.map.get(x, y);
            assert_eq!(fov.is_transparent(x, y), !tile.get_is_block_sight());
            assert_eq!(fov.is_walkable(x, y), tile.get_is_passable());
            assert_eq!(fov.is_in_fov(x, y), (x, y) == (1, 1));
        }
    }
}

#[test]
fn rest_does_not_heal_beyond_the_maximum() {
    let mut game = game();
    let mut entities = vec![player_with_xp(0)];
    entities[0].fighter.as_mut().unwrap().hp = 25;
    let mut fov = FovMap::new(MAP_WIDTH, MAP_HEIGHT);
    Entity::next_level(&mut game, &mut entities, &mut fov);
    assert_eq!(entities[0].get_fighter().unwrap().get_hp(), (30, 30));
    Entity::next_level(&mut game, &mut entities, &mut fov);
    assert_eq!(game.dungeon_level, 3);
}

#[test]
fn threshold_grows_with_the_level() {
    let mut player = player_with_xp(0);
    assert_eq!(player.level_up_xp(), 350);
    player.level = 2;
    assert_eq!(player.level_up_xp(), 500);
    player.level = 0;
    assert_eq!(player.level_up_xp(), 200);
    player.level = i32::MAX;
    assert_eq!(player.level_up_xp(), 200 + 150 * (i32::MAX as i64));
}

#[test]
fn level_up_numbers_must_fit() {
    let mut player = player_with_xp(350);
    assert!(player.can_level_up(LevelUpChoice::Hp));
    assert!(player.can_level_up(LevelUpChoice::Power));
    assert!(player.can_level_up(LevelUpChoice::Defense));
    player.fighter.as_mut().unwrap().power = i32::MAX;
    assert!(!player.can_level_up(LevelUpChoice::Power));
    assert!(player.can_level_up(LevelUpChoice::Defense));
    player.fighter.as_mut().unwrap().max_hp = i32::MAX - 19;
    assert!(!player.can_level_up(LevelUpChoice::Hp));
    player.fighter.as_mut().unwrap().max_hp = i32::MAX - 20;
    assert!(player.can_level_up(LevelUpChoice::Hp));
    // A level so far below zero that the threshold is far below zero too.
    player.level = -20_000_000;
    assert!(!player.can_level_up(LevelUpChoice::Defense));
    player.level = i32::MAX;
    assert!(!player.can_level_up(LevelUpChoice::Defense));
    assert!(Entity::new(0, 0, 'x', white(), "Thing", false).can_level_up(LevelUpChoice::Hp));
}
