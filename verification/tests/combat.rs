use roguelike::color::{dark_red, orange, red, white};
use roguelike::entity::{DeathCallback, Entity, Fighter, AI};
use roguelike::message::Messages;

fn player() -> Entity {
    let mut player = Entity::new(0, 0, '@', white(), "Player", true);
    player.make_alive();
    player.make_fighter(30, 30, 2, 5, DeathCallback::Player);
    player
}

fn ork(x: i32, y: i32) -> Entity {
    Entity::spawn_monster(x, y, true)
}

fn lines(messages: &Messages) -> Vec<String> {
    messages.iter().map(|line| line.0.clone()).collect()
}

#[test]
fn player_kills_ork_in_two_attacks() {
    let mut player = player();
    let mut ork = ork(1, 0);
    let mut messages = Messages::new();
    assert_eq!(ork.get_fighter().unwrap().get_hp(), (10, 10));
    assert_eq!(ork.get_fighter().unwrap().xp, 35);

    player.attack(&mut ork, &mut messages);
    assert_eq!(ork.get_fighter().unwrap().get_hp(), (5, 10));
    assert!(ork.is_alive());
    assert_eq!(player.get_fighter().unwrap().xp, 0);
    assert_eq!(lines(&messages), vec!["Player attacks Ork for 5 hit points.".to_string()]);

    player.attack(&mut ork, &mut messages);
    assert!(!ork.is_alive());
    assert_eq!(ork.get_fighter(), None);
    assert_eq!(player.get_fighter().unwrap().xp, 35);
    assert_eq!(player.get_fighter().unwrap().get_hp(), (30, 30));
    assert_eq!(
        lines(&messages),
        vec![
            "Player attacks Ork for 5 hit points.".to_string(),
            "Player attacks Ork for 5 hit points.".to_string(),
            "Ork is dead!".to_string(),
        ]
    );
    assert_eq!(messages.color(2), orange());
}

#[test]
fn corpse_of_monster_yields_nothing_more() {
    let mut player = player();
    let mut ork = ork(1, 0);
    let mut messages = Messages::new();
    player.attack(&mut ork, &mut messages);
    player.attack(&mut ork, &mut messages);
    let corpse = ork.clone();
    let logged = messages.len();

    assert_eq!(ork.take_damage(7, &mut messages), None);
    assert_eq!(ork.take_damage(1000, &mut messages), None);
    assert_eq!(ork, corpse);
    assert_eq!(messages.len(), logged);

    // An attack on the corpse does damage of 5 - 0 and is logged, but
    // changes neither the corpse nor the attacker's experience.
    player.attack(&mut ork, &mut messages);
    assert_eq!(ork, corpse);
    assert_eq!(player.get_fighter().unwrap().xp, 35);
}

#[test]
fn monster_death_leaves_a_corpse() {
    let mut ork = ork(4, 5);
    let mut messages = Messages::new();
    let xp = ork.take_damage(10, &mut messages);
    assert_eq!(xp, Some(35));
    assert!(!ork.is_alive());
    assert_eq!(ork.get_name(), "remains of Ork");
    assert_eq!(ork.glyph, '%');
    assert_eq!(ork.color, dark_red());
    assert!(!ork.get_is_blocks());
    assert_eq!(ork.get_fighter(), None);
    assert_eq!(ork.ai, None);
    assert_eq!(ork.get_coordinates(), (4, 5));
}

#[test]
fn player_death_keeps_fighter_and_glyph() {
    let mut player = player();
    let mut messages = Messages::new();
    let xp = player.take_damage(30, &mut messages);
    assert_eq!(xp, Some(0));
    assert!(!player.is_alive());
    assert_eq!(player.get_name(), "remains of Player");
    assert_eq!(player.color, dark_red());
    assert_eq!(player.glyph, '@');
    assert!(player.get_is_blocks());
    assert_eq!(player.get_fighter().unwrap().get_hp(), (0, 30));
    assert_eq!(lines(&messages), vec!["You died!".to_string()]);
    assert_eq!(messages.color(0), red());

    // What is dead does not die again.
    assert_eq!(player.take_damage(5, &mut messages), None);
    assert_eq!(player.get_name(), "remains of Player");
    assert_eq!(player.get_fighter().unwrap().get_hp(), (-5, 30));
    assert_eq!(messages.len(), 1);
}

#[test]
fn attack_without_effect_changes_nothing() {
    let mut weak = Entity::new(0, 0, 'w', white(), "Rat", true);
    weak.make_alive();
    weak.make_fighter(3, 3, 0, 2, DeathCallback::Monster);
    let mut player = player();
    let before = player.clone();
    let mut messages = Messages::new();
    weak.attack(&mut player, &mut messages);
    assert_eq!(player, before);
    assert_eq!(lines(&messages), vec!["Rat attacks Player but it has no effect!".to_string()]);
    assert_eq!(messages.color(0), white());
}

#[test]
fn damage_that_is_not_positive_is_ignored() {
    let mut ork = ork(0, 0);
    let mut messages = Messages::new();
    assert_eq!(ork.take_damage(0, &mut messages), None);
    assert_eq!(ork.take_damage(-3, &mut messages), None);
    assert_eq!(ork.get_fighter().unwrap().get_hp(), (10, 10));
    assert_eq!(messages.len(), 0);
}

#[test]
fn entity_without_fighter_takes_no_damage() {
    let mut rock = Entity::new(2, 2, 'r', white(), "Rock", true);
    let before = rock.clone();
    let mut messages = Messages::new();
    assert_eq!(rock.take_damage(9, &mut messages), None);
    assert_eq!(rock, before);
    assert_eq!(messages.len(), 0);
}

#[test]
fn troll_is_the_stronger_monster() {
    let troll = Entity::spawn_monster(3, 4, false);
    assert_eq!(
        troll.get_fighter(),
        Some(Fighter {
            max_hp: 16,
            hp: 16,
            defense: 1,
            power: 4,
            xp: 100,
            on_death: DeathCallback::Monster
        })
    );
    assert_eq!(troll.get_name(), "Troll");
    assert_eq!(troll.glyph, 'T');
    assert_eq!(troll.ai, Some(AI::Basic));
    assert!(troll.is_alive());
    assert!(troll.get_is_blocks());
}

#[test]
fn kill_turns_entity_into_remains() {
    let mut npc = Entity::new(1, 1, '@', white(), "Frederic", true);
    npc.make_alive();
    npc.kill();
    assert!(!npc.is_alive());
    assert_eq!(npc.glyph, '%');
    assert_eq!(npc.color, dark_red());
    assert_eq!(npc.get_name(), "remains of Frederic");
}

#[test]
fn new_entity_is_bare() {
    let e = Entity::new(7, 8, 'x', red(), "Thing", false);
    assert_eq!(e.get_coordinates(), (7, 8));
    assert_eq!(e.get_name(), "Thing");
    assert!(!e.is_alive());
    assert!(!e.get_is_blocks());
    assert_eq!(e.get_fighter(), None);
    assert_eq!(e.get_item(), None);
    assert_eq!(e.ai, None);
    assert_eq!(e.get_level(), 1);
    assert!(!e.always_visible);
}

#[test]
fn gain_xp_adds_experience() {
    let mut player = player();
    player.gain_xp(Some(35));
    player.gain_xp(None);
    player.gain_xp(Some(100));
    assert_eq!(player.get_fighter().unwrap().xp, 135);
    player.set_xp(7);
    assert_eq!(player.get_fighter().unwrap().xp, 7);
}

#[test]
fn death_callback_dispatches_by_policy() {
    let mut a = ork(0, 0);
    let mut b = ork(0, 0);
    let mut messages = Messages::new();
    DeathCallback::Player.callback(&mut a, &mut messages);
    DeathCallback::Monster.callback(&mut b, &mut messages);
    assert!(a.get_fighter().is_some());
    assert_eq!(a.glyph, 'o');
    assert!(b.get_fighter().is_none());
    assert_eq!(b.glyph, '%');
    assert_eq!(lines(&messages), vec!["You died!".to_string(), "Ork is dead!".to_string()]);
}

#[test]
fn large_damage_is_written_in_decimal() {
    let mut giant = Entity::new(0, 0, 'G', white(), "Giant", true);
    giant.make_fighter(10, 10, 0, 1205, DeathCallback::Monster);
    let mut wall = Entity::new(0, 1, 'W', white(), "Wall", true);
    wall.make_fighter(5000, 5000, 0, 0, DeathCallback::Monster);
    let mut messages = Messages::new();
    giant.attack(&mut wall, &mut messages);
    assert_eq!(lines(&messages), vec!["Giant attacks Wall for 1205 hit points.".to_string()]);
    assert_eq!(wall.get_fighter().unwrap().hp, 3795);
}
