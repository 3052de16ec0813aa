use roguelike::color::{red, white, Color};
use roguelike::entity::Entity;
use roguelike::message::Messages;
use roguelike::room::Room;
use roguelike::tile::TileGrid;
use roguelike::text::append_decimal;

#[test]
fn log_keeps_lines_in_order() {
    let mut log = Messages::new();
    assert_eq!(log.len(), 0);
    assert_eq!(log.iter().count(), 0);
    log.add("first", white());
    log.add("second", red());
    assert_eq!(log.len(), 2);
    assert_eq!(log.text(0), "first");
    assert_eq!(log.color(0), white());
    assert_eq!(log.text(1), "second");
    assert_eq!(log.color(1), red());
    let newest_first: Vec<&(String, Color)> = log.iter().rev().collect();
    assert_eq!(newest_first[0].0, "second");
    assert_eq!(newest_first[1].0, "first");
}

#[test]
fn decimal_text_of_numbers() {
    let cases: [(i32, &str); 9] = [
        (0, "0"),
        (7, "7"),
        (10, "10"),
        (35, "35"),
        (1205, "1205"),
        (-1, "-1"),
        (-980, "-980"),
        (i32::MAX, "2147483647"),
        (i32::MIN, "-2147483648"),
    ];
    for (n, text) in cases {
        let mut s = String::from("x=");
        append_decimal(&mut s, n);
        assert_eq!(s, format!("x={}", text));
    }
}

#[test]
fn random_draws_stay_in_the_room() {
    // Through the only public way to the dice: every spawn of many rooms
    // lies on the floor of its room.
    let mut monsters = 0;
    let mut items = 0;
    for _ in 0..200 {
        let mut map = TileGrid::new();
        let room = Room::new(20, 20, 6, 10);
        room.put_on_map(&mut map);
        let mut entities = vec![Entity::new(0, 0, '@', white(), "Player", true)];
        Entity::populate_room(&room, &map, &mut entities);
        for e in entities[1..].iter() {
            let (x, y) = e.get_coordinates();
            assert!(20 < x && x < 26 && 20 < y && y < 30);
            if e.get_item().is_some() {
                items += 1;
            } else {
                monsters += 1;
            }
        }
        let spawned_monsters = entities[1..].iter().filter(|e| e.get_item().is_none()).count();
        let spawned_items = entities[1..].iter().filter(|e| e.get_item().is_some()).count();
        assert!(spawned_monsters <= 3 && spawned_items <= 2);
    }
    assert!(monsters > 0 && items > 0);
}
