use roguelike::color::white;
use roguelike::entity::{DeathCallback, Entity};
use roguelike::game::Game;
use roguelike::progression::make_map;
use roguelike::room::{Room, RoomDraw, MAX_ROOMS, ROOM_MAX_SIZE, ROOM_MIN_SIZE};
use roguelike::spawn::{SpawnDraw, MAX_ROOM_ITEMS, MAX_ROOM_MONSTERS};
use roguelike::tile::{Tile, TileGrid, MAP_HEIGHT, MAP_WIDTH};

fn player() -> Entity {
    let mut player = Entity::new(0, 0, '@', white(), "Player", true);
    player.make_alive();
    player.make_fighter(30, 30, 2, 5, DeathCallback::Player);
    player
}

fn run_is_open(map: &TileGrid, from: (i32, i32), to: (i32, i32), horizontal_first: bool) -> bool {
    let xs = from.0.min(to.0)..=from.0.max(to.0);
    let ys = from.1.min(to.1)..=from.1.max(to.1);
    if horizontal_first {
        xs.clone().all(|x| map.get(x, from.1).get_is_passable())
            && ys.clone().all(|y| map.get(to.0, y).get_is_passable())
    } else {
        ys.clone().all(|y| map.get(from.0, y).get_is_passable())
            && xs.clone().all(|x| map.get(x, to.1).get_is_passable())
    }
}

#[test]
fn room_new_adds_width_and_height() {
    let room = Room::new(3, 4, 6, 10);
    assert_eq!(room.get_room_coordinates(), (3, 9, 4, 14));
    assert_eq!(room, Room { x1: 3, y1: 4, x2: 9, y2: 14 });
}

#[test]
fn room_center_is_the_truncated_mean() {
    assert_eq!(Room::new(3, 4, 6, 10).get_center(), (6, 9));
    assert_eq!(Room::new(0, 0, 7, 9).get_center(), (3, 4));
    assert_eq!(Room { x1: -7, y1: -3, x2: 0, y2: 0 }.get_center(), (-3, -1));
    assert_eq!(
        Room { x1: i32::MAX, y1: i32::MIN, x2: i32::MAX, y2: i32::MIN }.get_center(),
        (i32::MAX, i32::MIN)
    );
}

#[test]
fn rooms_that_touch_intersect() {
    let room = Room::new(10, 10, 6, 6);
    assert!(room.includes(&Room::new(16, 16, 6, 6)));
    assert!(room.includes(&Room::new(4, 4, 6, 6)));
    assert!(room.includes(&Room::new(12, 12, 1, 1)));
    assert!(!room.includes(&Room::new(17, 10, 6, 6)));
    assert!(!room.includes(&Room::new(10, 17, 6, 6)));
    assert!(!room.includes(&Room::new(3, 10, 6, 6)));
    let others = vec![Room::new(30, 30, 6, 6), Room::new(16, 3, 7, 7)];
    assert!(room.intersects_any(&others));
    assert!(!room.intersects_any(&others[..1].to_vec()));
    assert!(!room.intersects_any(&vec![]));
}

#[test]
fn put_on_map_digs_the_floor_and_leaves_the_walls() {
    let mut map = TileGrid::new();
    let room = Room::new(2, 3, 4, 3);
    assert_eq!(*room.put_on_map(&mut map), room);
    for x in 0..MAP_WIDTH {
        for y in 0..MAP_HEIGHT {
            let inside = 2 < x && x < 6 && 3 < y && y < 6;
            assert_eq!(map.get(x, y), if inside { Tile::empty() } else { Tile::wall() });
        }
    }
}

#[test]
fn put_on_map_of_room_without_floor_digs_nothing() {
    let mut map = TileGrid::new();
    Room { x1: 5, y1: 5, x2: 6, y2: 20 }.put_on_map(&mut map);
    Room { x1: -100, y1: 5, x2: 100, y2: 5 }.put_on_map(&mut map);
    assert_eq!(map, TileGrid::new());
}

#[test]
fn tunnels_dig_both_ends_in_either_order() {
    let mut map = TileGrid::new();
    Room::create_h_tunel(7, 3, 2, &mut map);
    Room::create_v_tunel(4, 9, 10, &mut map);
    for x in 0..MAP_WIDTH {
        for y in 0..MAP_HEIGHT {
            let dug = (y == 2 && 3 <= x && x <= 7) || (x == 10 && 4 <= y && y <= 9);
            assert_eq!(map.get(x, y), if dug { Tile::empty() } else { Tile::wall() });
        }
    }
}

#[test]
fn tunnel_with_bend_goes_by_the_chosen_corner() {
    let mut map = TileGrid::new();
    Room::create_tunnel((2, 2), (5, 6), true, &mut map);
    assert!(map.get(5, 2).get_is_passable());
    assert!(!map.get(2, 6).get_is_passable());
    assert!(run_is_open(&map, (2, 2), (5, 6), true));
    let mut map = TileGrid::new();
    Room::create_tunnel((2, 2), (5, 6), false, &mut map);
    assert!(map.get(2, 6).get_is_passable());
    assert!(!map.get(5, 2).get_is_passable());
    assert!(run_is_open(&map, (2, 2), (5, 6), false));
}

#[test]
fn populate_room_places_spawns_on_free_floor() {
    for _ in 0..50 {
        let mut map = TileGrid::new();
        let room = Room::new(10, 10, 6, 6);
        room.put_on_map(&mut map);
        let mut entities = vec![player()];
        Entity::populate_room(&room, &map, &mut entities);
        assert!(entities.len() <= 1 + (MAX_ROOM_MONSTERS + MAX_ROOM_ITEMS) as usize);
        assert_eq!(entities[0], player());
        for (i, e) in entities.iter().enumerate().skip(1) {
            let (x, y) = e.get_coordinates();
            assert!(10 < x && x < 16 && 10 < y && y < 16);
            let kinds = [
                Entity::spawn_monster(x, y, true),
                Entity::spawn_monster(x, y, false),
                Entity::spawn_item(x, y, true),
                Entity::spawn_item(x, y, false),
            ];
            assert!(kinds.contains(e));
            for earlier in entities[1..i].iter() {
                assert!(!(earlier.get_is_blocks() && earlier.get_coordinates() == (x, y)));
            }
        }
    }
}

#[test]
fn place_refuses_blocked_cells() {
    let mut map = TileGrid::new();
    map.set(4, 4, Tile::empty());
    let mut entities = vec![player()];
    assert!(!Entity::place(Entity::spawn_monster(5, 5, true), &map, &mut entities));
    assert!(Entity::place(Entity::spawn_monster(4, 4, true), &map, &mut entities));
    assert!(!Entity::place(Entity::spawn_item(4, 4, true), &map, &mut entities));
    assert_eq!(entities.len(), 2);
    assert_eq!(entities[1], Entity::spawn_monster(4, 4, true));
}

#[test]
fn generated_levels_keep_their_promises() {
    for _ in 0..40 {
        let mut map = TileGrid::new();
        let npc = Entity::new(35, 25, '@', white(), "Frederic", true);
        let mut entities = vec![player(), npc.clone()];
        let rooms = Room::generate_rooms(&mut map, &mut entities);

        assert!(map.is_well_formed());
        assert!(!rooms.is_empty() && rooms.len() <= MAX_ROOMS as usize);
        for (i, room) in rooms.iter().enumerate() {
            let (x1, x2, y1, y2) = room.get_room_coordinates();
            assert!(0 <= x1 && x2 < MAP_WIDTH && 0 <= y1 && y2 < MAP_HEIGHT);
            assert!(ROOM_MIN_SIZE <= x2 - x1 && x2 - x1 <= ROOM_MAX_SIZE);
            assert!(ROOM_MIN_SIZE <= y2 - y1 && y2 - y1 <= ROOM_MAX_SIZE);
            for other in rooms[i + 1..].iter() {
                assert!(!room.includes(other));
                assert!(!other.includes(room));
            }
            for x in x1 + 1..x2 {
                for y in y1 + 1..y2 {
                    assert!(map.get(x, y).get_is_passable());
                    assert!(!map.get(x, y).get_is_block_sight());
                }
            }
        }
        for pair in rooms.windows(2) {
            let from = pair[0].get_center();
            let to = pair[1].get_center();
            assert!(run_is_open(&map, from, to, true) || run_is_open(&map, from, to, false));
        }
        for x in 0..MAP_WIDTH {
            for y in 0..MAP_HEIGHT {
                assert!(map.get(x, y) == Tile::wall() || map.get(x, y) == Tile::empty());
            }
        }

        assert_eq!(entities[0].get_coordinates(), rooms[0].get_center());
        let mut moved = player();
        let (x, y) = rooms[0].get_center();
        moved.set_position(x, y);
        assert_eq!(entities[0], moved);
        assert_eq!(entities[1], npc);
        for e in entities[2..].iter() {
            let (x, y) = e.get_coordinates();
            assert!(rooms.iter().any(|room| {
                let (x1, x2, y1, y2) = room.get_room_coordinates();
                x1 < x && x < x2 && y1 < y && y < y2
            }));
            assert!(map.get(x, y).get_is_passable());
        }
    }
}

#[test]
fn make_map_builds_a_level_around_the_player() {
    let mut entities = vec![player()];
    let map = make_map(&mut entities);
    assert!(map.is_well_formed());
    let (x, y) = entities[0].get_coordinates();
    assert!(map.get(x, y).get_is_passable());
}

#[test]
fn new_game_greets_the_player() {
    let mut entities = vec![player()];
    let game = Game::new(&mut entities);
    assert!(game.map.is_well_formed());
    assert_eq!(game.dungeon_level, 1);
    assert!(game.inventory.is_empty());
    assert_eq!(game.messages.len(), 1);
    assert_eq!(
        game.messages.text(0),
        "Welcome stranger! Prepare to perish in the Tombs of the Ancient Kings."
    );
}

#[test]
fn populate_with_places_the_draws_in_order() {
    let mut map = TileGrid::new();
    let room = Room::new(10, 10, 6, 6);
    room.put_on_map(&mut map);
    let mut entities = vec![player()];
    let monsters = vec![
        SpawnDraw { x: 11, y: 11, common: true },
        SpawnDraw { x: 11, y: 11, common: false },
        SpawnDraw { x: 12, y: 13, common: false },
    ];
    let items = vec![
        SpawnDraw { x: 11, y: 11, common: true },
        SpawnDraw { x: 15, y: 15, common: false },
    ];
    Entity::populate_with(&monsters, &items, &room, &map, &mut entities);
    // The troll and the potion drawn for the ork's cell are left out.
    assert_eq!(
        entities,
        vec![
            player(),
            Entity::spawn_monster(11, 11, true),
            Entity::spawn_monster(12, 13, false),
            Entity::spawn_item(15, 15, false),
        ]
    );
}

#[test]
fn populate_with_nothing_drawn_changes_nothing() {
    let mut map = TileGrid::new();
    let room = Room::new(10, 10, 6, 6);
    room.put_on_map(&mut map);
    let mut entities = vec![player()];
    Entity::populate_with(&vec![], &vec![], &room, &map, &mut entities);
    assert_eq!(entities, vec![player()]);
}

#[test]
fn spawn_all_lets_items_share_a_cell() {
    let mut map = TileGrid::new();
    let room = Room::new(10, 10, 6, 6);
    room.put_on_map(&mut map);
    let mut entities = vec![player()];
    let draws = vec![
        SpawnDraw { x: 14, y: 12, common: true },
        SpawnDraw { x: 14, y: 12, common: false },
    ];
    Entity::spawn_all(&draws, false, &room, &map, &mut entities);
    assert_eq!(
        entities,
        vec![player(), Entity::spawn_item(14, 12, true), Entity::spawn_item(14, 12, false)]
    );
    Entity::spawn_all(&draws, true, &room, &map, &mut entities);
    assert_eq!(entities.len(), 4);
    assert_eq!(entities[3], Entity::spawn_monster(14, 12, true));
}

#[test]
fn place_room_keeps_digs_and_links() {
    let mut map = TileGrid::new();
    let mut rooms: Vec<Room> = vec![];
    let first = RoomDraw { x: 2, y: 3, w: 6, h: 6, horizontal_first: true };
    assert!(Room::place_room(first, &mut rooms, &mut map));
    assert_eq!(rooms, vec![Room::new(2, 3, 6, 6)]);
    for x in 0..MAP_WIDTH {
        for y in 0..MAP_HEIGHT {
            let floor = 2 < x && x < 8 && 3 < y && y < 9;
            assert_eq!(map.get(x, y), if floor { Tile::empty() } else { Tile::wall() });
        }
    }

    // The second room is linked to the first: from (5, 6) along row 6 to
    // column 23, then down to (23, 25).
    let second = RoomDraw { x: 20, y: 20, w: 6, h: 10, horizontal_first: true };
    assert!(Room::place_room(second, &mut rooms, &mut map));
    assert_eq!(rooms, vec![Room::new(2, 3, 6, 6), Room::new(20, 20, 6, 10)]);
    for x in 0..MAP_WIDTH {
        for y in 0..MAP_HEIGHT {
            let floor = (2 < x && x < 8 && 3 < y && y < 9)
                || (20 < x && x < 26 && 20 < y && y < 30)
                || (y == 6 && 5 <= x && x <= 23)
                || (x == 23 && 6 <= y && y <= 25);
            assert_eq!(map.get(x, y), if floor { Tile::empty() } else { Tile::wall() });
        }
    }

    // The third goes the other way round the corner.
    let third = RoomDraw { x: 40, y: 2, w: 8, h: 6, horizontal_first: false };
    assert!(Room::place_room(third, &mut rooms, &mut map));
    assert_eq!(rooms.len(), 3);
    assert!(map.get(23, 5).get_is_passable());
    assert!(map.get(44, 5).get_is_passable());
    assert!(map.get(30, 5).get_is_passable());
    assert!(!map.get(44, 25).get_is_passable());
}

#[test]
fn place_room_refuses_what_overlaps() {
    let mut map = TileGrid::new();
    let mut rooms: Vec<Room> = vec![];
    assert!(Room::place_room(
        RoomDraw { x: 10, y: 10, w: 6, h: 6, horizontal_first: false },
        &mut rooms,
        &mut map
    ));
    let before = map.clone();
    // It touches the first room's corner: that is shared.
    assert!(!Room::place_room(
        RoomDraw { x: 16, y: 16, w: 6, h: 6, horizontal_first: true },
        &mut rooms,
        &mut map
    ));
    assert_eq!(rooms, vec![Room::new(10, 10, 6, 6)]);
    assert_eq!(map, before);
}

fn reachable_from(map: &TileGrid, start: (i32, i32)) -> Vec<Vec<bool>> {
    let mut seen = vec![vec![false; MAP_HEIGHT as usize]; MAP_WIDTH as usize];
    let mut open = vec![start];
    seen[start.0 as usize][start.1 as usize] = true;
    while let Some((x, y)) = open.pop() {
        for (nx, ny) in [(x - 1, y), (x + 1, y), (x, y - 1), (x, y + 1)] {
            if 0 <= nx && nx < MAP_WIDTH && 0 <= ny && ny < MAP_HEIGHT
                && map.get(nx, ny).get_is_passable()
                && !seen[nx as usize][ny as usize]
            {
                seen[nx as usize][ny as usize] = true;
                open.push((nx, ny));
            }
        }
    }
    seen
}

#[test]
fn generated_levels_are_connected_and_walled_in() {
    for _ in 0..40 {
        let mut map = TileGrid::new();
        let mut entities = vec![player()];
        let rooms = Room::generate_rooms(&mut map, &mut entities);
        let seen = reachable_from(&map, entities[0].get_coordinates());
        for x in 0..MAP_WIDTH {
            for y in 0..MAP_HEIGHT {
                let tile = map.get(x, y);
                assert!(!tile.get_is_explored());
                assert_eq!(tile.get_is_passable(), seen[x as usize][y as usize]);
                if x == 0 || x == MAP_WIDTH - 1 || y == 0 || y == MAP_HEIGHT - 1 {
                    assert_eq!(tile, Tile::wall());
                }
                if tile.get_is_passable() {
                    let in_room = rooms.iter().any(|room| {
                        let (x1, x2, y1, y2) = room.get_room_coordinates();
                        x1 < x && x < x2 && y1 < y && y < y2
                    });
                    let on_tunnel = rooms.windows(2).any(|pair| {
                        let (ax, ay) = pair[0].get_center();
                        let (bx, by) = pair[1].get_center();
                        let in_x = ax.min(bx) <= x && x <= ax.max(bx);
                        let in_y = ay.min(by) <= y && y <= ay.max(by);
                        (in_x && (y == ay || y == by)) || (in_y && (x == ax || x == bx))
                    });
                    assert!(in_room || on_tunnel);
                }
            }
        }
    }
}
