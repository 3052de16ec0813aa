use roguelike::color::white;
use roguelike::entity::{DeathCallback, Entity};
use roguelike::fov::{
    fov_request, generate_fov_map, FovMap, FovRequest, FOV_LIGHT_WALLS, TORCH_RADIUS,
};
use roguelike::menu::{inventory_choice, inventory_options, menu_choice};
use roguelike::tile::{Tile, TileGrid, MAP_HEIGHT, MAP_WIDTH};
use roguelike::view::{draw_order, explore_visible, get_names_under_mouse, is_shown, player_health};

fn player(x: i32, y: i32) -> Entity {
    let mut player = Entity::new(x, y, '@', white(), "Player", true);
    player.make_alive();
    player.make_fighter(30, 30, 2, 5, DeathCallback::Player);
    player
}

fn lit_grid(cells: &[(usize, usize)]) -> Vec<Vec<bool>> {
    let mut lit = vec![vec![false; MAP_HEIGHT as usize]; MAP_WIDTH as usize];
    for &(x, y) in cells {
        lit[x][y] = true;
    }
    lit
}

#[test]
fn standing_player_keeps_the_view() {
    assert_eq!(fov_request((4, 5), (4, 5)), FovRequest::Keep);
    assert_eq!(
        fov_request((4, 5), (4, 6)),
        FovRequest::Compute {
            origin_x: 4,
            origin_y: 6,
            radius: TORCH_RADIUS,
            light_walls: FOV_LIGHT_WALLS
        }
    );
    assert_eq!(
        fov_request((-1, -1), (0, 0)),
        FovRequest::Compute { origin_x: 0, origin_y: 0, radius: 10, light_walls: true }
    );
}

#[test]
fn kept_view_ignores_what_is_handed_in() {
    let mut fov = FovMap::new(MAP_WIDTH, MAP_HEIGHT);
    fov.apply_view(fov_request((0, 0), (1, 0)), &lit_grid(&[(2, 2), (3, 2)]));
    assert!(fov.is_in_fov(2, 2) && fov.is_in_fov(3, 2) && !fov.is_in_fov(4, 2));
    let before = FovMap { width: fov.width, height: fov.height, cells: fov.cells.clone() };
    // Monsters may have moved and another grid may be offered: the player
    // stands, so nothing changes.
    fov.apply_view(fov_request((1, 0), (1, 0)), &lit_grid(&[(9, 9)]));
    assert_eq!(fov, before);
    fov.apply_view(FovRequest::Keep, &vec![]);
    assert_eq!(fov, before);
}

#[test]
fn computed_view_replaces_the_old_and_is_idempotent() {
    let mut fov = FovMap::new(MAP_WIDTH, MAP_HEIGHT);
    fov.set(9, 9, true, true);
    let request = fov_request((0, 0), (1, 0));
    fov.apply_view(request, &lit_grid(&[(2, 2)]));
    fov.apply_view(request, &lit_grid(&[(9, 9)]));
    assert!(!fov.is_in_fov(2, 2));
    assert!(fov.is_in_fov(9, 9));
    assert!(fov.is_transparent(9, 9) && fov.is_walkable(9, 9));
    let once = FovMap { width: fov.width, height: fov.height, cells: fov.cells.clone() };
    fov.apply_view(request, &lit_grid(&[(9, 9)]));
    assert_eq!(fov, once);
}

#[test]
fn nothing_outside_the_grid_is_in_view() {
    let mut fov = FovMap::new(3, 2);
    assert_eq!(fov.size(), (3, 2));
    fov.set_in_fov(2, 1, true);
    assert!(fov.is_in_fov(2, 1));
    assert!(!fov.is_in_fov(3, 1));
    assert!(!fov.is_in_fov(2, 2));
    assert!(!fov.is_in_fov(-1, 0));
    assert!(!fov.is_in_fov(i32::MAX, i32::MIN));
}

#[test]
fn fov_map_mirrors_the_tiles() {
    let mut map = TileGrid::new();
    map.set(5, 6, Tile::empty());
    map.set(7, 8, Tile { passable: true, block_sight: true, explored: false });
    let mut fov = FovMap::new(MAP_WIDTH + 2, MAP_HEIGHT + 1);
    fov.set(MAP_WIDTH + 1, 3, true, false);
    fov.set_in_fov(5, 6, true);
    generate_fov_map(&mut fov, &map);
    assert!(fov.is_transparent(5, 6) && fov.is_walkable(5, 6) && fov.is_in_fov(5, 6));
    assert!(!fov.is_transparent(7, 8) && fov.is_walkable(7, 8));
    assert!(!fov.is_transparent(0, 0) && !fov.is_walkable(0, 0) && !fov.is_in_fov(0, 0));
    assert!(fov.is_transparent(MAP_WIDTH + 1, 3) && !fov.is_walkable(MAP_WIDTH + 1, 3));
}

#[test]
fn explored_tiles_stay_explored() {
    let mut map = TileGrid::new();
    map.set(5, 6, Tile::empty());
    let mut fov = FovMap::new(MAP_WIDTH, MAP_HEIGHT);
    fov.apply_view(fov_request((0, 0), (5, 6)), &lit_grid(&[(5, 6), (5, 7)]));
    explore_visible(&mut map, &fov);
    assert_eq!(map.get(5, 6), Tile { passable: true, block_sight: false, explored: true });
    assert_eq!(map.get(5, 7), Tile { passable: false, block_sight: true, explored: true });
    assert_eq!(map.get(5, 8), Tile::wall());

    fov.apply_view(fov_request((5, 6), (6, 6)), &lit_grid(&[(5, 8)]));
    explore_visible(&mut map, &fov);
    assert!(map.get(5, 6).get_is_explored());
    assert!(map.get(5, 7).get_is_explored());
    assert!(map.get(5, 8).get_is_explored());
    assert!(!map.get(5, 9).get_is_explored());
    assert!(map.get(5, 6).get_is_passable());
}

#[test]
fn blocking_entities_are_drawn_last() {
    let mut map = TileGrid::new();
    let mut fov = FovMap::new(MAP_WIDTH, MAP_HEIGHT);
    fov.apply_view(fov_request((0, 0), (1, 1)), &lit_grid(&[(1, 1), (2, 2)]));
    let mut stairs = Entity::new(30, 30, '<', white(), "stairs", false);
    stairs.set_always_visible(true);
    let mut hidden_stairs = Entity::new(31, 31, '<', white(), "stairs", false);
    hidden_stairs.set_always_visible(true);
    let mut explored = Tile::empty();
    explored.explore();
    map.set(30, 30, explored);
    let mut outside = Entity::new(-1, 500, '?', white(), "lost", false);
    outside.set_always_visible(true);
    let entities = vec![
        player(1, 1),
        Entity::spawn_item(1, 1, true),
        Entity::spawn_monster(2, 2, true),
        Entity::spawn_monster(3, 3, true),
        stairs,
        hidden_stairs,
        Entity::spawn_item(2, 2, false),
        outside,
    ];
    assert_eq!(draw_order(&entities, &fov, &map), vec![1, 4, 6, 0, 2]);
    assert!(is_shown(4, &entities, &fov, &map));
    assert!(!is_shown(5, &entities, &fov, &map));
    assert!(!is_shown(3, &entities, &fov, &map));
    assert!(!is_shown(7, &entities, &fov, &map));
}

#[test]
fn health_bar_shows_the_player() {
    let mut hurt = player(0, 0);
    hurt.fighter.as_mut().unwrap().hp = 12;
    assert_eq!(player_health(&vec![hurt]), (12, 30));
    assert_eq!(player_health(&vec![Entity::new(0, 0, '@', white(), "Ghost", false)]), (0, 0));
}

#[test]
fn names_under_the_pointer_are_joined() {
    let mut fov = FovMap::new(MAP_WIDTH, MAP_HEIGHT);
    fov.set_in_fov(4, 4, true);
    let entities = vec![
        player(4, 4),
        Entity::spawn_monster(5, 5, true),
        Entity::spawn_item(4, 4, true),
        Entity::spawn_item(4, 4, false),
    ];
    assert_eq!(
        get_names_under_mouse(4, 4, &entities, &fov),
        "Player, healing potion, scroll of lightning bolt"
    );
    assert_eq!(get_names_under_mouse(5, 5, &entities, &fov), "");
    assert_eq!(get_names_under_mouse(6, 6, &entities, &fov), "");
    fov.set_in_fov(5, 5, true);
    assert_eq!(get_names_under_mouse(5, 5, &entities, &fov), "Ork");
}

#[test]
fn menu_letters_pick_options() {
    assert_eq!(menu_choice('a', 3), Some(0));
    assert_eq!(menu_choice('C', 3), Some(2));
    assert_eq!(menu_choice('d', 3), None);
    assert_eq!(menu_choice('z', 26), Some(25));
    assert_eq!(menu_choice('Z', 25), None);
    assert_eq!(menu_choice('1', 26), None);
    assert_eq!(menu_choice(' ', 26), None);
    assert_eq!(menu_choice('é', 26), None);
    assert_eq!(menu_choice('a', 0), None);
}

#[test]
fn inventory_menu_lists_names_or_says_empty() {
    assert_eq!(inventory_options(&vec![]), vec!["Inventory is empty.".to_string()]);
    let inventory = vec![Entity::spawn_item(0, 0, true), Entity::spawn_item(0, 0, false)];
    assert_eq!(
        inventory_options(&inventory),
        vec!["healing potion".to_string(), "scroll of lightning bolt".to_string()]
    );
    assert_eq!(inventory_choice(0, Some(0)), None);
    assert_eq!(inventory_choice(2, Some(1)), Some(1));
    assert_eq!(inventory_choice(2, None), None);
}
