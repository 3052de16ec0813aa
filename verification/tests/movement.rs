use roguelike::color::white;
use roguelike::entity::{DeathCallback, Entity};
use roguelike::tile::{Tile, TileGrid};

fn open_grid() -> TileGrid {
    let mut grid = TileGrid::new();
    for x in 0..80 {
        for y in 0..43 {
            grid.set(x, y, Tile::empty());
        }
    }
    grid
}

fn walker(x: i32, y: i32) -> Entity {
    Entity::new(x, y, 'w', white(), "Walker", true)
}

#[test]
fn move_by_steps_on_free_cell() {
    let grid = open_grid();
    let mut entities = vec![walker(5, 5)];
    Entity::move_by(0, 1, -1, &grid, &mut entities);
    assert_eq!(entities[0].get_coordinates(), (6, 4));
}

#[test]
fn move_by_stops_at_walls_edges_and_blockers() {
    let mut grid = open_grid();
    grid.set(6, 5, Tile::wall());
    let mut entities = vec![walker(5, 5), walker(5, 6), walker(0, 0), walker(79, 42)];
    Entity::move_by(0, 1, 0, &grid, &mut entities);
    assert_eq!(entities[0].get_coordinates(), (5, 5));
    Entity::move_by(0, 0, 1, &grid, &mut entities);
    assert_eq!(entities[0].get_coordinates(), (5, 5));
    Entity::move_by(2, -1, 0, &grid, &mut entities);
    assert_eq!(entities[2].get_coordinates(), (0, 0));
    Entity::move_by(2, 0, -1, &grid, &mut entities);
    assert_eq!(entities[2].get_coordinates(), (0, 0));
    Entity::move_by(3, 1, 0, &grid, &mut entities);
    assert_eq!(entities[3].get_coordinates(), (79, 42));
    Entity::move_by(3, 0, 1, &grid, &mut entities);
    assert_eq!(entities[3].get_coordinates(), (79, 42));
    Entity::move_by(3, i32::MAX, i32::MAX, &grid, &mut entities);
    assert_eq!(entities[3].get_coordinates(), (79, 42));
}

#[test]
fn move_by_passes_over_items() {
    let grid = open_grid();
    let potion = Entity::new(6, 5, '!', white(), "healing potion", false);
    let mut entities = vec![walker(5, 5), potion];
    Entity::move_by(0, 1, 0, &grid, &mut entities);
    assert_eq!(entities[0].get_coordinates(), (6, 5));
}

fn step_towards(from: (i32, i32), to: (i32, i32)) -> (i32, i32) {
    let grid = open_grid();
    let mut entities = vec![walker(from.0, from.1)];
    Entity::move_towards(0, to.0, to.1, &grid, &mut entities);
    let (x, y) = entities[0].get_coordinates();
    (x - from.0, y - from.1)
}

fn rounded_step(from: (i32, i32), to: (i32, i32)) -> (i32, i32) {
    let dx = to.0 - from.0;
    let dy = to.1 - from.1;
    let distance = ((dx.pow(2) + dy.pow(2)) as f32).sqrt();
    ((dx as f32 / distance).round() as i32, (dy as f32 / distance).round() as i32)
}

#[test]
fn move_towards_takes_the_rounded_unit_step() {
    assert_eq!(step_towards((10, 10), (20, 10)), (1, 0));
    assert_eq!(step_towards((10, 10), (10, 3)), (0, -1));
    assert_eq!(step_towards((10, 10), (13, 13)), (1, 1));
    assert_eq!(step_towards((10, 10), (5, 12)), (-1, 0));
    assert_eq!(step_towards((10, 10), (12, 11)), (1, 0));
    // 3 * 1 < 2 * 2 for the smaller coordinate: it rounds to 0.
    assert_eq!(step_towards((10, 10), (11, 12)), (0, 1));
    // 3 * 4 >= 3 * 3: both coordinates round away from 0.
    assert_eq!(step_towards((10, 10), (12, 13)), (1, 1));
    assert_eq!(step_towards((10, 10), (10, 10)), (0, 0));
}

#[test]
fn move_towards_agrees_with_rounding_all_over_the_map() {
    let from = (40, 21);
    for x in 0..80 {
        for y in 0..43 {
            assert_eq!(step_towards_unblocked(from, (x, y)), rounded_step(from, (x, y)));
        }
    }
}

fn step_towards_unblocked(from: (i32, i32), to: (i32, i32)) -> (i32, i32) {
    // The walker does not block, so that standing on the target is no bar.
    let grid = open_grid();
    let mut entities = vec![Entity::new(from.0, from.1, 'w', white(), "Walker", false)];
    Entity::move_towards(0, to.0, to.1, &grid, &mut entities);
    let (x, y) = entities[0].get_coordinates();
    (x - from.0, y - from.1)
}

#[test]
fn distance_squared_is_exact() {
    let a = walker(1, 2);
    let b = walker(4, 6);
    assert_eq!(a.distance_squared_to(&b), 25);
    assert_eq!(b.distance_squared_to(&a), 25);
    assert_eq!(a.distance_squared_to(&a), 0);
    let far = walker(i32::MAX, i32::MIN);
    let near = walker(i32::MIN, i32::MAX);
    let side: i128 = (1i128 << 32) - 1;
    assert_eq!(far.distance_squared_to(&near), 2 * side * side);
}

#[test]
fn mut_two_hands_out_both_in_either_order() {
    let mut items = vec![10, 20, 30, 40];
    {
        let (a, b) = Entity::mut_two(1, 3, &mut items);
        assert_eq!((*a, *b), (20, 40));
        *a += 1;
        *b += 2;
    }
    assert_eq!(items, vec![10, 21, 30, 42]);
    {
        let (a, b) = Entity::mut_two(3, 0, &mut items);
        assert_eq!((*a, *b), (42, 10));
        *a = 0;
        *b = 5;
    }
    assert_eq!(items, vec![5, 21, 30, 0]);
}

#[test]
fn set_position_moves_only() {
    let mut e = walker(1, 1);
    e.make_fighter(5, 5, 1, 1, DeathCallback::Monster);
    let before = e.clone();
    e.set_position(9, 8);
    assert_eq!(e.get_coordinates(), (9, 8));
    e.set_position(1, 1);
    assert_eq!(e, before);
}
