use roguelike::color::{
    dark_ground, dark_wall, light_ground, light_wall, tile_color, white, Color,
};
use roguelike::entity::Entity;
use roguelike::tile::{Tile, TileGrid, MAP_HEIGHT, MAP_WIDTH};

#[test]
fn empty_and_wall_tiles() {
    let empty = Tile::empty();
    assert!(empty.get_is_passable());
    assert!(!empty.get_is_block_sight());
    assert!(!empty.get_is_explored());
    let wall = Tile::wall();
    assert!(!wall.get_is_passable());
    assert!(wall.get_is_block_sight());
    assert!(!wall.get_is_explored());
}

#[test]
fn explore_marks_and_keeps_the_rest() {
    let mut tile = Tile::wall();
    tile.explore();
    assert!(tile.get_is_explored());
    assert!(!tile.get_is_passable());
    assert!(tile.get_is_block_sight());
    tile.explore();
    assert!(tile.get_is_explored());
}

#[test]
fn new_grid_is_solid_rock() {
    let grid = TileGrid::new();
    assert!(grid.is_well_formed());
    assert_eq!(grid.tiles.len(), MAP_WIDTH as usize);
    for column in grid.tiles.iter() {
        assert_eq!(column.len(), MAP_HEIGHT as usize);
        for tile in column.iter() {
            assert_eq!(*tile, Tile::wall());
        }
    }
}

#[test]
fn set_changes_one_tile() {
    let mut grid = TileGrid::new();
    grid.set(3, 4, Tile::empty());
    assert_eq!(grid.get(3, 4), Tile::empty());
    assert_eq!(grid.get(4, 3), Tile::wall());
    assert_eq!(grid.get(3, 5), Tile::wall());
    let copy = grid.clone();
    assert_eq!(copy, grid);
}

#[test]
fn grid_of_wrong_size_is_not_well_formed() {
    let mut grid = TileGrid::new();
    grid.tiles[5].pop();
    assert!(!grid.is_well_formed());
    let short = TileGrid { tiles: vec![vec![Tile::wall(); MAP_HEIGHT as usize]; 3] };
    assert!(!short.is_well_formed());
}

#[test]
fn is_blocked_by_wall_or_blocking_entity() {
    let mut grid = TileGrid::new();
    grid.set(1, 1, Tile::empty());
    grid.set(2, 1, Tile::empty());
    grid.set(3, 1, Tile::empty());
    let blocker = Entity::new(2, 1, 'o', white(), "Ork", true);
    let potion = Entity::new(3, 1, '!', white(), "healing potion", false);
    let entities = vec![blocker, potion];
    assert!(Tile::is_blocked(0, 0, &grid, &entities));
    assert!(!Tile::is_blocked(1, 1, &grid, &entities));
    assert!(Tile::is_blocked(2, 1, &grid, &entities));
    assert!(!Tile::is_blocked(3, 1, &grid, &entities));
}

#[test]
fn tile_colors_by_view_and_wall() {
    assert_eq!(tile_color(false, false), dark_ground());
    assert_eq!(tile_color(false, true), dark_wall());
    assert_eq!(tile_color(true, false), light_ground());
    assert_eq!(tile_color(true, true), light_wall());
    assert_eq!(dark_wall(), Color { r: 0, g: 0, b: 100 });
    assert_eq!(light_ground(), Color { r: 200, g: 180, b: 50 });
}
