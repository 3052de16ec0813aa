//! What a turn shows: explored tiles, the entities in their drawing order,
//! the health bar and the names under the pointer.

use vstd::prelude::*;
use vstd::string::StringExecFns;
use crate::entity::{Entity, EntityView, PLAYER};
use crate::fov::FovMap;
use crate::tile::{in_bounds, Tile, TileGrid, MAP_HEIGHT, MAP_WIDTH};

verus! {

/// `map` is `before` with every tile in view marked as explored.
pub open spec fn explored_with(map: TileGrid, before: TileGrid, fov: FovMap) -> bool {
    &&& map.wf()
    &&& forall|x: int, y: int|
        in_bounds(x, y) ==> #[trigger] map.at(x, y) == (Tile {
            explored: before.at(x, y).explored || fov.lit(x, y),
            ..before.at(x, y)
        })
}

/// Whether entity `i` is drawn: it stands in view, or it is always visible
/// and stands on an explored tile.
pub open spec fn shown(roster: Seq<EntityView>, fov: FovMap, map: TileGrid, i: int) -> bool {
    let x = roster[i].x as int;
    let y = roster[i].y as int;
    fov.lit(x, y) || (roster[i].always_visible && in_bounds(x, y) && map.at(x, y).explored)
}

/// The indices of those of the first `n` entities that are drawn and that
/// block, or do not block, as `blocks` says, in the order of the roster.
pub open spec fn drawn_among(roster: Seq<EntityView>, fov: FovMap, map: TileGrid, blocks: bool, n: int) -> Seq<usize>
    decreases n,
{
    if n <= 0 {
        Seq::empty()
    } else {
        let before = drawn_among(roster, fov, map, blocks, n - 1);
        if shown(roster, fov, map, n - 1) && roster[n - 1].blocks == blocks {
            before.push((n - 1) as usize)
        } else {
            before
        }
    }
}

/// The indices of the entities that are drawn, in the order in which they
/// are drawn: those that block come last, and so on top.
pub open spec fn drawing_order(roster: Seq<EntityView>, fov: FovMap, map: TileGrid) -> Seq<usize> {
    drawn_among(roster, fov, map, false, roster.len() as int) + drawn_among(
        roster,
        fov,
        map,
        true,
        roster.len() as int,
    )
}

/// Whether entity `i` stands in view at `(x, y)`.
pub open spec fn pointed_at(roster: Seq<EntityView>, fov: FovMap, x: int, y: int, i: int) -> bool {
    roster[i].is_at(x, y) && fov.lit(x, y)
}

/// Whether one of the first `n` entities stands in view at `(x, y)`.
pub open spec fn any_pointed_at(roster: Seq<EntityView>, fov: FovMap, x: int, y: int, n: int) -> bool
    decreases n,
{
    if n <= 0 {
        false
    } else {
        any_pointed_at(roster, fov, x, y, n - 1) || pointed_at(roster, fov, x, y, n - 1)
    }
}

/// The names of those of the first `n` entities that stand in view at
/// `(x, y)`, in the order of the roster, with `", "` between them.
pub open spec fn names_among(roster: Seq<EntityView>, fov: FovMap, x: int, y: int, n: int) -> Seq<char>
    decreases n,
{
    if n <= 0 {
        Seq::empty()
    } else {
        let before = names_among(roster, fov, x, y, n - 1);
        if pointed_at(roster, fov, x, y, n - 1) {
            if any_pointed_at(roster, fov, x, y, n - 1) {
                before + ", "@ + roster[n - 1].name
            } else {
                before + roster[n - 1].name
            }
        } else {
            before
        }
    }
}

/// What the health bar shows: the hit points of the player and the most
/// it can have; two zeros for a player that does not fight.
pub open spec fn health(player: EntityView) -> (i32, i32) {
    match player.fighter {
        Some(f) => (f.hp, f.max_hp),
        None => (0, 0),
    }
}

/// Marks every tile in view as explored. No tile loses the mark.
pub fn explore_visible(map: &mut TileGrid, fov: &FovMap)
    requires
        old(map).wf(),
        fov.wf(),
    ensures
        explored_with(*final(map), *old(map), *fov),
        final(map).explored_since(old(map)),
{
    let mut y: i32 = 0;
    while y < MAP_HEIGHT
        invariant
            0 <= y <= MAP_HEIGHT,
            map.wf(),
            fov.wf(),
            forall|i: int, j: int|
                in_bounds(i, j) ==> #[trigger] map.at(i, j) == if j < y {
                    Tile { explored: old(map).at(i, j).explored || fov.lit(i, j), ..old(map).at(i, j) }
                } else {
                    old(map).at(i, j)
                },
        decreases MAP_HEIGHT - y,
    {
        let mut x: i32 = 0;
        while x < MAP_WIDTH
            invariant
                0 <= y < MAP_HEIGHT,
                0 <= x <= MAP_WIDTH,
                map.wf(),
                fov.wf(),
                forall|i: int, j: int|
                    in_bounds(i, j) ==> #[trigger] map.at(i, j) == if j < y || (j == y && i < x) {
                        Tile {
                            explored: old(map).at(i, j).explored || fov.lit(i, j),
                            ..old(map).at(i, j)
                        }
                    } else {
                        old(map).at(i, j)
                    },
            decreases MAP_WIDTH - x,
        {
            let visible = fov.is_in_fov(x, y);
            if visible {
                let mut tile = map.get(x, y);
                tile.explore();
                map.set(x, y, tile);
            }
            x = x + 1;
        }
        y = y + 1;
    }
}

/// Whether entity `id` is drawn.
pub fn is_shown(id: usize, entities: &Vec<Entity>, fov: &FovMap, map: &TileGrid) -> (b: bool)
    requires
        id < entities.len(),
        fov.wf(),
        map.wf(),
    ensures
        b == shown(entities.deep_view(), *fov, *map, id as int),
{
    let (x, y) = entities[id].get_coordinates();
    if fov.is_in_fov(x, y) {
        true
    } else if entities[id].always_visible && 0 <= x && x < MAP_WIDTH && 0 <= y && y < MAP_HEIGHT {
        map.get(x, y).get_is_explored()
    } else {
        false
    }
}

/// The indices of the entities that are to be drawn, in the order in which
/// to draw them.
pub fn draw_order(entities: &Vec<Entity>, fov: &FovMap, map: &TileGrid) -> (order: Vec<usize>)
    requires
        fov.wf(),
        map.wf(),
    ensures
        order@ == drawing_order(entities.deep_view(), *fov, *map),
{
    let ghost roster = entities.deep_view();
    let mut order: Vec<usize> = Vec::new();
    let mut i: usize = 0;
    while i < entities.len()
        invariant
            0 <= i <= entities.len(),
            fov.wf(),
            map.wf(),
            roster == entities.deep_view(),
            order@ == drawn_among(roster, *fov, *map, false, i as int),
        decreases entities.len() - i,
    {
        if is_shown(i, entities, fov, map) && !entities[i].get_is_blocks() {
            order.push(i);
        }
        i = i + 1;
    }
    let ghost below = order@;
    let mut k: usize = 0;
    while k < entities.len()
        invariant
            0 <= k <= entities.len(),
            fov.wf(),
            map.wf(),
            roster == entities.deep_view(),
            order@ == below + drawn_among(roster, *fov, *map, true, k as int),
        decreases entities.len() - k,
    {
        if is_shown(k, entities, fov, map) && entities[k].get_is_blocks() {
            order.push(k);
        }
        k = k + 1;
    }
    order
}

/// The hit points of the player and the most it can have, for the health
/// bar.
pub fn player_health(entities: &Vec<Entity>) -> (bar: (i32, i32))
    requires
        entities.len() > 0,
    ensures
        bar == health(entities.deep_view()[0]),
{
    match entities[PLAYER].get_fighter() {
        Some(f) => f.get_hp(),
        None => (0, 0),
    }
}

/// The names of the entities that stand in view at `(x, y)`, with `", "`
/// between them.
pub fn get_names_under_mouse(x: i32, y: i32, entities: &Vec<Entity>, fov: &FovMap) -> (names: String)
    requires
        fov.wf(),
    ensures
        names@ == names_among(entities.deep_view(), *fov, x as int, y as int, entities.len() as int),
{
    let ghost roster = entities.deep_view();
    let mut names = String::new();
    let mut any: bool = false;
    let mut i: usize = 0;
    while i < entities.len()
        invariant
            0 <= i <= entities.len(),
            fov.wf(),
            roster == entities.deep_view(),
            any == any_pointed_at(roster, *fov, x as int, y as int, i as int),
            names@ == names_among(roster, *fov, x as int, y as int, i as int),
        decreases entities.len() - i,
    {
        let (e_x, e_y) = entities[i].get_coordinates();
        if e_x == x && e_y == y && fov.is_in_fov(e_x, e_y) {
            if any {
                names.append(", ");
            }
            names.append(entities[i].name.as_str());
            any = true;
        }
        i = i + 1;
    }
    names
}

} // verus!
