//! Where entities stand and how they move.

use vstd::prelude::*;
use crate::entity::{Entity, EntityView};
use crate::tile::{in_bounds, Tile, TileGrid, MAP_HEIGHT, MAP_WIDTH};

verus! {

/// Whether the cell `(x, y)` cannot be entered: its tile is impassable, or
/// an entity that blocks stands on it.
pub open spec fn blocked_at(map: TileGrid, roster: Seq<EntityView>, x: int, y: int) -> bool {
    ||| !map.at(x, y).passable
    ||| exists|i: int| 0 <= i < roster.len() && (#[trigger] roster[i]).blocks && roster[i].is_at(x, y)
}

/// Whether entity `id` can step by `(dx, dy)`: the cell it would reach is on
/// the grid and not blocked.
pub open spec fn step_allowed(map: TileGrid, roster: Seq<EntityView>, id: int, dx: int, dy: int) -> bool {
    let x = roster[id].x + dx;
    let y = roster[id].y + dy;
    in_bounds(x, y) && !blocked_at(map, roster, x, y)
}

/// The roster after entity `id` tried to step by `(dx, dy)`.
pub open spec fn after_step(map: TileGrid, roster: Seq<EntityView>, id: int, dx: int, dy: int) -> Seq<EntityView> {
    if step_allowed(map, roster, id, dx, dy) {
        roster.update(id, roster[id].moved_to((roster[id].x + dx) as i32, (roster[id].y + dy) as i32))
    } else {
        roster
    }
}

/// -1, 0 or 1, as `v` is negative, zero or positive.
pub open spec fn sign(v: int) -> int {
    if v < 0 {
        -1
    } else if v == 0 {
        0
    } else {
        1
    }
}

/// One coordinate of the unit step along `(along, across)`: `along` divided
/// by the length of the vector, rounded to the nearest integer. The length
/// is at least twice `|along|` exactly if `3 * along * along < across *
/// across`, and then the quotient rounds to 0.
pub open spec fn unit(along: int, across: int) -> int {
    if 3 * (along * along) >= across * across {
        sign(along)
    } else {
        0
    }
}

/// The step of one cell that points from `(0, 0)` most nearly towards
/// `(dx, dy)`: each coordinate of the direction of unit length, rounded.
/// Near a diagonal both coordinates round away from 0; at the target itself
/// the step is `(0, 0)`.
pub open spec fn unit_step(dx: int, dy: int) -> (int, int) {
    (unit(dx, dy), unit(dy, dx))
}

/// The square of the distance between two entities.
pub open spec fn distance_squared(a: EntityView, b: EntityView) -> int {
    (b.x - a.x) * (b.x - a.x) + (b.y - a.y) * (b.y - a.y)
}

/// The square of a difference of two `i32` fits 65 bits.
pub proof fn lemma_square_bound(d: int)
    by (nonlinear_arith)
    requires
        -0x1_0000_0000 <= d <= 0x1_0000_0000,
    ensures
        0 <= d * d <= 0x1_0000_0000_0000_0000,
{
}

fn unit_of(along: i64, across: i64) -> (u: i32)
    requires
        -0x1_0000_0000 <= along <= 0x1_0000_0000,
        -0x1_0000_0000 <= across <= 0x1_0000_0000,
    ensures
        u == unit(along as int, across as int),
{
    proof {
        lemma_square_bound(along as int);
        lemma_square_bound(across as int);
    }
    let along_squared: i128 = (along as i128) * (along as i128);
    let across_squared: i128 = (across as i128) * (across as i128);
    if 3 * along_squared >= across_squared {
        if along < 0 {
            -1
        } else if along == 0 {
            0
        } else {
            1
        }
    } else {
        0
    }
}

impl Tile {
    /// Whether the cell `(x, y)` cannot be entered.
    pub fn is_blocked(x: i32, y: i32, map: &TileGrid, entities: &Vec<Entity>) -> (b: bool)
        requires
            map.wf(),
            in_bounds(x as int, y as int),
        ensures
            b == blocked_at(*map, entities.deep_view(), x as int, y as int),
    {
        let is_tile_passable = map.get(x, y).get_is_passable();
        if !is_tile_passable {
            return true;
        }
        let mut i: usize = 0;
        while i < entities.len()
            invariant
                0 <= i <= entities.len(),
                forall|j: int|
                    0 <= j < i ==> !((#[trigger] entities.deep_view()[j]).blocks
                        && entities.deep_view()[j].is_at(x as int, y as int)),
            decreases entities.len() - i,
        {
            if entities[i].get_is_blocks() && entities[i].x == x && entities[i].y == y {
                assert(entities.deep_view()[i as int].blocks);
                return true;
            }
            i = i + 1;
        }
        false
    }
}

impl Entity {
    /// Moves entity `id` by `(dx, dy)`, unless the cell it would reach is
    /// off the grid or blocked.
    pub fn move_by(id: usize, dx: i32, dy: i32, map: &TileGrid, entities: &mut Vec<Entity>)
        requires
            id < old(entities).len(),
            map.wf(),
        ensures
            final(entities).deep_view() == after_step(
                *map,
                old(entities).deep_view(),
                id as int,
                dx as int,
                dy as int,
            ),
    {
        let (x, y) = entities[id].get_coordinates();
        let new_x: i64 = x as i64 + dx as i64;
        let new_y: i64 = y as i64 + dy as i64;
        if new_x >= MAP_WIDTH as i64 || new_y >= MAP_HEIGHT as i64 || new_x < 0 || new_y < 0 {
            return ;
        }
        if !Tile::is_blocked(new_x as i32, new_y as i32, map, entities) {
            entities[id].set_position(new_x as i32, new_y as i32);
            assert(entities.deep_view() =~= after_step(
                *map,
                old(entities).deep_view(),
                id as int,
                dx as int,
                dy as int,
            ));
        }
    }

    /// Moves entity `id` one step towards `(target_x, target_y)`, unless the
    /// cell it would reach is off the grid or blocked.
    pub fn move_towards(
        id: usize,
        target_x: i32,
        target_y: i32,
        map: &TileGrid,
        entities: &mut Vec<Entity>,
    )
        requires
            id < old(entities).len(),
            map.wf(),
        ensures
            final(entities).deep_view() == ({
                let roster = old(entities).deep_view();
                let step = unit_step(target_x - roster[id as int].x, target_y - roster[id as int].y);
                after_step(*map, roster, id as int, step.0, step.1)
            }),
    {
        let dx: i64 = target_x as i64 - entities[id].x as i64;
        let dy: i64 = target_y as i64 - entities[id].y as i64;
        let step_x: i32 = unit_of(dx, dy);
        let step_y: i32 = unit_of(dy, dx);
        Entity::move_by(id, step_x, step_y, map, entities);
    }

    /// The square of the distance to `other`.
    pub fn distance_squared_to(&self, other: &Entity) -> (d: i128)
        ensures
            d == distance_squared(self@, other@),
    {
        let dx: i128 = other.x as i128 - self.x as i128;
        let dy: i128 = other.y as i128 - self.y as i128;
        proof {
            lemma_square_bound(dx as int);
            lemma_square_bound(dy as int);
        }
        dx * dx + dy * dy
    }

    /// Two items of `items` at once, to change both. The two indices must
    /// differ.
    pub fn mut_two<T>(first_index: usize, second_index: usize, items: &mut Vec<T>) -> (pair: (
        &mut T,
        &mut T,
    ))
        requires
            first_index != second_index,
            first_index < old(items).len(),
            second_index < old(items).len(),
        ensures
            *pair.0 == old(items)[first_index as int],
            *pair.1 == old(items)[second_index as int],
            final(items)@ == old(items)@.update(first_index as int, *final(pair.0)).update(
                second_index as int,
                *final(pair.1),
            ),
    {
        let split_at_index: usize = if first_index < second_index {
            second_index
        } else {
            first_index
        };
        let (first_slice, second_slice) = items.as_mut_slice().split_at_mut(split_at_index);
        if first_index < second_index {
            (&mut first_slice[first_index], &mut second_slice[0])
        } else {
            (&mut second_slice[0], &mut first_slice[second_index])
        }
    }
}

} // verus!
