//! That a level is connected: every floor cell can be walked to from where
//! the player is put.

use vstd::prelude::*;
use crate::entity::EntityView;
use crate::level::{built, drawn_level, dug_in, level_of, rooms_after, spawn_point, Attempt};
use crate::progression::{fresh_level, solid};
use crate::room::{dug_by, in_range, kept, lower, on_tunnel, room_of, upper, Room};
use crate::tile::{in_bounds, TileGrid};

verus! {

/// Whether `(x, y)` is a cell of the level that can be walked on.
pub open spec fn floor_at(map: TileGrid, x: int, y: int) -> bool {
    in_bounds(x, y) && map.at(x, y).passable
}

/// Whether one step leads from `a` to `b`: along a row or a column, to the
/// next cell.
pub open spec fn adjacent(a: (int, int), b: (int, int)) -> bool {
    ||| a.0 == b.0 && (a.1 == b.1 + 1 || a.1 + 1 == b.1)
    ||| a.1 == b.1 && (a.0 == b.0 + 1 || a.0 + 1 == b.0)
}

/// Whether `path` is a walk on the level: cells that can be walked on, each
/// one step from the one before it.
pub open spec fn is_path(map: TileGrid, path: Seq<(int, int)>) -> bool {
    &&& path.len() > 0
    &&& forall|k: int| 0 <= k < path.len() ==> floor_at(map, (#[trigger] path[k]).0, path[k].1)
    &&& forall|k: int| 0 <= k < path.len() - 1 ==> adjacent(#[trigger] path[k], path[k + 1])
}

/// Whether a walk leads from `from` to `to`.
pub open spec fn reachable(map: TileGrid, from: (int, int), to: (int, int)) -> bool {
    exists|path: Seq<(int, int)>| #[trigger] is_path(map, path) && path[0] == from && path.last() == to
}

/// Whether a walk leads from `from` to the cell `(x, y)`.
pub open spec fn reachable_cell(map: TileGrid, from: (int, int), x: int, y: int) -> bool {
    reachable(map, from, (x, y))
}

/// Every cell that can be walked on can be walked to from `from`.
pub open spec fn connected_from(map: TileGrid, from: (int, int)) -> bool {
    forall|x: int, y: int| #[trigger] floor_at(map, x, y) ==> reachable_cell(map, from, x, y)
}

proof fn lemma_reach_self(map: TileGrid, a: (int, int))
    requires
        floor_at(map, a.0, a.1),
    ensures
        reachable(map, a, a),
{
    let path = seq![a];
    assert(is_path(map, path));
    assert(path[0] == a && path.last() == a);
}

proof fn lemma_reach_step(map: TileGrid, a: (int, int), b: (int, int), c: (int, int))
    requires
        reachable(map, a, b),
        adjacent(b, c),
        floor_at(map, c.0, c.1),
    ensures
        reachable(map, a, c),
{
    let path = choose|path: Seq<(int, int)>| #[trigger]
        is_path(map, path) && path[0] == a && path.last() == b;
    let longer = path.push(c);
    assert forall|k: int| 0 <= k < longer.len() implies floor_at(
        map,
        (#[trigger] longer[k]).0,
        longer[k].1,
    ) by {
        if k < path.len() {
            assert(longer[k] == path[k]);
        }
    }
    assert forall|k: int| 0 <= k < longer.len() - 1 implies adjacent(
        #[trigger] longer[k],
        longer[k + 1],
    ) by {
        assert(longer[k] == path[k]);
        if k < path.len() - 1 {
            assert(longer[k + 1] == path[k + 1]);
        }
    }
    assert(is_path(map, longer));
    assert(longer[0] == a && longer.last() == c);
}

proof fn lemma_reach_along_row(map: TileGrid, a: (int, int), x1: int, x2: int, y: int)
    requires
        reachable(map, a, (x1, y)),
        forall|t: int| lower(x1, x2) <= t <= upper(x1, x2) ==> #[trigger] floor_at(map, t, y),
    ensures
        reachable(map, a, (x2, y)),
    decreases upper(x1, x2) - lower(x1, x2),
{
    if x1 != x2 {
        let next = if x1 < x2 {
            x1 + 1
        } else {
            x1 - 1
        };
        assert(floor_at(map, next, y));
        lemma_reach_step(map, a, (x1, y), (next, y));
        lemma_reach_along_row(map, a, next, x2, y);
    }
}

proof fn lemma_reach_along_column(map: TileGrid, a: (int, int), x: int, y1: int, y2: int)
    requires
        reachable(map, a, (x, y1)),
        forall|t: int| lower(y1, y2) <= t <= upper(y1, y2) ==> #[trigger] floor_at(map, x, t),
    ensures
        reachable(map, a, (x, y2)),
    decreases upper(y1, y2) - lower(y1, y2),
{
    if y1 != y2 {
        let next = if y1 < y2 {
            y1 + 1
        } else {
            y1 - 1
        };
        assert(floor_at(map, x, next));
        lemma_reach_step(map, a, (x, y1), (x, next));
        lemma_reach_along_column(map, a, x, next, y2);
    }
}

/// Who can walk to the middle of a room can walk to each of its floor
/// cells.
proof fn lemma_reach_in_room(map: TileGrid, a: (int, int), room: Room, x: int, y: int)
    requires
        room.sized(),
        forall|i: int, j: int| room.interior(i, j) ==> #[trigger] floor_at(map, i, j),
        reachable(map, a, room.center()),
        room.interior(x, y),
    ensures
        reachable(map, a, (x, y)),
{
    let c = room.center();
    assert(room.interior(c.0, c.1));
    assert forall|t: int| lower(c.0, x) <= t <= upper(c.0, x) implies #[trigger] floor_at(
        map,
        t,
        c.1,
    ) by {
        assert(room.interior(t, c.1));
    }
    lemma_reach_along_row(map, a, c.0, x, c.1);
    assert forall|t: int| lower(c.1, y) <= t <= upper(c.1, y) implies #[trigger] floor_at(
        map,
        x,
        t,
    ) by {
        assert(room.interior(x, t));
    }
    lemma_reach_along_column(map, a, x, c.1, y);
}

/// Who can walk to one end of a tunnel can walk to each of its cells.
proof fn lemma_reach_on_tunnel(
    map: TileGrid,
    a: (int, int),
    from: (int, int),
    to: (int, int),
    horizontal_first: bool,
    x: int,
    y: int,
)
    requires
        reachable(map, a, from),
        forall|i: int, j: int| on_tunnel(from, to, horizontal_first, i, j) ==> #[trigger] floor_at(map, i, j),
        on_tunnel(from, to, horizontal_first, x, y),
    ensures
        reachable(map, a, (x, y)),
{
    if horizontal_first {
        if y == from.1 && lower(from.0, to.0) <= x <= upper(from.0, to.0) {
            assert forall|t: int| lower(from.0, x) <= t <= upper(from.0, x) implies #[trigger] floor_at(
                map,
                t,
                from.1,
            ) by {
                assert(on_tunnel(from, to, horizontal_first, t, from.1));
            }
            lemma_reach_along_row(map, a, from.0, x, from.1);
        } else {
            assert forall|t: int| lower(from.0, to.0) <= t <= upper(from.0, to.0) implies #[trigger] floor_at(
                map,
                t,
                from.1,
            ) by {
                assert(on_tunnel(from, to, horizontal_first, t, from.1));
            }
            lemma_reach_along_row(map, a, from.0, to.0, from.1);
            assert forall|t: int| lower(from.1, y) <= t <= upper(from.1, y) implies #[trigger] floor_at(
                map,
                to.0,
                t,
            ) by {
                assert(on_tunnel(from, to, horizontal_first, to.0, t));
            }
            lemma_reach_along_column(map, a, to.0, from.1, y);
        }
    } else {
        if x == from.0 && lower(from.1, to.1) <= y <= upper(from.1, to.1) {
            assert forall|t: int| lower(from.1, y) <= t <= upper(from.1, y) implies #[trigger] floor_at(
                map,
                from.0,
                t,
            ) by {
                assert(on_tunnel(from, to, horizontal_first, from.0, t));
            }
            lemma_reach_along_column(map, a, from.0, from.1, y);
        } else {
            assert forall|t: int| lower(from.1, to.1) <= t <= upper(from.1, to.1) implies #[trigger] floor_at(
                map,
                from.0,
                t,
            ) by {
                assert(on_tunnel(from, to, horizontal_first, from.0, t));
            }
            lemma_reach_along_column(map, a, from.0, from.1, to.1);
            assert forall|t: int| lower(from.0, x) <= t <= upper(from.0, x) implies #[trigger] floor_at(
                map,
                t,
                to.1,
            ) by {
                assert(on_tunnel(from, to, horizontal_first, t, to.1));
            }
            lemma_reach_along_row(map, a, from.0, x, to.1);
        }
    }
}

/// Whatever the attempts dug can be walked to from the middle of the first
/// room, and so can the middle of every room.
proof fn lemma_attempts_connected(map: TileGrid, attempts: Seq<Attempt>)
    requires
        forall|k: int| 0 <= k < attempts.len() ==> in_range((#[trigger] attempts[k]).room),
        forall|x: int, y: int| #[trigger] dug_in(attempts, x, y) ==> floor_at(map, x, y),
    ensures
        forall|i: int|
            0 <= i < rooms_after(attempts).len() ==> (#[trigger] rooms_after(attempts)[i]).sized(),
        rooms_after(attempts).len() == 0 ==> forall|x: int, y: int| !#[trigger] dug_in(attempts, x, y),
        rooms_after(attempts).len() > 0 ==> {
            &&& forall|i: int|
                0 <= i < rooms_after(attempts).len() ==> reachable(
                    map,
                    rooms_after(attempts)[0].center(),
                    (#[trigger] rooms_after(attempts)[i]).center(),
                )
            &&& forall|x: int, y: int| #[trigger]
                dug_in(attempts, x, y) ==> reachable_cell(
                    map,
                    rooms_after(attempts)[0].center(),
                    x,
                    y,
                )
        },
    decreases attempts.len(),
{
    if attempts.len() > 0 {
        let before = attempts.drop_last();
        let d = attempts.last().room;
        let rooms = rooms_after(before);
        let room = room_of(d);
        assert(attempts[attempts.len() - 1] == attempts.last());
        assert(in_range(d));
        assert(room.sized());
        assert forall|k: int| 0 <= k < before.len() implies in_range((#[trigger] before[k]).room) by {
            assert(before[k] == attempts[k]);
        }
        assert forall|x: int, y: int| #[trigger] dug_in(before, x, y) implies floor_at(map, x, y) by {
            assert(dug_in(attempts, x, y));
        }
        lemma_attempts_connected(map, before);
        if kept(rooms, d) {
            let more = rooms.push(room);
            assert(rooms_after(attempts) == more);
            assert forall|i: int, j: int| room.interior(i, j) implies #[trigger] floor_at(map, i, j) by {
                assert(dug_by(rooms, d, i, j));
                assert(dug_in(attempts, i, j));
            }
            let start = more[0].center();
            if rooms.len() == 0 {
                assert(room.interior(start.0, start.1));
                lemma_reach_self(map, start);
                assert forall|x: int, y: int| #[trigger] dug_in(attempts, x, y) implies reachable_cell(
                    map,
                    start,
                    x,
                    y,
                ) by {
                    assert(!dug_in(before, x, y));
                    assert(dug_by(rooms, d, x, y));
                    lemma_reach_in_room(map, start, room, x, y);
                }
            } else {
                let from = rooms.last().center();
                let to = room.center();
                assert(rooms[rooms.len() - 1] == rooms.last());
                assert(reachable(map, start, from));
                assert forall|i: int, j: int|
                    on_tunnel(from, to, d.horizontal_first, i, j) implies #[trigger] floor_at(
                    map,
                    i,
                    j,
                ) by {
                    assert(dug_by(rooms, d, i, j));
                    assert(dug_in(attempts, i, j));
                }
                assert(on_tunnel(from, to, d.horizontal_first, to.0, to.1));
                lemma_reach_on_tunnel(map, start, from, to, d.horizontal_first, to.0, to.1);
                assert forall|x: int, y: int| #[trigger] dug_in(attempts, x, y) implies reachable_cell(
                    map,
                    start,
                    x,
                    y,
                ) by {
                    if dug_in(before, x, y) {
                        assert(reachable_cell(map, start, x, y));
                    } else {
                        assert(dug_by(rooms, d, x, y));
                        if room.interior(x, y) {
                            lemma_reach_in_room(map, start, room, x, y);
                        } else {
                            lemma_reach_on_tunnel(map, start, from, to, d.horizontal_first, x, y);
                        }
                    }
                }
            }
            assert forall|i: int| 0 <= i < more.len() implies reachable(
                map,
                start,
                (#[trigger] more[i]).center(),
            ) by {
                if i < rooms.len() {
                    assert(more[i] == rooms[i]);
                    assert(reachable(map, rooms[0].center(), rooms[i].center()));
                }
            }
            assert forall|i: int| 0 <= i < more.len() implies (#[trigger] more[i]).sized() by {
                if i < rooms.len() {
                    assert(more[i] == rooms[i]);
                }
            }
        } else {
            assert(rooms_after(attempts) == rooms);
            assert forall|x: int, y: int| #[trigger] dug_in(attempts, x, y) implies dug_in(
                before,
                x,
                y,
            ) by {}
        }
    }
}

/// A level that is built out of solid rock is connected: every cell of it
/// that can be walked on can be walked to from where the player is put,
/// step by step along rows and columns.
pub proof fn lemma_level_connected(
    before: TileGrid,
    map: TileGrid,
    rooms: Seq<Room>,
    roster_before: Seq<EntityView>,
    roster: Seq<EntityView>,
    attempts: Seq<Attempt>,
)
    requires
        solid(before),
        drawn_level(attempts),
        built(before, map, rooms, roster_before, roster, attempts),
    ensures
        connected_from(map, spawn_point(rooms)),
{
    assert forall|k: int| 0 <= k < attempts.len() implies in_range((#[trigger] attempts[k]).room) by {
        assert(crate::level::attempt_in_range(attempts[k]));
    }
    assert forall|x: int, y: int| #[trigger] dug_in(attempts, x, y) implies floor_at(map, x, y) by {
        lemma_dug_on_grid(attempts, x, y);
        assert(map.at(x, y) == crate::tile::Tile::empty());
    }
    lemma_attempts_connected(map, attempts);
    assert forall|x: int, y: int| #[trigger] floor_at(map, x, y) implies reachable_cell(
        map,
        spawn_point(rooms),
        x,
        y,
    ) by {
        assert(before.at(x, y) == crate::tile::Tile::wall());
        assert(dug_in(attempts, x, y));
    }
}

/// What attempts in range dig lies on the grid.
proof fn lemma_dug_on_grid(attempts: Seq<Attempt>, x: int, y: int)
    requires
        forall|k: int| 0 <= k < attempts.len() ==> in_range((#[trigger] attempts[k]).room),
        dug_in(attempts, x, y),
    ensures
        in_bounds(x, y),
    decreases attempts.len(),
{
    if attempts.len() > 0 {
        let before = attempts.drop_last();
        assert forall|k: int| 0 <= k < before.len() implies in_range((#[trigger] before[k]).room) by {
            assert(before[k] == attempts[k]);
        }
        if dug_in(before, x, y) {
            lemma_dug_on_grid(before, x, y);
        } else {
            let d = attempts.last().room;
            assert(attempts[attempts.len() - 1] == attempts.last());
            assert(in_range(d));
            assert(room_of(d).sized());
            let rooms = rooms_after(before);
            if !room_of(d).interior(x, y) {
                lemma_rooms_sized(before);
                assert(rooms[rooms.len() - 1].sized());
            }
        }
    }
}

/// The rooms kept of attempts in range have the size of a room and lie on
/// the grid.
proof fn lemma_rooms_sized(attempts: Seq<Attempt>)
    requires
        forall|k: int| 0 <= k < attempts.len() ==> in_range((#[trigger] attempts[k]).room),
    ensures
        forall|i: int|
            0 <= i < rooms_after(attempts).len() ==> (#[trigger] rooms_after(attempts)[i]).sized(),
    decreases attempts.len(),
{
    if attempts.len() > 0 {
        let before = attempts.drop_last();
        assert forall|k: int| 0 <= k < before.len() implies in_range((#[trigger] before[k]).room) by {
            assert(before[k] == attempts[k]);
        }
        lemma_rooms_sized(before);
        let d = attempts.last().room;
        assert(attempts[attempts.len() - 1] == attempts.last());
        assert(in_range(d));
        assert(room_of(d).sized());
        let rooms = rooms_after(before);
        assert forall|i: int| 0 <= i < rooms_after(attempts).len() implies (
        #[trigger] rooms_after(attempts)[i]).sized() by {
            if i < rooms.len() {
                assert(rooms_after(attempts)[i] == rooms[i]);
            }
        }
    }
}

/// A new level is connected: every cell of it that can be walked on can be
/// walked to from where the player stands.
pub proof fn lemma_fresh_level_connected(
    map: TileGrid,
    rooms: Seq<Room>,
    roster_before: Seq<EntityView>,
    roster: Seq<EntityView>,
)
    requires
        fresh_level(map, rooms, roster_before, roster),
    ensures
        connected_from(map, (roster[0].x as int, roster[0].y as int)),
{
    let rock = choose|rock: TileGrid|
        solid(rock) && #[trigger] level_of(rock, map, rooms, roster_before, roster);
    let attempts = choose|attempts: Seq<Attempt>|
        drawn_level(attempts) && #[trigger] built(rock, map, rooms, roster_before, roster, attempts);
    lemma_level_connected(rock, map, rooms, roster_before, roster, attempts);
    assert(rooms[0].sized());
}

} // verus!
