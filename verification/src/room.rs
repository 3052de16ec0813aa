//! Rooms, tunnels and the generation of a level.

use vstd::prelude::*;
use crate::entity::{Entity, EntityView, PLAYER};
use crate::level::{
    attempt_in_range, built, drawn_level, dug_further, dug_in, lemma_settled_for_good, level_of,
    roster_after, rooms_after, settled, spawn_point, Attempt,
};
use crate::rng::{random_bool, random_in_range};
use crate::spawn::{drawn_for, is_spawn, populated, SpawnDraw, MAX_ROOM_ITEMS, MAX_ROOM_MONSTERS};
use crate::tile::{in_bounds, Tile, TileGrid, MAP_HEIGHT, MAP_WIDTH};

verus! {

/// Largest width or height of a room.
pub const ROOM_MAX_SIZE: i32 = 10;

/// Smallest width or height of a room.
pub const ROOM_MIN_SIZE: i32 = 6;

/// Number of rooms that are tried for one level.
pub const MAX_ROOMS: i32 = 30;

/// The smaller of two numbers.
pub open spec fn lower(a: int, b: int) -> int {
    if a <= b {
        a
    } else {
        b
    }
}

/// The larger of two numbers.
pub open spec fn upper(a: int, b: int) -> int {
    if a <= b {
        b
    } else {
        a
    }
}

/// Half of `v`, rounded towards zero.
pub open spec fn half(v: int) -> int {
    if v >= 0 {
        v / 2
    } else {
        -((-v) / 2)
    }
}

/// Whether `(x, y)` lies on the horizontal run from column `c1` to column
/// `c2` (in either order, both included) in row `l`.
pub open spec fn on_h_run(c1: int, c2: int, l: int, x: int, y: int) -> bool {
    y == l && lower(c1, c2) <= x <= upper(c1, c2)
}

/// Whether `(x, y)` lies on the vertical run from row `c1` to row `c2` (in
/// either order, both included) in column `l`.
pub open spec fn on_v_run(c1: int, c2: int, l: int, x: int, y: int) -> bool {
    x == l && lower(c1, c2) <= y <= upper(c1, c2)
}

/// Whether `(x, y)` lies on the tunnel between `from` and `to`, which has
/// one bend: along the row of `from` and then the column of `to`, or along
/// the column of `from` and then the row of `to`.
pub open spec fn on_tunnel(from: (int, int), to: (int, int), horizontal_first: bool, x: int, y: int) -> bool {
    if horizontal_first {
        on_h_run(from.0, to.0, from.1, x, y) || on_v_run(from.1, to.1, to.0, x, y)
    } else {
        on_v_run(from.1, to.1, from.0, x, y) || on_h_run(from.0, to.0, to.1, x, y)
    }
}

/// Every cell of the tunnel between `from` and `to` is an empty tile.
pub open spec fn tunnel_open(map: TileGrid, from: (int, int), to: (int, int), horizontal_first: bool) -> bool {
    forall|x: int, y: int|
        #[trigger] on_tunnel(from, to, horizontal_first, x, y) ==> in_bounds(x, y) && map.at(x, y)
            == Tile::empty()
}

/// What the dice gave for one room: its corner, its width and height, and
/// whether the tunnel to it starts along the row of the room before it.
#[derive(Clone, Copy, Debug, PartialEq, Eq, Structural)]
pub struct RoomDraw {
    pub x: i32,
    pub y: i32,
    pub w: i32,
    pub h: i32,
    pub horizontal_first: bool,
}

/// The room that `d` stands for.
pub open spec fn room_of(d: RoomDraw) -> Room {
    Room { x1: d.x, y1: d.y, x2: (d.x + d.w) as i32, y2: (d.y + d.h) as i32 }
}

/// Whether `d` is a draw as a level is built from: a room of a room's size
/// that lies on the grid.
pub open spec fn in_range(d: RoomDraw) -> bool {
    &&& ROOM_MIN_SIZE <= d.w <= ROOM_MAX_SIZE
    &&& ROOM_MIN_SIZE <= d.h <= ROOM_MAX_SIZE
    &&& 0 <= d.x <= MAP_WIDTH - d.w - 1
    &&& 0 <= d.y <= MAP_HEIGHT - d.h - 1
}

/// Whether the room of `d` is kept beside `rooms`: it shares no cell with
/// any of them, bounds included.
pub open spec fn kept(rooms: Seq<Room>, d: RoomDraw) -> bool {
    forall|i: int| #![trigger rooms[i]] 0 <= i < rooms.len() ==> !room_of(d).intersects(&rooms[i])
}

/// Whether the cell `(x, y)` is dug when the room of `d` is placed beside
/// `rooms`. Nothing is dug for a room that is not kept. For one that is,
/// its floor is dug, and the tunnel from the middle of the last room before
/// it to its own.
pub open spec fn dug_by(rooms: Seq<Room>, d: RoomDraw, x: int, y: int) -> bool {
    &&& kept(rooms, d)
    &&& {
        ||| room_of(d).interior(x, y)
        ||| rooms.len() > 0 && on_tunnel(
            rooms.last().center(),
            room_of(d).center(),
            d.horizontal_first,
            x,
            y,
        )
    }
}

/// The room of `d` can be placed beside `rooms`: its corners are numbers of
/// the machine, and if it is kept, its floor lies on the grid, and so do
/// the two ends of the tunnel to it.
pub open spec fn placeable(rooms: Seq<Room>, d: RoomDraw) -> bool {
    &&& i32::MIN <= d.x + d.w <= i32::MAX
    &&& i32::MIN <= d.y + d.h <= i32::MAX
    &&& kept(rooms, d) ==> {
        &&& forall|x: int, y: int| #[trigger] room_of(d).interior(x, y) ==> in_bounds(x, y)
        &&& rooms.len() > 0 ==> {
            &&& in_bounds(rooms.last().center().0, rooms.last().center().1)
            &&& in_bounds(room_of(d).center().0, room_of(d).center().1)
        }
    }
}

/// Every cell of the tunnel between `from` and `to` is passable.
pub open spec fn tunnel_passable(map: TileGrid, from: (int, int), to: (int, int), horizontal_first: bool) -> bool {
    forall|x: int, y: int|
        #[trigger] on_tunnel(from, to, horizontal_first, x, y) ==> in_bounds(x, y) && map.at(
            x,
            y,
        ).passable
}

/// A tunnel with one bend lies open between `from` and `to`.
pub open spec fn linked(map: TileGrid, from: (int, int), to: (int, int)) -> bool {
    tunnel_open(map, from, to, true) || tunnel_open(map, from, to, false)
}

/// Every floor cell of `room` is an empty tile: passable, and open to
/// sight.
pub open spec fn carved(map: TileGrid, room: Room) -> bool {
    forall|x: int, y: int|
        #[trigger] room.interior(x, y) ==> in_bounds(x, y) && map.at(x, y) == Tile::empty()
}

/// No two of the rooms share a cell, bounds included.
pub open spec fn disjoint(rooms: Seq<Room>) -> bool {
    forall|i: int, j: int|
        #![trigger rooms[i], rooms[j]]
        0 <= i < j < rooms.len() ==> !rooms[i].intersects(&rooms[j])
}

/// `map` is `before` with some cells dug out: each tile is what it was, or
/// an empty tile.
pub open spec fn dug_from(map: TileGrid, before: TileGrid) -> bool {
    forall|x: int, y: int|
        in_bounds(x, y) ==> #[trigger] map.at(x, y) == before.at(x, y) || map.at(x, y)
            == Tile::empty()
}

/// Whether `(x, y)` lies on the tunnel from room `i` to the next, with its
/// bend as `horizontal_first` says.
pub open spec fn tunnel_between(rooms: Seq<Room>, i: int, horizontal_first: bool, x: int, y: int) -> bool {
    0 <= i < rooms.len() - 1 && on_tunnel(
        rooms[i].center(),
        rooms[i + 1].center(),
        horizontal_first,
        x,
        y,
    )
}

/// Whether `(x, y)` belongs to what is dug for `rooms`: it is a floor cell
/// of one of them, or lies on a tunnel from one of them to the next.
pub open spec fn within(rooms: Seq<Room>, x: int, y: int) -> bool {
    ||| exists|i: int| 0 <= i < rooms.len() && (#[trigger] rooms[i]).interior(x, y)
    ||| exists|i: int, horizontal_first: bool| #[trigger]
        tunnel_between(rooms, i, horizontal_first, x, y)
}

/// Whether entity `e` stands on a floor cell of one of the rooms.
pub open spec fn stands_in(e: EntityView, rooms: Seq<Room>) -> bool {
    exists|r: int| 0 <= r < rooms.len() && (#[trigger] rooms[r]).interior(e.x as int, e.y as int)
}

/// What holds of a level however the dice fell. There is at least one room,
/// and no more than `MAX_ROOMS`. Each lies on the grid and has the size of a
/// room, and no two of them share a cell. The floor of each is dug out, and
/// so is a tunnel from each room's middle to that of the next. The player
/// stands in the middle of the first room and is otherwise unchanged. The
/// entities that were there are unchanged, and behind them stand monsters
/// and items on the floor of the rooms. No tile but a dug one differs, and
/// nothing is dug but the floor of the rooms and the tunnels from each to
/// the next.
pub open spec fn generated(
    before: TileGrid,
    map: TileGrid,
    rooms: Seq<Room>,
    roster_before: Seq<EntityView>,
    roster: Seq<EntityView>,
) -> bool {
    &&& map.wf()
    &&& dug_from(map, before)
    &&& forall|x: int, y: int|
        in_bounds(x, y) && #[trigger] map.at(x, y) != before.at(x, y) ==> within(rooms, x, y)
    &&& 1 <= rooms.len() <= MAX_ROOMS
    &&& forall|i: int| 0 <= i < rooms.len() ==> (#[trigger] rooms[i]).sized()
    &&& disjoint(rooms)
    &&& forall|i: int| 0 <= i < rooms.len() ==> carved(map, #[trigger] rooms[i])
    &&& forall|i: int|
        0 <= i < rooms.len() - 1 ==> linked(map, (#[trigger] rooms[i]).center(), rooms[i + 1].center())
    &&& roster_before.len() <= roster.len()
    &&& roster[0] == roster_before[0].moved_to(rooms[0].center().0 as i32, rooms[0].center().1 as i32)
    &&& forall|i: int| 1 <= i < roster_before.len() ==> #[trigger] roster[i] == roster_before[i]
    &&& forall|i: int|
        roster_before.len() <= i < roster.len() ==> is_spawn(#[trigger] roster[i]) && stands_in(
            roster[i],
            rooms,
        )
}

/// A rectangle on the grid, used while a level is generated. Its walls lie
/// on the bounds, its floor strictly inside them.
#[derive(Clone, Copy, Debug, PartialEq, Eq, Structural)]
pub struct Room {
    pub x1: i32,
    pub y1: i32,
    pub x2: i32,
    pub y2: i32,
}

impl Room {
    /// Whether `(x, y)` is a floor cell of the room.
    pub open spec fn interior(&self, x: int, y: int) -> bool {
        self.x1 < x < self.x2 && self.y1 < y < self.y2
    }

    /// Whether the two rectangles share a cell, bounds included.
    pub open spec fn intersects(&self, other: &Room) -> bool {
        &&& self.x1 <= other.x2
        &&& self.x2 >= other.x1
        &&& self.y1 <= other.y2
        &&& self.y2 >= other.y1
    }

    /// The middle of the rectangle.
    pub open spec fn center(&self) -> (int, int) {
        (half(self.x1 + self.x2), half(self.y1 + self.y2))
    }

    /// The rectangle lies on the grid.
    pub open spec fn on_grid(&self) -> bool {
        in_bounds(self.x1 as int, self.y1 as int) && in_bounds(self.x2 as int, self.y2 as int)
    }

    /// The rectangle lies on the grid, and its sides have the length of a
    /// room's.
    pub open spec fn sized(&self) -> bool {
        &&& 0 <= self.x1
        &&& self.x1 + ROOM_MIN_SIZE <= self.x2 <= self.x1 + ROOM_MAX_SIZE
        &&& self.x2 < MAP_WIDTH
        &&& 0 <= self.y1
        &&& self.y1 + ROOM_MIN_SIZE <= self.y2 <= self.y1 + ROOM_MAX_SIZE
        &&& self.y2 < MAP_HEIGHT
    }

    /// The room with its corner at `(x, y)`, `w` wide and `h` high.
    pub fn new(x: i32, y: i32, w: i32, h: i32) -> (room: Room)
        requires
            i32::MIN <= x + w <= i32::MAX,
            i32::MIN <= y + h <= i32::MAX,
        ensures
            room == (Room { x1: x, y1: y, x2: (x + w) as i32, y2: (y + h) as i32 }),
    {
        Room { x1: x, y1: y, x2: x + w, y2: y + h }
    }

    /// Turns the floor cells of the room into empty tiles.
    pub fn put_on_map(&self, map: &mut TileGrid) -> (room: &Self)
        requires
            old(map).wf(),
            forall|x: int, y: int| #[trigger] self.interior(x, y) ==> in_bounds(x, y),
        ensures
            room == self,
            final(map).wf(),
            forall|x: int, y: int|
                in_bounds(x, y) ==> #[trigger] final(map).at(x, y) == if self.interior(x, y) {
                    Tile::empty()
                } else {
                    old(map).at(x, y)
                },
    {
        let mut x: i64 = self.x1 as i64 + 1;
        while x < self.x2 as i64
            invariant
                self.x1 < x,
                x <= upper(self.x1 + 1, self.x2 as int),
                map.wf(),
                forall|i: int, j: int| #[trigger] self.interior(i, j) ==> in_bounds(i, j),
                forall|i: int, j: int|
                    in_bounds(i, j) ==> #[trigger] map.at(i, j) == if self.interior(i, j) && i
                        < x {
                        Tile::empty()
                    } else {
                        old(map).at(i, j)
                    },
            decreases self.x2 - x,
        {
            let mut y: i64 = self.y1 as i64 + 1;
            while y < self.y2 as i64
                invariant
                    self.x1 < x < self.x2,
                    self.y1 < y,
                    y <= upper(self.y1 + 1, self.y2 as int),
                    map.wf(),
                    forall|i: int, j: int| #[trigger] self.interior(i, j) ==> in_bounds(i, j),
                    forall|i: int, j: int|
                        in_bounds(i, j) ==> #[trigger] map.at(i, j) == if self.interior(i, j) && (i
                            < x || (i == x && j < y)) {
                            Tile::empty()
                        } else {
                            old(map).at(i, j)
                        },
                decreases self.y2 - y,
            {
                assert(self.interior(x as int, y as int));
                map.set(x as i32, y as i32, Tile::empty());
                y = y + 1;
            }
            x = x + 1;
        }
        self
    }

    /// The middle of the rectangle.
    pub fn get_center(&self) -> (c: (i32, i32))
        ensures
            (c.0 as int, c.1 as int) == self.center(),
    {
        let center_x: i64 = (self.x1 as i64 + self.x2 as i64) / 2;
        let center_y: i64 = (self.y1 as i64 + self.y2 as i64) / 2;
        (center_x as i32, center_y as i32)
    }

    /// Whether the two rectangles share a cell, bounds included.
    pub fn includes(&self, other: &Room) -> (b: bool)
        ensures
            b == self.intersects(other),
    {
        (self.x1 <= other.x2) && (self.x2 >= other.x1) && (self.y1 <= other.y2) && (self.y2
            >= other.y1)
    }

    /// The bounds in the order `(x1, x2, y1, y2)`.
    pub fn get_room_coordinates(&self) -> (c: (i32, i32, i32, i32))
        ensures
            c == (self.x1, self.x2, self.y1, self.y2),
    {
        (self.x1, self.x2, self.y1, self.y2)
    }

    /// Digs a horizontal tunnel in row `l`, from column `c1` to column `c2`.
    pub fn create_h_tunel(c1: i32, c2: i32, l: i32, map: &mut TileGrid)
        requires
            old(map).wf(),
            in_bounds(c1 as int, l as int),
            in_bounds(c2 as int, l as int),
        ensures
            final(map).wf(),
            forall|x: int, y: int|
                in_bounds(x, y) ==> #[trigger] final(map).at(x, y) == if on_h_run(
                    c1 as int,
                    c2 as int,
                    l as int,
                    x,
                    y,
                ) {
                    Tile::empty()
                } else {
                    old(map).at(x, y)
                },
    {
        let first: i32 = if c1 <= c2 { c1 } else { c2 };
        let last: i32 = if c1 <= c2 { c2 } else { c1 };
        let mut c: i32 = first;
        while c <= last
            invariant
                first == lower(c1 as int, c2 as int),
                last == upper(c1 as int, c2 as int),
                in_bounds(first as int, l as int),
                in_bounds(last as int, l as int),
                first <= c <= last + 1,
                map.wf(),
                forall|x: int, y: int|
                    in_bounds(x, y) ==> #[trigger] map.at(x, y) == if on_h_run(
                        c1 as int,
                        c2 as int,
                        l as int,
                        x,
                        y,
                    ) && x < c {
                        Tile::empty()
                    } else {
                        old(map).at(x, y)
                    },
            decreases last + 1 - c,
        {
            map.set(c, l, Tile::empty());
            c = c + 1;
        }
    }

    /// Digs a vertical tunnel in column `l`, from row `c1` to row `c2`.
    pub fn create_v_tunel(c1: i32, c2: i32, l: i32, map: &mut TileGrid)
        requires
            old(map).wf(),
            in_bounds(l as int, c1 as int),
            in_bounds(l as int, c2 as int),
        ensures
            final(map).wf(),
            forall|x: int, y: int|
                in_bounds(x, y) ==> #[trigger] final(map).at(x, y) == if on_v_run(
                    c1 as int,
                    c2 as int,
                    l as int,
                    x,
                    y,
                ) {
                    Tile::empty()
                } else {
                    old(map).at(x, y)
                },
    {
        let first: i32 = if c1 <= c2 { c1 } else { c2 };
        let last: i32 = if c1 <= c2 { c2 } else { c1 };
        let mut c: i32 = first;
        while c <= last
            invariant
                first == lower(c1 as int, c2 as int),
                last == upper(c1 as int, c2 as int),
                in_bounds(l as int, first as int),
                in_bounds(l as int, last as int),
                first <= c <= last + 1,
                map.wf(),
                forall|x: int, y: int|
                    in_bounds(x, y) ==> #[trigger] map.at(x, y) == if on_v_run(
                        c1 as int,
                        c2 as int,
                        l as int,
                        x,
                        y,
                    ) && y < c {
                        Tile::empty()
                    } else {
                        old(map).at(x, y)
                    },
            decreases last + 1 - c,
        {
            map.set(l, c, Tile::empty());
            c = c + 1;
        }
    }

    /// Whether the room shares a cell with one of `rooms`.
    pub fn intersects_any(&self, rooms: &Vec<Room>) -> (b: bool)
        ensures
            b == exists|i: int| #![trigger rooms[i]] 0 <= i < rooms.len() && self.intersects(&rooms[i]),
    {
        let mut i: usize = 0;
        while i < rooms.len()
            invariant
                0 <= i <= rooms.len(),
                forall|j: int| #![trigger rooms[j]] 0 <= j < i ==> !self.intersects(&rooms[j]),
            decreases rooms.len() - i,
        {
            if self.includes(&rooms[i]) {
                return true;
            }
            i = i + 1;
        }
        false
    }

    /// Digs a tunnel with one bend from `from` to `to`: first along the row
    /// of `from` if `horizontal_first`, else first along its column.
    pub fn create_tunnel(from: (i32, i32), to: (i32, i32), horizontal_first: bool, map: &mut TileGrid)
        requires
            old(map).wf(),
            in_bounds(from.0 as int, from.1 as int),
            in_bounds(to.0 as int, to.1 as int),
        ensures
            final(map).wf(),
            forall|x: int, y: int|
                in_bounds(x, y) ==> #[trigger] final(map).at(x, y) == if on_tunnel(
                    (from.0 as int, from.1 as int),
                    (to.0 as int, to.1 as int),
                    horizontal_first,
                    x,
                    y,
                ) {
                    Tile::empty()
                } else {
                    old(map).at(x, y)
                },
    {
        if horizontal_first {
            Room::create_h_tunel(from.0, to.0, from.1, map);
            Room::create_v_tunel(from.1, to.1, to.0, map);
        } else {
            Room::create_v_tunel(from.1, to.1, from.0, map);
            Room::create_h_tunel(from.0, to.0, to.1, map);
        }
    }

    /// Places the room of `d` beside `rooms`, and says whether it was kept. A
    /// room that shares a cell with one of `rooms` is not kept, and nothing
    /// changes. One that is kept joins `rooms` at their end; its floor is
    /// dug out, and so is a tunnel from the middle of the room before it,
    /// if there is one.
    pub fn place_room(d: RoomDraw, rooms: &mut Vec<Room>, map: &mut TileGrid) -> (was_kept: bool)
        requires
            old(map).wf(),
            placeable(old(rooms)@, d),
        ensures
            was_kept == kept(old(rooms)@, d),
            final(rooms)@ == if was_kept {
                old(rooms)@.push(room_of(d))
            } else {
                old(rooms)@
            },
            final(map).wf(),
            forall|x: int, y: int|
                in_bounds(x, y) ==> #[trigger] final(map).at(x, y) == if dug_by(old(rooms)@, d, x, y) {
                    Tile::empty()
                } else {
                    old(map).at(x, y)
                },
    {
        let new_room = Room::new(d.x, d.y, d.w, d.h);
        let failed = new_room.intersects_any(rooms);
        assert(new_room == room_of(d));
        if failed {
            return false;
        }
        assert(kept(rooms@, d));
        new_room.put_on_map(map);
        if !rooms.is_empty() {
            let (prev_x, prev_y) = rooms[rooms.len() - 1].get_center();
            let (new_x, new_y) = new_room.get_center();
            Room::create_tunnel((prev_x, prev_y), (new_x, new_y), d.horizontal_first, map);
        }
        rooms.push(new_room);
        true
    }

    /// Builds a level on `map`: draws `MAX_ROOMS` rooms and places each with
    /// [`Room::place_room`], which keeps it if it shares no cell with one
    /// kept before, digs it out and links it to the room kept before it.
    /// Each room that is kept is filled with monsters and items. The player
    /// is put in the middle of the first room. Returns the rooms that were
    /// kept, in their order.
    pub fn generate_rooms(map: &mut TileGrid, entities: &mut Vec<Entity>) -> (rooms: Vec<Room>)
        requires
            old(map).wf(),
            old(entities).len() > 0,
        ensures
            level_of(
                *old(map),
                *final(map),
                rooms@,
                old(entities).deep_view(),
                final(entities).deep_view(),
            ),
    {
        let mut rooms: Vec<Room> = Vec::new();
        let mut player_x: i32 = 25;
        let mut player_y: i32 = 23;
        let ghost mut attempts: Seq<Attempt> = Seq::empty();
        let mut n: i32 = 0;
        proof {
            lemma_level_begun(*map, entities.deep_view());
        }
        while n < MAX_ROOMS
            invariant
                0 <= n <= MAX_ROOMS,
                map.wf(),
                rooms.len() <= n,
                n > 0 ==> rooms.len() > 0,
                (player_x as int, player_y as int) == spawn_point(rooms@),
                attempts.len() == n,
                0 < old(entities).len() <= entities.len(),
                shaped(*old(map), *map, rooms@),
                traced(
                    *old(map),
                    *map,
                    rooms@,
                    old(entities).deep_view(),
                    entities.deep_view(),
                    attempts,
                ),
                peopled(old(entities).deep_view(), entities.deep_view(), rooms@),
            decreases MAX_ROOMS - n,
        {
            let w: i32 = random_in_range(ROOM_MIN_SIZE, ROOM_MAX_SIZE);
            let h: i32 = random_in_range(ROOM_MIN_SIZE, ROOM_MAX_SIZE);
            let x: i32 = random_in_range(0, MAP_WIDTH - w - 1);
            let y: i32 = random_in_range(0, MAP_HEIGHT - h - 1);
            let tunnel_needed = !rooms.is_empty() && !Room::new(x, y, w, h).intersects_any(&rooms);
            let horizontal_first = if tunnel_needed {
                random_bool()
            } else {
                false
            };
            let d = RoomDraw { x, y, w, h, horizontal_first };
            let ghost map_before = *map;
            let ghost rooms_before = rooms@;
            let ghost roster_before = entities.deep_view();
            proof {
                lemma_placeable(*old(map), *map, rooms@, d);
            }
            let was_kept = Room::place_room(d, &mut rooms, map);
            proof {
                lemma_place_step(*old(map), map_before, *map, rooms_before, d);
            }
            let ghost mut attempt = Attempt { room: d, monsters: Seq::empty(), items: Seq::empty() };
            if was_kept {
                let new_room = rooms[rooms.len() - 1];
                if rooms.len() == 1 {
                    let (new_x, new_y) = new_room.get_center();
                    player_x = new_x;
                    player_y = new_y;
                }
                Entity::populate_room(&new_room, map, entities);
                proof {
                    let (monsters, items) = choose|monsters: Seq<SpawnDraw>, items: Seq<SpawnDraw>|
                        {
                            &&& drawn_for(new_room, monsters, MAX_ROOM_MONSTERS as int)
                            &&& drawn_for(new_room, items, MAX_ROOM_ITEMS as int)
                            &&& entities.deep_view() == #[trigger] populated(
                                *map,
                                roster_before,
                                monsters,
                                items,
                            )
                        };
                    attempt = Attempt { room: d, monsters, items };
                }
            }
            proof {
                lemma_trace_step(
                    *old(map),
                    map_before,
                    *map,
                    rooms_before,
                    old(entities).deep_view(),
                    roster_before,
                    entities.deep_view(),
                    attempts,
                    attempt,
                );
                lemma_people_step(
                    old(entities).deep_view(),
                    roster_before,
                    entities.deep_view(),
                    rooms_before,
                    d,
                    *map,
                );
                attempts = attempts.push(attempt);
            }
            n = n + 1;
        }
        let ghost roster = entities.deep_view();
        entities[PLAYER].set_position(player_x, player_y);
        proof {
            assert(entities.deep_view() =~= roster.update(
                0,
                roster[0].moved_to(player_x, player_y),
            ));
            lemma_level_done(
                *old(map),
                *map,
                rooms@,
                old(entities).deep_view(),
                roster,
                entities.deep_view(),
                attempts,
            );
        }
        rooms
    }
}

/// What holds of the level while it is built: of the tiles and the rooms.
#[verifier::opaque]
spec fn shaped(before: TileGrid, map: TileGrid, rooms: Seq<Room>) -> bool {
    &&& map.wf()
    &&& dug_from(map, before)
    &&& forall|x: int, y: int|
        in_bounds(x, y) && #[trigger] map.at(x, y) != before.at(x, y) ==> within(rooms, x, y)
    &&& forall|i: int| 0 <= i < rooms.len() ==> (#[trigger] rooms[i]).sized()
    &&& disjoint(rooms)
    &&& forall|i: int| 0 <= i < rooms.len() ==> carved(map, #[trigger] rooms[i])
    &&& forall|i: int|
        0 <= i < rooms.len() - 1 ==> linked(map, (#[trigger] rooms[i]).center(), rooms[i + 1].center())
}

/// What holds of the level while it is built: that it is what the attempts
/// so far make of it.
#[verifier::opaque]
spec fn traced(
    before: TileGrid,
    map: TileGrid,
    rooms: Seq<Room>,
    roster_before: Seq<EntityView>,
    roster: Seq<EntityView>,
    attempts: Seq<Attempt>,
) -> bool {
    &&& forall|k: int| 0 <= k < attempts.len() ==> attempt_in_range(#[trigger] attempts[k])
    &&& rooms == rooms_after(attempts)
    &&& forall|x: int, y: int|
        in_bounds(x, y) ==> #[trigger] map.at(x, y) == if dug_in(attempts, x, y) {
            Tile::empty()
        } else {
            before.at(x, y)
        }
    &&& settled(map, attempts)
    &&& roster == roster_after(map, roster_before, attempts)
}

/// What holds of the roster while the level is built.
#[verifier::opaque]
spec fn peopled(roster_before: Seq<EntityView>, roster: Seq<EntityView>, rooms: Seq<Room>) -> bool {
    &&& roster_before.len() <= roster.len()
    &&& forall|i: int| 0 <= i < roster_before.len() ==> #[trigger] roster[i] == roster_before[i]
    &&& forall|i: int|
        roster_before.len() <= i < roster.len() ==> is_spawn(#[trigger] roster[i]) && stands_in(
            roster[i],
            rooms,
        )
}

proof fn lemma_level_begun(map: TileGrid, roster: Seq<EntityView>)
    requires
        map.wf(),
    ensures
        shaped(map, map, Seq::empty()),
        traced(map, map, Seq::empty(), roster, roster, Seq::empty()),
        peopled(roster, roster, Seq::empty()),
{
    reveal(shaped);
    reveal(traced);
    reveal(peopled);
}

proof fn lemma_placeable(before: TileGrid, map: TileGrid, rooms: Seq<Room>, d: RoomDraw)
    requires
        shaped(before, map, rooms),
        in_range(d),
    ensures
        placeable(rooms, d),
        room_of(d).sized(),
{
    reveal(shaped);
    assert(room_of(d).sized());
    if rooms.len() > 0 {
        assert(rooms[rooms.len() - 1].sized());
    }
}

proof fn lemma_place_step(before: TileGrid, map: TileGrid, later: TileGrid, rooms: Seq<Room>, d: RoomDraw)
    requires
        shaped(before, map, rooms),
        in_range(d),
        later.wf(),
        forall|x: int, y: int|
            in_bounds(x, y) ==> #[trigger] later.at(x, y) == if dug_by(rooms, d, x, y) {
                Tile::empty()
            } else {
                map.at(x, y)
            },
    ensures
        shaped(
            before,
            later,
            if kept(rooms, d) {
                rooms.push(room_of(d))
            } else {
                rooms
            },
        ),
        dug_further(later, map),
        kept(rooms, d) ==> carved(later, room_of(d)),
{
    reveal(shaped);
    let room = room_of(d);
    let more = if kept(rooms, d) {
        rooms.push(room)
    } else {
        rooms
    };
    assert(room.sized());
    assert(dug_from(later, map));
    lemma_digging_keeps(map, later, rooms);
    assert forall|x: int, y: int|
        in_bounds(x, y) && #[trigger] later.at(x, y) != before.at(x, y) implies within(
        more,
        x,
        y,
    ) by {
        if map.at(x, y) != before.at(x, y) {
            assert(within(rooms, x, y));
            if kept(rooms, d) {
                lemma_within_grows(rooms, room, x, y);
            }
        } else {
            assert(dug_by(rooms, d, x, y));
            if room.interior(x, y) {
                assert(more[more.len() - 1].interior(x, y));
            } else {
                assert(tunnel_between(more, more.len() - 2, d.horizontal_first, x, y));
            }
        }
    }
    if kept(rooms, d) {
        assert(carved(later, room));
        assert forall|i: int| 0 <= i < more.len() implies (#[trigger] more[i]).sized() by {
            if i < rooms.len() {
                assert(more[i] == rooms[i]);
            }
        }
        assert(disjoint(more)) by {
            assert forall|i: int, j: int|
                #![trigger more[i], more[j]]
                0 <= i < j < more.len() implies !more[i].intersects(&more[j]) by {
                if j < rooms.len() {
                    assert(!rooms[i].intersects(&rooms[j]));
                } else {
                    assert(!room.intersects(&rooms[i]));
                }
            }
        }
        assert forall|i: int| 0 <= i < more.len() implies carved(later, #[trigger] more[i]) by {
            if i < rooms.len() {
                assert(more[i] == rooms[i]);
                assert(carved(later, rooms[i]));
            }
        }
        assert forall|i: int| 0 <= i < more.len() - 1 implies linked(
            later,
            (#[trigger] more[i]).center(),
            more[i + 1].center(),
        ) by {
            if i < rooms.len() - 1 {
                assert(more[i] == rooms[i]);
                assert(more[i + 1] == rooms[i + 1]);
                assert(linked(later, rooms[i].center(), rooms[i + 1].center()));
            } else {
                assert(more[i] == rooms.last());
                assert(tunnel_open(later, rooms.last().center(), room.center(), d.horizontal_first));
            }
        }
    }
}

proof fn lemma_trace_step(
    before: TileGrid,
    map: TileGrid,
    later: TileGrid,
    rooms: Seq<Room>,
    roster_before: Seq<EntityView>,
    roster: Seq<EntityView>,
    roster_later: Seq<EntityView>,
    attempts: Seq<Attempt>,
    attempt: Attempt,
)
    requires
        traced(before, map, rooms, roster_before, roster, attempts),
        attempt_in_range(attempt),
        later.wf(),
        forall|x: int, y: int|
            in_bounds(x, y) ==> #[trigger] later.at(x, y) == if dug_by(rooms, attempt.room, x, y) {
                Tile::empty()
            } else {
                map.at(x, y)
            },
        dug_further(later, map),
        kept(rooms, attempt.room) ==> carved(later, room_of(attempt.room)),
        roster_later == if kept(rooms, attempt.room) {
            populated(later, roster, attempt.monsters, attempt.items)
        } else {
            roster
        },
    ensures
        traced(
            before,
            later,
            if kept(rooms, attempt.room) {
                rooms.push(room_of(attempt.room))
            } else {
                rooms
            },
            roster_before,
            roster_later,
            attempts.push(attempt),
        ),
{
    reveal(traced);
    let more = attempts.push(attempt);
    assert(more.drop_last() =~= attempts);
    assert(more.last() == attempt);
    lemma_settled_for_good(map, later, roster_before, attempts);
    assert forall|k: int| 0 <= k < more.len() implies attempt_in_range(#[trigger] more[k]) by {
        if k < attempts.len() {
            assert(more[k] == attempts[k]);
        }
    }
    assert(settled(later, more));
    assert(roster_later == roster_after(later, roster_before, more));
    assert forall|x: int, y: int| in_bounds(x, y) implies #[trigger] later.at(x, y) == if dug_in(
        more,
        x,
        y,
    ) {
        Tile::empty()
    } else {
        before.at(x, y)
    } by {
        assert(dug_in(more, x, y) == (dug_in(attempts, x, y) || dug_by(rooms, attempt.room, x, y)));
    }
}

proof fn lemma_people_step(
    roster_before: Seq<EntityView>,
    roster: Seq<EntityView>,
    roster_later: Seq<EntityView>,
    rooms: Seq<Room>,
    d: RoomDraw,
    map: TileGrid,
)
    requires
        peopled(roster_before, roster, rooms),
        kept(rooms, d) ==> crate::spawn::spawned_in(roster, roster_later, room_of(d), map),
        !kept(rooms, d) ==> roster_later == roster,
    ensures
        peopled(
            roster_before,
            roster_later,
            if kept(rooms, d) {
                rooms.push(room_of(d))
            } else {
                rooms
            },
        ),
        roster_before.len() <= roster_later.len(),
{
    reveal(peopled);
    if kept(rooms, d) {
        let more = rooms.push(room_of(d));
        assert forall|i: int| roster_before.len() <= i < roster_later.len() implies is_spawn(
            #[trigger] roster_later[i],
        ) && stands_in(roster_later[i], more) by {
            if i < roster.len() {
                assert(roster_later[i] == roster[i]);
                let r = choose|r: int|
                    0 <= r < rooms.len() && (#[trigger] rooms[r]).interior(
                        roster[i].x as int,
                        roster[i].y as int,
                    );
                assert(more[r].interior(roster_later[i].x as int, roster_later[i].y as int));
            } else {
                assert(more[more.len() - 1].interior(
                    roster_later[i].x as int,
                    roster_later[i].y as int,
                ));
            }
        }
    }
}

proof fn lemma_level_done(
    before: TileGrid,
    map: TileGrid,
    rooms: Seq<Room>,
    roster_before: Seq<EntityView>,
    roster: Seq<EntityView>,
    roster_final: Seq<EntityView>,
    attempts: Seq<Attempt>,
)
    requires
        shaped(before, map, rooms),
        traced(before, map, rooms, roster_before, roster, attempts),
        peopled(roster_before, roster, rooms),
        attempts.len() == MAX_ROOMS,
        1 <= rooms.len() <= MAX_ROOMS,
        roster_before.len() > 0,
        roster_final == roster.update(
            0,
            roster[0].moved_to(spawn_point(rooms).0 as i32, spawn_point(rooms).1 as i32),
        ),
    ensures
        level_of(before, map, rooms, roster_before, roster_final),
{
    reveal(shaped);
    reveal(traced);
    reveal(peopled);
    assert(rooms[0].sized());
    assert(drawn_level(attempts));
    assert(built(before, map, rooms, roster_before, roster_final, attempts));
    assert(generated(before, map, rooms, roster_before, roster_final)) by {
        assert forall|i: int| roster_before.len() <= i < roster_final.len() implies is_spawn(
            #[trigger] roster_final[i],
        ) && stands_in(roster_final[i], rooms) by {
            assert(roster_final[i] == roster[i]);
        }
        assert forall|i: int| 1 <= i < roster_before.len() implies #[trigger] roster_final[i]
            == roster_before[i] by {
            assert(roster_final[i] == roster[i]);
        }
    }
}

/// What belongs to what is dug for some rooms belongs to it with one room
/// more.
proof fn lemma_within_grows(rooms: Seq<Room>, room: Room, x: int, y: int)
    requires
        within(rooms, x, y),
    ensures
        within(rooms.push(room), x, y),
{
    let more = rooms.push(room);
    if exists|i: int| 0 <= i < rooms.len() && (#[trigger] rooms[i]).interior(x, y) {
        let i = choose|i: int| 0 <= i < rooms.len() && (#[trigger] rooms[i]).interior(x, y);
        assert(more[i].interior(x, y));
    } else {
        let (i, horizontal_first) = choose|i: int, horizontal_first: bool| #[trigger]
            tunnel_between(rooms, i, horizontal_first, x, y);
        assert(more[i] == rooms[i]);
        assert(more[i + 1] == rooms[i + 1]);
        assert(tunnel_between(more, i, horizontal_first, x, y));
    }
}

/// What is dug for rooms that lie on the grid lies inside the grid's
/// outermost rows and columns.
pub proof fn lemma_within_inside(rooms: Seq<Room>, x: int, y: int)
    requires
        forall|i: int| 0 <= i < rooms.len() ==> (#[trigger] rooms[i]).sized(),
        within(rooms, x, y),
    ensures
        1 <= x <= MAP_WIDTH - 2,
        1 <= y <= MAP_HEIGHT - 2,
{
    if exists|i: int| 0 <= i < rooms.len() && (#[trigger] rooms[i]).interior(x, y) {
        let i = choose|i: int| 0 <= i < rooms.len() && (#[trigger] rooms[i]).interior(x, y);
        assert(rooms[i].sized());
    } else {
        let (i, horizontal_first) = choose|i: int, horizontal_first: bool| #[trigger]
            tunnel_between(rooms, i, horizontal_first, x, y);
        assert(rooms[i].sized());
        assert(rooms[i + 1].sized());
    }
}

/// What a generated level is like. No two of its rooms overlap. Every floor
/// cell of every room is passable and open to sight. From the middle of
/// each room to that of the next leads a tunnel with one bend, each cell
/// of which is passable. The player stands in the middle of the first
/// room. The outermost rows and columns of the level are untouched.
pub proof fn lemma_level_shape(
    before: TileGrid,
    map: TileGrid,
    rooms: Seq<Room>,
    roster_before: Seq<EntityView>,
    roster: Seq<EntityView>,
)
    requires
        generated(before, map, rooms, roster_before, roster),
    ensures
        forall|i: int, j: int|
            #![trigger rooms[i], rooms[j]]
            0 <= i < rooms.len() && 0 <= j < rooms.len() && i != j ==> !rooms[i].intersects(
                &rooms[j],
            ),
        forall|i: int, x: int, y: int|
            0 <= i < rooms.len() && #[trigger] rooms[i].interior(x, y) ==> in_bounds(x, y)
                && map.at(x, y).passable && !map.at(x, y).block_sight,
        forall|i: int|
            0 <= i < rooms.len() - 1 ==> {
                ||| tunnel_passable(map, (#[trigger] rooms[i]).center(), rooms[i + 1].center(), true)
                ||| tunnel_passable(map, rooms[i].center(), rooms[i + 1].center(), false)
            },
        (roster[0].x as int, roster[0].y as int) == rooms[0].center(),
        forall|x: int, y: int|
            in_bounds(x, y) && (x == 0 || x == MAP_WIDTH - 1 || y == 0 || y == MAP_HEIGHT - 1)
                ==> #[trigger] map.at(x, y) == before.at(x, y),
{
    assert forall|x: int, y: int|
        in_bounds(x, y) && (x == 0 || x == MAP_WIDTH - 1 || y == 0 || y == MAP_HEIGHT - 1)
        implies #[trigger] map.at(x, y) == before.at(x, y) by {
        if map.at(x, y) != before.at(x, y) {
            lemma_within_inside(rooms, x, y);
        }
    }
    assert forall|i: int, j: int|
        #![trigger rooms[i], rooms[j]]
        0 <= i < rooms.len() && 0 <= j < rooms.len() && i != j implies !rooms[i].intersects(
        &rooms[j],
    ) by {
        if i < j {
            assert(!rooms[i].intersects(&rooms[j]));
        } else {
            assert(!rooms[j].intersects(&rooms[i]));
        }
    }
    assert forall|i: int, x: int, y: int|
        0 <= i < rooms.len() && #[trigger] rooms[i].interior(x, y) implies in_bounds(x, y)
        && map.at(x, y).passable && !map.at(x, y).block_sight by {
        assert(carved(map, rooms[i]));
    }
    assert forall|i: int| 0 <= i < rooms.len() - 1 implies {
        ||| tunnel_passable(map, (#[trigger] rooms[i]).center(), rooms[i + 1].center(), true)
        ||| tunnel_passable(map, rooms[i].center(), rooms[i + 1].center(), false)
    } by {
        let from = rooms[i].center();
        let to = rooms[i + 1].center();
        assert(linked(map, from, to));
        if tunnel_open(map, from, to, true) {
            assert(tunnel_passable(map, from, to, true));
        } else {
            assert(tunnel_open(map, from, to, false));
            assert(tunnel_passable(map, from, to, false));
        }
    }
    let first = rooms[0];
    assert(first.sized());
}

/// Digging leaves dug what was dug: rooms stay carved and tunnels open.
proof fn lemma_digging_keeps(before: TileGrid, after: TileGrid, rooms: Seq<Room>)
    requires
        dug_from(after, before),
        forall|i: int| 0 <= i < rooms.len() ==> carved(before, #[trigger] rooms[i]),
        forall|i: int|
            0 <= i < rooms.len() - 1 ==> linked(before, (#[trigger] rooms[i]).center(), rooms[i + 1].center()),
    ensures
        forall|i: int| 0 <= i < rooms.len() ==> carved(after, #[trigger] rooms[i]),
        forall|i: int|
            0 <= i < rooms.len() - 1 ==> linked(after, (#[trigger] rooms[i]).center(), rooms[i + 1].center()),
{
    assert forall|i: int| 0 <= i < rooms.len() - 1 implies linked(
        after,
        (#[trigger] rooms[i]).center(),
        rooms[i + 1].center(),
    ) by {
        let from = rooms[i].center();
        let to = rooms[i + 1].center();
        if tunnel_open(before, from, to, true) {
            assert(tunnel_open(after, from, to, true));
        } else {
            assert(tunnel_open(before, from, to, false));
            assert(tunnel_open(after, from, to, false));
        }
    }
}

} // verus!
