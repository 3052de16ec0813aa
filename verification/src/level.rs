//! How a level follows from what the dice gave.

use vstd::prelude::*;
use crate::entity::EntityView;
use crate::movement::blocked_at;
use crate::room::{carved, dug_by, generated, in_range, kept, room_of, Room, RoomDraw, MAX_ROOMS};
use crate::spawn::{
    after_place, after_spawns, candidate, drawn_for, populated, SpawnDraw, MAX_ROOM_ITEMS,
    MAX_ROOM_MONSTERS,
};
use crate::tile::{in_bounds, Tile, TileGrid};

verus! {

/// What the dice gave for one candidate room: the room, and the monsters
/// and items to fill it with if it is kept.
pub struct Attempt {
    pub room: RoomDraw,
    pub monsters: Seq<SpawnDraw>,
    pub items: Seq<SpawnDraw>,
}

/// Whether `a` is an attempt as a level is built from: a room of a room's
/// size on the grid, and no more monsters and items than a room is given,
/// each drawn for a floor cell of the room.
pub open spec fn attempt_in_range(a: Attempt) -> bool {
    &&& in_range(a.room)
    &&& drawn_for(room_of(a.room), a.monsters, MAX_ROOM_MONSTERS as int)
    &&& drawn_for(room_of(a.room), a.items, MAX_ROOM_ITEMS as int)
}

/// Whether `attempts` are the attempts of one level: `MAX_ROOMS` of them,
/// each in range.
pub open spec fn drawn_level(attempts: Seq<Attempt>) -> bool {
    &&& attempts.len() == MAX_ROOMS
    &&& forall|k: int| 0 <= k < attempts.len() ==> attempt_in_range(#[trigger] attempts[k])
}

/// The rooms that are kept of `attempts`, in their order: each that shares
/// no cell with one kept before it.
pub open spec fn rooms_after(attempts: Seq<Attempt>) -> Seq<Room>
    decreases attempts.len(),
{
    if attempts.len() == 0 {
        Seq::empty()
    } else {
        let before = rooms_after(attempts.drop_last());
        if kept(before, attempts.last().room) {
            before.push(room_of(attempts.last().room))
        } else {
            before
        }
    }
}

/// Whether the cell `(x, y)` is dug by one of `attempts`: it is floor of a
/// room that is kept, or lies on the tunnel to it from the room kept before
/// it.
pub open spec fn dug_in(attempts: Seq<Attempt>, x: int, y: int) -> bool
    decreases attempts.len(),
{
    if attempts.len() == 0 {
        false
    } else {
        ||| dug_in(attempts.drop_last(), x, y)
        ||| dug_by(rooms_after(attempts.drop_last()), attempts.last().room, x, y)
    }
}

/// The roster after the rooms kept of `attempts` were filled, each with its
/// monsters and then its items. `map` is the level as it is in the end: a
/// floor cell of a room stays floor from the moment the room is dug.
pub open spec fn roster_after(map: TileGrid, roster: Seq<EntityView>, attempts: Seq<Attempt>) -> Seq<EntityView>
    decreases attempts.len(),
{
    if attempts.len() == 0 {
        roster
    } else {
        let before = roster_after(map, roster, attempts.drop_last());
        if kept(rooms_after(attempts.drop_last()), attempts.last().room) {
            populated(map, before, attempts.last().monsters, attempts.last().items)
        } else {
            before
        }
    }
}

/// Where the player is put: the middle of the first room.
pub open spec fn spawn_point(rooms: Seq<Room>) -> (int, int) {
    if rooms.len() > 0 {
        rooms[0].center()
    } else {
        (25, 23)
    }
}

/// `map`, `rooms` and `roster` are what `attempts` make of `before` and
/// `roster_before`. The rooms are those kept. A tile is an empty tile where
/// an attempt dug, and else what it was. The roster is what filling the
/// kept rooms left, with the player moved to where it is put.
pub open spec fn built(
    before: TileGrid,
    map: TileGrid,
    rooms: Seq<Room>,
    roster_before: Seq<EntityView>,
    roster: Seq<EntityView>,
    attempts: Seq<Attempt>,
) -> bool {
    &&& map.wf()
    &&& rooms == rooms_after(attempts)
    &&& forall|x: int, y: int|
        in_bounds(x, y) ==> #[trigger] map.at(x, y) == if dug_in(attempts, x, y) {
            Tile::empty()
        } else {
            before.at(x, y)
        }
    &&& roster == roster_after(map, roster_before, attempts).update(
        0,
        roster_after(map, roster_before, attempts)[0].moved_to(
            spawn_point(rooms).0 as i32,
            spawn_point(rooms).1 as i32,
        ),
    )
}

/// `map`, `rooms` and `roster` are a level built on `before` for
/// `roster_before`: there are attempts, as the dice give them, of which
/// they are what is built, and what holds of every level holds of them.
pub open spec fn level_of(
    before: TileGrid,
    map: TileGrid,
    rooms: Seq<Room>,
    roster_before: Seq<EntityView>,
    roster: Seq<EntityView>,
) -> bool {
    &&& generated(before, map, rooms, roster_before, roster)
    &&& exists|attempts: Seq<Attempt>|
        drawn_level(attempts) && #[trigger] built(
            before,
            map,
            rooms,
            roster_before,
            roster,
            attempts,
        )
}

/// The rooms kept of `attempts` are dug out on `map`, and what fills them
/// was drawn for their floor.
pub open spec fn settled(map: TileGrid, attempts: Seq<Attempt>) -> bool
    decreases attempts.len(),
{
    if attempts.len() == 0 {
        true
    } else {
        &&& settled(map, attempts.drop_last())
        &&& kept(rooms_after(attempts.drop_last()), attempts.last().room) ==> {
            &&& carved(map, room_of(attempts.last().room))
            &&& drawn_for(
                room_of(attempts.last().room),
                attempts.last().monsters,
                attempts.last().monsters.len() as int,
            )
            &&& drawn_for(
                room_of(attempts.last().room),
                attempts.last().items,
                attempts.last().items.len() as int,
            )
        }
    }
}

/// `later` is `map` with more dug out: what was an empty tile is one.
pub open spec fn dug_further(later: TileGrid, map: TileGrid) -> bool {
    forall|x: int, y: int|
        in_bounds(x, y) && map.at(x, y) == Tile::empty() ==> #[trigger] later.at(x, y)
            == Tile::empty()
}

/// Candidates for the floor of a room are placed alike on a level and on
/// the same level with more dug out.
pub proof fn lemma_spawns_alike(
    map: TileGrid,
    later: TileGrid,
    room: Room,
    roster: Seq<EntityView>,
    draws: Seq<SpawnDraw>,
    monster: bool,
)
    requires
        carved(map, room),
        dug_further(later, map),
        drawn_for(room, draws, draws.len() as int),
    ensures
        after_spawns(later, roster, draws, monster) == after_spawns(map, roster, draws, monster),
    decreases draws.len(),
{
    if draws.len() > 0 {
        let last = draws.last();
        assert(room.interior(draws[draws.len() - 1].x as int, draws[draws.len() - 1].y as int));
        assert(map.at(last.x as int, last.y as int) == Tile::empty());
        assert(later.at(last.x as int, last.y as int) == Tile::empty());
        assert(drawn_for(room, draws.drop_last(), draws.drop_last().len() as int)) by {
            assert forall|i: int| 0 <= i < draws.drop_last().len() implies room.interior(
                (#[trigger] draws.drop_last()[i]).x as int,
                draws.drop_last()[i].y as int,
            ) by {
                assert(draws.drop_last()[i] == draws[i]);
            }
        }
        lemma_spawns_alike(map, later, room, roster, draws.drop_last(), monster);
        let before = after_spawns(map, roster, draws.drop_last(), monster);
        let c = candidate(last, monster);
        assert(c.x == last.x && c.y == last.y);
        assert(blocked_at(later, before, c.x as int, c.y as int) == blocked_at(
            map,
            before,
            c.x as int,
            c.y as int,
        ));
        assert(after_place(later, before, c) == after_place(map, before, c));
    }
}

/// What was settled on a level is settled on the same level with more dug
/// out, and the roster that it gives is the same.
pub proof fn lemma_settled_for_good(
    map: TileGrid,
    later: TileGrid,
    roster: Seq<EntityView>,
    attempts: Seq<Attempt>,
)
    requires
        settled(map, attempts),
        dug_further(later, map),
    ensures
        settled(later, attempts),
        roster_after(later, roster, attempts) == roster_after(map, roster, attempts),
    decreases attempts.len(),
{
    if attempts.len() > 0 {
        lemma_settled_for_good(map, later, roster, attempts.drop_last());
        let a = attempts.last();
        if kept(rooms_after(attempts.drop_last()), a.room) {
            let room = room_of(a.room);
            assert(carved(later, room)) by {
                assert forall|x: int, y: int| #[trigger] room.interior(x, y) implies in_bounds(x, y)
                    && later.at(x, y) == Tile::empty() by {
                    assert(map.at(x, y) == Tile::empty());
                }
            }
            let before = roster_after(map, roster, attempts.drop_last());
            lemma_spawns_alike(map, later, room, before, a.monsters, true);
            lemma_spawns_alike(
                map,
                later,
                room,
                after_spawns(map, before, a.monsters, true),
                a.items,
                false,
            );
        }
    }
}

} // verus!
