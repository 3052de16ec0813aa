//! The monsters and items that a new level is filled with.

use vstd::prelude::*;
use crate::color::{darker_green, desaturated_green, light_yellow, violet};
use crate::entity::{DeathCallback, Entity, EntityView, Fighter, Item, AI};
use crate::movement::blocked_at;
use crate::rng::{random_in_range, random_ratio};
use crate::room::Room;
use crate::tile::{in_bounds, Tile, TileGrid};

verus! {

/// Most monsters that one room is given.
pub const MAX_ROOM_MONSTERS: i32 = 3;

/// Most items that one room is given.
pub const MAX_ROOM_ITEMS: i32 = 2;

/// Experience that an ork yields.
pub const ORK_XP: i32 = 35;

/// Experience that a troll yields.
pub const TROLL_XP: i32 = 100;

/// A living monster at `(x, y)`: an ork, the weaker kind, or a troll.
pub open spec fn monster_at(x: i32, y: i32, ork: bool) -> EntityView {
    EntityView {
        x,
        y,
        glyph: if ork { 'o' } else { 'T' },
        color: if ork { desaturated_green() } else { darker_green() },
        name: if ork { "Ork"@ } else { "Troll"@ },
        blocks: true,
        alive: true,
        fighter: Some(
            if ork {
                Fighter {
                    max_hp: 10,
                    hp: 10,
                    defense: 0,
                    power: 3,
                    xp: ORK_XP,
                    on_death: DeathCallback::Monster,
                }
            } else {
                Fighter {
                    max_hp: 16,
                    hp: 16,
                    defense: 1,
                    power: 4,
                    xp: TROLL_XP,
                    on_death: DeathCallback::Monster,
                }
            },
        ),
        ai: Some(AI::Basic),
        item: None,
        always_visible: false,
        level: 1,
    }
}

/// An item at `(x, y)`: a healing potion, or a scroll of lightning bolt.
pub open spec fn item_at(x: i32, y: i32, potion: bool) -> EntityView {
    EntityView {
        x,
        y,
        glyph: if potion { '!' } else { '#' },
        color: if potion { violet() } else { light_yellow() },
        name: if potion { "healing potion"@ } else { "scroll of lightning bolt"@ },
        blocks: false,
        alive: false,
        fighter: None,
        ai: None,
        item: Some(if potion { Item::Heal } else { Item::Lightning }),
        always_visible: false,
        level: 1,
    }
}

/// Whether `e` is a monster or an item as a new level holds them.
pub open spec fn is_spawn(e: EntityView) -> bool {
    ||| e == monster_at(e.x, e.y, true)
    ||| e == monster_at(e.x, e.y, false)
    ||| e == item_at(e.x, e.y, true)
    ||| e == item_at(e.x, e.y, false)
}

/// The roster after `candidate` was to be placed: it joins the roster at
/// its end unless the cell it stands on is blocked.
pub open spec fn after_place(map: TileGrid, roster: Seq<EntityView>, candidate: EntityView) -> Seq<EntityView> {
    if blocked_at(map, roster, candidate.x as int, candidate.y as int) {
        roster
    } else {
        roster.push(candidate)
    }
}

/// What the dice gave for one monster or item: the cell it is drawn for,
/// and whether it is of the more common of its two kinds (an ork among
/// monsters, a healing potion among items).
#[derive(Clone, Copy, Debug, PartialEq, Eq, Structural)]
pub struct SpawnDraw {
    pub x: i32,
    pub y: i32,
    pub common: bool,
}

/// The monster, or the item, that `draw` stands for.
pub open spec fn candidate(draw: SpawnDraw, monster: bool) -> EntityView {
    if monster {
        monster_at(draw.x, draw.y, draw.common)
    } else {
        item_at(draw.x, draw.y, draw.common)
    }
}

/// The roster after the candidates of `draws` were to be placed, one after
/// the other: each joins the roster unless its cell is blocked by then.
pub open spec fn after_spawns(map: TileGrid, roster: Seq<EntityView>, draws: Seq<SpawnDraw>, monster: bool) -> Seq<EntityView>
    decreases draws.len(),
{
    if draws.len() == 0 {
        roster
    } else {
        after_place(
            map,
            after_spawns(map, roster, draws.drop_last(), monster),
            candidate(draws.last(), monster),
        )
    }
}

/// The roster after a room was filled by the draws `monsters` and `items`:
/// first the monsters were to be placed, then the items.
pub open spec fn populated(map: TileGrid, roster: Seq<EntityView>, monsters: Seq<SpawnDraw>, items: Seq<SpawnDraw>) -> Seq<EntityView> {
    after_spawns(map, after_spawns(map, roster, monsters, true), items, false)
}

/// `draws` are draws for `room`: no more than `most`, each for a floor cell
/// of the room.
pub open spec fn drawn_for(room: Room, draws: Seq<SpawnDraw>, most: int) -> bool {
    &&& draws.len() <= most
    &&& forall|i: int|
        0 <= i < draws.len() ==> room.interior((#[trigger] draws[i]).x as int, draws[i].y as int)
}

/// `after` is `before` with no more than `most` monsters and items added at
/// its end, each on a floor cell of `room` that was not blocked when it was
/// placed.
pub open spec fn placed_in(before: Seq<EntityView>, after: Seq<EntityView>, room: Room, map: TileGrid, most: int) -> bool {
    &&& before.len() <= after.len() <= before.len() + most
    &&& forall|i: int| 0 <= i < before.len() ==> #[trigger] after[i] == before[i]
    &&& forall|i: int|
        before.len() <= i < after.len() ==> {
            &&& is_spawn(#[trigger] after[i])
            &&& room.interior(after[i].x as int, after[i].y as int)
            &&& !blocked_at(map, after.subrange(0, i), after[i].x as int, after[i].y as int)
        }
}

/// `after` is `before` with monsters and items added at its end, no more
/// than a room is given, each on a floor cell of `room` that was not blocked
/// when it was placed.
pub open spec fn spawned_in(before: Seq<EntityView>, after: Seq<EntityView>, room: Room, map: TileGrid) -> bool {
    placed_in(before, after, room, map, MAX_ROOM_MONSTERS + MAX_ROOM_ITEMS)
}

impl Entity {
    /// A living monster at `(x, y)`: an ork if `ork`, else a troll.
    pub fn spawn_monster(x: i32, y: i32, ork: bool) -> (monster: Entity)
        ensures
            monster@ == monster_at(x, y, ork),
            monster@.wf(),
    {
        let mut monster = if ork {
            let mut ork = Entity::new(x, y, 'o', desaturated_green(), "Ork", true);
            ork.make_fighter(10, 10, 0, 3, DeathCallback::Monster);
            ork.set_xp(ORK_XP);
            ork.set_ai();
            ork
        } else {
            let mut troll = Entity::new(x, y, 'T', darker_green(), "Troll", true);
            troll.make_fighter(16, 16, 1, 4, DeathCallback::Monster);
            troll.set_xp(TROLL_XP);
            troll.set_ai();
            troll
        };
        monster.make_alive();
        monster
    }

    /// An item at `(x, y)`: a healing potion if `potion`, else a scroll of
    /// lightning bolt.
    pub fn spawn_item(x: i32, y: i32, potion: bool) -> (item: Entity)
        ensures
            item@ == item_at(x, y, potion),
            item@.wf(),
    {
        if potion {
            let mut item = Entity::new(x, y, '!', violet(), "healing potion", false);
            item.set_item(Item::Heal);
            item
        } else {
            let mut item = Entity::new(x, y, '#', light_yellow(), "scroll of lightning bolt", false);
            item.set_item(Item::Lightning);
            item
        }
    }

    /// Adds `candidate` to the roster unless the cell it stands on is
    /// blocked, and says whether it was added.
    pub fn place(candidate: Entity, map: &TileGrid, entities: &mut Vec<Entity>) -> (placed: bool)
        requires
            map.wf(),
            in_bounds(candidate.x as int, candidate.y as int),
        ensures
            placed == !blocked_at(
                *map,
                old(entities).deep_view(),
                candidate.x as int,
                candidate.y as int,
            ),
            final(entities).deep_view() == after_place(*map, old(entities).deep_view(), candidate@),
    {
        if !Tile::is_blocked(candidate.x, candidate.y, map, entities) {
            entities.push(candidate);
            assert(entities.deep_view() =~= old(entities).deep_view().push(candidate@));
            true
        } else {
            false
        }
    }

    /// Places the candidates of `draws`, one after the other: monsters if
    /// `monster`, else items. Each joins the roster unless its cell is
    /// blocked by then.
    pub fn spawn_all(
        draws: &Vec<SpawnDraw>,
        monster: bool,
        room: &Room,
        map: &TileGrid,
        entities: &mut Vec<Entity>,
    )
        requires
            map.wf(),
            forall|x: int, y: int| #[trigger] room.interior(x, y) ==> in_bounds(x, y),
            drawn_for(*room, draws@, draws.len() as int),
        ensures
            final(entities).deep_view() == after_spawns(
                *map,
                old(entities).deep_view(),
                draws@,
                monster,
            ),
            placed_in(
                old(entities).deep_view(),
                final(entities).deep_view(),
                *room,
                *map,
                draws.len() as int,
            ),
    {
        let mut n: usize = 0;
        assert(draws@.take(0) =~= Seq::<SpawnDraw>::empty());
        while n < draws.len()
            invariant
                0 <= n <= draws.len(),
                map.wf(),
                forall|x: int, y: int| #[trigger] room.interior(x, y) ==> in_bounds(x, y),
                drawn_for(*room, draws@, draws.len() as int),
                entities.deep_view() == after_spawns(
                    *map,
                    old(entities).deep_view(),
                    draws@.take(n as int),
                    monster,
                ),
                placed_in(old(entities).deep_view(), entities.deep_view(), *room, *map, n as int),
            decreases draws.len() - n,
        {
            let draw = draws[n];
            assert(room.interior(draws@[n as int].x as int, draws@[n as int].y as int));
            let ghost before = entities.deep_view();
            let spawn = if monster {
                Entity::spawn_monster(draw.x, draw.y, draw.common)
            } else {
                Entity::spawn_item(draw.x, draw.y, draw.common)
            };
            Entity::place(spawn, map, entities);
            proof {
                lemma_placed(before, entities.deep_view(), candidate(draw, monster), *map);
                assert(draws@.take(n + 1).drop_last() =~= draws@.take(n as int));
                assert(draws@.take(n + 1).last() == draw);
            }
            n = n + 1;
        }
        assert(draws@.take(draws.len() as int) =~= draws@);
    }

    /// Fills `room` by what the dice gave: places the monsters of
    /// `monsters`, then the items of `items`, each unless its cell is
    /// blocked by then.
    pub fn populate_with(
        monsters: &Vec<SpawnDraw>,
        items: &Vec<SpawnDraw>,
        room: &Room,
        map: &TileGrid,
        entities: &mut Vec<Entity>,
    )
        requires
            map.wf(),
            forall|x: int, y: int| #[trigger] room.interior(x, y) ==> in_bounds(x, y),
            drawn_for(*room, monsters@, monsters.len() as int),
            drawn_for(*room, items@, items.len() as int),
        ensures
            final(entities).deep_view() == populated(
                *map,
                old(entities).deep_view(),
                monsters@,
                items@,
            ),
            placed_in(
                old(entities).deep_view(),
                final(entities).deep_view(),
                *room,
                *map,
                monsters.len() + items.len(),
            ),
    {
        Entity::spawn_all(monsters, true, room, map, entities);
        let ghost between = entities.deep_view();
        Entity::spawn_all(items, false, room, map, entities);
        proof {
            lemma_placed_twice(
                old(entities).deep_view(),
                between,
                entities.deep_view(),
                *room,
                *map,
                monsters.len() as int,
                items.len() as int,
            );
        }
    }

    /// Draws up to `most` candidates for `room`: how many, and for each a
    /// floor cell of the room and, with a chance of `numerator` in
    /// `denominator`, the more common kind.
    fn draw_spawns(room: &Room, most: i32, numerator: u32, denominator: u32) -> (draws: Vec<SpawnDraw>)
        requires
            room.x1 + 1 < room.x2,
            room.y1 + 1 < room.y2,
            0 <= most,
            0 < denominator,
            numerator <= denominator,
        ensures
            drawn_for(*room, draws@, most as int),
    {
        let (x1, x2, y1, y2) = room.get_room_coordinates();
        let count: i32 = random_in_range(0, most);
        let mut draws: Vec<SpawnDraw> = Vec::new();
        let mut n: i32 = 0;
        while n < count
            invariant
                0 <= n <= count <= most,
                (x1, x2, y1, y2) == (room.x1, room.x2, room.y1, room.y2),
                x1 + 1 < x2,
                y1 + 1 < y2,
                0 < denominator,
                numerator <= denominator,
                draws.len() == n,
                drawn_for(*room, draws@, n as int),
            decreases count - n,
        {
            let x: i32 = random_in_range(x1 + 1, x2 - 1);
            let y: i32 = random_in_range(y1 + 1, y2 - 1);
            let common = random_ratio(numerator, denominator);
            draws.push(SpawnDraw { x, y, common });
            n = n + 1;
        }
        draws
    }

    /// Fills `room` with up to `MAX_ROOM_MONSTERS` monsters, four in five of
    /// them orks and the others trolls, and up to `MAX_ROOM_ITEMS` items,
    /// seven in ten of them healing potions and the others scrolls of
    /// lightning bolt. Each is drawn for a floor cell of the room and left
    /// out if that cell is blocked. What the roster becomes is what
    /// [`Entity::populate_with`] makes of it with what the dice gave.
    pub fn populate_room(room: &Room, map: &TileGrid, entities: &mut Vec<Entity>)
        requires
            map.wf(),
            room.x1 + 1 < room.x2,
            room.y1 + 1 < room.y2,
            forall|x: int, y: int| #[trigger] room.interior(x, y) ==> in_bounds(x, y),
        ensures
            exists|monsters: Seq<SpawnDraw>, items: Seq<SpawnDraw>|
                {
                    &&& drawn_for(*room, monsters, MAX_ROOM_MONSTERS as int)
                    &&& drawn_for(*room, items, MAX_ROOM_ITEMS as int)
                    &&& final(entities).deep_view() == #[trigger] populated(
                        *map,
                        old(entities).deep_view(),
                        monsters,
                        items,
                    )
                },
            spawned_in(old(entities).deep_view(), final(entities).deep_view(), *room, *map),
    {
        let monsters = Entity::draw_spawns(room, MAX_ROOM_MONSTERS, 4, 5);
        let items = Entity::draw_spawns(room, MAX_ROOM_ITEMS, 7, 10);
        Entity::populate_with(&monsters, &items, room, map, entities);
        assert(entities.deep_view() == populated(
            *map,
            old(entities).deep_view(),
            monsters@,
            items@,
        ));
    }
}

/// What was placed in two goes was placed in one.
proof fn lemma_placed_twice(
    before: Seq<EntityView>,
    between: Seq<EntityView>,
    after: Seq<EntityView>,
    room: Room,
    map: TileGrid,
    first: int,
    second: int,
)
    requires
        placed_in(before, between, room, map, first),
        placed_in(between, after, room, map, second),
    ensures
        placed_in(before, after, room, map, first + second),
{
    assert forall|i: int| before.len() <= i < after.len() implies {
        &&& is_spawn(#[trigger] after[i])
        &&& room.interior(after[i].x as int, after[i].y as int)
        &&& !blocked_at(map, after.subrange(0, i), after[i].x as int, after[i].y as int)
    } by {
        if i < between.len() {
            assert(after[i] == between[i]);
            assert(after.subrange(0, i) =~= between.subrange(0, i));
        }
    }
}

/// What placing `candidate` leaves of a roster: the entities that were
/// there, and at most the candidate behind them, on a cell that was not
/// blocked.
proof fn lemma_placed(before: Seq<EntityView>, after: Seq<EntityView>, candidate: EntityView, map: TileGrid)
    requires
        after == after_place(map, before, candidate),
    ensures
        before.len() <= after.len() <= before.len() + 1,
        forall|i: int| 0 <= i < before.len() ==> #[trigger] after[i] == before[i],
        forall|i: int| 0 <= i < before.len() ==> #[trigger] after.subrange(0, i) == before.subrange(0, i),
        after.len() > before.len() ==> {
            &&& after[before.len() as int] == candidate
            &&& !blocked_at(
                map,
                after.subrange(0, before.len() as int),
                candidate.x as int,
                candidate.y as int,
            )
        },
{
    assert forall|i: int| 0 <= i < before.len() implies #[trigger] after.subrange(0, i)
        == before.subrange(0, i) by {
        assert(after.subrange(0, i) =~= before.subrange(0, i));
    }
    if after.len() > before.len() {
        assert(after.subrange(0, before.len() as int) =~= before);
    }
}

} // verus!
