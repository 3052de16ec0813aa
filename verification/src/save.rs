//! Snapshots of a session, to store it and to take it up again.

use vstd::prelude::*;
use crate::entity::{Entity, EntityView};
use crate::game::Game;
use crate::inventory::Line;
use crate::message::Messages;
use crate::tile::{Tile, TileGrid};

verus! {

/// All of a session: the level, the roster in its order, the log, the
/// inventory and the depth.
#[derive(Debug, PartialEq, Eq)]
pub struct SaveState {
    pub map: TileGrid,
    pub entities: Vec<Entity>,
    pub messages: Messages,
    pub inventory: Vec<Entity>,
    pub dungeon_level: u32,
}

/// A session as contracts see it.
pub struct SessionView {
    pub map: Seq<Seq<Tile>>,
    pub roster: Seq<EntityView>,
    pub messages: Seq<Line>,
    pub inventory: Seq<EntityView>,
    pub dungeon_level: u32,
}

/// The session that `game` and `entities` make up.
pub open spec fn session(game: Game, entities: Vec<Entity>) -> SessionView {
    SessionView {
        map: game.map@,
        roster: entities.deep_view(),
        messages: game.messages@,
        inventory: game.inventory.deep_view(),
        dungeon_level: game.dungeon_level,
    }
}

impl View for SaveState {
    type V = SessionView;

    open spec fn view(&self) -> SessionView {
        SessionView {
            map: self.map@,
            roster: self.entities.deep_view(),
            messages: self.messages@,
            inventory: self.inventory.deep_view(),
            dungeon_level: self.dungeon_level,
        }
    }
}

/// A copy of `entities`.
pub fn clone_roster(entities: &Vec<Entity>) -> (copy: Vec<Entity>)
    ensures
        copy.deep_view() == entities.deep_view(),
{
    let mut copy: Vec<Entity> = Vec::new();
    let mut i: usize = 0;
    while i < entities.len()
        invariant
            0 <= i <= entities.len(),
            copy.len() == i,
            forall|j: int| 0 <= j < i ==> (#[trigger] copy[j])@ == entities[j]@,
        decreases entities.len() - i,
    {
        copy.push(entities[i].clone());
        i = i + 1;
    }
    assert(copy.deep_view() =~= entities.deep_view());
    copy
}

impl SaveState {
    /// The snapshot can be played: its level has the size of a level, and
    /// its roster holds the player.
    pub open spec fn sound(&self) -> bool {
        self.map.wf() && self.entities.len() > 0
    }

    /// A snapshot of the session that `game` and `entities` make up.
    pub fn capture(game: &Game, entities: &Vec<Entity>) -> (state: SaveState)
        ensures
            state@ == session(*game, *entities),
            state.sound() == (game.map.wf() && entities.len() > 0),
    {
        let state = SaveState {
            map: game.map.clone(),
            entities: clone_roster(entities),
            messages: game.messages.clone(),
            inventory: clone_roster(&game.inventory),
            dungeon_level: game.dungeon_level,
        };
        assert(state.entities.deep_view().len() == entities.deep_view().len());
        assert(state.map.wf() == game.map.wf()) by {
            lemma_wf_by_view(state.map, game.map);
        }
        state
    }

    /// The session of a snapshot. A snapshot that cannot be played gives no
    /// session at all.
    pub fn restore(self) -> (restored: Option<(Game, Vec<Entity>)>)
        ensures
            restored is Some == self.sound(),
            restored matches Some((game, entities)) ==> {
                &&& session(game, entities) == self@
                &&& game.map.wf()
                &&& entities.len() > 0
            },
    {
        if !self.map.is_well_formed() || self.entities.len() == 0 {
            return None;
        }
        let game = Game {
            map: self.map,
            messages: self.messages,
            inventory: self.inventory,
            dungeon_level: self.dungeon_level,
        };
        Some((game, self.entities))
    }
}

/// Two grids with the same tiles are of the same size.
pub proof fn lemma_wf_by_view(a: TileGrid, b: TileGrid)
    requires
        a@ == b@,
    ensures
        a.wf() == b.wf(),
{
    assert(a.tiles.len() == a@.len());
    assert(b.tiles.len() == b@.len());
    assert forall|x: int| 0 <= x < a.tiles.len() implies (#[trigger] a.tiles[x]).len()
        == b.tiles[x].len() by {
        assert(a@[x] == a.tiles[x]@);
        assert(b@[x] == b.tiles[x]@);
    }
    if a.wf() {
        assert forall|x: int| 0 <= x < crate::tile::MAP_WIDTH implies (#[trigger] b.tiles[x]).len()
            == crate::tile::MAP_HEIGHT by {
            assert(a.tiles[x].len() == b.tiles[x].len());
        }
    }
    if b.wf() {
        assert forall|x: int| 0 <= x < crate::tile::MAP_WIDTH implies (#[trigger] a.tiles[x]).len()
            == crate::tile::MAP_HEIGHT by {
            assert(a.tiles[x].len() == b.tiles[x].len());
        }
    }
}

/// A session that is stored and taken up again is the session that it was:
/// the same tiles with what was explored, the same entities in the same
/// order, the same log, the same inventory, and the same depth.
pub proof fn lemma_round_trip(game: Game, entities: Vec<Entity>, state: SaveState, restored: Option<(Game, Vec<Entity>)>)
    requires
        game.map.wf(),
        entities.len() > 0,
        state@ == session(game, entities),
        state.sound() == (game.map.wf() && entities.len() > 0),
        restored is Some == state.sound(),
        restored matches Some((g, e)) ==> session(g, e) == state@,
    ensures
        restored matches Some((g, e)) && session(g, e) == session(game, entities),
{
}

} // verus!
