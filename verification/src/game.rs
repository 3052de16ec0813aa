//! The state of a session besides the roster.

use vstd::prelude::*;
use crate::color::red;
use crate::entity::{Entity, EntityView};
use crate::inventory::{Line, Outcome};
use crate::progression::{fresh_level, make_map};
use crate::room::Room;
use crate::message::Messages;
use crate::tile::TileGrid;

verus! {

/// The level that is played, the log, what the player carries, and how deep
/// the player has come.
#[derive(Debug, PartialEq, Eq)]
pub struct Game {
    pub map: TileGrid,
    pub messages: Messages,
    pub inventory: Vec<Entity>,
    pub dungeon_level: u32,
}

/// The line that greets the player.
pub open spec fn welcome_line() -> Line {
    ("Welcome stranger! Prepare to perish in the Tombs of the Ancient Kings."@, red())
}

impl Game {
    /// A new session for the entities of `entities`, the player first: a
    /// first level, built and filled, a log that greets the player, and an
    /// empty inventory.
    pub fn new(entities: &mut Vec<Entity>) -> (game: Game)
        requires
            old(entities).len() > 0,
        ensures
            exists|rooms: Seq<Room>| #[trigger]
                fresh_level(game.map, rooms, old(entities).deep_view(), final(entities).deep_view()),
            game.messages@ == seq![welcome_line()],
            game.inventory.deep_view() == Seq::<EntityView>::empty(),
            game.dungeon_level == 1,
    {
        let map = make_map(entities);
        let ghost rooms = choose|rooms: Seq<Room>| #[trigger]
            fresh_level(map, rooms, old(entities).deep_view(), entities.deep_view());
        let mut messages = Messages::new();
        messages.add(
            "Welcome stranger! Prepare to perish in the Tombs of the Ancient Kings.",
            red(),
        );
        let inventory: Vec<Entity> = Vec::new();
        assert(inventory.deep_view() =~= Seq::<EntityView>::empty());
        assert(messages@ =~= seq![welcome_line()]);
        let game = Game { map, messages, inventory, dungeon_level: 1 };
        assert(fresh_level(game.map, rooms, old(entities).deep_view(), entities.deep_view()));
        game
    }

    /// The session holds what `outcome` says: `self` and `entities` are
    /// what an action of the player has made of `before`. The level and
    /// its depth are as they were.
    pub open spec fn holds(&self, entities: &Vec<Entity>, before: &Game, outcome: Outcome) -> bool {
        &&& entities.deep_view() == outcome.roster
        &&& self.inventory.deep_view() == outcome.inventory
        &&& self.messages@ == before.messages@ + outcome.lines
        &&& self.map == before.map
        &&& self.dungeon_level == before.dungeon_level
    }

    /// Nothing but the log differs between `self` and `before`.
    pub open spec fn same_but_log(&self, before: &Game) -> bool {
        &&& self.map == before.map
        &&& self.inventory == before.inventory
        &&& self.dungeon_level == before.dungeon_level
    }
}

} // verus!
