//! The player's part of a turn.

use vstd::prelude::*;
use crate::actions::{after_player_move, player_move_fits, player_move_lines};
use crate::entity::{Entity, EntityView, PLAYER};
use crate::fov::FovMap;
use crate::game::Game;
use crate::inventory::{after_drop, after_pick_up, after_use, use_fits, Outcome};
use crate::tile::TileGrid;

verus! {

/// What the player wants to do.
#[derive(Clone, Copy, Debug, PartialEq, Eq, Structural)]
pub enum PlayerAction {
    /// Head by `(dx, dy)`: attack who stands there, or step there.
    Move { dx: i32, dy: i32 },
    /// Pick up the item that lies where the player stands.
    PickUp,
    /// Use the item in a slot of the inventory.
    UseItem { slot: usize },
    /// Drop the item in a slot of the inventory.
    DropItem { slot: usize },
    /// Nothing that changes the session.
    Idle,
}

/// Whether entity `i` is an item that lies at `(x, y)`.
pub open spec fn lies_at(roster: Seq<EntityView>, i: int, x: int, y: int) -> bool {
    roster[i].item is Some && roster[i].is_at(x, y)
}

/// The first entity from index `from` on that is an item and lies at
/// `(x, y)`.
pub open spec fn first_item_at(roster: Seq<EntityView>, x: int, y: int, from: int) -> Option<int>
    decreases roster.len() - from,
{
    if from < 0 || from >= roster.len() {
        None
    } else if lies_at(roster, from, x, y) {
        Some(from)
    } else {
        first_item_at(roster, x, y, from + 1)
    }
}

/// The item that the player would pick up: the first one in the roster,
/// behind the player, that lies where the player stands.
pub open spec fn item_underfoot(roster: Seq<EntityView>) -> Option<int> {
    first_item_at(roster, roster[0].x as int, roster[0].y as int, 1)
}

/// What `action` leaves of a session in which nothing happens.
pub open spec fn nothing(roster: Seq<EntityView>, inventory: Seq<EntityView>) -> Outcome {
    Outcome { roster, inventory, lines: Seq::empty(), took_turn: false }
}

/// What `action` leaves. Only heading somewhere uses up the turn, and it
/// does so even if the player is dead. The other actions are for the
/// living: a dead player does nothing.
pub open spec fn outcome_of(
    action: PlayerAction,
    map: TileGrid,
    fov: FovMap,
    roster: Seq<EntityView>,
    inventory: Seq<EntityView>,
) -> Outcome {
    match action {
        PlayerAction::Move { dx, dy } => Outcome {
            roster: after_player_move(map, roster, dx as int, dy as int),
            inventory,
            lines: player_move_lines(roster, dx as int, dy as int),
            took_turn: true,
        },
        PlayerAction::PickUp => match item_underfoot(roster) {
            Some(id) => if roster[0].alive {
                after_pick_up(roster, inventory, id)
            } else {
                nothing(roster, inventory)
            },
            None => nothing(roster, inventory),
        },
        PlayerAction::UseItem { slot } => if roster[0].alive {
            after_use(roster, inventory, slot as int, fov)
        } else {
            nothing(roster, inventory)
        },
        PlayerAction::DropItem { slot } => if roster[0].alive {
            after_drop(roster, inventory, slot as int)
        } else {
            nothing(roster, inventory)
        },
        PlayerAction::Idle => nothing(roster, inventory),
    }
}

/// The numbers of `action` fit the machine, and the player does not attack
/// itself.
pub open spec fn action_fits(
    action: PlayerAction,
    fov: FovMap,
    roster: Seq<EntityView>,
    inventory: Seq<EntityView>,
) -> bool {
    match action {
        PlayerAction::Move { dx, dy } => player_move_fits(roster, dx as int, dy as int),
        PlayerAction::UseItem { slot } => roster[0].alive ==> use_fits(
            roster,
            inventory,
            slot as int,
            fov,
        ),
        _ => true,
    }
}

/// The item that the player would pick up.
pub fn find_item_underfoot(entities: &Vec<Entity>) -> (found: Option<usize>)
    requires
        entities.len() > 0,
    ensures
        match found {
            Some(id) => 0 < id < entities.len() && item_underfoot(entities.deep_view()) == Some(
                id as int,
            ),
            None => item_underfoot(entities.deep_view()) is None,
        },
{
    let ghost roster = entities.deep_view();
    let (x, y) = entities[PLAYER].get_coordinates();
    let mut i: usize = 1;
    while i < entities.len()
        invariant
            1 <= i <= entities.len(),
            roster == entities.deep_view(),
            (x, y) == (roster[0].x, roster[0].y),
            first_item_at(roster, x as int, y as int, 1) == first_item_at(
                roster,
                x as int,
                y as int,
                i as int,
            ),
        decreases entities.len() - i,
    {
        if entities[i].get_item().is_some() && entities[i].x == x && entities[i].y == y {
            assert(lies_at(roster, i as int, x as int, y as int));
            return Some(i);
        }
        assert(!lies_at(roster, i as int, x as int, y as int));
        i = i + 1;
    }
    None
}

/// Does what the player wants to do, and says whether that used up the
/// player's turn.
pub fn player_controls(action: PlayerAction, fov: &FovMap, game: &mut Game, entities: &mut Vec<Entity>) -> (took_turn: bool)
    requires
        old(entities).len() > 0,
        old(game).map.wf(),
        fov.wf(),
        action_fits(action, *fov, old(entities).deep_view(), old(game).inventory.deep_view()),
    ensures
        final(game).holds(
            final(entities),
            old(game),
            outcome_of(
                action,
                old(game).map,
                *fov,
                old(entities).deep_view(),
                old(game).inventory.deep_view(),
            ),
        ),
        took_turn == outcome_of(
            action,
            old(game).map,
            *fov,
            old(entities).deep_view(),
            old(game).inventory.deep_view(),
        ).took_turn,
{
    let alive = entities[PLAYER].is_alive();
    match action {
        PlayerAction::Move { dx, dy } => {
            Entity::player_move_or_attack(PLAYER, dx, dy, game, entities);
            true
        },
        PlayerAction::PickUp => {
            if alive {
                match find_item_underfoot(entities) {
                    Some(item_id) => {
                        Entity::pick_item_up(item_id, game, entities);
                    },
                    None => {
                        assert(game.messages@ =~= old(game).messages@ + Seq::empty());
                    },
                }
            } else {
                assert(game.messages@ =~= old(game).messages@ + Seq::empty());
            }
            false
        },
        PlayerAction::UseItem { slot } => {
            if alive {
                Entity::use_item(slot, fov, game, entities);
            } else {
                assert(game.messages@ =~= old(game).messages@ + Seq::empty());
            }
            false
        },
        PlayerAction::DropItem { slot } => {
            if alive {
                Entity::drop_item(slot, game, entities);
            } else {
                assert(game.messages@ =~= old(game).messages@ + Seq::empty());
            }
            false
        },
        PlayerAction::Idle => {
            assert(game.messages@ =~= old(game).messages@ + Seq::empty());
            false
        },
    }
}

} // verus!
