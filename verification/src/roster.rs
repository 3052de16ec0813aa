//! The invariant of the roster, and that every action keeps it.

use vstd::prelude::*;
use crate::actions::{
    after_ai_turn, after_attack, after_mobs_turn, after_player_move, acts, ai_turn_fits,
    decision_of, mobs_fit_from, mobs_from, player_move_fits, player_target,
};
use crate::entity::EntityView;
use crate::fov::FovMap;
use crate::inventory::{
    after_drop, after_effect, after_pick_up, after_use, closest, lemma_closest_is_nearest, use_fits,
    LIGHTNING_RANGE,
};
use crate::movement::after_step;
use crate::progression::{after_level_up, LevelUpChoice};
use crate::room::{generated, Room};
use crate::tile::TileGrid;
use crate::turn::{action_fits, item_underfoot, outcome_of, PlayerAction};

verus! {

/// Every entity is well formed: no fighter has more hit points than it can
/// have, and no item blocks.
pub open spec fn roster_wf(roster: Seq<EntityView>) -> bool {
    forall|i: int| 0 <= i < roster.len() ==> (#[trigger] roster[i]).wf()
}

/// A step keeps the roster well formed.
pub proof fn lemma_step_keeps_wf(map: TileGrid, roster: Seq<EntityView>, id: int, dx: int, dy: int)
    requires
        roster_wf(roster),
        0 <= id < roster.len(),
    ensures
        roster_wf(after_step(map, roster, id, dx, dy)),
        after_step(map, roster, id, dx, dy).len() == roster.len(),
{
    let after = after_step(map, roster, id, dx, dy);
    assert forall|i: int| 0 <= i < after.len() implies (#[trigger] after[i]).wf() by {
        assert(roster[i].wf());
    }
}

/// An attack keeps the roster well formed.
pub proof fn lemma_attack_keeps_wf(roster: Seq<EntityView>, attacker: int, target: int)
    requires
        roster_wf(roster),
        0 <= attacker < roster.len(),
        0 <= target < roster.len(),
        attacker != target,
        roster[attacker].attack_fits(roster[target]),
    ensures
        roster_wf(after_attack(roster, attacker, target)),
        after_attack(roster, attacker, target).len() == roster.len(),
{
    let after = after_attack(roster, attacker, target);
    assert(roster[attacker].wf());
    assert(roster[target].wf());
    assert forall|i: int| 0 <= i < after.len() implies (#[trigger] after[i]).wf() by {
        assert(roster[i].wf());
    }
}

/// The turn of a monster keeps the roster well formed.
pub proof fn lemma_ai_turn_keeps_wf(map: TileGrid, fov: FovMap, roster: Seq<EntityView>, id: int)
    requires
        roster_wf(roster),
        0 < id < roster.len(),
        ai_turn_fits(fov, roster, id),
    ensures
        roster_wf(after_ai_turn(map, fov, roster, id)),
        after_ai_turn(map, fov, roster, id).len() == roster.len(),
{
    let step = crate::movement::unit_step(roster[0].x - roster[id].x, roster[0].y - roster[id].y);
    lemma_step_keeps_wf(map, roster, id, step.0, step.1);
    if decision_of(fov, roster, id) is Strike {
        lemma_attack_keeps_wf(roster, id, 0);
    }
}

/// The turns of the monsters keep the roster well formed.
pub proof fn lemma_mobs_keep_wf(map: TileGrid, fov: FovMap, roster: Seq<EntityView>, from: int)
    requires
        roster_wf(roster),
        0 <= from,
        mobs_fit_from(map, fov, roster, from),
    ensures
        roster_wf(mobs_from(map, fov, roster, from).0),
        mobs_from(map, fov, roster, from).0.len() == roster.len(),
    decreases roster.len() - from,
{
    if from >= roster.len() {
    } else if acts(roster, from) {
        lemma_ai_turn_keeps_wf(map, fov, roster, from);
        lemma_mobs_keep_wf(map, fov, after_ai_turn(map, fov, roster, from), from + 1);
    } else {
        lemma_mobs_keep_wf(map, fov, roster, from + 1);
    }
}

/// Whom the player attacks is in the roster.
pub proof fn lemma_target_in_roster(roster: Seq<EntityView>, x: int, y: int, from: int)
    requires
        0 <= from,
    ensures
        crate::actions::first_fighter_at(roster, x, y, from) matches Some(t) ==> from <= t
            < roster.len(),
    decreases roster.len() - from,
{
    if from < roster.len() && !crate::actions::fights_at(roster, from, x, y) {
        lemma_target_in_roster(roster, x, y, from + 1);
    }
}

/// What the player does when it heads somewhere keeps the roster well
/// formed.
pub proof fn lemma_player_move_keeps_wf(map: TileGrid, roster: Seq<EntityView>, dx: int, dy: int)
    requires
        roster_wf(roster),
        roster.len() > 0,
        player_move_fits(roster, dx, dy),
    ensures
        roster_wf(after_player_move(map, roster, dx, dy)),
        after_player_move(map, roster, dx, dy).len() == roster.len(),
{
    lemma_step_keeps_wf(map, roster, 0, dx, dy);
    lemma_target_in_roster(roster, roster[0].x + dx, roster[0].y + dy, 0);
    if roster[0].alive {
        match player_target(roster, dx, dy) {
            Some(target) => {
                lemma_attack_keeps_wf(roster, 0, target);
            },
            None => {},
        }
    }
}

/// A level-up keeps the roster well formed.
pub proof fn lemma_level_up_keeps_wf(roster: Seq<EntityView>, choice: LevelUpChoice)
    requires
        roster_wf(roster),
        roster.len() > 0,
        roster[0].level_up_due() ==> roster[0].level_up_fits(choice),
    ensures
        roster_wf(after_level_up(roster, choice)),
{
    let after = after_level_up(roster, choice);
    assert(roster[0].wf());
    assert forall|i: int| 0 <= i < after.len() implies (#[trigger] after[i]).wf() by {
        assert(roster[i].wf());
    }
}

/// Whatever the player does keeps the roster and the inventory well formed.
pub proof fn lemma_action_keeps_wf(
    action: PlayerAction,
    map: TileGrid,
    fov: FovMap,
    roster: Seq<EntityView>,
    inventory: Seq<EntityView>,
)
    requires
        roster_wf(roster),
        roster_wf(inventory),
        roster.len() > 0,
        action_fits(action, fov, roster, inventory),
    ensures
        roster_wf(outcome_of(action, map, fov, roster, inventory).roster),
        roster_wf(outcome_of(action, map, fov, roster, inventory).inventory),
        outcome_of(action, map, fov, roster, inventory).roster.len() > 0,
{
    let outcome = outcome_of(action, map, fov, roster, inventory);
    match action {
        PlayerAction::Move { dx, dy } => {
            lemma_player_move_keeps_wf(map, roster, dx as int, dy as int);
        },
        PlayerAction::PickUp => {
            lemma_item_in_roster(roster, roster[0].x as int, roster[0].y as int, 1);
            match item_underfoot(roster) {
                Some(id) => {
                    let picked = after_pick_up(roster, inventory, id);
                    assert forall|i: int| 0 <= i < picked.roster.len() implies (
                    #[trigger] picked.roster[i]).wf() by {
                        assert(roster[i].wf());
                        assert(roster.last().wf());
                    }
                    assert forall|i: int| 0 <= i < picked.inventory.len() implies (
                    #[trigger] picked.inventory[i]).wf() by {
                        if i < inventory.len() {
                            assert(inventory[i].wf());
                        } else {
                            assert(roster[id].wf());
                        }
                    }
                },
                None => {},
            }
        },
        PlayerAction::UseItem { slot } => {
            if roster[0].alive {
                lemma_use_keeps_wf(roster, inventory, slot as int, fov);
            }
        },
        PlayerAction::DropItem { slot } => {
            let dropped = after_drop(roster, inventory, slot as int);
            assert forall|i: int| 0 <= i < dropped.roster.len() implies (
            #[trigger] dropped.roster[i]).wf() by {
                if i < roster.len() {
                    assert(roster[i].wf());
                } else {
                    assert(inventory[slot as int].wf());
                }
            }
            assert forall|i: int| 0 <= i < dropped.inventory.len() implies (
            #[trigger] dropped.inventory[i]).wf() by {
                if 0 <= slot < inventory.len() {
                    if i < slot {
                        assert(inventory[i].wf());
                    } else {
                        assert(inventory[i + 1].wf());
                    }
                } else {
                    assert(inventory[i].wf());
                }
            }
        },
        PlayerAction::Idle => {},
    }
}

/// The item that lies underfoot is in the roster, behind the player.
pub proof fn lemma_item_in_roster(roster: Seq<EntityView>, x: int, y: int, from: int)
    requires
        0 <= from,
    ensures
        crate::turn::first_item_at(roster, x, y, from) matches Some(i) ==> from <= i < roster.len(),
    decreases roster.len() - from,
{
    if from < roster.len() && !crate::turn::lies_at(roster, from, x, y) {
        lemma_item_in_roster(roster, x, y, from + 1);
    }
}

/// The use of an item keeps the roster and the inventory well formed.
pub proof fn lemma_use_keeps_wf(roster: Seq<EntityView>, inventory: Seq<EntityView>, slot: int, fov: FovMap)
    requires
        roster_wf(roster),
        roster_wf(inventory),
        roster.len() > 0,
        use_fits(roster, inventory, slot, fov),
    ensures
        roster_wf(after_use(roster, inventory, slot, fov).roster),
        roster_wf(after_use(roster, inventory, slot, fov).inventory),
        after_use(roster, inventory, slot, fov).roster.len() == roster.len(),
{
    let used = after_use(roster, inventory, slot, fov);
    lemma_closest_is_nearest(roster, fov, LIGHTNING_RANGE as int, roster.len() as int);
    assert(roster[0].wf());
    if 0 <= slot < inventory.len() {
        match inventory[slot].item {
            Some(item) => {
                let after = after_effect(item, roster, fov);
                match closest(roster, fov, LIGHTNING_RANGE as int) {
                    Some(target) => {
                        assert(roster[target].wf());
                    },
                    None => {},
                }
                assert forall|i: int| 0 <= i < after.len() implies (#[trigger] after[i]).wf() by {
                    assert(roster[i].wf());
                }
            },
            None => {},
        }
    }
    assert forall|i: int| 0 <= i < used.inventory.len() implies (#[trigger] used.inventory[i]).wf() by {
        if used.inventory.len() == inventory.len() {
            assert(inventory[i].wf());
        } else if i < slot {
            assert(inventory[i].wf());
        } else {
            assert(inventory[i + 1].wf());
        }
    }
}

/// The turns of the monsters after the player's keep the roster well
/// formed.
pub proof fn lemma_mobs_turn_keeps_wf(map: TileGrid, fov: FovMap, roster: Seq<EntityView>, player_took_turn: bool)
    requires
        roster_wf(roster),
        roster.len() > 0,
        roster[0].alive && player_took_turn ==> mobs_fit_from(map, fov, roster, 0),
    ensures
        roster_wf(after_mobs_turn(map, fov, roster, player_took_turn).0),
        after_mobs_turn(map, fov, roster, player_took_turn).0.len() == roster.len(),
{
    if roster[0].alive && player_took_turn {
        lemma_mobs_keep_wf(map, fov, roster, 0);
    }
}

/// The entities of a new level are well formed, if those were that it was
/// built for.
pub proof fn lemma_generated_keeps_wf(
    before: TileGrid,
    map: TileGrid,
    rooms: Seq<Room>,
    roster_before: Seq<EntityView>,
    roster: Seq<EntityView>,
)
    requires
        roster_wf(roster_before),
        roster_before.len() > 0,
        generated(before, map, rooms, roster_before, roster),
    ensures
        roster_wf(roster),
{
    assert forall|i: int| 0 <= i < roster.len() implies (#[trigger] roster[i]).wf() by {
        if i == 0 {
            assert(roster_before[0].wf());
        } else if i < roster_before.len() {
            assert(roster_before[i].wf());
        } else {
            assert(crate::spawn::is_spawn(roster[i]));
        }
    }
}

} // verus!
