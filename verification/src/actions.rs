//! What the player and the monsters do in a turn.

use vstd::prelude::*;
use crate::color::Color;
use crate::entity::{Entity, EntityView, PLAYER};
use crate::fov::FovMap;
use crate::game::Game;
use crate::movement::{after_step, distance_squared, unit_step};
use crate::tile::TileGrid;

verus! {

/// The roster after entity `attacker` attacked entity `target`.
pub open spec fn after_attack(roster: Seq<EntityView>, attacker: int, target: int) -> Seq<EntityView> {
    roster.update(attacker, roster[attacker].after_attack_on(roster[target])).update(
        target,
        roster[target].struck_by(roster[attacker]),
    )
}

/// Whether entity `i` fights and stands at `(x, y)`.
pub open spec fn fights_at(roster: Seq<EntityView>, i: int, x: int, y: int) -> bool {
    roster[i].fighter is Some && roster[i].is_at(x, y)
}

/// The first entity from index `from` on that fights and stands at
/// `(x, y)`.
pub open spec fn first_fighter_at(roster: Seq<EntityView>, x: int, y: int, from: int) -> Option<int>
    decreases roster.len() - from,
{
    if from < 0 || from >= roster.len() {
        None
    } else if fights_at(roster, from, x, y) {
        Some(from)
    } else {
        first_fighter_at(roster, x, y, from + 1)
    }
}

/// Whom the player attacks when it heads by `(dx, dy)`: the first fighter in
/// the roster that stands on the cell it would reach.
pub open spec fn player_target(roster: Seq<EntityView>, dx: int, dy: int) -> Option<int> {
    first_fighter_at(roster, roster[0].x + dx, roster[0].y + dy, 0)
}

/// The roster after the player headed by `(dx, dy)`. A dead player does
/// nothing. A living one attacks its target if there is one, and else tries
/// to step.
pub open spec fn after_player_move(map: TileGrid, roster: Seq<EntityView>, dx: int, dy: int) -> Seq<EntityView> {
    if !roster[0].alive {
        roster
    } else {
        match player_target(roster, dx, dy) {
            Some(target) => after_attack(roster, 0, target),
            None => after_step(map, roster, 0, dx, dy),
        }
    }
}

/// The lines that the player's heading by `(dx, dy)` adds to the log.
pub open spec fn player_move_lines(roster: Seq<EntityView>, dx: int, dy: int) -> Seq<(Seq<char>, Color)> {
    if !roster[0].alive {
        Seq::empty()
    } else {
        match player_target(roster, dx, dy) {
            Some(target) => roster[0].attack_lines(roster[target]),
            None => Seq::empty(),
        }
    }
}

/// What a monster does in its turn.
pub enum Decision {
    /// Nothing.
    Rest,
    /// A step towards the player.
    Approach,
    /// An attack on the player.
    Strike,
}

/// What a monster decides. One that is out of view rests. One in view that
/// is two cells or more from the player approaches it. One that is nearer
/// attacks the player if the player has hit points left, and else rests.
pub open spec fn decide(visible: bool, monster: EntityView, player: EntityView) -> Decision {
    if !visible {
        Decision::Rest
    } else if distance_squared(monster, player) >= 4 {
        Decision::Approach
    } else if player.has_hp() {
        Decision::Strike
    } else {
        Decision::Rest
    }
}

/// What monster `id` decides.
pub open spec fn decision_of(fov: FovMap, roster: Seq<EntityView>, id: int) -> Decision {
    decide(fov.lit(roster[id].x as int, roster[id].y as int), roster[id], roster[0])
}

/// The roster after the turn of monster `id`.
pub open spec fn after_ai_turn(map: TileGrid, fov: FovMap, roster: Seq<EntityView>, id: int) -> Seq<EntityView> {
    match decision_of(fov, roster, id) {
        Decision::Rest => roster,
        Decision::Approach => {
            let step = unit_step(roster[0].x - roster[id].x, roster[0].y - roster[id].y);
            after_step(map, roster, id, step.0, step.1)
        },
        Decision::Strike => after_attack(roster, id, 0),
    }
}

/// The lines that the turn of monster `id` adds to the log.
pub open spec fn ai_turn_lines(fov: FovMap, roster: Seq<EntityView>, id: int) -> Seq<(Seq<char>, Color)> {
    match decision_of(fov, roster, id) {
        Decision::Strike => roster[id].attack_lines(roster[0]),
        _ => Seq::empty(),
    }
}

/// Whether entity `id` takes a turn of its own: it is not the player and
/// has a mind.
pub open spec fn acts(roster: Seq<EntityView>, id: int) -> bool {
    id != 0 && roster[id].ai is Some
}

/// The roster after the turns of the monsters from index `from` on, in
/// the order of the roster, and the lines that they add to the log.
pub open spec fn mobs_from(map: TileGrid, fov: FovMap, roster: Seq<EntityView>, from: int) -> (
    Seq<EntityView>,
    Seq<(Seq<char>, Color)>,
)
    decreases roster.len() - from,
{
    if from < 0 || from >= roster.len() {
        (roster, Seq::empty())
    } else if acts(roster, from) {
        let rest = mobs_from(map, fov, after_ai_turn(map, fov, roster, from), from + 1);
        (rest.0, ai_turn_lines(fov, roster, from) + rest.1)
    } else {
        mobs_from(map, fov, roster, from + 1)
    }
}

/// The roster after the monsters' turns, and the lines that they add to the
/// log. The monsters act only if the player is alive and has used its turn.
pub open spec fn after_mobs_turn(
    map: TileGrid,
    fov: FovMap,
    roster: Seq<EntityView>,
    player_took_turn: bool,
) -> (Seq<EntityView>, Seq<(Seq<char>, Color)>) {
    if roster[0].alive && player_took_turn {
        mobs_from(map, fov, roster, 0)
    } else {
        (roster, Seq::empty())
    }
}

/// The numbers of every attack that the monsters from index `from` on make
/// in their turns fit the machine.
pub open spec fn mobs_fit_from(map: TileGrid, fov: FovMap, roster: Seq<EntityView>, from: int) -> bool
    decreases roster.len() - from,
{
    if from < 0 || from >= roster.len() {
        true
    } else if acts(roster, from) {
        &&& ai_turn_fits(fov, roster, from)
        &&& mobs_fit_from(map, fov, after_ai_turn(map, fov, roster, from), from + 1)
    } else {
        mobs_fit_from(map, fov, roster, from + 1)
    }
}

/// The numbers of the attack that monster `id` makes in its turn, if it
/// makes one, fit the machine.
pub open spec fn ai_turn_fits(fov: FovMap, roster: Seq<EntityView>, id: int) -> bool {
    decision_of(fov, roster, id) is Strike ==> roster[id].attack_fits(roster[0])
}

/// The attack of each monster from index `from` on fits the machine as
/// long as the player has hit points left, however many.
pub open spec fn mobs_can_strike(roster: Seq<EntityView>, from: int) -> bool {
    roster[0].has_hp() ==> forall|j: int|
        from <= j < roster.len() && j != 0 ==> (#[trigger] roster[j]).can_strike(roster[0])
}

/// Where each monster's attack on the player fits the machine by the
/// powers, defenses and experience alone, the numbers of all their turns
/// fit: no turn gives the player hit points or defense, or a monster that
/// is yet to act anything at all.
pub proof fn lemma_mobs_fit(map: TileGrid, fov: FovMap, roster: Seq<EntityView>, from: int)
    requires
        roster.len() > 0,
        0 <= from,
        mobs_can_strike(roster, from),
    ensures
        mobs_fit_from(map, fov, roster, from),
    decreases roster.len() - from,
{
    if from >= roster.len() {
    } else if acts(roster, from) {
        let next = after_ai_turn(map, fov, roster, from);
        assert(next.len() == roster.len());
        assert(ai_turn_fits(fov, roster, from)) by {
            if decision_of(fov, roster, from) is Strike {
                assert(roster[0].has_hp());
                assert(roster[from].can_strike(roster[0]));
            }
        }
        assert(mobs_can_strike(next, from + 1)) by {
            if next[0].has_hp() {
                assert(roster[0].has_hp());
                assert forall|j: int| from + 1 <= j < next.len() && j != 0 implies (
                #[trigger] next[j]).can_strike(next[0]) by {
                    assert(next[j] == roster[j]);
                    assert(roster[j].can_strike(roster[0]));
                }
            }
        }
        lemma_mobs_fit(map, fov, next, from + 1);
    } else {
        lemma_mobs_fit(map, fov, roster, from + 1);
    }
}

/// The player does not attack itself, and the numbers of the attack that
/// it makes when it heads by `(dx, dy)`, if it makes one, fit the machine.
pub open spec fn player_move_fits(roster: Seq<EntityView>, dx: int, dy: int) -> bool {
    roster[0].alive ==> match player_target(roster, dx, dy) {
        Some(target) => target != 0 && roster[0].attack_fits(roster[target]),
        None => true,
    }
}

impl Entity {
    /// The turn of monster `monster_id`.
    pub fn ai_take_turn(monster_id: usize, fov: &FovMap, game: &mut Game, entities: &mut Vec<Entity>)
        requires
            0 < monster_id < old(entities).len(),
            old(game).map.wf(),
            fov.wf(),
            ai_turn_fits(*fov, old(entities).deep_view(), monster_id as int),
        ensures
            final(entities).deep_view() == after_ai_turn(
                old(game).map,
                *fov,
                old(entities).deep_view(),
                monster_id as int,
            ),
            final(game).messages@ == old(game).messages@ + ai_turn_lines(
                *fov,
                old(entities).deep_view(),
                monster_id as int,
            ),
            final(game).same_but_log(old(game)),
    {
        let (m_x, m_y) = entities[monster_id].get_coordinates();
        if fov.is_in_fov(m_x, m_y) {
            if entities[monster_id].distance_squared_to(&entities[PLAYER]) >= 4 {
                let (p_x, p_y) = entities[PLAYER].get_coordinates();
                Entity::move_towards(monster_id, p_x, p_y, &game.map, entities);
                assert(game.messages@ =~= old(game).messages@ + Seq::empty());
            } else if Entity::has_hit_points(&entities[PLAYER]) {
                let (monster, player) = Entity::mut_two(monster_id, PLAYER, entities);
                monster.attack(player, &mut game.messages);
                assert(entities.deep_view() =~= after_attack(
                    old(entities).deep_view(),
                    monster_id as int,
                    0,
                ));
            } else {
                assert(game.messages@ =~= old(game).messages@ + Seq::empty());
            }
        } else {
            assert(game.messages@ =~= old(game).messages@ + Seq::empty());
        }
    }

    /// The player heads by `(dx, dy)`: it attacks the first fighter on the
    /// cell it would reach, or steps there if nobody fights on it. A dead
    /// player does nothing.
    pub fn player_move_or_attack(
        _id: usize,
        dx: i32,
        dy: i32,
        game: &mut Game,
        entities: &mut Vec<Entity>,
    )
        requires
            old(entities).len() > 0,
            old(game).map.wf(),
            player_move_fits(old(entities).deep_view(), dx as int, dy as int),
        ensures
            final(entities).deep_view() == after_player_move(
                old(game).map,
                old(entities).deep_view(),
                dx as int,
                dy as int,
            ),
            final(game).messages@ == old(game).messages@ + player_move_lines(
                old(entities).deep_view(),
                dx as int,
                dy as int,
            ),
            final(game).same_but_log(old(game)),
    {
        if !entities[PLAYER].is_alive() {
            assert(game.messages@ =~= old(game).messages@ + Seq::empty());
            return ;
        }
        let (player_x, player_y) = entities[PLAYER].get_coordinates();
        let x: i64 = player_x as i64 + dx as i64;
        let y: i64 = player_y as i64 + dy as i64;
        let ghost roster = entities.deep_view();
        let mut target_id: Option<usize> = None;
        let mut i: usize = 0;
        while i < entities.len() && target_id.is_none()
            invariant
                0 <= i <= entities.len(),
                roster == entities.deep_view(),
                match target_id {
                    Some(t) => first_fighter_at(roster, x as int, y as int, 0) == Some(t as int)
                        && t < entities.len(),
                    None => first_fighter_at(roster, x as int, y as int, 0) == first_fighter_at(
                        roster,
                        x as int,
                        y as int,
                        i as int,
                    ),
                },
            decreases entities.len() - i + if target_id.is_none() { 1int } else { 0int },
        {
            if entities[i].fighter.is_some() && entities[i].x as i64 == x && entities[i].y as i64
                == y {
                assert(fights_at(roster, i as int, x as int, y as int));
                target_id = Some(i);
            } else {
                assert(!fights_at(roster, i as int, x as int, y as int));
                i = i + 1;
            }
        }
        match target_id {
            Some(target_id) => {
                let (player, target) = Entity::mut_two(PLAYER, target_id, entities);
                player.attack(target, &mut game.messages);
                assert(entities.deep_view() =~= after_attack(roster, 0, target_id as int));
            },
            None => {
                Entity::move_by(PLAYER, dx, dy, &game.map, entities);
                assert(game.messages@ =~= old(game).messages@ + Seq::empty());
            },
        }
    }

    /// The turns of the monsters, in the order of the roster. They act only
    /// if the player is alive and has used its turn.
    pub fn mobs_turn(game: &mut Game, fov: &FovMap, entities: &mut Vec<Entity>, player_took_turn: bool)
        requires
            old(entities).len() > 0,
            old(game).map.wf(),
            fov.wf(),
            old(entities)[0].alive && player_took_turn ==> mobs_fit_from(
                old(game).map,
                *fov,
                old(entities).deep_view(),
                0,
            ),
        ensures
            final(entities).deep_view() == after_mobs_turn(
                old(game).map,
                *fov,
                old(entities).deep_view(),
                player_took_turn,
            ).0,
            final(game).messages@ == old(game).messages@ + after_mobs_turn(
                old(game).map,
                *fov,
                old(entities).deep_view(),
                player_took_turn,
            ).1,
            final(game).same_but_log(old(game)),
    {
        if entities[PLAYER].is_alive() && player_took_turn {
            let ghost goal = mobs_from(game.map, *fov, entities.deep_view(), 0);
            let mut id: usize = 0;
            while id < entities.len()
                invariant
                    0 <= id <= entities.len(),
                    entities.len() > 0,
                    game.map.wf(),
                    fov.wf(),
                    game.same_but_log(old(game)),
                    mobs_fit_from(game.map, *fov, entities.deep_view(), id as int),
                    mobs_from(game.map, *fov, entities.deep_view(), id as int).0 == goal.0,
                    game.messages@ + mobs_from(game.map, *fov, entities.deep_view(), id as int).1
                        == old(game).messages@ + goal.1,
                decreases entities.len() - id,
            {
                let ghost before = entities.deep_view();
                let ghost log = game.messages@;
                if id != PLAYER && entities[id].ai.is_some() {
                    assert(acts(before, id as int));
                    Entity::ai_take_turn(id, fov, game, entities);
                    assert(game.messages@ + mobs_from(
                        game.map,
                        *fov,
                        entities.deep_view(),
                        id + 1,
                    ).1 =~= log + mobs_from(game.map, *fov, before, id as int).1);
                } else {
                    assert(!acts(before, id as int));
                }
                id = id + 1;
            }
            assert(game.messages@ =~= old(game).messages@ + goal.1);
        } else {
            assert(game.messages@ =~= old(game).messages@ + Seq::empty());
        }
    }

    /// Whether the entity fights and has hit points left.
    pub fn has_hit_points(&self) -> (b: bool)
        ensures
            b == self@.has_hp(),
    {
        match self.fighter {
            Some(f) => f.hp > 0,
            None => false,
        }
    }
}

} // verus!
