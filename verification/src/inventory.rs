//! Picking up, dropping and using items.

use vstd::prelude::*;
use vstd::string::StringExecFns;
use crate::color::{green, light_blue, light_violet, red, white, yellow, Color};
use crate::entity::{Entity, EntityView, Fighter, Item, PLAYER};
use crate::fov::FovMap;
use crate::game::Game;
use crate::movement::{distance_squared, lemma_square_bound};
use crate::text::{append_decimal, decimal_text};

verus! {

/// Most items that the player can carry.
pub const INVENTORY_CAPACITY: usize = 26;

/// Hit points that a healing potion gives back.
pub const HEAL_AMOUNT: i32 = 4;

/// Damage of a lightning bolt.
pub const LIGHTNING_DAMAGE: i32 = 20;

/// How far a lightning bolt reaches.
pub const LIGHTNING_RANGE: i32 = 5;

/// How the use of an item ended.
#[derive(Clone, Copy, Debug, PartialEq, Eq, Structural)]
pub enum UseResult {
    /// The item did its work and is gone.
    UsedUp,
    /// Nothing happened; the item is kept.
    Cancelled,
}

/// A line of the log.
pub type Line = (Seq<char>, Color);

/// What an action of the player leaves: the roster, the inventory, the
/// lines that it adds to the log, and whether it used up the player's turn.
pub struct Outcome {
    pub roster: Seq<EntityView>,
    pub inventory: Seq<EntityView>,
    pub lines: Seq<Line>,
    pub took_turn: bool,
}

/// What picking up entity `id` leaves. With room in the inventory the
/// entity leaves the roster and joins the inventory. With a full inventory
/// only the log changes.
pub open spec fn after_pick_up(roster: Seq<EntityView>, inventory: Seq<EntityView>, id: int) -> Outcome {
    if inventory.len() >= INVENTORY_CAPACITY {
        Outcome { roster, inventory, lines: seq![inventory_full_line(roster[id])], took_turn: false }
    } else {
        Outcome {
            roster: without(roster, id),
            inventory: inventory.push(roster[id]),
            lines: seq![picked_up_line(roster[id])],
            took_turn: false,
        }
    }
}

/// What dropping the item in slot `slot` leaves. The item leaves the
/// inventory and joins the roster at its end, where the player stands. If
/// the slot holds nothing, only the log changes.
pub open spec fn after_drop(roster: Seq<EntityView>, inventory: Seq<EntityView>, slot: int) -> Outcome {
    if 0 <= slot < inventory.len() {
        Outcome {
            roster: roster.push(inventory[slot].moved_to(roster[0].x, roster[0].y)),
            inventory: inventory.remove(slot),
            lines: seq![dropped_line(inventory[slot])],
            took_turn: false,
        }
    } else {
        Outcome { roster, inventory, lines: seq![no_such_item_line()], took_turn: false }
    }
}

/// The roster without entity `id`: the last entity takes its place.
pub open spec fn without(roster: Seq<EntityView>, id: int) -> Seq<EntityView> {
    roster.update(id, roster.last()).drop_last()
}

/// The line that a pick-up adds to the log.
pub open spec fn picked_up_line(item: EntityView) -> Line {
    ("You picked up a "@ + item.name + "!"@, green())
}

/// The line that a pick-up adds to the log when the inventory is full.
pub open spec fn inventory_full_line(item: EntityView) -> Line {
    ("Your inventory is full, cannot pick up "@ + item.name + "."@, red())
}

/// The line that dropping an item adds to the log.
pub open spec fn dropped_line(item: EntityView) -> Line {
    ("You dropped a "@ + item.name + "."@, yellow())
}

/// The line that the log gets when a slot of the inventory is named that
/// holds nothing.
pub open spec fn no_such_item_line() -> Line {
    ("There is no such item in your inventory."@, red())
}

/// The line that the log gets when something is to be used that has no use.
pub open spec fn cannot_be_used_line(item: EntityView) -> Line {
    ("The "@ + item.name + " cannot be used."@, white())
}

/// The line that the log gets when the use of an item is cancelled.
pub open spec fn cancelled_line() -> Line {
    ("Cancelled"@, white())
}

/// The line that the log gets when a healing potion is used in full health.
pub open spec fn full_health_line() -> Line {
    ("You are already at full health."@, red())
}

/// The line that healing adds to the log.
pub open spec fn healed_line() -> Line {
    ("Your wounds start to feel better!"@, light_violet())
}

/// The line that a lightning bolt adds to the log.
pub open spec fn lightning_line(target: EntityView) -> Line {
    (
        "A lightning bolt strikes the "@ + target.name + " with a loud thunder! The damage is "@
            + decimal_text(LIGHTNING_DAMAGE as int) + " hit points."@,
        light_blue(),
    )
}

/// The line that the log gets when a lightning bolt finds nobody to strike.
pub open spec fn no_enemy_line() -> Line {
    ("No enemy is close enough to strike."@, red())
}

impl EntityView {
    /// The entity with `amount` hit points more, but no more than its
    /// maximum. Nothing heals what does not fight.
    pub open spec fn healed(self, amount: int) -> EntityView {
        match self.fighter {
            Some(f) => EntityView {
                fighter: Some(
                    Fighter {
                        hp: (if f.hp + amount > f.max_hp {
                            f.max_hp as int
                        } else {
                            f.hp + amount
                        }) as i32,
                        ..f
                    },
                ),
                ..self
            },
            None => self,
        }
    }

    /// Whether the entity fights and has all its hit points.
    pub open spec fn in_full_health(self) -> bool {
        self.fighter matches Some(f) && f.hp >= f.max_hp
    }
}

/// The roster after a healing potion was used: the player has
/// `HEAL_AMOUNT` hit points more, unless it does not fight or is in full
/// health.
pub open spec fn after_heal(roster: Seq<EntityView>) -> Seq<EntityView> {
    if heal_result(roster) == UseResult::UsedUp {
        roster.update(0, roster[0].healed(HEAL_AMOUNT as int))
    } else {
        roster
    }
}

/// How the use of a healing potion ends: it is used up unless the player
/// does not fight or is in full health.
pub open spec fn heal_result(roster: Seq<EntityView>) -> UseResult {
    if roster[0].fighter is Some && !roster[0].in_full_health() {
        UseResult::UsedUp
    } else {
        UseResult::Cancelled
    }
}

/// The lines that the use of a healing potion adds to the log.
pub open spec fn heal_lines(roster: Seq<EntityView>) -> Seq<Line> {
    if roster[0].fighter is None {
        Seq::empty()
    } else if roster[0].in_full_health() {
        seq![full_health_line()]
    } else {
        seq![healed_line()]
    }
}

/// The roster after a scroll of lightning bolt was used: the nearest
/// monster in reach takes `LIGHTNING_DAMAGE`, and the player gains its
/// experience if that kills it.
pub open spec fn after_lightning(roster: Seq<EntityView>, fov: FovMap) -> Seq<EntityView> {
    match closest(roster, fov, LIGHTNING_RANGE as int) {
        Some(target) => roster.update(target, roster[target].damaged(LIGHTNING_DAMAGE as int)).update(
            0,
            roster[0].credited(roster[target].xp_yield(LIGHTNING_DAMAGE as int)),
        ),
        None => roster,
    }
}

/// How the use of a scroll of lightning bolt ends: it is used up if a
/// monster is in reach.
pub open spec fn lightning_result(roster: Seq<EntityView>, fov: FovMap) -> UseResult {
    if closest(roster, fov, LIGHTNING_RANGE as int) is Some {
        UseResult::UsedUp
    } else {
        UseResult::Cancelled
    }
}

/// The lines that the use of a scroll of lightning bolt adds to the log.
pub open spec fn lightning_lines(roster: Seq<EntityView>, fov: FovMap) -> Seq<Line> {
    match closest(roster, fov, LIGHTNING_RANGE as int) {
        Some(target) => seq![lightning_line(roster[target])] + roster[target].damage_lines(
            LIGHTNING_DAMAGE as int,
        ),
        None => seq![no_enemy_line()],
    }
}

/// The numbers of a lightning bolt fit the machine: the hit points that
/// are left, and the experience gained.
pub open spec fn lightning_fits(roster: Seq<EntityView>, fov: FovMap) -> bool {
    match closest(roster, fov, LIGHTNING_RANGE as int) {
        Some(target) => {
            &&& roster[target].hp_after(LIGHTNING_DAMAGE as int) >= i32::MIN
            &&& roster[0].credit_fits(roster[target].xp_yield(LIGHTNING_DAMAGE as int))
        },
        None => true,
    }
}

/// The roster after an item of kind `item` was used.
pub open spec fn after_effect(item: Item, roster: Seq<EntityView>, fov: FovMap) -> Seq<EntityView> {
    match item {
        Item::Heal => after_heal(roster),
        Item::Lightning => after_lightning(roster, fov),
    }
}

/// How the use of an item of kind `item` ends.
pub open spec fn effect_result(item: Item, roster: Seq<EntityView>, fov: FovMap) -> UseResult {
    match item {
        Item::Heal => heal_result(roster),
        Item::Lightning => lightning_result(roster, fov),
    }
}

/// The lines that the effect of an item of kind `item` adds to the log.
pub open spec fn effect_lines(item: Item, roster: Seq<EntityView>, fov: FovMap) -> Seq<Line> {
    match item {
        Item::Heal => heal_lines(roster),
        Item::Lightning => lightning_lines(roster, fov),
    }
}

/// The numbers of the use of the item in slot `slot` fit the machine.
pub open spec fn use_fits(roster: Seq<EntityView>, inventory: Seq<EntityView>, slot: int, fov: FovMap) -> bool {
    0 <= slot < inventory.len() && inventory[slot].item == Some(Item::Lightning) ==> lightning_fits(
        roster,
        fov,
    )
}

/// What using the item in slot `slot` leaves. An item that did its work
/// leaves the inventory; one whose effect was cancelled stays, and the log
/// says so. A slot that holds nothing, or a thing without use, changes
/// only the log.
pub open spec fn after_use(roster: Seq<EntityView>, inventory: Seq<EntityView>, slot: int, fov: FovMap) -> Outcome {
    if 0 <= slot < inventory.len() {
        match inventory[slot].item {
            Some(item) => if effect_result(item, roster, fov) == UseResult::UsedUp {
                Outcome {
                    roster: after_effect(item, roster, fov),
                    inventory: inventory.remove(slot),
                    lines: effect_lines(item, roster, fov),
                    took_turn: false,
                }
            } else {
                Outcome {
                    roster: after_effect(item, roster, fov),
                    inventory,
                    lines: effect_lines(item, roster, fov).push(cancelled_line()),
                    took_turn: false,
                }
            },
            None => Outcome {
                roster,
                inventory,
                lines: seq![cannot_be_used_line(inventory[slot])],
                took_turn: false,
            },
        }
    } else {
        Outcome { roster, inventory, lines: seq![no_such_item_line()], took_turn: false }
    }
}

/// Whether entity `i` can be struck from afar: it is not the player, it
/// fights, has a mind and stands in view, no farther than `range` from the
/// player.
pub open spec fn in_reach(roster: Seq<EntityView>, fov: FovMap, range: int, i: int) -> bool {
    &&& 0 < i < roster.len()
    &&& roster[i].fighter is Some
    &&& roster[i].ai is Some
    &&& fov.lit(roster[i].x as int, roster[i].y as int)
    &&& range >= 0
    &&& distance_squared(roster[0], roster[i]) <= range * range
}

/// The nearest of the first `n` entities that can be struck from afar; of
/// several that are equally near, the first.
pub open spec fn closest_among(roster: Seq<EntityView>, fov: FovMap, range: int, n: int) -> Option<int>
    decreases n,
{
    if n <= 0 {
        None
    } else {
        let before = closest_among(roster, fov, range, n - 1);
        let nearer = match before {
            Some(b) => distance_squared(roster[0], roster[n - 1]) < distance_squared(
                roster[0],
                roster[b],
            ),
            None => true,
        };
        if in_reach(roster, fov, range, n - 1) && nearer {
            Some(n - 1)
        } else {
            before
        }
    }
}

/// The nearest entity that can be struck from afar.
pub open spec fn closest(roster: Seq<EntityView>, fov: FovMap, range: int) -> Option<int> {
    closest_among(roster, fov, range, roster.len() as int)
}

/// What the one that can be struck from afar is like: it is in reach, none
/// in reach is nearer, and none before it in the roster is as near. If
/// there is none, nobody is in reach.
pub proof fn lemma_closest_is_nearest(roster: Seq<EntityView>, fov: FovMap, range: int, n: int)
    requires
        0 <= n <= roster.len(),
    ensures
        match closest_among(roster, fov, range, n) {
            Some(c) => {
                &&& 0 < c < n
                &&& in_reach(roster, fov, range, c)
                &&& forall|j: int|
                    0 <= j < n && in_reach(roster, fov, range, j) ==> distance_squared(
                        roster[0],
                        roster[c],
                    ) <= distance_squared(roster[0], #[trigger] roster[j])
                &&& forall|j: int|
                    0 <= j < c && in_reach(roster, fov, range, j) ==> distance_squared(
                        roster[0],
                        roster[c],
                    ) < distance_squared(roster[0], #[trigger] roster[j])
            },
            None => forall|j: int| 0 <= j < n ==> !in_reach(roster, fov, range, j),
        },
    decreases n,
{
    if n > 0 {
        lemma_closest_is_nearest(roster, fov, range, n - 1);
    }
}

impl Entity {
    /// Gives the entity `amount` hit points more, but no more than its
    /// maximum.
    pub fn heal(&mut self, amount: i32)
        requires
            old(self).fighter matches Some(f) ==> f.hp + amount >= i32::MIN,
        ensures
            final(self)@ == old(self)@.healed(amount as int),
            old(self)@.wf() ==> final(self)@.wf(),
    {
        match self.fighter {
            Some(f) => {
                let raised: i64 = f.hp as i64 + amount as i64;
                let hp: i32 = if raised > f.max_hp as i64 {
                    f.max_hp
                } else {
                    raised as i32
                };
                self.fighter = Some(
                    Fighter {
                        max_hp: f.max_hp,
                        hp,
                        defense: f.defense,
                        power: f.power,
                        xp: f.xp,
                        on_death: f.on_death,
                    },
                );
            },
            None => {},
        }
    }

    /// The nearest monster in view that is no farther than `max_range` from
    /// the player.
    pub fn closest_monster(max_range: i32, fov: &FovMap, entities: &Vec<Entity>) -> (found: Option<usize>)
        requires
            fov.wf(),
            entities.len() > 0,
        ensures
            found matches Some(i) ==> i < entities.len(),
            match found {
                Some(i) => closest(entities.deep_view(), *fov, max_range as int) == Some(i as int),
                None => closest(entities.deep_view(), *fov, max_range as int) is None,
            },
    {
        let ghost roster = entities.deep_view();
        let mut found: Option<usize> = None;
        let mut best: i128 = 0;
        let mut id: usize = 0;
        while id < entities.len()
            invariant
                0 <= id <= entities.len(),
                entities.len() > 0,
                fov.wf(),
                roster == entities.deep_view(),
                match found {
                    Some(i) => i < id && closest_among(roster, *fov, max_range as int, id as int)
                        == Some(i as int) && best == distance_squared(roster[0], roster[i as int]),
                    None => closest_among(roster, *fov, max_range as int, id as int) is None,
                },
            decreases entities.len() - id,
        {
            if id != PLAYER && entities[id].fighter.is_some() && entities[id].ai.is_some()
                && fov.is_in_fov(entities[id].x, entities[id].y) && max_range >= 0 {
                let distance: i128 = entities[PLAYER].distance_squared_to(&entities[id]);
                proof {
                    lemma_square_bound(max_range as int);
                }
                let reach: i128 = (max_range as i128) * (max_range as i128);
                let nearer: bool = match found {
                    Some(_) => distance < best,
                    None => true,
                };
                if distance <= reach && nearer {
                    found = Some(id);
                    best = distance;
                }
            }
            id = id + 1;
        }
        found
    }

    /// The player picks up entity `item_id`: it leaves the roster, where the
    /// last entity takes its place, and joins the inventory. If the
    /// inventory is full, nothing changes but the log.
    pub fn pick_item_up(item_id: usize, game: &mut Game, entities: &mut Vec<Entity>)
        requires
            0 < item_id < old(entities).len(),
        ensures
            final(game).holds(
                final(entities),
                old(game),
                after_pick_up(
                    old(entities).deep_view(),
                    old(game).inventory.deep_view(),
                    item_id as int,
                ),
            ),
    {
        if game.inventory.len() >= INVENTORY_CAPACITY {
            let mut line = String::from_str("Your inventory is full, cannot pick up ");
            line.append(entities[item_id].name.as_str());
            line.append(".");
            game.messages.add(line.as_str(), red());
            assert(game.messages@ =~= old(game).messages@ + seq![
                inventory_full_line(old(entities).deep_view()[item_id as int]),
            ]);
        } else {
            let item = entities.swap_remove(item_id);
            let mut line = String::from_str("You picked up a ");
            line.append(item.name.as_str());
            line.append("!");
            game.messages.add(line.as_str(), green());
            game.inventory.push(item);
            assert(entities.deep_view() =~= without(old(entities).deep_view(), item_id as int));
            assert(game.inventory.deep_view() =~= old(game).inventory.deep_view().push(
                old(entities).deep_view()[item_id as int],
            ));
            assert(game.messages@ =~= old(game).messages@ + seq![
                picked_up_line(old(entities).deep_view()[item_id as int]),
            ]);
        }
    }

    /// The player drops the item in slot `inventory_id`: it leaves the
    /// inventory and joins the roster at its end, where the player stands.
    /// If the slot holds nothing, nothing changes but the log.
    pub fn drop_item(inventory_id: usize, game: &mut Game, entities: &mut Vec<Entity>)
        requires
            old(entities).len() > 0,
        ensures
            final(game).holds(
                final(entities),
                old(game),
                after_drop(
                    old(entities).deep_view(),
                    old(game).inventory.deep_view(),
                    inventory_id as int,
                ),
            ),
    {
        if inventory_id >= game.inventory.len() {
            game.messages.add("There is no such item in your inventory.", red());
            assert(game.messages@ =~= old(game).messages@ + seq![no_such_item_line()]);
        } else {
            let mut item = game.inventory.remove(inventory_id);
            let (x, y) = entities[PLAYER].get_coordinates();
            item.set_position(x, y);
            let mut line = String::from_str("You dropped a ");
            line.append(item.name.as_str());
            line.append(".");
            game.messages.add(line.as_str(), yellow());
            entities.push(item);
            assert(game.inventory.deep_view() =~= old(game).inventory.deep_view().remove(
                inventory_id as int,
            ));
            assert(entities.deep_view() =~= old(entities).deep_view().push(
                old(game).inventory.deep_view()[inventory_id as int].moved_to(x, y),
            ));
            assert(game.messages@ =~= old(game).messages@ + seq![
                dropped_line(old(game).inventory.deep_view()[inventory_id as int]),
            ]);
        }
    }

    /// The effect of a healing potion: the player gains `HEAL_AMOUNT` hit
    /// points, up to its maximum. In full health nothing happens.
    pub fn cast_heal(_inventory_id: usize, _fov: &FovMap, game: &mut Game, entities: &mut Vec<Entity>) -> (result: UseResult)
        requires
            old(entities).len() > 0,
        ensures
            result == heal_result(old(entities).deep_view()),
            final(entities).deep_view() == after_heal(old(entities).deep_view()),
            final(game).messages@ == old(game).messages@ + heal_lines(old(entities).deep_view()),
            final(game).same_but_log(old(game)),
    {
        match entities[PLAYER].fighter {
            Some(fighter) => {
                if fighter.hp >= fighter.max_hp {
                    game.messages.add("You are already at full health.", red());
                    assert(game.messages@ =~= old(game).messages@ + heal_lines(
                        old(entities).deep_view(),
                    ));
                    return UseResult::Cancelled;
                }
                game.messages.add("Your wounds start to feel better!", light_violet());
                entities[PLAYER].heal(HEAL_AMOUNT);
                assert(game.messages@ =~= old(game).messages@ + heal_lines(
                    old(entities).deep_view(),
                ));
                assert(entities.deep_view() =~= after_heal(old(entities).deep_view()));
                UseResult::UsedUp
            },
            None => {
                assert(game.messages@ =~= old(game).messages@ + heal_lines(
                    old(entities).deep_view(),
                ));
                UseResult::Cancelled
            },
        }
    }

    /// The effect of a scroll of lightning bolt: the nearest monster in
    /// reach takes `LIGHTNING_DAMAGE`. With no monster in reach nothing
    /// happens.
    pub fn cast_lightning(_inventory_id: usize, fov: &FovMap, game: &mut Game, entities: &mut Vec<Entity>) -> (result: UseResult)
        requires
            old(entities).len() > 0,
            fov.wf(),
            lightning_fits(old(entities).deep_view(), *fov),
        ensures
            result == lightning_result(old(entities).deep_view(), *fov),
            final(entities).deep_view() == after_lightning(old(entities).deep_view(), *fov),
            final(game).messages@ == old(game).messages@ + lightning_lines(
                old(entities).deep_view(),
                *fov,
            ),
            final(game).same_but_log(old(game)),
    {
        let ghost roster = entities.deep_view();
        let monster_id = Entity::closest_monster(LIGHTNING_RANGE, fov, entities);
        match monster_id {
            Some(monster_id) => {
                proof {
                    lemma_closest_is_nearest(
                        roster,
                        *fov,
                        LIGHTNING_RANGE as int,
                        roster.len() as int,
                    );
                }
                let mut line = String::from_str("A lightning bolt strikes the ");
                line.append(entities[monster_id].name.as_str());
                line.append(" with a loud thunder! The damage is ");
                append_decimal(&mut line, LIGHTNING_DAMAGE);
                line.append(" hit points.");
                game.messages.add(line.as_str(), light_blue());
                let gained = entities[monster_id].take_damage(LIGHTNING_DAMAGE, &mut game.messages);
                entities[PLAYER].gain_xp(gained);
                assert(game.messages@ =~= old(game).messages@ + lightning_lines(roster, *fov));
                assert(entities.deep_view() =~= after_lightning(roster, *fov));
                UseResult::UsedUp
            },
            None => {
                game.messages.add("No enemy is close enough to strike.", red());
                assert(game.messages@ =~= old(game).messages@ + lightning_lines(roster, *fov));
                UseResult::Cancelled
            },
        }
    }

    /// The player uses the item in slot `inventory_id`. An item that did
    /// its work leaves the inventory; one whose effect was cancelled stays.
    /// If the slot holds nothing, or a thing without use, nothing changes
    /// but the log.
    pub fn use_item(inventory_id: usize, fov: &FovMap, game: &mut Game, entities: &mut Vec<Entity>)
        requires
            old(entities).len() > 0,
            fov.wf(),
            use_fits(
                old(entities).deep_view(),
                old(game).inventory.deep_view(),
                inventory_id as int,
                *fov,
            ),
        ensures
            final(game).holds(
                final(entities),
                old(game),
                after_use(
                    old(entities).deep_view(),
                    old(game).inventory.deep_view(),
                    inventory_id as int,
                    *fov,
                ),
            ),
    {
        let ghost inventory = game.inventory.deep_view();
        let ghost roster = entities.deep_view();
        if inventory_id >= game.inventory.len() {
            game.messages.add("There is no such item in your inventory.", red());
            assert(game.messages@ =~= old(game).messages@ + after_use(
                roster,
                inventory,
                inventory_id as int,
                *fov,
            ).lines);
            return ;
        }
        match game.inventory[inventory_id].get_item() {
            Some(item) => {
                let result = match item {
                    Item::Heal => Entity::cast_heal(inventory_id, fov, game, entities),
                    Item::Lightning => Entity::cast_lightning(inventory_id, fov, game, entities),
                };
                match result {
                    UseResult::UsedUp => {
                        game.inventory.remove(inventory_id);
                        assert(game.inventory.deep_view() =~= inventory.remove(inventory_id as int));
                    },
                    UseResult::Cancelled => {
                        game.messages.add("Cancelled", white());
                    },
                }
                assert(game.messages@ =~= old(game).messages@ + after_use(
                    roster,
                    inventory,
                    inventory_id as int,
                    *fov,
                ).lines);
            },
            None => {
                let mut line = String::from_str("The ");
                line.append(game.inventory[inventory_id].name.as_str());
                line.append(" cannot be used.");
                game.messages.add(line.as_str(), white());
                assert(game.messages@ =~= old(game).messages@ + after_use(
                    roster,
                    inventory,
                    inventory_id as int,
                    *fov,
                ).lines);
            },
        }
    }
}

} // verus!
