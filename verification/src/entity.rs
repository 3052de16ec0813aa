//! Entities: the player, monsters and items, with combat, movement and
//! monster behaviour.

use vstd::prelude::*;
use vstd::string::StringExecFns;
use crate::color::{dark_red, orange, red, white, Color};
use crate::message::Messages;
use crate::text::{append_decimal, decimal_text};

verus! {

/// Index of the player in the roster.
pub const PLAYER: usize = 0;

/// What happens to an entity when it dies.
#[derive(Clone, Copy, Debug, PartialEq, Eq, Structural)]
pub enum DeathCallback {
    Player,
    Monster,
}

/// The part of an entity that fights.
#[derive(Clone, Copy, Debug, PartialEq, Eq, Structural)]
pub struct Fighter {
    pub max_hp: i32,
    pub hp: i32,
    pub defense: i32,
    pub power: i32,
    pub xp: i32,
    pub on_death: DeathCallback,
}

impl Fighter {
    /// Hit points never exceed their maximum.
    pub open spec fn wf(&self) -> bool {
        self.hp <= self.max_hp
    }

    /// Current and maximal hit points.
    pub fn get_hp(&self) -> (hp: (i32, i32))
        ensures
            hp == (self.hp, self.max_hp),
    {
        (self.hp, self.max_hp)
    }
}

/// How a monster makes its decisions.
#[derive(Clone, Copy, Debug, PartialEq, Eq, Structural)]
pub enum AI {
    Basic,
}

/// What an item does when it is used.
#[derive(Clone, Copy, Debug, PartialEq, Eq, Structural)]
pub enum Item {
    Heal,
    Lightning,
}

/// Anything that stands on the map or lies in the inventory.
#[derive(Debug, PartialEq, Eq)]
pub struct Entity {
    pub x: i32,
    pub y: i32,
    pub glyph: char,
    pub color: Color,
    pub name: String,
    pub blocks: bool,
    pub alive: bool,
    pub fighter: Option<Fighter>,
    pub ai: Option<AI>,
    pub item: Option<Item>,
    pub always_visible: bool,
    pub level: i32,
}

/// An entity as contracts see it: the name is a sequence of characters.
pub struct EntityView {
    pub x: i32,
    pub y: i32,
    pub glyph: char,
    pub color: Color,
    pub name: Seq<char>,
    pub blocks: bool,
    pub alive: bool,
    pub fighter: Option<Fighter>,
    pub ai: Option<AI>,
    pub item: Option<Item>,
    pub always_visible: bool,
    pub level: i32,
}

impl View for Entity {
    type V = EntityView;

    open spec fn view(&self) -> EntityView {
        EntityView {
            x: self.x,
            y: self.y,
            glyph: self.glyph,
            color: self.color,
            name: self.name@,
            blocks: self.blocks,
            alive: self.alive,
            fighter: self.fighter,
            ai: self.ai,
            item: self.item,
            always_visible: self.always_visible,
            level: self.level,
        }
    }
}

impl DeepView for Entity {
    type V = EntityView;

    open spec fn deep_view(&self) -> EntityView {
        self@
    }
}

impl EntityView {
    /// A fighter's hit points do not exceed their maximum, and an item does
    /// not block movement.
    pub open spec fn wf(self) -> bool {
        &&& self.fighter matches Some(f) ==> f.wf()
        &&& self.item is Some ==> !self.blocks
    }

    /// Attack strength; 0 for an entity that does not fight.
    pub open spec fn power(self) -> int {
        match self.fighter {
            Some(f) => f.power as int,
            None => 0,
        }
    }

    /// Protection against attacks; 0 for an entity that does not fight.
    pub open spec fn defense(self) -> int {
        match self.fighter {
            Some(f) => f.defense as int,
            None => 0,
        }
    }

    /// Whether the entity stands at `(x, y)`.
    pub open spec fn is_at(self, x: int, y: int) -> bool {
        self.x == x && self.y == y
    }

    /// The entity moved to `(x, y)`.
    pub open spec fn moved_to(self, x: i32, y: i32) -> EntityView {
        EntityView { x, y, ..self }
    }

    /// The entity turned into a corpse: no longer alive, drawn as `%` in
    /// dark red and named after what it was.
    pub open spec fn killed(self) -> EntityView {
        EntityView {
            alive: false,
            glyph: '%',
            color: dark_red(),
            name: "remains of "@ + self.name,
            ..self
        }
    }

    /// The entity after its death, by its policy. A monster becomes a corpse
    /// that neither blocks, fights nor acts. The player is marked dead and
    /// changes colour and name, and nothing else.
    pub open spec fn fallen(self, policy: DeathCallback) -> EntityView {
        match policy {
            DeathCallback::Player => EntityView {
                alive: false,
                color: dark_red(),
                name: "remains of "@ + self.name,
                ..self
            },
            DeathCallback::Monster => EntityView {
                blocks: false,
                fighter: None,
                ai: None,
                ..self.killed()
            },
        }
    }

    /// The line that a death adds to the log.
    pub open spec fn death_line(self, policy: DeathCallback) -> (Seq<char>, Color) {
        match policy {
            DeathCallback::Player => ("You died!"@, red()),
            DeathCallback::Monster => (self.name + " is dead!"@, orange()),
        }
    }

    /// Hit points after `damage`; damage that is not positive does nothing.
    pub open spec fn hp_after(self, damage: int) -> int {
        match self.fighter {
            Some(f) => if damage > 0 {
                f.hp - damage
            } else {
                f.hp as int
            },
            None => 0,
        }
    }

    /// Whether `damage` kills the entity: it fights, is alive, and its hit
    /// points fall to 0 or below. What is dead does not die again.
    pub open spec fn dies_from(self, damage: int) -> bool {
        self.alive && self.fighter is Some && self.hp_after(damage) <= 0
    }

    /// The entity after `damage`.
    pub open spec fn damaged(self, damage: int) -> EntityView {
        match self.fighter {
            Some(f) => {
                let hurt = EntityView {
                    fighter: Some(Fighter { hp: self.hp_after(damage) as i32, ..f }),
                    ..self
                };
                if self.dies_from(damage) {
                    hurt.fallen(f.on_death)
                } else {
                    hurt
                }
            },
            None => self,
        }
    }

    /// The experience that `damage` sets free: that of the entity, if the
    /// damage kills it.
    pub open spec fn xp_yield(self, damage: int) -> Option<i32> {
        if self.dies_from(damage) {
            Some(self.fighter.unwrap().xp)
        } else {
            None
        }
    }

    /// The lines that `damage` adds to the log.
    pub open spec fn damage_lines(self, damage: int) -> Seq<(Seq<char>, Color)> {
        if self.dies_from(damage) {
            seq![self.death_line(self.fighter.unwrap().on_death)]
        } else {
            Seq::empty()
        }
    }

    /// The entity with `gained` experience more, if it fights.
    pub open spec fn credited(self, gained: Option<i32>) -> EntityView {
        match (self.fighter, gained) {
            (Some(f), Some(xp)) => EntityView {
                fighter: Some(Fighter { xp: (f.xp + xp) as i32, ..f }),
                ..self
            },
            _ => self,
        }
    }

    /// The damage of an attack of `self` on `target`; it has an effect only
    /// if it is positive.
    pub open spec fn damage_on(self, target: EntityView) -> int {
        self.power() - target.defense()
    }

    /// The numbers of an attack of `self` on `target` fit the machine: the
    /// damage, the hit points that are left, and the experience gained.
    pub open spec fn attack_fits(self, target: EntityView) -> bool {
        let damage = self.damage_on(target);
        &&& damage <= i32::MAX
        &&& damage > 0 ==> target.hp_after(damage) >= i32::MIN
        &&& damage > 0 ==> self.credit_fits(target.xp_yield(damage))
    }

    /// The numbers of an attack of `self` on `target` fit the machine
    /// whatever hit points the target has left, as long as it has some.
    pub open spec fn can_strike(self, target: EntityView) -> bool {
        &&& self.damage_on(target) <= i32::MAX
        &&& match (self.fighter, target.fighter) {
            (Some(a), Some(t)) => i32::MIN <= a.xp + t.xp <= i32::MAX,
            _ => true,
        }
    }

    /// Whether the entity fights and has hit points left.
    pub open spec fn has_hp(self) -> bool {
        self.fighter matches Some(f) && f.hp > 0
    }

    /// The experience of `self` with `gained` more fits the machine.
    pub open spec fn credit_fits(self, gained: Option<i32>) -> bool {
        match (self.fighter, gained) {
            (Some(f), Some(xp)) => i32::MIN <= f.xp + xp <= i32::MAX,
            _ => true,
        }
    }

    /// The line that a hit adds to the log.
    pub open spec fn hit_line(self, target: EntityView, damage: int) -> (Seq<char>, Color) {
        (
            self.name + " attacks "@ + target.name + " for "@ + decimal_text(damage)
                + " hit points."@,
            white(),
        )
    }

    /// The line that an attack without effect adds to the log.
    pub open spec fn miss_line(self, target: EntityView) -> (Seq<char>, Color) {
        (self.name + " attacks "@ + target.name + " but it has no effect!"@, white())
    }

    /// The target after an attack of `self`.
    pub open spec fn struck_by(self, attacker: EntityView) -> EntityView {
        let damage = attacker.damage_on(self);
        if damage > 0 {
            self.damaged(damage)
        } else {
            self
        }
    }

    /// The attacker after its attack on `target`.
    pub open spec fn after_attack_on(self, target: EntityView) -> EntityView {
        let damage = self.damage_on(target);
        if damage > 0 {
            self.credited(target.xp_yield(damage))
        } else {
            self
        }
    }

    /// The lines that an attack of `self` on `target` adds to the log.
    pub open spec fn attack_lines(self, target: EntityView) -> Seq<(Seq<char>, Color)> {
        let damage = self.damage_on(target);
        if damage > 0 {
            seq![self.hit_line(target, damage)] + target.damage_lines(damage)
        } else {
            seq![self.miss_line(target)]
        }
    }
}

/// An attack does damage of the attacker's power less the target's
/// defense. Damage that is not positive changes nothing and is logged as
/// having no effect. Positive damage is taken from the target's hit points,
/// all of it and no more; the target dies of it exactly if it was alive and
/// is left with no hit points, and what has died cannot die again.
pub proof fn lemma_attack_damage(attacker: EntityView, target: EntityView)
    requires
        target.fighter is Some,
        attacker.attack_fits(target),
    ensures
        attacker.damage_on(target) <= 0 ==> {
            &&& target.struck_by(attacker) == target
            &&& attacker.after_attack_on(target) == attacker
            &&& attacker.attack_lines(target) == seq![attacker.miss_line(target)]
        },
        attacker.damage_on(target) > 0 && !target.dies_from(attacker.damage_on(target)) ==> {
            &&& target.struck_by(attacker) == (EntityView {
                fighter: Some(
                    Fighter {
                        hp: (target.fighter.unwrap().hp - attacker.damage_on(target)) as i32,
                        ..target.fighter.unwrap()
                    },
                ),
                ..target
            })
            &&& target.struck_by(attacker).fighter.unwrap().hp == target.fighter.unwrap().hp
                - attacker.damage_on(target)
            &&& attacker.after_attack_on(target) == attacker
        },
        attacker.damage_on(target) > 0 && target.dies_from(attacker.damage_on(target)) ==> {
            &&& target.alive
            &&& target.fighter.unwrap().hp - attacker.damage_on(target) <= 0
            &&& !target.struck_by(attacker).alive
            &&& forall|damage: int| !target.struck_by(attacker).dies_from(damage)
        },
{
}

/// What is not alive does not die: whatever damage it takes, it stays as
/// it is but for its hit points, it yields no experience, and the log says
/// nothing of it.
pub proof fn lemma_dead_stay_dead(entity: EntityView, damage: int)
    requires
        !entity.alive,
    ensures
        !entity.damaged(damage).alive,
        entity.damaged(damage).name == entity.name,
        entity.damaged(damage).glyph == entity.glyph,
        entity.damaged(damage).color == entity.color,
        entity.damaged(damage).blocks == entity.blocks,
        entity.damaged(damage).ai == entity.ai,
        entity.damaged(damage).fighter is Some == entity.fighter is Some,
        entity.xp_yield(damage) is None,
        entity.damage_lines(damage) == Seq::<(Seq<char>, Color)>::empty(),
{
}

/// Who kills a monster gains the experience that the monster holds, all of
/// it and once: its corpse yields nothing, whatever damage it takes and
/// whoever attacks it, and is not changed by it.
pub proof fn lemma_kill_credits_once(attacker: EntityView, monster: EntityView)
    requires
        attacker.fighter is Some,
        monster.fighter matches Some(f) && f.on_death == DeathCallback::Monster,
        attacker.attack_fits(monster),
        monster.dies_from(attacker.damage_on(monster)),
        attacker.damage_on(monster) > 0,
    ensures
        attacker.after_attack_on(monster).fighter.unwrap().xp == attacker.fighter.unwrap().xp
            + monster.fighter.unwrap().xp,
        attacker.after_attack_on(monster) == (EntityView {
            fighter: Some(
                Fighter {
                    xp: (attacker.fighter.unwrap().xp + monster.fighter.unwrap().xp) as i32,
                    ..attacker.fighter.unwrap()
                },
            ),
            ..attacker
        }),
        forall|damage: int|
            {
                &&& (#[trigger] monster.struck_by(attacker).xp_yield(damage)) is None
                &&& monster.struck_by(attacker).damaged(damage) == monster.struck_by(attacker)
            },
        forall|other: EntityView| #[trigger]
            other.after_attack_on(monster.struck_by(attacker)) == other,
{
}

impl Clone for Entity {
    fn clone(&self) -> (copy: Self)
        ensures
            copy@ == self@,
    {
        Entity {
            x: self.x,
            y: self.y,
            glyph: self.glyph,
            color: self.color,
            name: self.name.clone(),
            blocks: self.blocks,
            alive: self.alive,
            fighter: self.fighter,
            ai: self.ai,
            item: self.item,
            always_visible: self.always_visible,
            level: self.level,
        }
    }
}

impl Entity {
    /// An entity at `(x, y)` that is not alive, does not fight, does not act
    /// and is no item, on level 1.
    pub fn new(x: i32, y: i32, char: char, color: Color, name: &str, blocks: bool) -> (e: Entity)
        ensures
            e@ == (EntityView {
                x,
                y,
                glyph: char,
                color,
                name: name@,
                blocks,
                alive: false,
                fighter: None,
                ai: None,
                item: None,
                always_visible: false,
                level: 1,
            }),
            e@.wf(),
    {
        Entity {
            x,
            y,
            glyph: char,
            color,
            name: String::from_str(name),
            blocks,
            alive: false,
            fighter: None,
            ai: None,
            item: None,
            always_visible: false,
            level: 1,
        }
    }

    pub fn get_coordinates(&self) -> (c: (i32, i32))
        ensures
            c == (self.x, self.y),
    {
        (self.x, self.y)
    }

    pub fn set_position(&mut self, x: i32, y: i32)
        ensures
            final(self)@ == old(self)@.moved_to(x, y),
    {
        self.x = x;
        self.y = y;
    }

    pub fn get_is_blocks(&self) -> (b: bool)
        ensures
            b == self.blocks,
    {
        self.blocks
    }

    pub fn get_name(&self) -> (name: String)
        ensures
            name@ == self.name@,
    {
        self.name.clone()
    }

    pub fn get_fighter(&self) -> (f: Option<Fighter>)
        ensures
            f == self.fighter,
    {
        self.fighter
    }

    pub fn get_item(&self) -> (item: Option<Item>)
        ensures
            item == self.item,
    {
        self.item
    }

    pub fn get_level(&self) -> (level: i32)
        ensures
            level == self.level,
    {
        self.level
    }

    pub fn is_alive(&self) -> (b: bool)
        ensures
            b == self.alive,
    {
        self.alive
    }

    pub fn make_alive(&mut self)
        ensures
            final(self)@ == (EntityView { alive: true, ..old(self)@ }),
    {
        self.alive = true;
    }

    /// Makes the entity a fighter that has gained no experience yet.
    pub fn make_fighter(
        &mut self,
        max_hp: i32,
        hp: i32,
        defense: i32,
        power: i32,
        on_death: DeathCallback,
    )
        requires
            hp <= max_hp,
        ensures
            final(self)@ == (EntityView {
                fighter: Some(Fighter { max_hp, hp, defense, power, xp: 0, on_death }),
                ..old(self)@
            }),
            old(self)@.wf() ==> final(self)@.wf(),
    {
        self.fighter = Some(Fighter { max_hp, hp, defense, power, xp: 0, on_death });
    }

    /// Sets the experience of a fighter: what it has collected, and what it
    /// yields when it is killed. Does nothing to an entity that does not
    /// fight.
    pub fn set_xp(&mut self, xp: i32)
        ensures
            final(self)@ == match old(self)@.fighter {
                Some(f) => EntityView { fighter: Some(Fighter { xp, ..f }), ..old(self)@ },
                None => old(self)@,
            },
            old(self)@.wf() ==> final(self)@.wf(),
    {
        match self.fighter {
            Some(f) => {
                self.fighter = Some(
                    Fighter {
                        max_hp: f.max_hp,
                        hp: f.hp,
                        defense: f.defense,
                        power: f.power,
                        xp,
                        on_death: f.on_death,
                    },
                );
            },
            None => {},
        }
    }

    pub fn set_ai(&mut self)
        ensures
            final(self)@ == (EntityView { ai: Some(AI::Basic), ..old(self)@ }),
    {
        self.ai = Some(AI::Basic);
    }

    /// Makes the entity an item.
    pub fn set_item(&mut self, item: Item)
        requires
            !old(self).blocks,
        ensures
            final(self)@ == (EntityView { item: Some(item), ..old(self)@ }),
            old(self)@.wf() ==> final(self)@.wf(),
    {
        self.item = Some(item);
    }

    /// Whether the entity is drawn on explored tiles that are out of view.
    pub fn set_always_visible(&mut self, always_visible: bool)
        ensures
            final(self)@ == (EntityView { always_visible, ..old(self)@ }),
    {
        self.always_visible = always_visible;
    }

    /// Turns the entity into a corpse.
    pub fn kill(&mut self)
        ensures
            final(self)@ == old(self)@.killed(),
    {
        self.alive = false;
        self.glyph = '%';
        self.color = dark_red();
        let mut name = String::from_str("remains of ");
        name.append(self.name.as_str());
        self.name = name;
    }

    fn player_death(player: &mut Entity, messages: &mut Messages)
        ensures
            final(player)@ == old(player)@.fallen(DeathCallback::Player),
            final(messages)@ == old(messages)@.push(
                old(player)@.death_line(DeathCallback::Player),
            ),
    {
        messages.add("You died!", red());
        player.alive = false;
        player.color = dark_red();
        let mut name = String::from_str("remains of ");
        name.append(player.name.as_str());
        player.name = name;
    }

    fn monster_death(monster: &mut Entity, messages: &mut Messages)
        ensures
            final(monster)@ == old(monster)@.fallen(DeathCallback::Monster),
            final(messages)@ == old(messages)@.push(
                old(monster)@.death_line(DeathCallback::Monster),
            ),
    {
        let mut line = monster.name.clone();
        line.append(" is dead!");
        messages.add(line.as_str(), orange());
        monster.kill();
        monster.blocks = false;
        monster.fighter = None;
        monster.ai = None;
    }

    /// Takes `damage` from the hit points of a fighter. If a living fighter
    /// is thereby left with no hit points, it dies by its policy, and its
    /// experience is returned.
    pub fn take_damage(&mut self, damage: i32, messages: &mut Messages) -> (xp: Option<i32>)
        requires
            old(self)@.hp_after(damage as int) >= i32::MIN,
        ensures
            final(self)@ == old(self)@.damaged(damage as int),
            xp == old(self)@.xp_yield(damage as int),
            final(messages)@ == old(messages)@ + old(self)@.damage_lines(damage as int),
            old(self)@.wf() ==> final(self)@.wf(),
    {
        match self.fighter {
            Some(f) => {
                let hp: i32 = if damage > 0 {
                    f.hp - damage
                } else {
                    f.hp
                };
                self.fighter = Some(
                    Fighter {
                        max_hp: f.max_hp,
                        hp,
                        defense: f.defense,
                        power: f.power,
                        xp: f.xp,
                        on_death: f.on_death,
                    },
                );
                if self.alive && hp <= 0 {
                    f.on_death.callback(self, messages);
                    assert(messages@ =~= old(messages)@ + old(self)@.damage_lines(damage as int));
                    Some(f.xp)
                } else {
                    assert(messages@ =~= old(messages)@ + old(self)@.damage_lines(damage as int));
                    None
                }
            },
            None => {
                assert(messages@ =~= old(messages)@ + old(self)@.damage_lines(damage as int));
                None
            },
        }
    }

    /// Adds `gained` to the experience of a fighter.
    pub fn gain_xp(&mut self, gained: Option<i32>)
        requires
            old(self)@.credit_fits(gained),
        ensures
            final(self)@ == old(self)@.credited(gained),
            old(self)@.wf() ==> final(self)@.wf(),
    {
        match (self.fighter, gained) {
            (Some(f), Some(xp)) => {
                self.fighter = Some(
                    Fighter {
                        max_hp: f.max_hp,
                        hp: f.hp,
                        defense: f.defense,
                        power: f.power,
                        xp: f.xp + xp,
                        on_death: f.on_death,
                    },
                );
            },
            _ => {},
        }
    }

    /// Attacks `target`. Positive damage is taken from the target's hit
    /// points; if that kills it, the attacker gains its experience.
    pub fn attack(&mut self, target: &mut Entity, messages: &mut Messages)
        requires
            old(self)@.attack_fits(old(target)@),
        ensures
            final(self)@ == old(self)@.after_attack_on(old(target)@),
            final(target)@ == old(target)@.struck_by(old(self)@),
            final(messages)@ == old(messages)@ + old(self)@.attack_lines(old(target)@),
            old(self)@.wf() ==> final(self)@.wf(),
            old(target)@.wf() ==> final(target)@.wf(),
    {
        let power: i64 = match self.fighter {
            Some(f) => f.power as i64,
            None => 0,
        };
        let defense: i64 = match target.fighter {
            Some(f) => f.defense as i64,
            None => 0,
        };
        let damage: i64 = power - defense;
        if damage > 0 {
            let mut line = self.name.clone();
            line.append(" attacks ");
            line.append(target.name.as_str());
            line.append(" for ");
            append_decimal(&mut line, damage as i32);
            line.append(" hit points.");
            messages.add(line.as_str(), white());
            let gained = target.take_damage(damage as i32, messages);
            self.gain_xp(gained);
            assert(messages@ =~= old(messages)@ + old(self)@.attack_lines(old(target)@));
        } else {
            let mut line = self.name.clone();
            line.append(" attacks ");
            line.append(target.name.as_str());
            line.append(" but it has no effect!");
            messages.add(line.as_str(), white());
            assert(messages@ =~= old(messages)@ + old(self)@.attack_lines(old(target)@));
        }
    }
}

impl DeathCallback {
    /// Lets `entity` die by this policy.
    pub fn callback(self, entity: &mut Entity, messages: &mut Messages)
        ensures
            final(entity)@ == old(entity)@.fallen(self),
            final(messages)@ == old(messages)@.push(old(entity)@.death_line(self)),
    {
        match self {
            DeathCallback::Player => Entity::player_death(entity, messages),
            DeathCallback::Monster => Entity::monster_death(entity, messages),
        }
    }
}

} // verus!
