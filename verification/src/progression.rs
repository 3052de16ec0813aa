//! Experience, levels of the player, and the way down.

use vstd::prelude::*;
use vstd::string::StringExecFns;
use crate::color::{red, violet, yellow};
use crate::entity::{Entity, EntityView, Fighter, PLAYER};
use crate::fov::{fov_request, generate_fov_map, FovMap, FovRequest};
use crate::game::Game;
use crate::inventory::Line;
use crate::level::level_of;
use crate::room::{half, Room};
use crate::text::{append_decimal, decimal_text};
use crate::tile::{in_bounds, Tile, TileGrid, MAP_HEIGHT, MAP_WIDTH};

verus! {

/// Experience that the first level-up takes.
pub const LEVEL_UP_BASE: i32 = 200;

/// Experience that each level asks more than the one before.
pub const LEVEL_UP_FACTOR: i32 = 150;

/// Hit points that a level-up can give.
pub const LEVEL_UP_HP: i32 = 20;

/// What the player improves when it reaches a new level.
#[derive(Clone, Copy, Debug, PartialEq, Eq, Structural)]
pub enum LevelUpChoice {
    /// `LEVEL_UP_HP` more hit points, now and at most.
    Hp,
    /// One more power.
    Power,
    /// One more defense.
    Defense,
}

/// The experience that takes a player of level `level` to the next.
pub open spec fn level_up_threshold(level: int) -> int {
    LEVEL_UP_BASE + level * LEVEL_UP_FACTOR
}

/// The line that a level-up adds to the log.
pub open spec fn level_up_line(level: int) -> Line {
    (
        "Your battle skills grow stronger! You reached level "@ + decimal_text(level) + "!"@,
        yellow(),
    )
}

/// The first line that the way down adds to the log.
pub open spec fn rest_line() -> Line {
    ("You take a moment to rest, and recover your strength."@, violet())
}

/// The second line that the way down adds to the log.
pub open spec fn descend_line() -> Line {
    (
        "After a rare moment of peace, you descend deeper into the heart of the dungeon..."@,
        red(),
    )
}

impl Fighter {
    /// The fighter improved by `choice`.
    pub open spec fn improved(self, choice: LevelUpChoice) -> Fighter {
        match choice {
            LevelUpChoice::Hp => Fighter {
                max_hp: (self.max_hp + LEVEL_UP_HP) as i32,
                hp: (self.hp + LEVEL_UP_HP) as i32,
                ..self
            },
            LevelUpChoice::Power => Fighter { power: (self.power + 1) as i32, ..self },
            LevelUpChoice::Defense => Fighter { defense: (self.defense + 1) as i32, ..self },
        }
    }

    /// The numbers of the improvement by `choice` fit the machine.
    pub open spec fn improvement_fits(self, choice: LevelUpChoice) -> bool {
        match choice {
            LevelUpChoice::Hp => self.max_hp + LEVEL_UP_HP <= i32::MAX && self.hp + LEVEL_UP_HP
                <= i32::MAX,
            LevelUpChoice::Power => self.power + 1 <= i32::MAX,
            LevelUpChoice::Defense => self.defense + 1 <= i32::MAX,
        }
    }
}

impl EntityView {
    /// Whether the entity has the experience that its next level takes.
    pub open spec fn level_up_due(self) -> bool {
        self.fighter matches Some(f) && f.xp >= level_up_threshold(self.level as int)
    }

    /// The entity one level up: the experience that the level took is
    /// spent, what is beyond it is kept, and `choice` is applied.
    pub open spec fn leveled_up(self, choice: LevelUpChoice) -> EntityView {
        match self.fighter {
            Some(f) => EntityView {
                level: (self.level + 1) as i32,
                fighter: Some(
                    Fighter {
                        xp: (f.xp - level_up_threshold(self.level as int)) as i32,
                        ..f
                    }.improved(choice),
                ),
                ..self
            },
            None => self,
        }
    }

    /// The numbers of a level-up with `choice` fit the machine.
    pub open spec fn level_up_fits(self, choice: LevelUpChoice) -> bool {
        match self.fighter {
            Some(f) => {
                &&& self.level + 1 <= i32::MAX
                &&& i32::MIN <= f.xp - level_up_threshold(self.level as int) <= i32::MAX
                &&& f.improvement_fits(choice)
            },
            None => true,
        }
    }

    /// The hit points that the rest before the way down gives back: half
    /// of the most that the entity can have.
    pub open spec fn rest_hp(self) -> int {
        match self.fighter {
            Some(f) => half(f.max_hp as int),
            None => 0,
        }
    }
}

/// The roster after the check for a level-up: the player is one level up
/// if its experience suffices.
pub open spec fn after_level_up(roster: Seq<EntityView>, choice: LevelUpChoice) -> Seq<EntityView> {
    if roster[0].level_up_due() {
        roster.update(0, roster[0].leveled_up(choice))
    } else {
        roster
    }
}

/// The lines that the check for a level-up adds to the log.
pub open spec fn level_up_lines(roster: Seq<EntityView>) -> Seq<Line> {
    if roster[0].level_up_due() {
        seq![level_up_line(roster[0].level + 1)]
    } else {
        Seq::empty()
    }
}

/// A level-up takes the experience named by the threshold and no more, and
/// raises the level by one: what the player had beyond the threshold, it
/// keeps.
pub proof fn lemma_level_up_spends_threshold(player: EntityView, choice: LevelUpChoice)
    requires
        player.level_up_due(),
        player.level_up_fits(choice),
    ensures
        player.fighter.unwrap().xp >= LEVEL_UP_BASE + player.level * LEVEL_UP_FACTOR,
        player.leveled_up(choice).level == player.level + 1,
        player.leveled_up(choice).fighter.unwrap().xp == player.fighter.unwrap().xp - (LEVEL_UP_BASE
            + player.level * LEVEL_UP_FACTOR),
        player.leveled_up(choice).fighter.unwrap().xp >= 0,
{
}

/// A level of solid rock.
pub open spec fn solid(map: TileGrid) -> bool {
    map.wf() && forall|x: int, y: int| in_bounds(x, y) ==> #[trigger] map.at(x, y) == Tile::wall()
}

/// `map` is a level newly built out of solid rock, with `rooms` and what
/// `roster` holds beyond `roster_before`.
pub open spec fn fresh_level(
    map: TileGrid,
    rooms: Seq<Room>,
    roster_before: Seq<EntityView>,
    roster: Seq<EntityView>,
) -> bool {
    exists|rock: TileGrid| solid(rock) && #[trigger] level_of(rock, map, rooms, roster_before, roster)
}

/// Builds a new level for the entities of `entities`.
pub fn make_map(entities: &mut Vec<Entity>) -> (map: TileGrid)
    requires
        old(entities).len() > 0,
    ensures
        exists|rooms: Seq<Room>| #[trigger]
            fresh_level(map, rooms, old(entities).deep_view(), final(entities).deep_view()),
{
    let mut map = TileGrid::new();
    let ghost rock = map;
    let rooms = Room::generate_rooms(&mut map, entities);
    assert(level_of(rock, map, rooms@, old(entities).deep_view(), entities.deep_view()));
    assert(fresh_level(map, rooms@, old(entities).deep_view(), entities.deep_view()));
    map
}

impl LevelUpChoice {
    /// The choice that stands at `index` in the list that the player is
    /// shown.
    pub fn from_index(index: usize) -> (choice: Option<LevelUpChoice>)
        ensures
            choice == if index == 0 {
                Some(LevelUpChoice::Hp)
            } else if index == 1 {
                Some(LevelUpChoice::Power)
            } else if index == 2 {
                Some(LevelUpChoice::Defense)
            } else {
                None
            },
    {
        if index == 0 {
            Some(LevelUpChoice::Hp)
        } else if index == 1 {
            Some(LevelUpChoice::Power)
        } else if index == 2 {
            Some(LevelUpChoice::Defense)
        } else {
            None
        }
    }
}

impl Entity {
    /// The experience that takes the entity to its next level.
    pub fn level_up_xp(&self) -> (threshold: i64)
        ensures
            threshold == level_up_threshold(self.level as int),
    {
        LEVEL_UP_BASE as i64 + self.level as i64 * LEVEL_UP_FACTOR as i64
    }

    /// Whether the numbers of a level-up with `choice` fit the machine.
    pub fn can_level_up(&self, choice: LevelUpChoice) -> (fits: bool)
        ensures
            fits == self@.level_up_fits(choice),
    {
        match self.fighter {
            Some(f) => {
                let spent: i64 = f.xp as i64 - self.level_up_xp();
                let improvement_fits = match choice {
                    LevelUpChoice::Hp => f.max_hp <= i32::MAX - LEVEL_UP_HP && f.hp <= i32::MAX
                        - LEVEL_UP_HP,
                    LevelUpChoice::Power => f.power < i32::MAX,
                    LevelUpChoice::Defense => f.defense < i32::MAX,
                };
                self.level < i32::MAX && i32::MIN as i64 <= spent && spent <= i32::MAX as i64
                    && improvement_fits
            },
            None => true,
        }
    }

    /// Whether the entity has the experience that its next level takes.
    pub fn is_level_up_due(&self) -> (due: bool)
        ensures
            due == self@.level_up_due(),
    {
        match self.fighter {
            Some(f) => f.xp as i64 >= self.level_up_xp(),
            None => false,
        }
    }

    /// Checks whether the player has the experience that its next level
    /// takes. If so, the player goes one level up and improves by `choice`,
    /// and `true` is returned.
    pub fn level_up(choice: LevelUpChoice, game: &mut Game, entities: &mut Vec<Entity>) -> (leveled: bool)
        requires
            old(entities).len() > 0,
            old(entities).deep_view()[0].level_up_due() ==> old(entities).deep_view()[0].level_up_fits(
                choice,
            ),
        ensures
            leveled == old(entities).deep_view()[0].level_up_due(),
            final(entities).deep_view() == after_level_up(old(entities).deep_view(), choice),
            final(game).messages@ == old(game).messages@ + level_up_lines(old(entities).deep_view()),
            final(game).same_but_log(old(game)),
    {
        if !entities[PLAYER].is_level_up_due() {
            assert(game.messages@ =~= old(game).messages@ + level_up_lines(
                old(entities).deep_view(),
            ));
            return false;
        }
        let level: i32 = entities[PLAYER].level;
        let level_up_xp: i64 = entities[PLAYER].level_up_xp();
        let mut line = String::from_str("Your battle skills grow stronger! You reached level ");
        append_decimal(&mut line, level + 1);
        line.append("!");
        game.messages.add(line.as_str(), yellow());
        match entities[PLAYER].fighter {
            Some(f) => {
                let xp: i32 = (f.xp as i64 - level_up_xp) as i32;
                let improved = match choice {
                    LevelUpChoice::Hp => Fighter {
                        max_hp: f.max_hp + LEVEL_UP_HP,
                        hp: f.hp + LEVEL_UP_HP,
                        defense: f.defense,
                        power: f.power,
                        xp,
                        on_death: f.on_death,
                    },
                    LevelUpChoice::Power => Fighter {
                        max_hp: f.max_hp,
                        hp: f.hp,
                        defense: f.defense,
                        power: f.power + 1,
                        xp,
                        on_death: f.on_death,
                    },
                    LevelUpChoice::Defense => Fighter {
                        max_hp: f.max_hp,
                        hp: f.hp,
                        defense: f.defense + 1,
                        power: f.power,
                        xp,
                        on_death: f.on_death,
                    },
                };
                entities[PLAYER].level = level + 1;
                entities[PLAYER].fighter = Some(improved);
            },
            None => {},
        }
        assert(game.messages@ =~= old(game).messages@ + level_up_lines(old(entities).deep_view()));
        assert(entities.deep_view() =~= after_level_up(old(entities).deep_view(), choice));
        true
    }

    /// The way down. The player rests and wins back half of its hit points,
    /// and all other entities are left behind. A new level is built and
    /// filled, `fov` is told of its tiles, and the request is returned to
    /// compute the view anew from where the player now stands.
    pub fn next_level(game: &mut Game, entities: &mut Vec<Entity>, fov: &mut FovMap) -> (request: FovRequest)
        requires
            old(entities).len() > 0,
            old(game).dungeon_level < u32::MAX,
            old(entities).deep_view()[0].fighter matches Some(f) ==> f.hp + half(f.max_hp as int)
                >= i32::MIN,
            old(fov).wf(),
            old(fov).width >= MAP_WIDTH,
            old(fov).height >= MAP_HEIGHT,
        ensures
            final(game).dungeon_level == old(game).dungeon_level + 1,
            final(game).inventory == old(game).inventory,
            final(game).messages@ == old(game).messages@.push(rest_line()).push(descend_line()),
            exists|rooms: Seq<Room>| #[trigger]
                fresh_level(
                    final(game).map,
                    rooms,
                    seq![
                        old(entities).deep_view()[0].healed(old(entities).deep_view()[0].rest_hp()),
                    ],
                    final(entities).deep_view(),
                ),
            final(fov).mirrors(old(fov), &final(game).map),
            final(entities).len() > 0,
            request == (FovRequest::Compute {
                origin_x: final(entities)[0].x,
                origin_y: final(entities)[0].y,
                radius: crate::fov::TORCH_RADIUS,
                light_walls: crate::fov::FOV_LIGHT_WALLS,
            }),
    {
        game.messages.add("You take a moment to rest, and recover your strength.", violet());
        let heal_hp: i32 = match entities[PLAYER].fighter {
            Some(f) => f.max_hp / 2,
            None => 0,
        };
        entities[PLAYER].heal(heal_hp);
        game.messages.add(
            "After a rare moment of peace, you descend deeper into the heart of the dungeon...",
            red(),
        );
        game.dungeon_level = game.dungeon_level + 1;
        entities.truncate(1);
        assert(entities.deep_view() =~= seq![
            old(entities).deep_view()[0].healed(old(entities).deep_view()[0].rest_hp()),
        ]);
        game.map = make_map(entities);
        generate_fov_map(fov, &game.map);
        let (x, y) = entities[PLAYER].get_coordinates();
        FovRequest::Compute {
            origin_x: x,
            origin_y: y,
            radius: crate::fov::TORCH_RADIUS,
            light_walls: crate::fov::FOV_LIGHT_WALLS,
        }
    }
}

} // verus!
