//! What the world reports about one entity, and the rules that decide
//! whether and as what it may be interacted with.

use crate::blacklist::{blacklisted_ids, is_blacklisted};
use crate::candidate::Candidate;
use crate::distance::{in_range, within_range, INITIAL_DISTANCE};
use crate::object_type::ObjectType;
use vstd::prelude::*;

verus! {

/// The four classes of interaction targets, from the highest priority down.
#[derive(Debug, Clone, Copy, PartialEq, Eq, Structural)]
pub enum PriorityClass {
    /// A dead unit that carries loot.
    Lootable,
    /// A game object that is not blacklisted.
    GameObject,
    /// A dead unit without loot that can be skinned.
    Skinnable,
    /// A unit that is not dead.
    AliveUnit,
}

impl PriorityClass {
    /// Position in the priority order; a lower rank wins.
    pub open spec fn rank(self) -> int {
        match self {
            PriorityClass::Lootable => 0,
            PriorityClass::GameObject => 1,
            PriorityClass::Skinnable => 2,
            PriorityClass::AliveUnit => 3,
        }
    }
}

/// One resolved entity, as the world accessor reports it.
///
/// `distance` is the distance to the controlling agent; it is read for units
/// and game objects only. `health`, `lootable` and `skinnable` are read for
/// units only, `gameobject_id` for game objects only. `summoner` is the kind
/// of the entity that `summoned_by` resolves to, if it resolves.
#[derive(Debug, Clone, Copy, PartialEq, Eq)]
pub struct Entity {
    pub guid: u64,
    pub pointer: u32,
    pub obj_type: ObjectType,
    pub summoned_by: u64,
    pub summoner: Option<ObjectType>,
    pub distance: u32,
    pub health: i32,
    pub lootable: bool,
    pub skinnable: bool,
    pub gameobject_id: u32,
}

/// An entity counts as summoned by a player when its summoned-by identifier
/// is set and resolves to an entity of kind `Player`.
pub open spec fn summoned_by_player(summoned_by: u64, summoner: Option<ObjectType>) -> bool {
    summoned_by != 0 && summoner == Some(ObjectType::Player)
}

/// Whether a summoned-by identifier names a summoner at all: zero names
/// none, and there is nothing to resolve.
pub fn has_summoner(summoned_by: u64) -> (named: bool)
    ensures
        named == (summoned_by != 0),
        !named ==> forall|summoner: Option<ObjectType>| !summoned_by_player(summoned_by, summoner),
{
    summoned_by != 0
}

/// Whether an entity was summoned by a player. An identifier of zero, or one
/// that does not resolve, means that it was not.
pub fn is_player_summoned(summoned_by: u64, summoner: Option<ObjectType>) -> (summoned: bool)
    ensures
        summoned == summoned_by_player(summoned_by, summoner),
{
    if !has_summoner(summoned_by) {
        return false;
    }
    match summoner {
        Some(kind) => kind == ObjectType::Player,
        None => false,
    }
}

/// The class of a unit by its health and flags. A unit with zero health is
/// lootable remains if it carries loot, skinnable remains if it does not but
/// can be skinned, and nothing otherwise; a unit with any other health,
/// negative included, is alive.
pub open spec fn unit_class(health: i32, lootable: bool, skinnable: bool) -> Option<PriorityClass> {
    if health != 0 {
        Some(PriorityClass::AliveUnit)
    } else if lootable {
        Some(PriorityClass::Lootable)
    } else if skinnable {
        Some(PriorityClass::Skinnable)
    } else {
        None
    }
}

impl Entity {
    /// The eligibility filter: an entity summoned by a player is out, and so
    /// is a game object whose id is blacklisted.
    pub open spec fn eligible(self) -> bool {
        &&& !summoned_by_player(self.summoned_by, self.summoner)
        &&& !(self.obj_type == ObjectType::GameObject && blacklisted_ids().contains(
            self.gameobject_id,
        ))
    }

    /// The class under which an entity competes, if any: only eligible units
    /// and game objects within range compete.
    pub open spec fn class(self) -> Option<PriorityClass> {
        if !self.eligible() || !within_range(self.distance) {
            None
        } else if self.obj_type == ObjectType::Unit {
            unit_class(self.health, self.lootable, self.skinnable)
        } else if self.obj_type == ObjectType::GameObject {
            Some(PriorityClass::GameObject)
        } else {
            None
        }
    }

    /// What a candidate holds once this entity is recorded into it.
    pub open spec fn candidate(self) -> Candidate {
        Candidate {
            guid: self.guid,
            pointer: self.pointer,
            obj_type: self.obj_type,
            distance: self.distance,
        }
    }

    /// A unit as the accessor reports it, with no summoner.
    pub fn unit(
        guid: u64,
        pointer: u32,
        distance: u32,
        health: i32,
        lootable: bool,
        skinnable: bool,
    ) -> (entity: Entity)
        ensures
            entity == (Entity {
                guid,
                pointer,
                obj_type: ObjectType::Unit,
                summoned_by: 0,
                summoner: None,
                distance,
                health,
                lootable,
                skinnable,
                gameobject_id: 0,
            }),
    {
        Entity {
            guid,
            pointer,
            obj_type: ObjectType::Unit,
            summoned_by: 0,
            summoner: None,
            distance,
            health,
            lootable,
            skinnable,
            gameobject_id: 0,
        }
    }

    /// A game object as the accessor reports it, with no summoner.
    pub fn game_object(guid: u64, pointer: u32, distance: u32, gameobject_id: u32) -> (entity:
        Entity)
        ensures
            entity == (Entity {
                guid,
                pointer,
                obj_type: ObjectType::GameObject,
                summoned_by: 0,
                summoner: None,
                distance,
                health: 0,
                lootable: false,
                skinnable: false,
                gameobject_id,
            }),
    {
        Entity {
            guid,
            pointer,
            obj_type: ObjectType::GameObject,
            summoned_by: 0,
            summoner: None,
            distance,
            health: 0,
            lootable: false,
            skinnable: false,
            gameobject_id,
        }
    }

    /// An entity of a kind that has no position, with no summoner. Its
    /// distance is the one of an empty candidate.
    pub fn other(guid: u64, pointer: u32, obj_type: ObjectType) -> (entity: Entity)
        ensures
            entity == (Entity {
                guid,
                pointer,
                obj_type,
                summoned_by: 0,
                summoner: None,
                distance: INITIAL_DISTANCE,
                health: 0,
                lootable: false,
                skinnable: false,
                gameobject_id: 0,
            }),
    {
        Entity {
            guid,
            pointer,
            obj_type,
            summoned_by: 0,
            summoner: None,
            distance: INITIAL_DISTANCE,
            health: 0,
            lootable: false,
            skinnable: false,
            gameobject_id: 0,
        }
    }

    /// The same entity, summoned by `summoned_by`, an identifier that
    /// resolves to an entity of kind `summoner` or does not resolve.
    pub fn summoned(self, summoned_by: u64, summoner: Option<ObjectType>) -> (entity: Entity)
        ensures
            entity == (Entity { summoned_by, summoner, ..self }),
    {
        Entity { summoned_by, summoner, ..self }
    }

    /// The eligibility filter.
    pub fn is_eligible(&self) -> (eligible: bool)
        ensures
            eligible == self.eligible(),
    {
        if is_player_summoned(self.summoned_by, self.summoner) {
            return false;
        }
        match self.obj_type {
            ObjectType::GameObject => !is_blacklisted(self.gameobject_id),
            _ => true,
        }
    }


    /// The class under which this entity competes, if any.
    pub fn priority_class(&self) -> (class: Option<PriorityClass>)
        ensures
            class == self.class(),
    {
        if !self.is_eligible() || !in_range(self.distance) {
            return None;
        }
        match self.obj_type {
            ObjectType::Unit => {
                if self.health != 0 {
                    Some(PriorityClass::AliveUnit)
                } else if self.lootable {
                    Some(PriorityClass::Lootable)
                } else if self.skinnable {
                    Some(PriorityClass::Skinnable)
                } else {
                    None
                }
            },
            ObjectType::GameObject => Some(PriorityClass::GameObject),
            _ => None,
        }
    }
}

} // verus!
