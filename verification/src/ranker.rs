//! The candidate ranker: one best-so-far candidate per priority class.

use crate::candidate::Candidate;
use crate::distance::in_range;
use crate::entity::{unit_class, Entity, PriorityClass};
use crate::object_type::ObjectType;
use vstd::prelude::*;

verus! {

/// The four candidates of one selection pass.
#[derive(Debug, Clone, Copy, PartialEq, Eq)]
pub struct Ranker {
    pub lootable: Candidate,
    pub gameobject: Candidate,
    pub skinnable: Candidate,
    pub alive_unit: Candidate,
}

impl Ranker {
    /// The ranker at the start of a pass: no candidate holds an entity.
    pub open spec fn fresh() -> Ranker {
        Ranker {
            lootable: Candidate::fresh(),
            gameobject: Candidate::fresh(),
            skinnable: Candidate::fresh(),
            alive_unit: Candidate::fresh(),
        }
    }

    /// The candidate of a class.
    pub open spec fn get(self, class: PriorityClass) -> Candidate {
        match class {
            PriorityClass::Lootable => self.lootable,
            PriorityClass::GameObject => self.gameobject,
            PriorityClass::Skinnable => self.skinnable,
            PriorityClass::AliveUnit => self.alive_unit,
        }
    }

    /// The ranker after `offer` was put to the candidate of `class`.
    pub open spec fn offered(self, class: PriorityClass, offer: Candidate) -> Ranker {
        match class {
            PriorityClass::Lootable => Ranker { lootable: self.lootable.updated(offer), ..self },
            PriorityClass::GameObject => Ranker {
                gameobject: self.gameobject.updated(offer),
                ..self
            },
            PriorityClass::Skinnable => Ranker { skinnable: self.skinnable.updated(offer), ..self },
            PriorityClass::AliveUnit => Ranker {
                alive_unit: self.alive_unit.updated(offer),
                ..self
            },
        }
    }

    /// The ranker after a unit was sorted by its health and flags, whatever
    /// its eligibility and distance.
    pub open spec fn unit_processed(self, unit: Entity) -> Ranker {
        match unit_class(unit.health, unit.lootable, unit.skinnable) {
            Some(class) => self.offered(class, unit.candidate()),
            None => self,
        }
    }

    /// The ranker after one entity of the list was looked at: an entity that
    /// competes in a class is put to that class's candidate, any other
    /// changes nothing.
    pub open spec fn observed(self, entity: Entity) -> Ranker {
        match entity.class() {
            Some(class) => self.offered(class, entity.candidate()),
            None => self,
        }
    }

    /// The winner of the pass: the valid candidate of the highest class.
    pub open spec fn winner(self) -> Option<(Candidate, PriorityClass)> {
        if self.lootable.valid() {
            Some((self.lootable, PriorityClass::Lootable))
        } else if self.gameobject.valid() {
            Some((self.gameobject, PriorityClass::GameObject))
        } else if self.skinnable.valid() {
            Some((self.skinnable, PriorityClass::Skinnable))
        } else if self.alive_unit.valid() {
            Some((self.alive_unit, PriorityClass::AliveUnit))
        } else {
            None
        }
    }

    /// A ranker whose candidates hold no entity.
    pub fn new() -> (ranker: Ranker)
        ensures
            ranker == Ranker::fresh(),
    {
        Ranker {
            lootable: Candidate::new(),
            gameobject: Candidate::new(),
            skinnable: Candidate::new(),
            alive_unit: Candidate::new(),
        }
    }

    /// Sorts a unit that is eligible and in range by its health and flags,
    /// and puts it to the candidate of its class.
    pub fn process_unit(&mut self, unit: &Entity)
        ensures
            *final(self) == old(self).unit_processed(*unit),
    {
        if unit.health == 0 {
            if unit.lootable {
                self.lootable.update(unit.guid, unit.pointer, unit.obj_type, unit.distance);
            } else if unit.skinnable {
                self.skinnable.update(unit.guid, unit.pointer, unit.obj_type, unit.distance);
            }
        } else {
            self.alive_unit.update(unit.guid, unit.pointer, unit.obj_type, unit.distance);
        }
    }

    /// Looks at one resolved entity of the list: applies the eligibility
    /// filter, the range check and the dispatch by kind.
    pub fn observe(&mut self, entity: &Entity)
        ensures
            *final(self) == old(self).observed(*entity),
    {
        if !entity.is_eligible() {
            return;
        }
        match entity.obj_type {
            ObjectType::Unit => {
                if in_range(entity.distance) {
                    self.process_unit(entity);
                }
            },
            ObjectType::GameObject => {
                if in_range(entity.distance) {
                    self.gameobject.update(
                        entity.guid,
                        entity.pointer,
                        entity.obj_type,
                        entity.distance,
                    );
                }
            },
            _ => {},
        }
    }

    /// The winner of the pass: the first valid candidate in priority order.
    pub fn best(&self) -> (winner: Option<(Candidate, PriorityClass)>)
        ensures
            winner == self.winner(),
    {
        if self.lootable.is_valid() {
            Some((self.lootable, PriorityClass::Lootable))
        } else if self.gameobject.is_valid() {
            Some((self.gameobject, PriorityClass::GameObject))
        } else if self.skinnable.is_valid() {
            Some((self.skinnable, PriorityClass::Skinnable))
        } else if self.alive_unit.is_valid() {
            Some((self.alive_unit, PriorityClass::AliveUnit))
        } else {
            None
        }
    }
}

} // verus!
