//! The closed set of entity kinds.

use vstd::prelude::*;
use vstd::std_specs::convert::FromSpecImpl;

verus! {

/// Kind of an entity, as the world reports it.
#[derive(Debug, Clone, Copy, PartialEq, Eq, Structural)]
pub enum ObjectType {
    NoObject,
    Item,
    Container,
    Unit,
    Player,
    GameObject,
    DynamicObject,
    Corpse,
}

impl ObjectType {
    /// The kind that a raw value stands for; unrecognized values stand for `NoObject`.
    pub open spec fn of_raw(value: u32) -> ObjectType {
        if value == 1 {
            ObjectType::Item
        } else if value == 2 {
            ObjectType::Container
        } else if value == 3 {
            ObjectType::Unit
        } else if value == 4 {
            ObjectType::Player
        } else if value == 5 {
            ObjectType::GameObject
        } else if value == 6 {
            ObjectType::DynamicObject
        } else if value == 7 {
            ObjectType::Corpse
        } else {
            ObjectType::NoObject
        }
    }

    /// The raw value of a kind.
    pub open spec fn raw(self) -> u32 {
        match self {
            ObjectType::NoObject => 0,
            ObjectType::Item => 1,
            ObjectType::Container => 2,
            ObjectType::Unit => 3,
            ObjectType::Player => 4,
            ObjectType::GameObject => 5,
            ObjectType::DynamicObject => 6,
            ObjectType::Corpse => 7,
        }
    }

    /// The raw value of this kind.
    pub fn to_raw(self) -> (value: u32)
        ensures
            value == self.raw(),
            ObjectType::of_raw(value) == self,
    {
        match self {
            ObjectType::NoObject => 0,
            ObjectType::Item => 1,
            ObjectType::Container => 2,
            ObjectType::Unit => 3,
            ObjectType::Player => 4,
            ObjectType::GameObject => 5,
            ObjectType::DynamicObject => 6,
            ObjectType::Corpse => 7,
        }
    }
}

impl From<u32> for ObjectType {
    fn from(value: u32) -> (kind: ObjectType) {
        match value {
            1 => ObjectType::Item,
            2 => ObjectType::Container,
            3 => ObjectType::Unit,
            4 => ObjectType::Player,
            5 => ObjectType::GameObject,
            6 => ObjectType::DynamicObject,
            7 => ObjectType::Corpse,
            _ => ObjectType::NoObject,
        }
    }
}

impl FromSpecImpl<u32> for ObjectType {
    open spec fn obeys_from_spec() -> bool {
        true
    }

    open spec fn from_spec(value: u32) -> ObjectType {
        ObjectType::of_raw(value)
    }
}

impl Default for ObjectType {
    fn default() -> (kind: ObjectType)
        ensures
            kind == ObjectType::NoObject,
    {
        ObjectType::NoObject
    }
}

} // verus!
