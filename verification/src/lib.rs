//! Selection of the nearest interactive entity around a controlling agent.
//!
//! Given what a world accessor reports about the entities visible to the
//! agent, the library classifies them, filters out the ineligible ones, ranks
//! the rest by priority class and proximity, and picks the one entity to
//! interact with.

pub mod blacklist;
pub mod candidate;
pub mod command;
pub mod distance;
pub mod engine;
pub mod entity;
pub mod errors;
pub mod flags;
pub mod object_type;
pub mod ranker;

pub use blacklist::{get_blacklist, is_blacklisted};
pub use candidate::Candidate;
pub use command::{
    interact_nearest, plan_interaction, Action, Event, Invocation, Outcome, Phase, Request,
    ERR_USAGE,
};
pub use distance::{INITIAL_DISTANCE, MAX_DISTANCE};
pub use engine::{find_best_candidate, link_is_terminal, Node, WorldSnapshot};
pub use entity::{has_summoner, is_player_summoned, Entity, PriorityClass};
pub use errors::LuaError;
pub use flags::{is_unit_lootable, is_unit_skinnable};
pub use object_type::ObjectType;
pub use ranker::Ranker;
