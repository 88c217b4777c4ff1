//! Parses a PlantUML-flavored state-diagram text into a validated,
//! hierarchical finite-state-machine model.
//!
//! The pipeline: raw text runs through the grammar parser into an element
//! tree; the builder walks that tree, resolving names scope-relatively in an
//! arena of state nodes and parsing transition and state-description labels
//! on the way; validation then checks the injective action mapping, the
//! transition-conflict and guard rules, and the unique root enter state; a
//! successful build hands back an immutable, queryable [`ParsedFsm`].
//!
//! Every stage is specified: `ParsedFsm::try_parse` returns exactly the
//! model that the specification function `spec_try_parse` assigns to the
//! input text.

mod builder;
mod context;
mod error;
mod file;
mod fsm;
mod parser;
mod plantuml;
mod reference;
mod scoped_arena;
mod test_data;
mod text;
mod types;
mod validation;

pub use builder::BuilderV;
pub use builder::NodeV;
pub use builder::ParsedFsmBuilder;
pub use builder::StateData;
pub use builder::TransV;
pub use builder::TransitionData;
pub use builder::TransitionParameters;
pub use context::StateAction;
pub use context::TransitionContext;
pub use context::parse_state_description;
pub use context::parse_transaction_description;
pub use error::Error;
pub use file::FilePath;
pub use file::FsmFile;
pub use fsm::ParsedFsm;
pub use fsm::State;
pub use fsm::Transition;
pub use fsm::StateV;
pub use plantuml::CompositeState;
pub use plantuml::PlantUmlParser;
pub use plantuml::StateDescription;
pub use plantuml::StateDiagram;
pub use plantuml::StateElements;
pub use plantuml::TransitionDescription;
pub use reference::EmptyEventData;
pub use reference::IPlantFsmActions;
pub use reference::PlantFsm;
pub use reference::PlantFsmEvent;
pub use reference::PlantFsmState;
pub use reference::PlantSeason;
pub use scoped_arena::ArenaNode;
pub use scoped_arena::ScopedArena;
pub use test_data::FsmTestData;
pub use test_data::TestFsm;
pub use text::multi_ws;
pub use text::str_eq;
pub use text::ws;
pub use types::Action;
pub use types::Event;
pub use types::StateType;
pub use validation::FsmV;
pub use validation::injective_action_mapping;
pub use validation::no_conflicting_transitions;
pub use validation::unique_guards_per_event;
