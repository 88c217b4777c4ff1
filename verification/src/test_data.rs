//! Ready-made FSM models with their diagram texts, built through the public
//! builder API. They serve as fixtures: the model a diagram text should
//! parse to, stated independently of the parser.

use vstd::prelude::*;

use crate::builder::ParsedFsmBuilder;
use crate::builder::TransitionParameters;
use crate::error::Error;
use crate::fsm::ParsedFsm;
use crate::types::Action;
use crate::types::Event;
use crate::types::StateType;

verus! {

/// A diagram text together with the model it should parse to.
pub struct TestFsm {
    pub plant_uml_code: &'static str,
    pub fsm: Result<ParsedFsm, Error>,
}

impl TestFsm {
    /// All ready-made fixtures.
    pub fn all() -> Vec<TestFsm> {
        let mut v: Vec<TestFsm> = Vec::new();
        v.push(Self::simple_fsm());
        v
    }

    /// A one-state machine.
    pub fn simple_fsm() -> TestFsm {
        let mut builder = ParsedFsmBuilder::new("Plant Seasonal Lifecycle");
        builder.add_state("Winter", StateType::Enter);
        TestFsm {
            plant_uml_code: "@startuml Plant Seasonal Lifecycle\n[*] --> Winter\n@enduml",
            fsm: builder.build(),
        }
    }
}

/// A named diagram text together with the model it should parse to, built
/// step by step through the builder.
pub struct FsmTestData {
    pub name: &'static str,
    pub content: &'static str,
    pub parsed: Result<ParsedFsm, Error>,
}

fn build_transitions_fsm() -> Result<ParsedFsm, Error> {
    let mut builder = ParsedFsmBuilder::new("TestFsm");
    builder.add_state("StateA", StateType::Enter);
    builder.add_transition(
        TransitionParameters {
            source: "StateA",
            target: "StateA",
            event: Event::from("SelfTransition"),
            action: Some(Action::from("Action1")),
            guard: None,
        },
    );
    builder.add_transition(
        TransitionParameters {
            source: "StateA",
            target: "StateB",
            event: Event::from("GoToB"),
            action: Some(Action::from("Action2")),
            guard: None,
        },
    );
    builder.add_transition(
        TransitionParameters {
            source: "StateA",
            target: "StateB",
            event: Event::from("GoToBDifferently"),
            action: Some(Action::from("Action3")),
            guard: None,
        },
    );
    builder.add_transition(
        TransitionParameters {
            source: "StateA",
            target: "StateC",
            event: Event::from("GoToC"),
            action: None,
            guard: None,
        },
    );
    builder.build()
}

fn build_internal_names_fsm() -> Result<ParsedFsm, Error> {
    let mut builder = ParsedFsmBuilder::new("InternalNames");
    builder.add_state("StateA", StateType::Enter);
    builder.add_transition(
        TransitionParameters {
            source: "StateA",
            target: "StateB",
            event: Event::from("TriggerEvent"),
            action: None,
            guard: None,
        },
    );
    builder.add_transition(
        TransitionParameters {
            source: "StateA",
            target: "StateB",
            event: Event::from("ChangeState"),
            action: None,
            guard: None,
        },
    );
    builder.add_transition(
        TransitionParameters {
            source: "StateA",
            target: "StateB",
            event: Event::from("Start"),
            action: None,
            guard: None,
        },
    );
    builder.build()
}

fn build_composite_states_fsm() -> Result<ParsedFsm, Error> {
    let mut builder = ParsedFsmBuilder::new("Composite States");
    let state_a = builder.add_state("StateA", StateType::Enter);
    let ghost b1 = builder@;
    builder.add_state("StateB", StateType::Simple);
    let ghost b2 = builder@;
    let ev = Event::from("toB");
    let act = Action::from("actionInA");
    let ghost evv = ev@;
    let ghost actv = act@;
    builder.add_transition(
        TransitionParameters {
            source: "StateA",
            target: "StateB",
            event: ev,
            action: Some(act),
            guard: None,
        },
    );
    proof {
        crate::parser::lemma_spec_add_state_grows(b1, "StateB"@, StateType::Simple);
        crate::parser::lemma_spec_add_transition_grows(
            b2,
            "StateA"@,
            "StateB"@,
            evv,
            Some(actv),
            None,
        );
    }
    builder.set_scope(Some(state_a));
    let state_aa = builder.add_state("StateAA", StateType::Enter);
    let ghost b3 = builder@;
    builder.add_state("StateAB", StateType::Simple);
    let ghost b4 = builder@;
    let ev2 = Event::from("toAB");
    let act2 = Action::from("actionInAA");
    let ghost evv2 = ev2@;
    let ghost actv2 = act2@;
    builder.add_transition(
        TransitionParameters {
            source: "StateAA",
            target: "StateAB",
            event: ev2,
            action: Some(act2),
            guard: None,
        },
    );
    proof {
        crate::parser::lemma_spec_add_state_grows(b3, "StateAB"@, StateType::Simple);
        crate::parser::lemma_spec_add_transition_grows(
            b4,
            "StateAA"@,
            "StateAB"@,
            evv2,
            Some(actv2),
            None,
        );
    }
    builder.set_scope(Some(state_aa));
    builder.add_state("StateAAA", StateType::Enter);
    builder.add_state("StateAAB", StateType::Simple);
    builder.add_transition(
        TransitionParameters {
            source: "StateAAA",
            target: "StateAAB",
            event: Event::from("toAAB"),
            action: Some(Action::from("actionInAAA")),
            guard: None,
        },
    );
    builder.build()
}

fn build_substate_to_substate_fsm() -> Result<ParsedFsm, Error> {
    let mut builder = ParsedFsmBuilder::new("Substate To Substate");
    let state_a = builder.add_state("A", StateType::Enter);
    let ghost ba = builder@;
    let state_b = builder.add_state("B", StateType::Simple);
    proof {
        crate::parser::lemma_spec_add_state_grows(ba, "B"@, StateType::Simple);
    }
    builder.set_scope(Some(state_a));
    let ghost bb = builder@;
    builder.add_state("AA", StateType::Enter);
    proof {
        crate::parser::lemma_spec_add_state_grows(bb, "AA"@, StateType::Enter);
    }
    builder.set_scope(Some(state_b));
    builder.add_state("BA", StateType::Simple);
    builder.add_state("BB", StateType::Simple);
    builder.add_transition(
        TransitionParameters {
            source: "BA",
            target: "BB",
            event: Event::from("toBB"),
            action: Some(Action::from("actionInBA")),
            guard: None,
        },
    );
    builder.set_scope(None);
    builder.add_transition(
        TransitionParameters {
            source: "AA",
            target: "BA",
            event: Event::from("toBA"),
            action: Some(Action::from("actionInAA")),
            guard: None,
        },
    );
    builder.build()
}

fn build_same_name_substates_fsm() -> Result<ParsedFsm, Error> {
    let mut builder = ParsedFsmBuilder::new("Same Name Substates");
    let parent_a = builder.add_state("ParentA", StateType::Enter);
    let ghost c1 = builder@;
    let parent_b = builder.add_state("ParentB", StateType::Simple);
    let ghost c2 = builder@;
    let ev3 = Event::from("toB");
    let ghost evv3 = ev3@;
    builder.add_transition(
        TransitionParameters {
            source: "ParentA",
            target: "ParentB",
            event: ev3,
            action: None,
            guard: None,
        },
    );
    proof {
        crate::parser::lemma_spec_add_state_grows(c1, "ParentB"@, StateType::Simple);
        crate::parser::lemma_spec_add_transition_grows(
            c2,
            "ParentA"@,
            "ParentB"@,
            evv3,
            None,
            None,
        );
    }
    builder.set_scope(Some(parent_a));
    let ghost c3 = builder@;
    builder.add_state("Inner", StateType::Enter);
    let ghost c4 = builder@;
    builder.add_state("Other", StateType::Simple);
    let ghost c5 = builder@;
    let ev4 = Event::from("toOther");
    let ghost evv4 = ev4@;
    builder.add_transition(
        TransitionParameters {
            source: "Inner",
            target: "Other",
            event: ev4,
            action: None,
            guard: None,
        },
    );
    proof {
        crate::parser::lemma_spec_add_state_grows(c3, "Inner"@, StateType::Enter);
        crate::parser::lemma_spec_add_state_grows(c4, "Other"@, StateType::Simple);
        crate::parser::lemma_spec_add_transition_grows(
            c5,
            "Inner"@,
            "Other"@,
            evv4,
            None,
            None,
        );
    }
    builder.set_scope(Some(parent_b));
    builder.add_state("Inner", StateType::Enter);
    builder.add_state("Other", StateType::Simple);
    builder.add_transition(
        TransitionParameters {
            source: "Inner",
            target: "Other",
            event: Event::from("toOther"),
            action: None,
            guard: None,
        },
    );
    builder.build()
}

impl FsmTestData {
    /// A flat machine with self, parallel and plain transitions.
    pub fn transitions() -> FsmTestData {
        FsmTestData {
            name: "transitions",
            content: "@startuml TestFsm\n[*] --> StateA\nStateA --> StateA : SelfTransition / Action1\nStateA --> StateB : GoToB / Action2\nStateA --> StateB : GoToBDifferently / Action3\nStateA --> StateC : GoToC\n@enduml",
            parsed: build_transitions_fsm(),
        }
    }

    /// A machine whose event names collide with common identifiers.
    pub fn misc() -> FsmTestData {
        FsmTestData {
            name: "internal_names",
            content: "@startuml InternalNames\n[*] --> StateA\nStateA --> StateB : TriggerEvent\nStateA --> StateB : ChangeState\nStateA --> StateB : Start\n@enduml",
            parsed: build_internal_names_fsm(),
        }
    }

    /// Nested composites, each with its own enter state.
    pub fn composite_states() -> FsmTestData {
        FsmTestData {
            name: "composite_states",
            content: "@startuml Composite States\n[*] --> StateA\nStateA --> StateB : toB / actionInA\nstate StateA {\n[*] --> StateAA\nStateAA --> StateAB : toAB / actionInAA\nstate StateAA {\n[*] --> StateAAA\nStateAAA --> StateAAB : toAAB / actionInAAA\n}\n}\n@enduml",
            parsed: build_composite_states_fsm(),
        }
    }

    /// A transition from one composite's substate to another's.
    pub fn substate_to_substate() -> FsmTestData {
        FsmTestData {
            name: "substate_to_substate",
            content: "@startuml Substate To Substate\n[*] --> A\nstate A {\n[*] --> AA\n}\nstate B {\nBA --> BB : toBB / actionInBA\n}\nAA --> BA : toBA / actionInAA\n@enduml",
            parsed: build_substate_to_substate_fsm(),
        }
    }

    /// Two composites that each contain substates of the same names.
    pub fn same_name_substates() -> FsmTestData {
        FsmTestData {
            name: "same_name_substates",
            content: "@startuml Same Name Substates\n[*] --> ParentA\nParentA --> ParentB : toB\nstate ParentA {\n[*] --> Inner\nInner --> Other : toOther\n}\nstate ParentB {\n[*] --> Inner\nInner --> Other : toOther\n}\n@enduml",
            parsed: build_same_name_substates_fsm(),
        }
    }
}

} // verus!
