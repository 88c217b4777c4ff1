use phyto_fsm::ParsedFsm;
use phyto_fsm::ParsedFsmBuilder;
use phyto_fsm::State;
use phyto_fsm::StateType;
use phyto_fsm::TransitionParameters;

fn find_state<'a>(fsm: &'a ParsedFsm, name: &str) -> State<'a> {
    *fsm.states().iter().find(|s| s.name() == name).unwrap()
}

#[test]
fn add_state_creates_simple_state() {
    let mut builder = ParsedFsmBuilder::new("TestFSM");
    builder.add_state("Start", StateType::Enter);
    builder.add_state("State1", StateType::Simple);
    let fsm = builder.build().unwrap();

    assert_eq!(fsm.states().len(), 2);
    let state1 = find_state(&fsm, "State1");
    assert_eq!(state1.state_type(), StateType::Simple);
}

#[test]
fn state_tests_add_state_reuses_existing() {
    let mut builder = ParsedFsmBuilder::new("TestFSM");
    builder.add_state("A", StateType::Enter);
    builder.add_transition(TransitionParameters {
        source: "A",
        target: "B",
        event: "E1".into(),
        action: None,
        guard: None,
    });
    builder.add_state("B", StateType::Simple);
    let fsm = builder.build().unwrap();

    assert_eq!(fsm.states().len(), 2);
}

#[test]
fn enter_state_not_overwritten_by_simple() {
    let mut builder = ParsedFsmBuilder::new("TestFSM");
    builder.add_state("Start", StateType::Enter);
    builder.add_state("Start", StateType::Simple);
    let fsm = builder.build().unwrap();

    let start = find_state(&fsm, "Start");
    assert_eq!(start.state_type(), StateType::Enter);
}

#[test]
fn simple_state_upgraded_to_enter() {
    let mut builder = ParsedFsmBuilder::new("TestFSM");
    builder.add_transition(TransitionParameters {
        source: "Start",
        target: "B",
        event: "E1".into(),
        action: None,
        guard: None,
    });
    builder.add_state("Start", StateType::Enter);
    let fsm = builder.build().unwrap();

    let start = find_state(&fsm, "Start");
    assert_eq!(start.state_type(), StateType::Enter);
}

#[test]
fn enter_state_tests_add_enter_state() {
    let mut builder = ParsedFsmBuilder::new("TestFSM");
    builder.add_state("Start", StateType::Enter);

    let fsm = builder.build().unwrap();
    let enter = fsm.enter_state();
    assert_eq!(enter.name(), "Start");
    assert_eq!(enter.state_type(), StateType::Enter);
}

#[test]
fn enter_state_tests_add_enter_state_twice_fails() {
    let mut builder = ParsedFsmBuilder::new("TestFSM");
    builder.add_state("Start", StateType::Enter);
    builder.add_state("AnotherStart", StateType::Enter);

    let result = builder.build();
    assert!(result.is_err());
}

#[test]
fn add_enter_state_after_transition() {
    let mut builder = ParsedFsmBuilder::new("TestFSM");
    builder.add_transition(TransitionParameters {
        source: "A",
        target: "B",
        event: "Event".into(),
        action: None,
        guard: None,
    });
    builder.add_state("Start", StateType::Enter);

    let fsm = builder.build().unwrap();
    let enter = fsm.enter_state();
    assert_eq!(enter.name(), "Start");
    assert_eq!(enter.state_type(), StateType::Enter);
}

#[test]
fn add_transition_after_enter_state() {
    let mut builder = ParsedFsmBuilder::new("TestFSM");
    builder.add_state("Start", StateType::Enter);
    builder.add_transition(TransitionParameters {
        source: "A",
        target: "B",
        event: "Event".into(),
        action: None,
        guard: None,
    });

    let fsm = builder.build().unwrap();
    let enter = fsm.enter_state();
    assert_eq!(enter.name(), "Start");
    assert_eq!(enter.state_type(), StateType::Enter);
}

#[test]
fn enter_state_resolves_to_deepest_nested_enter() {
    let mut builder = ParsedFsmBuilder::new("TestFSM");

    let root = builder.add_state("RootEnter", StateType::Enter);
    builder.set_scope(Some(root));
    let nested = builder.add_state("NestedEnter", StateType::Enter);
    builder.add_state("NestedSimple", StateType::Simple);

    builder.set_scope(Some(nested));
    builder.add_state("DeepestEnter", StateType::Enter);
    builder.add_state("DeepestSimple", StateType::Simple);

    let fsm = builder.build().unwrap();
    assert_eq!(fsm.enter_state().name(), "DeepestEnter");
}

#[test]
fn sets_deepest_enter_state_on_composite() {
    let mut builder = ParsedFsmBuilder::new("TestFSM");
    builder.add_state("RootEnter", StateType::Enter);
    let root = builder.add_state("Composite", StateType::Simple);
    builder.set_scope(Some(root));
    let nested = builder.add_state("NestedEnter", StateType::Enter);
    builder.set_scope(Some(nested));
    builder.add_state("DeepestEnter", StateType::Enter);
    let fsm = builder.build().unwrap();

    let composite = find_state(&fsm, "Composite");
    assert_eq!(composite.enter_state().name(), "DeepestEnter");
}
