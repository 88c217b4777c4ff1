use phyto_fsm::Action;
use phyto_fsm::Event;
use phyto_fsm::ParsedFsmBuilder;
use phyto_fsm::StateType;
use phyto_fsm::TransitionParameters;

#[test]
fn builder_add_enter_state() {
    let mut builder = ParsedFsmBuilder::new("TestFSM");
    builder.add_enter_state("Start").unwrap();
    let fsm = builder.build().unwrap();

    let enter = fsm.enter_state();
    assert_eq!(enter.name(), "Start");
    assert_eq!(enter.state_type(), StateType::Enter);
}

#[test]
fn builder_add_enter_state_twice_fails() {
    let mut builder = ParsedFsmBuilder::new("TestFSM");
    builder.add_enter_state("Start").unwrap();
    let result = builder.add_enter_state("AnotherStart");
    assert!(result.is_err());
}

#[test]
fn add_state() {
    let mut builder = ParsedFsmBuilder::new("TestFSM");
    builder.add_enter_state("Start").unwrap();
    builder.add_state("State1", StateType::Simple);
    let fsm = builder.build().unwrap();

    assert_eq!(fsm.states().len(), 2);
    let states = fsm.states();
    let state1 = states.iter().find(|s| s.name() == "State1").unwrap();
    assert_eq!(state1.state_type(), StateType::Simple);
}

#[test]
fn builder_add_transition() {
    let mut builder = ParsedFsmBuilder::new("TestFSM");
    builder.add_enter_state("A").unwrap();
    builder.add_transition(TransitionParameters {
        source: "A",
        target: "B",
        event: "EventAB".into(),
        action: Some("ActionAB".into()),
        guard: None,
    });
    let fsm = builder.build().unwrap();

    assert_eq!(fsm.states().len(), 2);
    let transitions = fsm.transitions();
    assert_eq!(transitions.len(), 1);
    assert_eq!(transitions[0].destination.name(), "B");
    assert_eq!(transitions[0].event, &Event::from("EventAB"));
    assert_eq!(transitions[0].action, Some(&Action::from("ActionAB")));
}

#[test]
fn builder_add_transition_creates_states() {
    let mut builder = ParsedFsmBuilder::new("TestFSM");
    builder.add_enter_state("Start").unwrap();
    builder.add_transition(TransitionParameters {
        source: "A",
        target: "B",
        event: "Event".into(),
        action: None,
        guard: None,
    });
    let fsm = builder.build().unwrap();

    let names: Vec<_> = fsm.states().iter().map(|s| s.name().to_string()).collect();
    assert!(names.contains(&"Start".to_string()));
    assert!(names.contains(&"A".to_string()));
    assert!(names.contains(&"B".to_string()));
}

#[test]
fn builder_add_state_reuses_existing() {
    let mut builder = ParsedFsmBuilder::new("TestFSM");
    builder.add_enter_state("A").unwrap();
    builder.add_transition(TransitionParameters {
        source: "A",
        target: "B",
        event: "E1".into(),
        action: None,
        guard: None,
    });
    builder.add_state("B", StateType::Simple); // Should reuse B from transition
    let fsm = builder.build().unwrap();

    assert_eq!(fsm.states().len(), 2);
}

#[test]
fn builder_build_without_enter_state_fails() {
    let builder = ParsedFsmBuilder::new("TestFSM");
    let result = builder.build();
    assert!(result.is_err());
}

#[test]
fn builder_build_with_empty_name_fails() {
    let mut builder = ParsedFsmBuilder::new("  ");
    builder.add_enter_state("Start").unwrap();
    let result = builder.build();
    assert!(result.is_err());
}
