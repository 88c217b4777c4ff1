use phyto_fsm::Action;
use phyto_fsm::Event;
use phyto_fsm::ParsedFsmBuilder;
use phyto_fsm::StateType;
use phyto_fsm::TransitionParameters;

#[test]
fn transition_tests_add_transition() {
    let mut builder = ParsedFsmBuilder::new("TestFSM");
    builder.add_state("A", StateType::Enter);
    builder.add_transition(TransitionParameters {
        source: "A",
        target: "B",
        event: "EventAB".into(),
        action: Some("ActionAB".into()),
        guard: None,
    });
    let fsm = builder.build().unwrap();

    assert_eq!(fsm.states().len(), 2);
    let transitions = fsm.transitions();
    assert_eq!(transitions.len(), 1);
    assert_eq!(transitions[0].destination.name(), "B");
    assert_eq!(transitions[0].event, &Event::from("EventAB"));
    assert_eq!(transitions[0].action, Some(&Action::from("ActionAB")));
}

#[test]
fn transition_tests_add_transition_creates_states() {
    let mut builder = ParsedFsmBuilder::new("TestFSM");
    builder.add_state("Start", StateType::Enter);
    builder.add_transition(TransitionParameters {
        source: "A",
        target: "B",
        event: "Event".into(),
        action: None,
        guard: None,
    });
    let fsm = builder.build().unwrap();

    let names: Vec<_> = fsm.states().iter().map(|s| s.name().to_string()).collect();
    assert!(names.contains(&"Start".to_string()));
    assert!(names.contains(&"A".to_string()));
    assert!(names.contains(&"B".to_string()));
}

#[test]
fn add_transition_finds_existing_substate_from_root_scope() {
    let mut builder = ParsedFsmBuilder::new("TestFSM");
    builder.add_state("Start", StateType::Enter);

    let parent = builder.add_state("Parent", StateType::Simple);
    builder.set_scope(Some(parent));
    builder.add_state("Child", StateType::Simple);

    builder.set_scope(None);
    builder.add_transition(TransitionParameters {
        source: "Child",
        target: "Other",
        event: "toOther".into(),
        action: None,
        guard: None,
    });

    let fsm = builder.build().unwrap();

    // Child should only exist once (as substate)
    let count = fsm.states().iter().filter(|s| s.name() == "Child").count();
    assert_eq!(count, 1);

    // The transition should be on Parent's substate
    let states = fsm.states();
    let parent_state = states.iter().find(|s| s.name() == "Parent").unwrap();
    let substates = parent_state.substates();
    let child = substates.iter().find(|s| s.name() == "Child").unwrap();
    let transitions = child.transitions();
    let t = &transitions[0];
    assert_eq!(t.destination.name(), "Other");
}
