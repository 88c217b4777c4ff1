use phyto_fsm::Action;
use phyto_fsm::FsmTestData;
use phyto_fsm::ParsedFsm;
use phyto_fsm::StateType;
use phyto_fsm::TestFsm;

const FOUR_SEASONS: &str = "@startuml PlantFsm\n[*] --> Winter\nWinter --> Spring : TemperatureRises\nSpring --> Summer : DaylightIncreases / StartBlooming\nSummer --> Autumn : DaylightDecreases / RipenFruit\nAutumn --> Winter : TemperatureDrops / DropPetals\n@enduml";

#[test]
fn four_seasons_scenario() {
    let fsm = ParsedFsm::try_parse(FOUR_SEASONS).unwrap();
    assert_eq!(fsm.name(), "PlantFsm");
    assert_eq!(fsm.states().len(), 4);
    assert_eq!(fsm.transitions().len(), 4);
    assert_eq!(fsm.enter_state().name(), "Winter");
    assert_eq!(fsm.events().len(), 4);
}

#[test]
fn four_seasons_actions_enumerated() {
    let fsm = ParsedFsm::try_parse(FOUR_SEASONS).unwrap();
    let actions = fsm.actions();
    assert_eq!(actions.len(), 3);
    let names: Vec<_> = actions.iter().map(|(a, _)| a.0.as_str()).collect();
    assert_eq!(names, vec!["StartBlooming", "RipenFruit", "DropPetals"]);
}

#[test]
fn parse_twice_yields_equal_models() {
    let fsm1 = ParsedFsm::try_parse(FOUR_SEASONS).unwrap();
    let fsm2 = ParsedFsm::try_parse(FOUR_SEASONS).unwrap();
    assert_eq!(fsm1, fsm2);
}

#[test]
fn parses_transitions_fixture() {
    let data = FsmTestData::transitions();
    let fsm = ParsedFsm::try_parse(data.content).unwrap();
    assert_eq!(data.parsed.unwrap(), fsm);
}

#[test]
fn parses_internal_names_fixture() {
    let data = FsmTestData::misc();
    let fsm = ParsedFsm::try_parse(data.content).unwrap();
    assert_eq!(data.parsed.unwrap(), fsm);
}

#[test]
fn parses_composite_states_fixture() {
    let data = FsmTestData::composite_states();
    let fsm = ParsedFsm::try_parse(data.content).unwrap();
    assert_eq!(data.parsed.unwrap(), fsm);
}

#[test]
fn parses_same_name_substates_fixture() {
    let data = FsmTestData::same_name_substates();
    let fsm = ParsedFsm::try_parse(data.content).unwrap();
    assert_eq!(data.parsed.unwrap(), fsm);
}

#[test]
fn simple_fixture_matches_its_diagram() {
    let data = TestFsm::simple_fsm();
    let fsm = ParsedFsm::try_parse(data.plant_uml_code).unwrap();
    assert_eq!(data.fsm.unwrap(), fsm);
    assert_eq!(TestFsm::all().len(), 1);
}

#[test]
fn substate_to_substate_fixture_structure() {
    let data = FsmTestData::substate_to_substate();
    let fsm = data.parsed.unwrap();
    let states = fsm.states();
    let aa = states.iter().find(|s| s.name() == "AA").unwrap();
    assert_eq!(aa.parent().unwrap().name(), "A");
    let transitions = aa.transitions();
    assert_eq!(transitions.len(), 1);
    assert_eq!(transitions[0].destination.name(), "BA");
    assert_eq!(transitions[0].destination.parent().unwrap().name(), "B");
}

#[test]
fn same_name_children_have_distinct_parents() {
    let data = FsmTestData::same_name_substates();
    let fsm = data.parsed.unwrap();
    let states = fsm.states();
    let inners: Vec<_> = states.iter().filter(|s| s.name() == "Inner").collect();
    assert_eq!(inners.len(), 2);
    let p0 = inners[0].parent().unwrap();
    let p1 = inners[1].parent().unwrap();
    assert_ne!(p0.name(), p1.name());
}

#[test]
fn deepest_enter_resolution_through_nested_composites() {
    let input = "@startuml Nested\n[*] --> Outer\nstate Outer {\n[*] --> Middle\nstate Middle {\n[*] --> Leaf\n}\n}\n@enduml";
    let fsm = ParsedFsm::try_parse(input).unwrap();
    assert_eq!(fsm.enter_state().name(), "Leaf");
    let states = fsm.states();
    let outer = states.iter().find(|s| s.name() == "Outer").unwrap();
    assert_eq!(outer.enter_state().name(), "Leaf");
}

#[test]
fn enter_and_exit_actions_from_descriptions() {
    let input = "@startuml Fsm\n[*] --> A\nA : entry / Prepare\nA : exit / CleanUp\nA : just a note\n@enduml";
    let fsm = ParsedFsm::try_parse(input).unwrap();
    let states = fsm.states();
    let a = states.iter().find(|s| s.name() == "A").unwrap();
    assert_eq!(a.enter_action(), Some(&Action::from("Prepare")));
    assert_eq!(a.exit_action(), Some(&Action::from("CleanUp")));
    assert_eq!(fsm.enter_actions(), vec![Action::from("Prepare")]);
    assert_eq!(fsm.exit_actions(), vec![Action::from("CleanUp")]);
}

#[test]
fn guarded_transitions_parse_and_build() {
    let input = "@startuml Fsm\n[*] --> A\nA --> B : go [ready] / act\nA --> C : go [waiting]\n@enduml";
    let fsm = ParsedFsm::try_parse(input).unwrap();
    let transitions = fsm.transitions();
    assert_eq!(transitions.len(), 2);
    let to_b = transitions.iter().find(|t| t.destination.name() == "B").unwrap();
    assert_eq!(to_b.guard, Some(&Action::from("ready")));
    assert_eq!(to_b.action, Some(&Action::from("act")));
}

#[test]
fn partially_guarded_conflict_fails_from_text() {
    let input = "@startuml Fsm\n[*] --> A\nA --> B : go [ready]\nA --> C : go\n@enduml";
    assert!(ParsedFsm::try_parse(input).is_err());
}

#[test]
fn duplicate_guard_fails_from_text() {
    let input = "@startuml Fsm\n[*] --> A\nA --> B : go [ready]\nA --> C : go [ready]\n@enduml";
    assert!(ParsedFsm::try_parse(input).is_err());
}

#[test]
fn non_injective_action_mapping_fails_from_text() {
    let input = "@startuml Fsm\n[*] --> A\nA --> B : evOne / sharedAction\nB --> C : evTwo / sharedAction\n@enduml";
    assert!(ParsedFsm::try_parse(input).is_err());
}

#[test]
fn two_root_enter_states_fail_from_text() {
    let input = "@startuml Fsm\n[*] --> A\n[*] --> B\n@enduml";
    assert!(ParsedFsm::try_parse(input).is_err());
}

#[test]
fn missing_diagram_name_fails_to_build() {
    let input = "@startuml\n[*] --> A\n@enduml";
    assert!(ParsedFsm::try_parse(input).is_err());
}

#[test]
fn missing_event_name_in_label_fails() {
    let input = "@startuml Fsm\n[*] --> A\nA --> B : / actionOnly\n@enduml";
    assert!(ParsedFsm::try_parse(input).is_err());
}

#[test]
fn missing_enduml_fails() {
    assert!(ParsedFsm::try_parse("@startuml Fsm\n[*] --> A\n").is_err());
}

#[test]
fn unrecognized_lines_are_skipped() {
    let input = "@startuml Fsm\nsome stray prose\n[*] --> A\nskinparam monochrome true\n@enduml";
    let fsm = ParsedFsm::try_parse(input).unwrap();
    assert_eq!(fsm.states().len(), 1);
}

#[test]
fn promotion_is_one_way_from_text() {
    // "state A" after the enter transition does not demote A.
    let input = "@startuml Fsm\n[*] --> A\nA --> B : go\n@enduml";
    let fsm = ParsedFsm::try_parse(input).unwrap();
    let states = fsm.states();
    let a = states.iter().find(|s| s.name() == "A").unwrap();
    assert_eq!(a.state_type(), StateType::Enter);
    let b = states.iter().find(|s| s.name() == "B").unwrap();
    assert_eq!(b.state_type(), StateType::Simple);
}

#[test]
fn events_are_deduplicated() {
    let input = "@startuml Fsm\n[*] --> A\nA --> B : go\nB --> A : go\nA --> C : stop\n@enduml";
    let fsm = ParsedFsm::try_parse(input).unwrap();
    let events = fsm.events();
    let names: Vec<_> = events.iter().map(|e| e.0.as_str()).collect();
    assert_eq!(names, vec!["go", "stop"]);
}

#[test]
fn file_content_round_trips() {
    let file = phyto_fsm::FsmFile::new(FOUR_SEASONS.to_string());
    let fsm = ParsedFsm::try_parse(file.content()).unwrap();
    assert_eq!(fsm.enter_state().name(), "Winter");
    let path = phyto_fsm::FilePath("plant.puml".to_string());
    assert_eq!(path.as_str(), "plant.puml");
}

#[test]
fn ws_trims_horizontal_whitespace() {
    assert_eq!(phyto_fsm::ws("  hello \t"), "hello");
    assert_eq!(phyto_fsm::ws("   "), "");
    assert_eq!(phyto_fsm::multi_ws(" \n hello \n"), "hello");
    assert!(phyto_fsm::str_eq("abc", "abc"));
    assert!(!phyto_fsm::str_eq("abc", "abd"));
}
