use phyto_fsm::StateDiagram;

#[test]
fn test_parse_uml_start() {
    let input = "@startuml        \n";
    let full_input = format!("{}@enduml", input);
    let diagram = StateDiagram::parse(&full_input).unwrap();
    assert_eq!(diagram.name, None);
}

#[test]
fn test_parse_uml_start_with_name() {
    let input = "@startuml fsm name\n";
    let full_input = format!("{}@enduml", input);
    let diagram = StateDiagram::parse(&full_input).unwrap();
    assert_eq!(diagram.name, Some("fsm name".to_string()));
}

#[test]
fn test_parse_uml_content() {
    let full_input = "@startuml test\n@enduml";
    let diagram = StateDiagram::parse(full_input).unwrap();
    assert!(diagram.name.is_some());
}

#[test]
fn test_parse_state_description() {
    let input = "A : some description\n";
    let full_input = format!("@startuml test\n{}@enduml", input);
    let diagram = StateDiagram::parse(&full_input).unwrap();
    // State descriptions are parsed but not stored in transitions
    assert_eq!(diagram.transitions.len(), 0);
}

#[test]
fn test_parse_transition() {
    let input = "A -> B : label\n";
    let full_input = format!("@startuml test\n{}@enduml", input);
    let diagram = StateDiagram::parse(&full_input).unwrap();
    assert_eq!(diagram.transitions.len(), 1);
    assert_eq!(diagram.transitions[0].from, "A");
    assert_eq!(diagram.transitions[0].to, "B");
    assert_eq!(diagram.transitions[0].description, "label");
}

#[test]
fn test_parse_multiple_transitions() {
    let input = r#"
        A --> B : label1
        A -u-> C : label2
        "#;
    let full_input = format!("@startuml test\n{}@enduml", input);
    let diagram = StateDiagram::parse(&full_input).unwrap();
    assert_eq!(diagram.transitions.len(), 2);
}

#[test]
fn test_parse_enter_transition() {
    let input = "[*] --> A\n";
    let full_input = format!("@startuml test\n{}@enduml", input);
    let diagram = StateDiagram::parse(&full_input).unwrap();
    assert_eq!(diagram.enter_states, vec!["A".to_string()]);
}

#[test]
fn test_parse_exit_transition() {
    let input = "[*] --> A\n";
    let full_input = format!("@startuml test\n{}@enduml", input);
    let diagram = StateDiagram::parse(&full_input).unwrap();
    assert_eq!(diagram.enter_states, vec!["A".to_string()]);
}

#[test]
fn test_parse_empty_fsm_diagram() {
    let input = r#"
        @startuml fsm name
        @enduml
        "#;
    let diagram = StateDiagram::parse(input).unwrap();
    assert_eq!(diagram.name, Some("fsm name".to_string()));
}

#[test]
fn test_parse_fsm_diagram() {
    let input = r#"
        @startuml fsm name
        [*] --> A
        A --> B : label1
        A -u-> C : label2
        B --> D : label3
        @enduml
        "#;
    let diagram = StateDiagram::parse(input).unwrap();
    assert_eq!(diagram.name, Some("fsm name".to_string()));
    assert_eq!(diagram.enter_states, vec!["A".to_string()]);
    assert_eq!(diagram.transitions.len(), 3);
}

#[test]
fn test_parse_fsm_diagram_with_state_descriptions() {
    let input = r#"
        @startuml fsm name
        state A
        [*] --> A
        A --> B : label1
        state B: some desc
        @enduml
        "#;
    let diagram = StateDiagram::parse(input).unwrap();
    assert_eq!(diagram.name, Some("fsm name".to_string()));
    assert_eq!(diagram.enter_states, vec!["A".to_string()]);
    assert_eq!(diagram.transitions.len(), 1);
}

#[test]
fn test_parse_transitions() {
    let input = r#"
        @startuml
        [*] --> StateA
        StateA --> StateA : SelfTransition : Action1
        @enduml
        "#;
    let diagram = StateDiagram::parse(input).unwrap();
    assert_eq!(diagram.enter_states, vec!["StateA".to_string()]);
    assert_eq!(diagram.transitions.len(), 1);
}

#[test]
fn test_parse_single_comment() {
    let input = r#"
        @startuml test
        ' This is a comment
        @enduml
        "#;
    let diagram = StateDiagram::parse(input).unwrap();
    assert_eq!(diagram.name, Some("test".to_string()));
    assert_eq!(diagram.transitions.len(), 0);
}

#[test]
fn test_parse_comments_mixed_with_transitions() {
    let input = r#"
        @startuml test
        ' Comment at the start
        [*] --> A
        ' Comment in the middle
        A --> B : event1
        ' Another comment
        B --> C : event2
        ' Comment at the end
        @enduml
        "#;
    let diagram = StateDiagram::parse(input).unwrap();
    assert_eq!(diagram.enter_states, vec!["A".to_string()]);
    assert_eq!(diagram.transitions.len(), 2);
}

#[test]
fn test_parse_comment_with_special_characters() {
    let input = r#"
        @startuml test
        ' Comment with special chars: -> --> [*] : @#$%
        [*] --> A
        @enduml
        "#;
    let diagram = StateDiagram::parse(input).unwrap();
    assert_eq!(diagram.enter_states, vec!["A".to_string()]);
}

#[test]
fn test_parse_composite_block() {
    let input = "@startuml test\nstate Outer {\n[*] --> Inner\nInner --> Other : go\n}\n@enduml";
    let diagram = StateDiagram::parse(input).unwrap();
    assert_eq!(diagram.composite_states.len(), 1);
    assert_eq!(diagram.composite_states[0].name, "Outer");
    assert_eq!(diagram.composite_states[0].elements.enter_states, vec!["Inner".to_string()]);
    assert_eq!(diagram.composite_states[0].elements.transitions.len(), 1);
}

#[test]
fn test_parse_missing_enduml_fails() {
    assert!(StateDiagram::parse("@startuml test\n[*] --> A\n").is_err());
}

#[test]
fn test_parse_missing_startuml_fails() {
    assert!(StateDiagram::parse("[*] --> A\n@enduml").is_err());
}

#[test]
fn test_parse_unclosed_composite_fails() {
    assert!(StateDiagram::parse("@startuml test\nstate A {\n[*] --> B\n@enduml").is_err());
}

#[test]
fn test_parse_stray_closing_brace_fails() {
    assert!(StateDiagram::parse("@startuml test\n}\n@enduml").is_err());
}

#[test]
fn test_parse_state_description_captured() {
    let input = "@startuml test\nA : entry / Prepare\n@enduml";
    let diagram = StateDiagram::parse(input).unwrap();
    assert_eq!(diagram.state_descriptions.len(), 1);
    assert_eq!(diagram.state_descriptions[0].name, "A");
    assert_eq!(diagram.state_descriptions[0].description, "entry / Prepare");
}
