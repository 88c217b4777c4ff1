use phyto_fsm::TransitionContext;

#[test]
fn parse_event_only() {
    let desc = TransitionContext::try_from("   someEvent   ").unwrap();
    assert_eq!(desc.event, "someEvent".to_owned().into());
    assert_eq!(desc.action, None);
}

#[test]
fn parse_event_and_action() {
    let desc = TransitionContext::try_from("   someEvent    / someAction").unwrap();
    assert_eq!(desc.event, "someEvent".to_owned().into());
    assert_eq!(desc.action, Some("someAction".to_owned().into()));
}

#[test]
fn parse_invalid_input() {
    let result = TransitionContext::try_from("");
    assert!(result.is_err());

    // must have at least an event
    let result = TransitionContext::try_from("   / someAction");
    assert!(result.is_err());
}

#[test]
fn parse_event_with_guard() {
    let desc = TransitionContext::try_from("someEvent [ someGuard ]").unwrap();
    assert_eq!(desc.event, "someEvent".to_owned().into());
    assert_eq!(desc.guard, Some("someGuard".to_owned().into()));
    assert_eq!(desc.action, None);
}

#[test]
fn parse_event_with_guard_and_action() {
    let desc = TransitionContext::try_from("go[isReady]/doIt").unwrap();
    assert_eq!(desc.event, "go".to_owned().into());
    assert_eq!(desc.guard, Some("isReady".to_owned().into()));
    assert_eq!(desc.action, Some("doIt".to_owned().into()));
}

#[test]
fn parse_unclosed_guard_fails() {
    assert!(TransitionContext::try_from("go[isReady").is_err());
}

#[test]
fn parse_trailing_garbage_fails() {
    assert!(TransitionContext::try_from("go / doIt extra").is_err());
}
