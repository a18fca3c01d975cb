use forgejo_actions_failed_webhook_gotify::events::{
    lookup, valid_names, EventConfigError, EventFilter, EventMatch, EventNames,
};

#[test]
fn accepts_event_type_names() {
    let filter = EventFilter::new(EventNames::new(vec!["action_run_failure".into()])).unwrap();
    assert!(filter.is_subscribed("action_run_failure", Some("action_run_failure")));
}

#[test]
fn accepts_wire_event_names() {
    let filter =
        EventFilter::new(EventNames::new(vec!["pull_request_approved".into()])).unwrap();
    assert!(filter.is_subscribed(
        "pull_request_approved",
        Some("pull_request_review_approved")
    ));
}

#[test]
fn specific_event_type_does_not_match_sibling_with_same_wire_event() {
    let filter = EventFilter::new(EventNames::new(vec!["issue_assign".into()])).unwrap();
    assert!(!filter.is_subscribed("issues", Some("issues")));
    assert!(filter.is_subscribed("issues", Some("issue_assign")));
}

#[test]
fn rejects_empty_events() {
    assert!(matches!(
        EventFilter::new(EventNames::new(vec!["".into()])),
        Err(EventConfigError::Empty)
    ));
}

#[test]
fn blank_names_are_dropped_and_names_trimmed() {
    let filter =
        EventFilter::new(EventNames::new(vec!["  ".into(), " push ".into(), "".into()])).unwrap();
    assert!(filter.is_subscribed("push", Some("push")));
    assert!(matches!(
        EventFilter::new(EventNames::new(vec![" \t".into(), "\n".into()])),
        Err(EventConfigError::Empty)
    ));
    assert!(matches!(
        EventFilter::new(EventNames::new(Vec::new())),
        Err(EventConfigError::Empty)
    ));
}

#[test]
fn rejects_unknown_event_names_listing_valid_ones() {
    let error = EventFilter::new(EventNames::new(vec![
        "push".into(),
        "bogus".into(),
        "also_bogus".into(),
    ]))
    .unwrap_err();
    match &error {
        EventConfigError::Invalid { invalid, valid } => {
            assert_eq!(invalid, "bogus, also_bogus");
            assert!(valid.starts_with("action_run_failure, action_run_recover, action_run_success, create, delete"));
        }
        EventConfigError::Empty => panic!("expected an invalid-names error"),
    }
    let message = error.to_string();
    assert!(message.starts_with("invalid Forgejo event names: bogus, also_bogus. valid names: "));
    assert_eq!(
        EventConfigError::Empty.to_string(),
        "no Forgejo events configured; set FORGEJO_EVENTS or forgejo.events"
    );
}

#[test]
fn valid_names_are_sorted_and_unique() {
    let names = valid_names();
    let mut sorted = names.clone();
    sorted.sort();
    sorted.dedup();
    assert_eq!(names, sorted);
    assert_eq!(names.len(), 30);
    assert!(names.contains(&"pull_request_approved"));
    assert!(names.contains(&"workflow_dispatch"));
    assert!(!names.contains(&""));
}

#[test]
fn lookup_prefers_event_types_over_wire_events() {
    assert_eq!(lookup("push"), Some(EventMatch::EventType(3)));
    assert_eq!(lookup("issues"), Some(EventMatch::EventType(4)));
    assert_eq!(lookup("pull_request_approved"), Some(EventMatch::WireEvent(14)));
    assert_eq!(lookup("pull_request_comment"), Some(EventMatch::EventType(13)));
    assert_eq!(lookup("nope"), None);
    assert_eq!(lookup(""), None);
}

#[test]
fn event_type_subscription_falls_back_to_its_wire_event() {
    let filter = EventFilter::new(EventNames::new(vec!["issue_assign".into()])).unwrap();
    assert!(filter.is_subscribed("issues", None));
    assert!(!filter.is_subscribed("push", None));
    assert!(filter.is_subscribed("anything", Some("issue_assign")));
}

#[test]
fn wire_event_subscription_matches_every_type_under_it() {
    let filter = EventFilter::new(EventNames::new(vec!["pull_request_rejected".into()])).unwrap();
    assert!(filter.is_subscribed("pull_request_rejected", None));
    assert!(filter.is_subscribed("pull_request_rejected", Some("anything")));
    assert!(!filter.is_subscribed("pull_request", Some("pull_request")));
}

#[test]
fn types_without_wire_event_have_no_fallback() {
    let filter = EventFilter::new(EventNames::new(vec!["package".into()])).unwrap();
    assert!(filter.is_subscribed("", Some("package")));
    assert!(!filter.is_subscribed("", None));
}

#[test]
fn known_incoming_events() {
    let filter = EventFilter::new(EventNames::new(vec!["push".into()])).unwrap();
    assert!(filter.is_known_incoming("push", Some("push")));
    assert!(filter.is_known_incoming("", Some("package")));
    assert!(filter.is_known_incoming("issues", None));
    assert!(!filter.is_known_incoming("unknown", None));
    assert!(!filter.is_known_incoming("push", Some("unknown")));
}

fn filter_of(names: &[&str]) -> EventFilter {
    EventFilter::new(EventNames::new(names.iter().map(|n| n.to_string()).collect())).unwrap()
}

const PROBES: [(&str, Option<&str>); 8] = [
    ("issues", Some("issues")),
    ("issues", Some("issue_assign")),
    ("issues", None),
    ("push", Some("push")),
    ("push", None),
    ("action_run_failure", Some("action_run_failure")),
    ("action_run_failure", None),
    ("pull_request_approved", Some("pull_request_review_approved")),
];

#[test]
fn order_repeats_and_blanks_do_not_change_subscriptions() {
    let a = filter_of(&["issue_assign", "push"]);
    let b = filter_of(&[" push", "", "issue_assign ", "push", "   "]);
    for (event, event_type) in PROBES {
        assert_eq!(
            a.is_subscribed(event, event_type),
            b.is_subscribed(event, event_type)
        );
    }
}

#[test]
fn more_names_keep_every_subscription() {
    let a = filter_of(&["issue_assign"]);
    let ab = filter_of(&["issue_assign", "push", "pull_request_approved"]);
    for (event, event_type) in PROBES {
        if a.is_subscribed(event, event_type) {
            assert!(ab.is_subscribed(event, event_type));
        }
    }
    assert!(!a.is_subscribed("push", Some("push")));
    assert!(ab.is_subscribed("push", Some("push")));
}
