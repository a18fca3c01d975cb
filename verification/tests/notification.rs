use forgejo_actions_failed_webhook_gotify::notification::{
    BodyField, BodyFieldError, BodyFieldExclusions,
};

#[test]
fn parses_valid_exclusions() {
    let exclusions = BodyFieldExclusions::new(vec!["ref".into(), "commit".into()]).unwrap();
    assert!(exclusions.includes(BodyField::Ref));
    assert!(exclusions.includes(BodyField::Commit));
    assert!(!exclusions.includes(BodyField::Repository));
}

#[test]
fn rejects_invalid_exclusions() {
    let error = BodyFieldExclusions::new(vec!["branch".into()]).unwrap_err();
    assert!(error.to_string().contains("branch"));
    assert!(error.to_string().contains("prior_status"));
}

#[test]
fn invalid_exclusion_message_is_exact() {
    let error =
        BodyFieldExclusions::new(vec![" ref ".into(), "branch".into(), "".into(), "x".into()])
            .unwrap_err();
    let BodyFieldError::Invalid { invalid, valid } = &error;
    assert_eq!(invalid, "branch, x");
    assert_eq!(
        valid,
        "event, repository, action, prior_status, ref, commit, sender, url, delivery"
    );
    assert_eq!(
        error.to_string(),
        "invalid notification body exclude fields: branch, x. valid fields: event, repository, action, prior_status, ref, commit, sender, url, delivery"
    );
}

#[test]
fn empty_and_blank_exclusions_exclude_nothing() {
    let exclusions = BodyFieldExclusions::new(vec!["  ".into()]).unwrap();
    assert!(!exclusions.includes(BodyField::Event));
    let none = BodyFieldExclusions::new(Vec::new()).unwrap();
    assert!(!none.includes(BodyField::Delivery));
}

#[test]
fn field_names_round_trip() {
    let fields = [
        BodyField::Event,
        BodyField::Repository,
        BodyField::Action,
        BodyField::PriorStatus,
        BodyField::Ref,
        BodyField::Commit,
        BodyField::Sender,
        BodyField::Url,
        BodyField::Delivery,
    ];
    let names = BodyField::valid_names();
    assert_eq!(names.len(), fields.len());
    for (field, name) in fields.iter().zip(names.iter()) {
        assert_eq!(field.as_str(), *name);
        assert_eq!(field.to_string(), *name);
        assert_eq!(BodyField::parse_name(name), Some(*field));
        assert_eq!(name.parse::<BodyField>(), Ok(*field));
    }
    assert_eq!(BodyField::parse_name("Ref"), None);
    assert_eq!("branch".parse::<BodyField>(), Err(()));
}
