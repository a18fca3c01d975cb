use forgejo_actions_failed_webhook_gotify::forgejo::{
    verify_signature, Headers, WebhookError, WebhookPayload,
};
use forgejo_actions_failed_webhook_gotify::json::JsonValue;
use forgejo_actions_failed_webhook_gotify::notification::BodyFieldExclusions;
use hmac::{Hmac, Mac};
use sha2::Sha256;

fn s(value: &str) -> JsonValue {
    JsonValue::Str(value.to_owned())
}

fn obj(entries: Vec<(&str, JsonValue)>) -> JsonValue {
    JsonValue::Object(
        entries
            .into_iter()
            .map(|(key, value)| (key.to_owned(), value))
            .collect(),
    )
}

fn action_run_body() -> JsonValue {
    obj(vec![
        ("action", s("failure")),
        ("prior_status", s("running")),
        (
            "run",
            obj(vec![
                ("commit_sha", s("bd13e1f96bbd67777c8fcbf73d83ece9d6a31f61")),
                (
                    "html_url",
                    s("https://git.example.com/leo/webhook-test/actions/runs/4"),
                ),
                ("prettyref", s("main")),
                (
                    "repository",
                    obj(vec![
                        ("full_name", s("leo/webhook-test")),
                        ("html_url", s("https://git.example.com/leo/webhook-test")),
                    ]),
                ),
                ("trigger_user", obj(vec![("login", s("leo"))])),
            ]),
        ),
    ])
}

#[test]
fn renders_action_run_payload_fields() {
    let exclusions = BodyFieldExclusions::new(Vec::new()).unwrap();
    let payload = WebhookPayload {
        event: "action_run_failure".into(),
        event_type: Some("action_run_failure".into()),
        delivery: Some("delivery-id".into()),
        body: action_run_body(),
    };

    assert_eq!(
        payload.title("Forgejo"),
        "Forgejo: action_run_failure in leo/webhook-test"
    );
    assert_eq!(
        payload.message(&exclusions),
        [
            "event: action_run_failure",
            "repository: leo/webhook-test",
            "action: failure",
            "prior_status: running",
            "ref: main",
            "commit: bd13e1f96bbd67777c8fcbf73d83ece9d6a31f61",
            "sender: leo",
            "url: https://git.example.com/leo/webhook-test/actions/runs/4",
            "delivery: delivery-id",
        ]
        .join("\n")
    );
}

#[test]
fn adds_click_url_when_payload_has_url() {
    let payload = WebhookPayload {
        event: "action_run_failure".into(),
        event_type: Some("action_run_failure".into()),
        delivery: Some("delivery-id".into()),
        body: obj(vec![(
            "run",
            obj(vec![(
                "html_url",
                s("https://git.example.com/leo/webhook-test/actions/runs/4"),
            )]),
        )]),
    };

    assert_eq!(
        payload
            .extras()
            .str_at(&["client::notification", "click", "url"]),
        Some("https://git.example.com/leo/webhook-test/actions/runs/4")
    );
}

#[test]
fn omits_click_url_when_payload_has_no_url() {
    let payload = WebhookPayload {
        event: "repository".into(),
        event_type: Some("repository".into()),
        delivery: None,
        body: obj(vec![("action", s("created"))]),
    };

    assert!(payload.extras().get("client::notification").is_none());
}

#[test]
fn excludes_configured_body_fields() {
    let exclusions = BodyFieldExclusions::new(vec![
        "prior_status".into(),
        "ref".into(),
        "commit".into(),
        "sender".into(),
    ])
    .unwrap();
    let payload = WebhookPayload {
        event: "action_run_failure".into(),
        event_type: Some("action_run_failure".into()),
        delivery: None,
        body: obj(vec![
            ("action", s("failure")),
            ("prior_status", s("running")),
            (
                "run",
                obj(vec![
                    ("commit_sha", s("bd13e1f96bbd67777c8fcbf73d83ece9d6a31f61")),
                    (
                        "html_url",
                        s("https://git.example.com/leo/webhook-test/actions/runs/4"),
                    ),
                    ("prettyref", s("main")),
                    ("repository", obj(vec![("full_name", s("leo/webhook-test"))])),
                    ("trigger_user", obj(vec![("login", s("leo"))])),
                ]),
            ),
        ]),
    };

    assert_eq!(
        payload.message(&exclusions),
        [
            "event: action_run_failure",
            "repository: leo/webhook-test",
            "action: failure",
            "url: https://git.example.com/leo/webhook-test/actions/runs/4",
        ]
        .join("\n")
    );
}

#[test]
fn renders_documented_push_payload_fields() {
    let exclusions = BodyFieldExclusions::new(Vec::new()).unwrap();
    let payload = WebhookPayload {
        event: "push".into(),
        event_type: Some("push".into()),
        delivery: Some("delivery-id".into()),
        body: obj(vec![
            ("ref", s("refs/heads/develop")),
            ("after", s("bffeb74224043ba2feb48d137756c8a9331c449a")),
            (
                "compare_url",
                s("https://git.example.com/forgejo/webhooks/compare/range"),
            ),
            (
                "repository",
                obj(vec![
                    ("full_name", s("forgejo/webhooks")),
                    ("html_url", s("https://git.example.com/forgejo/webhooks")),
                ]),
            ),
            ("sender", obj(vec![("login", s("forgejo"))])),
        ]),
    };

    assert_eq!(
        payload.title("Forgejo"),
        "Forgejo: push in forgejo/webhooks"
    );
    assert_eq!(
        payload.message(&exclusions),
        [
            "event: push",
            "repository: forgejo/webhooks",
            "ref: refs/heads/develop",
            "commit: bffeb74224043ba2feb48d137756c8a9331c449a",
            "sender: forgejo",
            "url: https://git.example.com/forgejo/webhooks/compare/range",
            "delivery: delivery-id",
        ]
        .join("\n")
    );
}

#[test]
fn title_falls_back_to_event_and_unknown_repository() {
    let payload = WebhookPayload {
        event: "push".into(),
        event_type: None,
        delivery: None,
        body: obj(vec![("repository", obj(vec![("name", JsonValue::Number("3".into()))]))]),
    };
    assert_eq!(payload.title("Git"), "Git: push in unknown repository");
    let exclusions = BodyFieldExclusions::new(Vec::new()).unwrap();
    assert_eq!(payload.message(&exclusions), "event: push");
    let all = BodyFieldExclusions::new(vec!["event".into()]).unwrap();
    assert_eq!(payload.message(&all), "");
}

#[test]
fn empty_values_give_no_line() {
    let payload = WebhookPayload {
        event: "push".into(),
        event_type: Some("push".into()),
        delivery: Some(String::new()),
        body: obj(vec![("action", s("")), ("ref", s("main"))]),
    };
    let exclusions = BodyFieldExclusions::new(Vec::new()).unwrap();
    assert_eq!(payload.message(&exclusions), "event: push\nref: main");
}

#[test]
fn extras_carry_event_headers_and_payload() {
    let payload = WebhookPayload {
        event: "push".into(),
        event_type: None,
        delivery: Some("d-1".into()),
        body: action_run_body(),
    };
    let extras = payload.extras();
    assert_eq!(
        extras.str_at(&["client::display", "contentType"]),
        Some("text/plain")
    );
    assert_eq!(extras.str_at(&["forgejo::webhook", "event"]), Some("push"));
    assert_eq!(
        extras.get("forgejo::webhook").and_then(|w| w.get("event_type")),
        Some(&JsonValue::Null)
    );
    assert_eq!(extras.str_at(&["forgejo::webhook", "delivery"]), Some("d-1"));
    assert_eq!(
        extras.get("forgejo::webhook").and_then(|w| w.get("payload")),
        Some(&action_run_body())
    );
    assert_eq!(
        extras.str_at(&["client::notification", "click", "url"]),
        Some("https://git.example.com/leo/webhook-test/actions/runs/4")
    );
}

#[test]
fn deep_clone_copies_values() {
    let body = action_run_body();
    assert_eq!(body.deep_clone(), body);
    let list = JsonValue::Array(vec![JsonValue::Bool(true), JsonValue::Null, s("x")]);
    assert_eq!(list.deep_clone(), list);
}

fn headers(entries: &[(&str, &[u8])]) -> Headers {
    let mut headers = Headers::new();
    for (name, value) in entries {
        headers.push((*name).to_owned(), value.to_vec());
    }
    headers
}

#[test]
fn reads_event_headers_with_gitea_fallback() {
    let h = headers(&[
        ("x-gitea-event", b"push"),
        ("x-forgejo-event-type", b"push"),
        ("x-gitea-delivery", b"abc"),
    ]);
    let payload = WebhookPayload::from_request(&h, Some(JsonValue::Null)).unwrap();
    assert_eq!(payload.event, "push");
    assert_eq!(payload.event_type.as_deref(), Some("push"));
    assert_eq!(payload.delivery.as_deref(), Some("abc"));
    assert_eq!(payload.body, JsonValue::Null);

    let both = headers(&[("x-gitea-event", b"issues"), ("x-forgejo-event", b"push")]);
    let payload = WebhookPayload::from_request(&both, Some(JsonValue::Null)).unwrap();
    assert_eq!(payload.event, "push");
}

#[test]
fn refuses_requests_without_event_or_json() {
    let none = headers(&[]);
    assert_eq!(
        WebhookPayload::from_request(&none, None).unwrap_err(),
        WebhookError::MissingEvent
    );
    let h = headers(&[("x-forgejo-event", b"push")]);
    assert_eq!(
        WebhookPayload::from_request(&h, None).unwrap_err(),
        WebhookError::InvalidJson
    );
    assert_eq!(
        WebhookError::InvalidJson.to_string(),
        "webhook body is not valid JSON"
    );
    assert_eq!(
        WebhookError::MissingEvent.to_string(),
        "missing X-Forgejo-Event header"
    );
}

#[test]
fn header_values_that_are_not_text_are_absent() {
    let h = headers(&[("x-forgejo-event", b"pu\xffsh"), ("x-gitea-event", b"push")]);
    assert_eq!(h.get("x-forgejo-event"), None);
    assert_eq!(h.get_either("x-forgejo-event", "x-gitea-event").as_deref(), Some("push"));
    let tab = headers(&[("x-forgejo-delivery", b"a\tb")]);
    assert_eq!(tab.get("x-forgejo-delivery").as_deref(), Some("a\tb"));
    let first = headers(&[("x-forgejo-event", b"one"), ("x-forgejo-event", b"two")]);
    assert_eq!(first.get("x-forgejo-event").as_deref(), Some("one"));
}

fn sign(secret: &str, body: &[u8]) -> String {
    let mut mac = Hmac::<Sha256>::new_from_slice(secret.as_bytes()).unwrap();
    mac.update(body);
    hex::encode(mac.finalize().into_bytes())
}

#[test]
fn verifies_signatures() {
    let body = br#"{"action":"failure"}"#;
    let signature = sign("s3cret", body);
    let good = headers(&[("x-forgejo-signature", signature.as_bytes())]);
    assert_eq!(verify_signature("s3cret", &good, body), Ok(()));
    let upper = signature.to_uppercase();
    let gitea = headers(&[("x-gitea-signature", upper.as_bytes())]);
    assert_eq!(verify_signature("s3cret", &gitea, body), Ok(()));
    assert_eq!(
        verify_signature("other", &good, body),
        Err(WebhookError::InvalidSignature)
    );
    assert_eq!(
        verify_signature("s3cret", &good, b"{}"),
        Err(WebhookError::InvalidSignature)
    );
    let not_hex = headers(&[("x-forgejo-signature", b"zz")]);
    assert_eq!(
        verify_signature("s3cret", &not_hex, body),
        Err(WebhookError::InvalidSignature)
    );
    let odd = headers(&[("x-forgejo-signature", b"abc")]);
    assert_eq!(
        verify_signature("s3cret", &odd, body),
        Err(WebhookError::InvalidSignature)
    );
    let short = headers(&[("x-forgejo-signature", &signature.as_bytes()[..62])]);
    assert_eq!(
        verify_signature("s3cret", &short, body),
        Err(WebhookError::InvalidSignature)
    );
    assert_eq!(
        verify_signature("s3cret", &headers(&[]), body),
        Err(WebhookError::MissingSignature)
    );
}
