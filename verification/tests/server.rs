use forgejo_actions_failed_webhook_gotify::config::{RawSettings, Settings};
use forgejo_actions_failed_webhook_gotify::forgejo::{Headers, WebhookError};
use forgejo_actions_failed_webhook_gotify::json::JsonValue;
use forgejo_actions_failed_webhook_gotify::server::{
    decide_checked_webhook, decide_webhook, status_after_send, status_for_webhook_error, WebhookDecision,
};
use hmac::{Hmac, Mac};
use sha2::Sha256;

fn settings(secret: Option<&str>) -> Settings {
    let mut raw = RawSettings::default();
    raw.gotify_base_url = Some("https://gotify.example.com".to_owned());
    raw.gotify_app_token = Some("token".to_owned());
    raw.forgejo_secret = secret.map(str::to_owned);
    raw.validate(true).unwrap()
}

fn headers(entries: &[(&str, &[u8])]) -> Headers {
    let mut headers = Headers::new();
    for (name, value) in entries {
        headers.push((*name).to_owned(), value.to_vec());
    }
    headers
}

fn body_json() -> JsonValue {
    JsonValue::Object(vec![(
        "run".to_owned(),
        JsonValue::Object(vec![(
            "html_url".to_owned(),
            JsonValue::Str("https://git.example.com/runs/1".to_owned()),
        )]),
    )])
}

fn sign(secret: &str, body: &[u8]) -> String {
    let mut mac = Hmac::<Sha256>::new_from_slice(secret.as_bytes()).unwrap();
    mac.update(body);
    hex::encode(mac.finalize().into_bytes())
}

#[test]
fn status_codes() {
    assert_eq!(status_for_webhook_error(WebhookError::MissingSignature), 401);
    assert_eq!(status_for_webhook_error(WebhookError::InvalidSignature), 401);
    assert_eq!(status_for_webhook_error(WebhookError::MissingEvent), 400);
    assert_eq!(status_for_webhook_error(WebhookError::InvalidJson), 400);
    assert_eq!(status_after_send(true), 202);
    assert_eq!(status_after_send(false), 502);
}

#[test]
fn forwards_subscribed_events() {
    let s = settings(None);
    let h = headers(&[
        ("x-forgejo-event", b"action_run_failure"),
        ("x-forgejo-event-type", b"action_run_failure"),
    ]);
    match decide_webhook(&s, &h, b"{}", Some(body_json())) {
        WebhookDecision::Forward { known, notification, .. } => {
            assert!(known);
            assert_eq!(
                notification.title,
                "Forgejo: action_run_failure in unknown repository"
            );
            assert_eq!(
                notification.message,
                "event: action_run_failure\nurl: https://git.example.com/runs/1"
            );
            assert_eq!(
                notification.extras.str_at(&["client::notification", "click", "url"]),
                Some("https://git.example.com/runs/1")
            );
        }
        other => panic!("expected a forward, got {other:?}"),
    }
}

#[test]
fn ignores_unsubscribed_and_flags_unknown_events() {
    let s = settings(None);
    let h = headers(&[("x-forgejo-event", b"push"), ("x-forgejo-event-type", b"push")]);
    assert!(matches!(
        decide_webhook(&s, &h, b"{}", Some(JsonValue::Null)),
        WebhookDecision::Ignore { known: true, .. }
    ));
    let odd = headers(&[("x-forgejo-event", b"made_up")]);
    assert!(matches!(
        decide_webhook(&s, &odd, b"{}", Some(JsonValue::Null)),
        WebhookDecision::Ignore { known: false, .. }
    ));
}

#[test]
fn refuses_missing_event_and_bad_json() {
    let s = settings(None);
    assert!(matches!(
        decide_webhook(&s, &headers(&[]), b"{}", Some(JsonValue::Null)),
        WebhookDecision::Reject(WebhookError::MissingEvent)
    ));
    let h = headers(&[("x-forgejo-event", b"push")]);
    assert!(matches!(
        decide_webhook(&s, &h, b"not json", None),
        WebhookDecision::Reject(WebhookError::InvalidJson)
    ));
}

#[test]
fn checks_signatures_before_anything_else() {
    let s = settings(Some("secret"));
    let body = b"{\"run\":{}}";
    assert!(matches!(
        decide_webhook(&s, &headers(&[]), body, None),
        WebhookDecision::Reject(WebhookError::MissingSignature)
    ));
    let wrong = headers(&[("x-forgejo-signature", b"00")]);
    assert!(matches!(
        decide_webhook(&s, &wrong, body, None),
        WebhookDecision::Reject(WebhookError::InvalidSignature)
    ));
    let signature = sign("secret", body);
    let good = headers(&[
        ("x-forgejo-signature", signature.as_bytes()),
        ("x-forgejo-event", b"action_run_failure"),
    ]);
    assert!(matches!(
        decide_webhook(&s, &good, body, Some(body_json())),
        WebhookDecision::Forward { .. }
    ));
    assert!(matches!(
        decide_webhook(&s, &good, body, None),
        WebhookDecision::Reject(WebhookError::InvalidJson)
    ));
}

#[test]
fn decides_from_a_given_signature_outcome() {
    let s = settings(Some("secret"));
    let h = headers(&[("x-forgejo-event", b"action_run_failure")]);
    assert!(matches!(
        decide_checked_webhook(&s, &h, Err(WebhookError::InvalidSignature), Some(body_json())),
        WebhookDecision::Reject(WebhookError::InvalidSignature)
    ));
    assert!(matches!(
        decide_checked_webhook(&s, &h, Ok(()), Some(body_json())),
        WebhookDecision::Forward { known: true, .. }
    ));
    assert!(matches!(
        decide_checked_webhook(&s, &headers(&[]), Ok(()), None),
        WebhookDecision::Reject(WebhookError::MissingEvent)
    ));
}
