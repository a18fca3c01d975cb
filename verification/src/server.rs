//! What the webhook endpoint answers a request with, and what it forwards.

use vstd::prelude::*;

use crate::config::Settings;
use crate::events::{known_spec, subscribed_spec};
use crate::forgejo::{
    Headers, WebhookError, WebhookPayload, delivery_header, event_header, event_type_header,
    extras_spec, hex_decode_spec, hmac_sha256, lemma_signature_check, message_lines,
    signature_check_spec, signature_header, title_spec, verify_signature,
};
use crate::json::{JsonData, JsonValue, opt_json_view};
use crate::text::{join_spec, opt_string_view};

verus! {

/// The HTTP status of a request that is accepted and forwarded.
pub const STATUS_ACCEPTED: u16 = 202;

/// The HTTP status of a request that is accepted and not forwarded.
pub const STATUS_NO_CONTENT: u16 = 204;

/// The HTTP status of a request whose body or event header is wrong.
pub const STATUS_BAD_REQUEST: u16 = 400;

/// The HTTP status of a request whose signature is missing or wrong.
pub const STATUS_UNAUTHORIZED: u16 = 401;

/// The HTTP status of a request that Gotify could not be told about.
pub const STATUS_BAD_GATEWAY: u16 = 502;

/// The status of a refused request: unauthorized for signature errors, a
/// bad request otherwise.
pub open spec fn status_for_webhook_error_spec(err: WebhookError) -> u16 {
    match err {
        WebhookError::MissingSignature | WebhookError::InvalidSignature => STATUS_UNAUTHORIZED,
        WebhookError::MissingEvent | WebhookError::InvalidJson => STATUS_BAD_REQUEST,
    }
}

/// The status of a refused request: unauthorized for signature errors, a
/// bad request otherwise.
pub fn status_for_webhook_error(err: WebhookError) -> (res: u16)
    ensures
        res == status_for_webhook_error_spec(err),
{
    match err {
        WebhookError::MissingSignature | WebhookError::InvalidSignature => STATUS_UNAUTHORIZED,
        WebhookError::MissingEvent | WebhookError::InvalidJson => STATUS_BAD_REQUEST,
    }
}

/// The status of a forwarded request: accepted where Gotify took the
/// message, a bad gateway where it did not.
pub fn status_after_send(sent: bool) -> (res: u16)
    ensures
        res == if sent {
            STATUS_ACCEPTED
        } else {
            STATUS_BAD_GATEWAY
        },
{
    if sent {
        STATUS_ACCEPTED
    } else {
        STATUS_BAD_GATEWAY
    }
}

/// A Gotify message.
#[derive(Debug)]
pub struct Notification {
    pub title: String,
    pub message: String,
    pub extras: JsonValue,
}

/// What to do with a webhook request.
#[derive(Debug)]
pub enum WebhookDecision {
    /// Refuse it, with the status that `status_for_webhook_error` gives.
    Reject(WebhookError),
    /// Accept it without forwarding it: its events are not subscribed.
    /// `known` tells whether its event headers name documented events.
    Ignore { payload: WebhookPayload, known: bool },
    /// Send the notification to Gotify.
    Forward { payload: WebhookPayload, known: bool, notification: Notification },
}

/// The outcome of a request's signature check: what the check gives where
/// a secret is set, a pass where none is.
pub open spec fn signature_outcome(
    secret: Option<Seq<char>>,
    headers: Seq<(Seq<char>, Seq<u8>)>,
    body: Seq<u8>,
) -> Result<(), WebhookError> {
    match secret {
        Some(s) => signature_check_spec(s, headers, body),
        None => Ok(()),
    }
}

/// The refusal that a request meets, given the outcome of its signature
/// check: that check's error, then a missing event header, then a body
/// that is not JSON.
pub open spec fn refusal_after_signature(
    signature: Result<(), WebhookError>,
    headers: Seq<(Seq<char>, Seq<u8>)>,
    parsed: Option<JsonData>,
) -> Option<WebhookError> {
    match signature {
        Err(e) => Some(e),
        Ok(()) => if event_header(headers) is None {
            Some(WebhookError::MissingEvent)
        } else if parsed is None {
            Some(WebhookError::InvalidJson)
        } else {
            None
        },
    }
}

/// The refusal that a request meets before its payload is read: the
/// signature check, where a secret is set, then the event header, then the
/// body.
pub open spec fn refusal_spec(
    secret: Option<Seq<char>>,
    headers: Seq<(Seq<char>, Seq<u8>)>,
    body: Seq<u8>,
    parsed: Option<JsonData>,
) -> Option<WebhookError> {
    refusal_after_signature(signature_outcome(secret, headers, body), headers, parsed)
}

/// Whether `res` is the decision for a request with these headers and
/// parsed body, given the refusal it meets: that refusal where there is
/// one; else the payload, whether its events are documented, and, where
/// they are subscribed, the rendered notification.
pub open spec fn decision_spec(
    settings: &Settings,
    headers: Seq<(Seq<char>, Seq<u8>)>,
    refusal: Option<WebhookError>,
    parsed: Option<JsonValue>,
    res: WebhookDecision,
) -> bool {
    let event = event_header(headers)->0;
    let event_type = event_type_header(headers);
    let delivery = delivery_header(headers);
    let subscribed = subscribed_spec(settings.forgejo.filter@, event, event_type);
    let known = known_spec(event, event_type);
    match res {
        WebhookDecision::Reject(e) => refusal == Some(e),
        WebhookDecision::Ignore { payload, known: k } => {
            &&& refusal is None
            &&& !subscribed
            &&& k == known
            &&& payload.event@ == event
            &&& opt_string_view(payload.event_type) == event_type
            &&& opt_string_view(payload.delivery) == delivery
            &&& payload.body@ == parsed->0@
        },
        WebhookDecision::Forward { payload, known: k, notification } => {
            &&& refusal is None
            &&& subscribed
            &&& k == known
            &&& payload.event@ == event
            &&& opt_string_view(payload.event_type) == event_type
            &&& opt_string_view(payload.delivery) == delivery
            &&& payload.body@ == parsed->0@
            &&& notification.title@ == title_spec(
                settings.gotify.title_prefix@,
                event,
                event_type,
                parsed->0@,
            )
            &&& notification.message@ == join_spec(
                message_lines(
                    settings.notification.body_exclude_fields@,
                    event,
                    event_type,
                    delivery,
                    parsed->0@,
                ),
                "\n"@,
            )
            &&& notification.extras@ == extras_spec(event, event_type, delivery, parsed->0@)
        },
    }
}

/// Decides what to do with a webhook request, given its headers, its raw
/// body and that body parsed as JSON (`None` where it is not JSON).
pub fn decide_webhook(
    settings: &Settings,
    headers: &Headers,
    body: &[u8],
    parsed: Option<JsonValue>,
) -> (res: WebhookDecision)
    ensures
        decision_spec(
            settings,
            headers@,
            refusal_spec(
                opt_string_view(settings.forgejo.secret),
                headers@,
                body@,
                opt_json_view(parsed),
            ),
            parsed,
            res,
        ),
{
    let signature = match &settings.forgejo.secret {
        Some(secret) => verify_signature(secret.as_str(), headers, body),
        None => Ok(()),
    };
    decide_checked_webhook(settings, headers, signature, parsed)
}

/// Decides what to do with a webhook request whose signature check gave
/// `signature`, given its headers and its body parsed as JSON.
pub fn decide_checked_webhook(
    settings: &Settings,
    headers: &Headers,
    signature: Result<(), WebhookError>,
    parsed: Option<JsonValue>,
) -> (res: WebhookDecision)
    ensures
        decision_spec(
            settings,
            headers@,
            refusal_after_signature(signature, headers@, opt_json_view(parsed)),
            parsed,
            res,
        ),
{
    if let Err(err) = signature {
        return WebhookDecision::Reject(err);
    }
    let payload = match WebhookPayload::from_request(headers, parsed) {
        Ok(p) => p,
        Err(err) => {
            return WebhookDecision::Reject(err);
        },
    };
    let event_type: Option<&str> = match &payload.event_type {
        Some(t) => Some(t.as_str()),
        None => None,
    };
    let known = settings.forgejo.filter.is_known_incoming(payload.event.as_str(), event_type);
    if !settings.forgejo.filter.is_subscribed(payload.event.as_str(), event_type) {
        return WebhookDecision::Ignore { payload, known };
    }
    let title = payload.title(settings.gotify.title_prefix.as_str());
    let message = payload.message(&settings.notification.body_exclude_fields);
    let extras = payload.extras();
    WebhookDecision::Forward { payload, known, notification: Notification { title, message, extras } }
}

/// With a secret set, a request gets past the refusals only when its
/// signature header holds, in hexadecimal, the HMAC-SHA256 of its body
/// under the secret; a request refused for its signature is answered
/// `401 Unauthorized`, any other refusal `400 Bad Request`.
pub proof fn lemma_signed_requests_only(
    secret: Seq<char>,
    headers: Seq<(Seq<char>, Seq<u8>)>,
    body: Seq<u8>,
    parsed: Option<JsonData>,
)
    ensures
        refusal_spec(Some(secret), headers, body, parsed) is None ==> exists|signature: Seq<char>|
            signature_header(headers) == Some(signature) && #[trigger] hex_decode_spec(
                vstd::utf8::encode_utf8(signature),
            ) == Some(hmac_sha256(vstd::utf8::encode_utf8(secret), body)),
        refusal_spec(Some(secret), headers, body, parsed) matches Some(e) ==> (
        status_for_webhook_error_spec(e) == STATUS_UNAUTHORIZED <==> signature_check_spec(
            secret,
            headers,
            body,
        ) is Err),
{
    lemma_signature_check(secret, headers, body);
}

} // verus!
