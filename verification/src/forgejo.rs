//! Forgejo webhook requests: their headers, their signature, and the
//! notification rendered from their payload.

use vstd::prelude::*;

use hmac::{Hmac, Mac};
use sha2::Sha256;

use crate::json::{
    JsonData, JsonValue, entry_views, json_at, json_get, lemma_entry_views, object_get,
    str_at_spec,
};
use crate::notification::{
    BodyField, BodyFieldExclusions, field_name, lemma_field_name_has_no_colon, lemma_parse_field_name,
};
use crate::text::{
    ascii_chars, ascii_to_string, concat, join, join_spec, opt_string_view, opt_view, str_eq,
    str_views, views,
};

verus! {

/// A request's headers in the order they arrived: each name, lower-case as
/// an HTTP header map holds it, with its raw value.
#[derive(Debug, Clone)]
pub struct Headers {
    pub entries: Vec<(String, Vec<u8>)>,
}

/// The headers as character names and byte values.
pub open spec fn header_views(entries: Seq<(String, Vec<u8>)>) -> Seq<(Seq<char>, Seq<u8>)> {
    entries.map_values(|e: (String, Vec<u8>)| (e.0@, e.1@))
}

impl View for Headers {
    type V = Seq<(Seq<char>, Seq<u8>)>;

    open spec fn view(&self) -> Seq<(Seq<char>, Seq<u8>)> {
        header_views(self.entries@)
    }
}

/// Whether bytes are visible ASCII or tabs: the header values that read as
/// text.
pub open spec fn is_visible_ascii(bytes: Seq<u8>) -> bool {
    forall|i: int| 0 <= i < bytes.len() ==> (32 <= #[trigger] bytes[i] < 127 || bytes[i] == 9)
}

/// The value of the first header named `name`.
pub open spec fn first_value(entries: Seq<(Seq<char>, Seq<u8>)>, name: Seq<char>) -> Option<
    Seq<u8>,
>
    decreases entries.len(),
{
    if entries.len() == 0 {
        None
    } else if entries[0].0 == name {
        Some(entries[0].1)
    } else {
        first_value(entries.drop_first(), name)
    }
}

/// The text of the first header named `name`, where that value reads as
/// text.
pub open spec fn header_spec(headers: Seq<(Seq<char>, Seq<u8>)>, name: Seq<char>) -> Option<
    Seq<char>,
> {
    match first_value(headers, name) {
        Some(v) => if is_visible_ascii(v) {
            Some(ascii_chars(v))
        } else {
            None
        },
        None => None,
    }
}

/// The first of two options that holds a value.
pub open spec fn or_else(a: Option<Seq<char>>, b: Option<Seq<char>>) -> Option<Seq<char>> {
    match a {
        Some(x) => Some(x),
        None => b,
    }
}

/// The text of the Forgejo header, or else of the Gitea one.
pub open spec fn header_either(
    headers: Seq<(Seq<char>, Seq<u8>)>,
    forgejo: Seq<char>,
    gitea: Seq<char>,
) -> Option<Seq<char>> {
    or_else(header_spec(headers, forgejo), header_spec(headers, gitea))
}

/// Whether bytes are visible ASCII or tabs.
fn is_visible(bytes: &[u8]) -> (res: bool)
    ensures
        res == is_visible_ascii(bytes@),
{
    let mut k: usize = 0;
    while k < bytes.len()
        invariant
            k <= bytes@.len(),
            forall|m: int| 0 <= m < k ==> (32 <= #[trigger] bytes@[m] < 127 || bytes@[m] == 9),
        decreases bytes@.len() - k,
    {
        let b: u8 = bytes[k];
        if !((32 <= b && b < 127) || b == 9) {
            assert(!(32 <= bytes@[k as int] < 127 || bytes@[k as int] == 9));
            return false;
        }
        k = k + 1;
    }
    true
}

impl Headers {
    /// No headers.
    pub fn new() -> (res: Self)
        ensures
            res@ == Seq::<(Seq<char>, Seq<u8>)>::empty(),
    {
        let res = Headers { entries: Vec::new() };
        assert(res@ =~= Seq::<(Seq<char>, Seq<u8>)>::empty());
        res
    }

    /// Adds a header after the others.
    pub fn push(&mut self, name: String, value: Vec<u8>)
        ensures
            final(self)@ == old(self)@.push((name@, value@)),
    {
        let ghost before = self@;
        self.entries.push((name, value));
        assert(self@ =~= before.push((name@, value@)));
    }

    /// The text of the first header named `name`, where its value reads as
    /// text.
    pub fn get(&self, name: &str) -> (res: Option<String>)
        ensures
            opt_string_view(res) == header_spec(self@, name@),
    {
        let ghost hv = self@;
        let mut i: usize = 0;
        assert(hv.skip(0) =~= hv);
        while i < self.entries.len()
            invariant
                i <= self.entries@.len(),
                hv == self@,
                hv.len() == self.entries@.len(),
                first_value(hv, name@) == first_value(hv.skip(i as int), name@),
            decreases self.entries@.len() - i,
        {
            let entry = &self.entries[i];
            assert(hv.skip(i as int)[0] == (entry.0@, entry.1@));
            if str_eq(entry.0.as_str(), name) {
                if is_visible(entry.1.as_slice()) {
                    return Some(ascii_to_string(entry.1.as_slice()));
                } else {
                    return None;
                }
            }
            assert(hv.skip(i as int).drop_first() =~= hv.skip(i + 1));
            i = i + 1;
        }
        None
    }

    /// The text of the Forgejo header, or else of the Gitea one.
    pub fn get_either(&self, forgejo: &str, gitea: &str) -> (res: Option<String>)
        ensures
            opt_string_view(res) == header_either(self@, forgejo@, gitea@),
    {
        match self.get(forgejo) {
            Some(v) => Some(v),
            None => self.get(gitea),
        }
    }
}

/// Why a webhook request is refused.
#[derive(Debug, Clone, Copy, PartialEq, Eq, Structural)]
pub enum WebhookError {
    MissingEvent,
    MissingSignature,
    InvalidSignature,
    InvalidJson,
}

/// The message of a `WebhookError`.
pub open spec fn webhook_error_message(e: WebhookError) -> Seq<char> {
    match e {
        WebhookError::MissingEvent => "missing X-Forgejo-Event header"@,
        WebhookError::MissingSignature => "missing X-Forgejo-Signature header"@,
        WebhookError::InvalidSignature => "invalid X-Forgejo-Signature header"@,
        WebhookError::InvalidJson => "webhook body is not valid JSON"@,
    }
}

impl WebhookError {
    /// The error's message.
    pub fn to_string(&self) -> (res: String)
        ensures
            res@ == webhook_error_message(*self),
    {
        match self {
            WebhookError::MissingEvent => "missing X-Forgejo-Event header".to_owned(),
            WebhookError::MissingSignature => "missing X-Forgejo-Signature header".to_owned(),
            WebhookError::InvalidSignature => "invalid X-Forgejo-Signature header".to_owned(),
            WebhookError::InvalidJson => "webhook body is not valid JSON".to_owned(),
        }
    }
}

/// A Forgejo webhook request: its event headers and its JSON body.
#[derive(Debug)]
pub struct WebhookPayload {
    pub event: String,
    pub event_type: Option<String>,
    pub delivery: Option<String>,
    pub body: JsonValue,
}

/// The event headers of a request.
pub open spec fn event_header(h: Seq<(Seq<char>, Seq<u8>)>) -> Option<Seq<char>> {
    header_either(h, "x-forgejo-event"@, "x-gitea-event"@)
}

/// The event-type headers of a request.
pub open spec fn event_type_header(h: Seq<(Seq<char>, Seq<u8>)>) -> Option<Seq<char>> {
    header_either(h, "x-forgejo-event-type"@, "x-gitea-event-type"@)
}

/// The delivery headers of a request.
pub open spec fn delivery_header(h: Seq<(Seq<char>, Seq<u8>)>) -> Option<Seq<char>> {
    header_either(h, "x-forgejo-delivery"@, "x-gitea-delivery"@)
}

/// The signature headers of a request.
pub open spec fn signature_header(h: Seq<(Seq<char>, Seq<u8>)>) -> Option<Seq<char>> {
    header_either(h, "x-forgejo-signature"@, "x-gitea-signature"@)
}

/// The repository a payload is about.
pub open spec fn repository_spec(body: JsonData) -> Option<Seq<char>> {
    or_else(
        str_at_spec(body, seq!["repository"@, "full_name"@]),
        or_else(
            str_at_spec(body, seq!["repository"@, "name"@]),
            or_else(
                str_at_spec(body, seq!["run"@, "repository"@, "full_name"@]),
                str_at_spec(body, seq!["run"@, "repository"@, "name"@]),
            ),
        ),
    )
}

/// The user a payload names as its sender.
pub open spec fn sender_spec(body: JsonData) -> Option<Seq<char>> {
    or_else(
        str_at_spec(body, seq!["sender"@, "login"@]),
        or_else(
            str_at_spec(body, seq!["sender"@, "username"@]),
            or_else(
                str_at_spec(body, seq!["run"@, "trigger_user"@, "login"@]),
                str_at_spec(body, seq!["run"@, "trigger_user"@, "username"@]),
            ),
        ),
    )
}

/// The ref a payload is about.
pub open spec fn ref_spec(body: JsonData) -> Option<Seq<char>> {
    or_else(
        str_at_spec(body, seq!["ref"@]),
        or_else(
            str_at_spec(body, seq!["run"@, "prettyref"@]),
            str_at_spec(body, seq!["pull_request"@, "head"@, "ref"@]),
        ),
    )
}

/// The commit a payload is about.
pub open spec fn commit_spec(body: JsonData) -> Option<Seq<char>> {
    or_else(
        str_at_spec(body, seq!["after"@]),
        or_else(
            str_at_spec(body, seq!["run"@, "commit_sha"@]),
            str_at_spec(body, seq!["pull_request"@, "head"@, "sha"@]),
        ),
    )
}

/// The page in Forgejo that best shows what a payload is about.
pub open spec fn best_url_spec(body: JsonData) -> Option<Seq<char>> {
    or_else(
        str_at_spec(body, seq!["workflow_run"@, "html_url"@]),
        or_else(
            str_at_spec(body, seq!["run"@, "html_url"@]),
            or_else(
                str_at_spec(body, seq!["compare_url"@]),
                or_else(
                    str_at_spec(body, seq!["pull_request"@, "html_url"@]),
                    or_else(
                        str_at_spec(body, seq!["issue"@, "html_url"@]),
                        or_else(
                            str_at_spec(body, seq!["release"@, "html_url"@]),
                            or_else(
                                str_at_spec(body, seq!["repository"@, "html_url"@]),
                                str_at_spec(body, seq!["run"@, "repository"@, "html_url"@]),
                            ),
                        ),
                    ),
                ),
            ),
        ),
    )
}

/// The kind of event a payload reports: its event type, or else its event.
pub open spec fn kind_spec(event: Seq<char>, event_type: Option<Seq<char>>) -> Seq<char> {
    match event_type {
        Some(t) => t,
        None => event,
    }
}

/// A notification title.
pub open spec fn title_spec(
    prefix: Seq<char>,
    event: Seq<char>,
    event_type: Option<Seq<char>>,
    body: JsonData,
) -> Seq<char> {
    let subject = match repository_spec(body) {
        Some(r) => r,
        None => "unknown repository"@,
    };
    prefix + ": "@ + kind_spec(event, event_type) + " in "@ + subject
}

/// The line for `field` with `value`, unless the field is left out.
pub open spec fn line_spec(exclusions: Set<BodyField>, field: BodyField, value: Seq<char>) -> Seq<
    Seq<char>,
> {
    if exclusions.contains(field) {
        Seq::empty()
    } else {
        seq![field_name(field) + ": "@ + value]
    }
}

/// The line for `field`, where it has a non-empty value and is not left
/// out.
pub open spec fn optional_line_spec(
    exclusions: Set<BodyField>,
    field: BodyField,
    value: Option<Seq<char>>,
) -> Seq<Seq<char>> {
    match value {
        Some(v) => if v.len() > 0 {
            line_spec(exclusions, field, v)
        } else {
            Seq::empty()
        },
        None => Seq::empty(),
    }
}

/// The lines of a notification's body, in field order.
pub open spec fn message_lines(
    exclusions: Set<BodyField>,
    event: Seq<char>,
    event_type: Option<Seq<char>>,
    delivery: Option<Seq<char>>,
    body: JsonData,
) -> Seq<Seq<char>> {
    line_spec(exclusions, BodyField::Event, kind_spec(event, event_type)) + optional_line_spec(
        exclusions,
        BodyField::Repository,
        repository_spec(body),
    ) + optional_line_spec(exclusions, BodyField::Action, str_at_spec(body, seq!["action"@]))
        + optional_line_spec(
        exclusions,
        BodyField::PriorStatus,
        str_at_spec(body, seq!["prior_status"@]),
    ) + optional_line_spec(exclusions, BodyField::Ref, ref_spec(body)) + optional_line_spec(
        exclusions,
        BodyField::Commit,
        commit_spec(body),
    ) + optional_line_spec(exclusions, BodyField::Sender, sender_spec(body))
        + optional_line_spec(exclusions, BodyField::Url, best_url_spec(body))
        + optional_line_spec(exclusions, BodyField::Delivery, delivery)
}

/// An optional string as JSON: the string, or `null`.
pub open spec fn json_opt(value: Option<Seq<char>>) -> JsonData {
    match value {
        Some(s) => JsonData::Str(s),
        None => JsonData::Null,
    }
}

/// The extras sent along with a notification.
pub open spec fn extras_spec(
    event: Seq<char>,
    event_type: Option<Seq<char>>,
    delivery: Option<Seq<char>>,
    body: JsonData,
) -> JsonData {
    let display = (
        "client::display"@,
        JsonData::Object(seq![("contentType"@, JsonData::Str("text/plain"@))]),
    );
    let webhook = (
        "forgejo::webhook"@,
        JsonData::Object(
            seq![
                ("event"@, JsonData::Str(event)),
                ("event_type"@, json_opt(event_type)),
                ("delivery"@, json_opt(delivery)),
                ("payload"@, body),
            ],
        ),
    );
    match best_url_spec(body) {
        Some(url) => JsonData::Object(
            seq![
                display,
                webhook,
                (
                    "client::notification"@,
                    JsonData::Object(
                        seq![("click"@, JsonData::Object(seq![("url"@, JsonData::Str(url))]))],
                    ),
                ),
            ],
        ),
        None => JsonData::Object(seq![display, webhook]),
    }
}

/// The value of a hexadecimal digit, upper or lower case.
pub open spec fn hex_digit_value(b: u8) -> Option<u8> {
    if 48 <= b <= 57 {
        Some((b - 48) as u8)
    } else if 97 <= b <= 102 {
        Some((b - 97 + 10) as u8)
    } else if 65 <= b <= 70 {
        Some((b - 65 + 10) as u8)
    } else {
        None
    }
}

/// The bytes that a hexadecimal text stands for: two digits for each byte;
/// nothing where the length is odd or a character is not a digit.
pub open spec fn hex_decode_spec(text: Seq<u8>) -> Option<Seq<u8>>
    decreases text.len(),
{
    if text.len() % 2 != 0 {
        None
    } else if text.len() == 0 {
        Some(Seq::empty())
    } else {
        match (
            hex_digit_value(text[0]),
            hex_digit_value(text[1]),
            hex_decode_spec(text.subrange(2, text.len() as int)),
        ) {
            (Some(high), Some(low), Some(rest)) => Some(seq![(high * 16 + low) as u8] + rest),
            _ => None,
        }
    }
}

/// Decodes a hexadecimal text through `hex::decode`, whose source accepts
/// an even number of digits `0-9`, `a-f`, `A-F` and gives a byte for each
/// two of them, high digit first.
#[verifier::external_body]
fn hex_decode(text: &str) -> (res: Option<Vec<u8>>)
    ensures
        match res {
            Some(bytes) => hex_decode_spec(vstd::utf8::encode_utf8(text@)) == Some(bytes@),
            None => hex_decode_spec(vstd::utf8::encode_utf8(text@)) is None,
        },
{
    match hex::decode(text) {
        Ok(bytes) => Some(bytes),
        Err(_) => None,
    }
}

/// HMAC-SHA256 of `message` under `key`.
pub uninterp spec fn hmac_sha256(key: Seq<u8>, message: Seq<u8>) -> Seq<u8>;

/// Whether `tag` is the HMAC-SHA256 of `message` under `key`, through the
/// `hmac` crate: `Hmac::<Sha256>::new_from_slice`, which accepts a key of any
/// length, then `update` and `verify_slice`, which compares the whole tag in
/// constant time.
#[verifier::external_body]
fn hmac_sha256_matches(key: &[u8], message: &[u8], tag: &[u8]) -> (res: bool)
    ensures
        res == (tag@ == hmac_sha256(key@, message@)),
{
    match Hmac::<Sha256>::new_from_slice(key) {
        Ok(mut mac) => {
            mac.update(message);
            mac.verify_slice(tag).is_ok()
        },
        Err(_) => false,
    }
}

/// What checking a request's signature with `secret` gives.
pub open spec fn signature_check_spec(
    secret: Seq<char>,
    headers: Seq<(Seq<char>, Seq<u8>)>,
    body: Seq<u8>,
) -> Result<(), WebhookError> {
    match signature_header(headers) {
        None => Err(WebhookError::MissingSignature),
        Some(signature) => match hex_decode_spec(vstd::utf8::encode_utf8(signature)) {
            None => Err(WebhookError::InvalidSignature),
            Some(tag) => if tag == hmac_sha256(vstd::utf8::encode_utf8(secret), body) {
                Ok(())
            } else {
                Err(WebhookError::InvalidSignature)
            },
        },
    }
}

/// Checks that the request's signature header holds, in hexadecimal, the
/// HMAC-SHA256 of the body under `secret`.
pub fn verify_signature(secret: &str, headers: &Headers, body: &[u8]) -> (res: Result<
    (),
    WebhookError,
>)
    ensures
        res == signature_check_spec(secret@, headers@, body@),
{
    let signature = match headers.get_either("x-forgejo-signature", "x-gitea-signature") {
        Some(s) => s,
        None => {
            return Err(WebhookError::MissingSignature);
        },
    };
    let expected = match hex_decode(signature.as_str()) {
        Some(bytes) => bytes,
        None => {
            return Err(WebhookError::InvalidSignature);
        },
    };
    if hmac_sha256_matches(secret.as_bytes(), body, expected.as_slice()) {
        Ok(())
    } else {
        Err(WebhookError::InvalidSignature)
    }
}

/// Appends the line for `field` with `value`, unless the field is left out.
fn push_line(exclusions: &BodyFieldExclusions, lines: &mut Vec<String>, field: BodyField, value: &str)
    ensures
        views(final(lines)@) == views(old(lines)@) + line_spec(exclusions@, field, value@),
{
    let ghost before = views(lines@);
    if !exclusions.includes(field) {
        let mut line: String = concat(field.as_str(), ": ");
        line.append(value);
        lines.push(line);
        assert(views(lines@) =~= before + line_spec(exclusions@, field, value@));
    } else {
        assert(before + line_spec(exclusions@, field, value@) =~= before);
    }
}

/// Appends the line for `field`, where it has a non-empty value and is not
/// left out.
fn push_optional_line(
    exclusions: &BodyFieldExclusions,
    lines: &mut Vec<String>,
    field: BodyField,
    value: Option<&str>,
)
    ensures
        views(final(lines)@) == views(old(lines)@) + optional_line_spec(
            exclusions@,
            field,
            opt_view(value),
        ),
{
    match value {
        Some(v) => {
            if !v.is_empty() {
                push_line(exclusions, lines, field, v);
            } else {
                assert(views(lines@) + Seq::<Seq<char>>::empty() =~= views(lines@));
            }
        },
        None => {
            assert(views(lines@) + Seq::<Seq<char>>::empty() =~= views(lines@));
        },
    }
}

/// The first of two optional strings that holds a value.
fn or_else_str<'a>(a: Option<&'a str>, b: Option<&'a str>) -> (res: Option<&'a str>)
    ensures
        opt_view(res) == or_else(opt_view(a), opt_view(b)),
{
    match a {
        Some(x) => Some(x),
        None => b,
    }
}

impl WebhookPayload {
    /// The payload of a request, from its headers and its body parsed as
    /// JSON (`None` where the body is not JSON).
    pub fn from_request(headers: &Headers, body: Option<JsonValue>) -> (res: Result<
        Self,
        WebhookError,
    >)
        ensures
            match res {
                Ok(p) => {
                    &&& event_header(headers@) == Some(p.event@)
                    &&& opt_string_view(p.event_type) == event_type_header(headers@)
                    &&& opt_string_view(p.delivery) == delivery_header(headers@)
                    &&& body is Some
                    &&& p.body@ == body->0@
                },
                Err(e) => {
                    ||| event_header(headers@) is None && e == WebhookError::MissingEvent
                    ||| event_header(headers@) is Some && body is None && e
                        == WebhookError::InvalidJson
                },
            },
    {
        let event = match headers.get_either("x-forgejo-event", "x-gitea-event") {
            Some(e) => e,
            None => {
                return Err(WebhookError::MissingEvent);
            },
        };
        let event_type = headers.get_either("x-forgejo-event-type", "x-gitea-event-type");
        let delivery = headers.get_either("x-forgejo-delivery", "x-gitea-delivery");
        match body {
            Some(b) => Ok(WebhookPayload { event, event_type, delivery, body: b }),
            None => Err(WebhookError::InvalidJson),
        }
    }

    /// The kind of event: the event type, or else the event.
    fn kind(&self) -> (res: &str)
        ensures
            res@ == kind_spec(self.event@, opt_string_view(self.event_type)),
    {
        match &self.event_type {
            Some(t) => t.as_str(),
            None => self.event.as_str(),
        }
    }

    /// The notification title: `{prefix}: {kind} in {repository}`.
    pub fn title(&self, prefix: &str) -> (res: String)
        ensures
            res@ == title_spec(prefix@, self.event@, opt_string_view(self.event_type), self.body@),
    {
        let subject: &str = match self.repository() {
            Some(r) => r,
            None => "unknown repository",
        };
        let mut res: String = concat(prefix, ": ");
        res.append(self.kind());
        res.append(" in ");
        res.append(subject);
        res
    }

    /// The notification body: a line `field: value` for each field that has
    /// a value and is not left out, the event always, joined by newlines.
    pub fn message(&self, exclusions: &BodyFieldExclusions) -> (res: String)
        ensures
            res@ == join_spec(
                message_lines(
                    exclusions@,
                    self.event@,
                    opt_string_view(self.event_type),
                    opt_string_view(self.delivery),
                    self.body@,
                ),
                "\n"@,
            ),
    {
        let mut lines: Vec<String> = Vec::new();
        assert(views(lines@) =~= Seq::<Seq<char>>::empty());
        push_line(exclusions, &mut lines, BodyField::Event, self.kind());
        push_optional_line(exclusions, &mut lines, BodyField::Repository, self.repository());
        let action_path: [&str; 1] = ["action"];
        let prior_status_path: [&str; 1] = ["prior_status"];
        assert(str_views(action_path@) =~= seq!["action"@]);
        assert(str_views(prior_status_path@) =~= seq!["prior_status"@]);
        push_optional_line(exclusions, &mut lines, BodyField::Action, self.body.str_at(&action_path));
        push_optional_line(
            exclusions,
            &mut lines,
            BodyField::PriorStatus,
            self.body.str_at(&prior_status_path),
        );
        push_optional_line(exclusions, &mut lines, BodyField::Ref, self.ref_name());
        push_optional_line(exclusions, &mut lines, BodyField::Commit, self.commit_sha());
        push_optional_line(exclusions, &mut lines, BodyField::Sender, self.sender());
        push_optional_line(exclusions, &mut lines, BodyField::Url, self.best_url());
        let delivery: Option<&str> = match &self.delivery {
            Some(d) => Some(d.as_str()),
            None => None,
        };
        push_optional_line(exclusions, &mut lines, BodyField::Delivery, delivery);
        join(&lines, "\n")
    }

    /// The extras sent along with the notification: the display hint, the
    /// event headers with the whole payload, and, where the payload has a
    /// page in Forgejo, that page as the URL a click opens.
    pub fn extras(&self) -> (res: JsonValue)
        ensures
            res@ == extras_spec(
                self.event@,
                opt_string_view(self.event_type),
                opt_string_view(self.delivery),
                self.body@,
            ),
    {
        let display_entries: Vec<(String, JsonValue)> = vec![
            ("contentType".to_owned(), JsonValue::Str("text/plain".to_owned())),
        ];
        proof {
            lemma_entry_views(display_entries@);
            assert(entry_views(display_entries@) =~= seq![
                ("contentType"@, JsonData::Str("text/plain"@)),
            ]);
        }
        let display = JsonValue::Object(display_entries);
        assert(display@ == JsonData::Object(seq![("contentType"@, JsonData::Str("text/plain"@))]));
        let webhook_entries: Vec<(String, JsonValue)> = vec![
            ("event".to_owned(), JsonValue::Str(self.event.clone())),
            ("event_type".to_owned(), json_from_option(&self.event_type)),
            ("delivery".to_owned(), json_from_option(&self.delivery)),
            ("payload".to_owned(), self.body.deep_clone()),
        ];
        proof {
            lemma_entry_views(webhook_entries@);
            assert(entry_views(webhook_entries@) =~= seq![
                ("event"@, JsonData::Str(self.event@)),
                ("event_type"@, json_opt(opt_string_view(self.event_type))),
                ("delivery"@, json_opt(opt_string_view(self.delivery))),
                ("payload"@, self.body@),
            ]);
        }
        let webhook = JsonValue::Object(webhook_entries);
        assert(webhook@ == JsonData::Object(
            seq![
                ("event"@, JsonData::Str(self.event@)),
                ("event_type"@, json_opt(opt_string_view(self.event_type))),
                ("delivery"@, json_opt(opt_string_view(self.delivery))),
                ("payload"@, self.body@),
            ],
        ));
        let mut entries: Vec<(String, JsonValue)> = vec![
            ("client::display".to_owned(), display),
            ("forgejo::webhook".to_owned(), webhook),
        ];
        let ghost url_spec = best_url_spec(self.body@);
        let ghost first_two = seq![
            ("client::display"@, display@),
            ("forgejo::webhook"@, webhook@),
        ];
        proof {
            lemma_entry_views(entries@);
            assert(entry_views(entries@) =~= first_two);
        }
        if let Some(url) = self.best_url() {
            let url_entries: Vec<(String, JsonValue)> = vec![
                ("url".to_owned(), JsonValue::Str(url.to_owned())),
            ];
            proof {
                lemma_entry_views(url_entries@);
                assert(entry_views(url_entries@) =~= seq![("url"@, JsonData::Str(url@))]);
            }
            let click = JsonValue::Object(url_entries);
            assert(click@ == JsonData::Object(seq![("url"@, JsonData::Str(url@))]));
            let click_entries: Vec<(String, JsonValue)> = vec![("click".to_owned(), click)];
            proof {
                lemma_entry_views(click_entries@);
                assert(entry_views(click_entries@) =~= seq![("click"@, click@)]);
            }
            let notification = JsonValue::Object(click_entries);
            assert(notification@ == JsonData::Object(seq![("click"@, click@)]));
            let ghost before = entries@;
            entries.push(("client::notification".to_owned(), notification));
            proof {
                lemma_entry_views(entries@);
                assert(entry_views(entries@) =~= first_two.push(
                    ("client::notification"@, notification@),
                ));
                assert(url_spec == Some(url@));
                assert(entry_views(entries@) =~= seq![
                    ("client::display"@, display@),
                    ("forgejo::webhook"@, webhook@),
                    ("client::notification"@, notification@),
                ]);
            }
        } else {
            assert(url_spec is None);
        }
        let res = JsonValue::Object(entries);
        assert(res@ == JsonData::Object(entry_views(entries@)));
        res
    }

    /// The repository the payload is about.
    fn repository(&self) -> (res: Option<&str>)
        ensures
            opt_view(res) == repository_spec(self.body@),
    {
        let p0: [&str; 2] = ["repository", "full_name"];
        assert(str_views(p0@) =~= seq!["repository"@, "full_name"@]);
        let p1: [&str; 2] = ["repository", "name"];
        assert(str_views(p1@) =~= seq!["repository"@, "name"@]);
        let p2: [&str; 3] = ["run", "repository", "full_name"];
        assert(str_views(p2@) =~= seq!["run"@, "repository"@, "full_name"@]);
        let p3: [&str; 3] = ["run", "repository", "name"];
        assert(str_views(p3@) =~= seq!["run"@, "repository"@, "name"@]);
        or_else_str(
            self.body.str_at(&p0),
            or_else_str(
                self.body.str_at(&p1),
                or_else_str(
                    self.body.str_at(&p2),
                    self.body.str_at(&p3),
                ),
            ),
        )
    }

    /// The user the payload names as its sender.
    fn sender(&self) -> (res: Option<&str>)
        ensures
            opt_view(res) == sender_spec(self.body@),
    {
        let p0: [&str; 2] = ["sender", "login"];
        assert(str_views(p0@) =~= seq!["sender"@, "login"@]);
        let p1: [&str; 2] = ["sender", "username"];
        assert(str_views(p1@) =~= seq!["sender"@, "username"@]);
        let p2: [&str; 3] = ["run", "trigger_user", "login"];
        assert(str_views(p2@) =~= seq!["run"@, "trigger_user"@, "login"@]);
        let p3: [&str; 3] = ["run", "trigger_user", "username"];
        assert(str_views(p3@) =~= seq!["run"@, "trigger_user"@, "username"@]);
        or_else_str(
            self.body.str_at(&p0),
            or_else_str(
                self.body.str_at(&p1),
                or_else_str(
                    self.body.str_at(&p2),
                    self.body.str_at(&p3),
                ),
            ),
        )
    }

    /// The ref the payload is about.
    fn ref_name(&self) -> (res: Option<&str>)
        ensures
            opt_view(res) == ref_spec(self.body@),
    {
        let p0: [&str; 1] = ["ref"];
        assert(str_views(p0@) =~= seq!["ref"@]);
        let p1: [&str; 2] = ["run", "prettyref"];
        assert(str_views(p1@) =~= seq!["run"@, "prettyref"@]);
        let p2: [&str; 3] = ["pull_request", "head", "ref"];
        assert(str_views(p2@) =~= seq!["pull_request"@, "head"@, "ref"@]);
        or_else_str(
            self.body.str_at(&p0),
            or_else_str(
                self.body.str_at(&p1),
                self.body.str_at(&p2),
            ),
        )
    }

    /// The commit the payload is about.
    fn commit_sha(&self) -> (res: Option<&str>)
        ensures
            opt_view(res) == commit_spec(self.body@),
    {
        let p0: [&str; 1] = ["after"];
        assert(str_views(p0@) =~= seq!["after"@]);
        let p1: [&str; 2] = ["run", "commit_sha"];
        assert(str_views(p1@) =~= seq!["run"@, "commit_sha"@]);
        let p2: [&str; 3] = ["pull_request", "head", "sha"];
        assert(str_views(p2@) =~= seq!["pull_request"@, "head"@, "sha"@]);
        or_else_str(
            self.body.str_at(&p0),
            or_else_str(
                self.body.str_at(&p1),
                self.body.str_at(&p2),
            ),
        )
    }

    /// The page in Forgejo that best shows what the payload is about.
    fn best_url(&self) -> (res: Option<&str>)
        ensures
            opt_view(res) == best_url_spec(self.body@),
    {
        let p0: [&str; 2] = ["workflow_run", "html_url"];
        assert(str_views(p0@) =~= seq!["workflow_run"@, "html_url"@]);
        let p1: [&str; 2] = ["run", "html_url"];
        assert(str_views(p1@) =~= seq!["run"@, "html_url"@]);
        let p2: [&str; 1] = ["compare_url"];
        assert(str_views(p2@) =~= seq!["compare_url"@]);
        let p3: [&str; 2] = ["pull_request", "html_url"];
        assert(str_views(p3@) =~= seq!["pull_request"@, "html_url"@]);
        let p4: [&str; 2] = ["issue", "html_url"];
        assert(str_views(p4@) =~= seq!["issue"@, "html_url"@]);
        let p5: [&str; 2] = ["release", "html_url"];
        assert(str_views(p5@) =~= seq!["release"@, "html_url"@]);
        let p6: [&str; 2] = ["repository", "html_url"];
        assert(str_views(p6@) =~= seq!["repository"@, "html_url"@]);
        let p7: [&str; 3] = ["run", "repository", "html_url"];
        assert(str_views(p7@) =~= seq!["run"@, "repository"@, "html_url"@]);
        or_else_str(
            self.body.str_at(&p0),
            or_else_str(
                self.body.str_at(&p1),
                or_else_str(
                    self.body.str_at(&p2),
                    or_else_str(
                        self.body.str_at(&p3),
                        or_else_str(
                            self.body.str_at(&p4),
                            or_else_str(
                                self.body.str_at(&p5),
                                or_else_str(
                                    self.body.str_at(&p6),
                                    self.body.str_at(&p7),
                                ),
                            ),
                        ),
                    ),
                ),
            ),
        )
    }

}

/// An optional string as JSON: the string, or `null`.
fn json_from_option(value: &Option<String>) -> (res: JsonValue)
    ensures
        res@ == json_opt(opt_string_view(*value)),
{
    match value {
        Some(s) => JsonValue::Str(s.clone()),
        None => JsonValue::Null,
    }
}

/// The extras carry the payload whole under `forgejo::webhook`, and a
/// click URL under `client::notification` exactly when the payload has a
/// page in Forgejo, that page being the URL.
pub proof fn lemma_extras_click_url(
    event: Seq<char>,
    event_type: Option<Seq<char>>,
    delivery: Option<Seq<char>>,
    body: JsonData,
)
    ensures
        json_get(extras_spec(event, event_type, delivery, body), "client::notification"@) is Some
            <==> best_url_spec(body) is Some,
        str_at_spec(
            extras_spec(event, event_type, delivery, body),
            seq!["client::notification"@, "click"@, "url"@],
        ) == best_url_spec(body),
        json_at(extras_spec(event, event_type, delivery, body), seq!["forgejo::webhook"@, "payload"@])
            == Some(body),
{
    reveal_strlit("client::display");
    assert("client::display"@.len() == 15);
    reveal_strlit("forgejo::webhook");
    assert("forgejo::webhook"@.len() == 16);
    reveal_strlit("client::notification");
    assert("client::notification"@.len() == 20);
    reveal_strlit("contentType");
    assert("contentType"@.len() == 11);
    reveal_strlit("event");
    assert("event"@.len() == 5);
    reveal_strlit("event_type");
    assert("event_type"@.len() == 10);
    reveal_strlit("delivery");
    assert("delivery"@.len() == 8);
    reveal_strlit("payload");
    assert("payload"@.len() == 7);
    reveal_strlit("click");
    assert("click"@.len() == 5);
    reveal_strlit("url");
    assert("url"@.len() == 3);
    let extras = extras_spec(event, event_type, delivery, body);
    let p = seq!["client::notification"@, "click"@, "url"@];
    assert(p.drop_first() =~= seq!["click"@, "url"@]);
    assert(p.drop_first().drop_first() =~= seq!["url"@]);
    assert(seq!["url"@].drop_first() =~= Seq::<Seq<char>>::empty());
    let q = seq!["forgejo::webhook"@, "payload"@];
    assert(q.drop_first() =~= seq!["payload"@]);
    assert(seq!["payload"@].drop_first() =~= Seq::<Seq<char>>::empty());
    let key = "client::notification"@;
    match extras {
        JsonData::Object(entries) => {
            assert(entries[0].0 == "client::display"@);
            assert(entries[1].0 == "forgejo::webhook"@);
            assert(entries[0].0 != key);
            assert(entries[1].0 != key);
            let rest1 = entries.drop_first();
            let rest2 = rest1.drop_first();
            assert(rest1[0] == entries[1]);
            assert(json_get(extras, key) == object_get(entries, key));
            assert(object_get(entries, key) == object_get(rest1, key));
            assert(object_get(rest1, key) == object_get(rest2, key));
            match best_url_spec(body) {
                Some(url) => {
                    assert(rest2[0] == entries[2]);
                    assert(entries[2].0 == key);
                    let notification = entries[2].1;
                    assert(object_get(rest2, key) == Some(notification));
                    let click = JsonData::Object(seq![("url"@, JsonData::Str(url))]);
                    assert(notification == JsonData::Object(seq![("click"@, click)]));
                    assert(json_get(notification, "click"@) == Some(click));
                    assert(json_get(click, "url"@) == Some(JsonData::Str(url)));
                    assert(json_at(JsonData::Str(url), Seq::<Seq<char>>::empty()) == Some(
                        JsonData::Str(url),
                    ));
                    assert(json_at(click, seq!["url"@]) == Some(JsonData::Str(url)));
                    assert(json_at(notification, seq!["click"@, "url"@]) == Some(
                        JsonData::Str(url),
                    ));
                    assert(json_at(extras, p) == Some(JsonData::Str(url)));
                },
                None => {
                    assert(rest2 =~= Seq::<(Seq<char>, JsonData)>::empty());
                    assert(object_get(rest2, key) is None);
                    assert(json_at(extras, p) is None);
                },
            }
            let webhook = entries[1].1;
            let key2 = "forgejo::webhook"@;
            assert(entries[0].0 != key2);
            assert(object_get(entries, key2) == object_get(rest1, key2));
            assert(object_get(rest1, key2) == Some(webhook));
            let payload_key = "payload"@;
            match webhook {
                JsonData::Object(w) => {
                    let w1 = w.drop_first();
                    let w2 = w1.drop_first();
                    let w3 = w2.drop_first();
                    assert(w1[0] == w[1]);
                    assert(w2[0] == w[2]);
                    assert(w3[0] == w[3]);
                    assert(w[0].0 != payload_key);
                    assert(w[1].0 != payload_key);
                    assert(w[2].0 != payload_key);
                    assert(w[3].0 == payload_key);
                    assert(object_get(w, payload_key) == object_get(w1, payload_key));
                    assert(object_get(w1, payload_key) == object_get(w2, payload_key));
                    assert(object_get(w2, payload_key) == object_get(w3, payload_key));
                    assert(object_get(w3, payload_key) == Some(body));
                    assert(json_get(webhook, payload_key) == Some(body));
                    assert(json_at(body, Seq::<Seq<char>>::empty()) == Some(body));
                    assert(json_at(webhook, seq![payload_key]) == Some(body));
                    assert(json_at(extras, q) == Some(body));
                },
                _ => {},
            }
        },
        _ => {},
    }
}

/// Checking a signature accepts a request exactly when its signature header
/// holds, in hexadecimal, the HMAC-SHA256 of the body under the secret;
/// otherwise the request is refused as unsigned or wrongly signed.
pub proof fn lemma_signature_check(
    secret: Seq<char>,
    headers: Seq<(Seq<char>, Seq<u8>)>,
    body: Seq<u8>,
)
    ensures
        signature_check_spec(secret, headers, body) is Ok <==> exists|signature: Seq<char>|
            signature_header(headers) == Some(signature) && #[trigger] hex_decode_spec(
                vstd::utf8::encode_utf8(signature),
            ) == Some(hmac_sha256(vstd::utf8::encode_utf8(secret), body)),
        signature_check_spec(secret, headers, body) matches Err(e) ==> e
            == WebhookError::MissingSignature || e == WebhookError::InvalidSignature,
{
    if let Some(signature) = signature_header(headers) {
        assert(hex_decode_spec(vstd::utf8::encode_utf8(signature)) == hex_decode_spec(
            vstd::utf8::encode_utf8(signature),
        ));
    }
}

/// Whether `s` begins with `p`.
pub open spec fn has_prefix(s: Seq<char>, p: Seq<char>) -> bool {
    p.len() <= s.len() && s.subrange(0, p.len() as int) == p
}

/// Whether every line begins with the name of a field that is not left out,
/// then `: `.
pub open spec fn lines_name_included_fields(lines: Seq<Seq<char>>, exclusions: Set<BodyField>) -> bool {
    forall|k: int| 0 <= k < lines.len() ==> #[trigger] line_names_included_field(lines[k], exclusions)
}

/// Whether a line begins with the name of a field that is not left out,
/// then `: `.
pub open spec fn line_names_included_field(line: Seq<char>, exclusions: Set<BodyField>) -> bool {
    exists|g: BodyField| !exclusions.contains(g) && #[trigger] has_prefix(line, field_name(g) + ": "@)
}

/// A field's line, where there is one, names a field not left out.
proof fn lemma_optional_line(exclusions: Set<BodyField>, field: BodyField, value: Option<Seq<char>>)
    ensures
        lines_name_included_fields(optional_line_spec(exclusions, field, value), exclusions),
        lines_name_included_fields(
            line_spec(exclusions, field, match value {
                Some(v) => v,
                None => Seq::empty(),
            }),
            exclusions,
        ),
{
    let v = match value {
        Some(v) => v,
        None => Seq::empty(),
    };
    let prefix = field_name(field) + ": "@;
    assert((prefix + v).subrange(0, prefix.len() as int) =~= prefix);
    assert(has_prefix(prefix + v, prefix));
    let lines = line_spec(exclusions, field, v);
    if !exclusions.contains(field) {
        assert(lines[0] == prefix + v);
        assert(line_names_included_field(lines[0], exclusions));
    }
}

/// Joining line lists keeps every line naming a field not left out.
proof fn lemma_lines_concat(a: Seq<Seq<char>>, b: Seq<Seq<char>>, exclusions: Set<BodyField>)
    requires
        lines_name_included_fields(a, exclusions),
        lines_name_included_fields(b, exclusions),
    ensures
        lines_name_included_fields(a + b, exclusions),
{
    assert forall|k: int| 0 <= k < (a + b).len() implies #[trigger] line_names_included_field(
        (a + b)[k],
        exclusions,
    ) by {
        if k < a.len() {
            assert((a + b)[k] == a[k]);
            assert(line_names_included_field(a[k], exclusions));
        } else {
            assert((a + b)[k] == b[k - a.len()]);
            assert(line_names_included_field(b[k - a.len()], exclusions));
        }
    }
}

/// Two field names that each begin a text, followed by `: `, are the same.
proof fn lemma_one_field_per_line(s: Seq<char>, f: BodyField, g: BodyField)
    requires
        has_prefix(s, field_name(f) + ": "@),
        has_prefix(s, field_name(g) + ": "@),
    ensures
        f == g,
{
    reveal_strlit(": ");
    let a = field_name(f);
    let b = field_name(g);
    lemma_field_name_has_no_colon(f);
    lemma_field_name_has_no_colon(g);
    assert(s.subrange(0, (a + ": "@).len() as int)[a.len() as int] == (a + ": "@)[a.len() as int]);
    assert(s.subrange(0, (b + ": "@).len() as int)[b.len() as int] == (b + ": "@)[b.len() as int]);
    if a.len() < b.len() {
        assert(s.subrange(0, (b + ": "@).len() as int)[a.len() as int] == (b + ": "@)[a.len() as int]);
        assert(b[a.len() as int] == ':');
    } else if b.len() < a.len() {
        assert(s.subrange(0, (a + ": "@).len() as int)[b.len() as int] == (a + ": "@)[b.len() as int]);
        assert(a[b.len() as int] == ':');
    } else {
        assert forall|i: int| 0 <= i < a.len() implies a[i] == b[i] by {
            assert(s.subrange(0, (a + ": "@).len() as int)[i] == (a + ": "@)[i]);
            assert(s.subrange(0, (b + ": "@).len() as int)[i] == (b + ": "@)[i]);
        }
        assert(a =~= b);
        lemma_parse_field_name(f);
        lemma_parse_field_name(g);
    }
}

/// A notification's body leaves out the excluded fields: each line begins
/// with the name of a field that is not left out, then `: `, and no line
/// begins with the name of one that is.
pub proof fn lemma_message_excludes_fields(
    exclusions: Set<BodyField>,
    event: Seq<char>,
    event_type: Option<Seq<char>>,
    delivery: Option<Seq<char>>,
    body: JsonData,
    excluded: BodyField,
)
    ensures
        lines_name_included_fields(
            message_lines(exclusions, event, event_type, delivery, body),
            exclusions,
        ),
        exclusions.contains(excluded) ==> forall|k: int|
            0 <= k < message_lines(exclusions, event, event_type, delivery, body).len()
                ==> !has_prefix(
                #[trigger] message_lines(exclusions, event, event_type, delivery, body)[k],
                field_name(excluded) + ": "@,
            ),
{
    let l0 = line_spec(exclusions, BodyField::Event, kind_spec(event, event_type));
    let l1 = optional_line_spec(exclusions, BodyField::Repository, repository_spec(body));
    let l2 = optional_line_spec(exclusions, BodyField::Action, str_at_spec(body, seq!["action"@]));
    let l3 = optional_line_spec(
        exclusions,
        BodyField::PriorStatus,
        str_at_spec(body, seq!["prior_status"@]),
    );
    let l4 = optional_line_spec(exclusions, BodyField::Ref, ref_spec(body));
    let l5 = optional_line_spec(exclusions, BodyField::Commit, commit_spec(body));
    let l6 = optional_line_spec(exclusions, BodyField::Sender, sender_spec(body));
    let l7 = optional_line_spec(exclusions, BodyField::Url, best_url_spec(body));
    let l8 = optional_line_spec(exclusions, BodyField::Delivery, delivery);
    lemma_optional_line(exclusions, BodyField::Event, Some(kind_spec(event, event_type)));
    lemma_optional_line(exclusions, BodyField::Repository, repository_spec(body));
    lemma_optional_line(exclusions, BodyField::Action, str_at_spec(body, seq!["action"@]));
    lemma_optional_line(exclusions, BodyField::PriorStatus, str_at_spec(body, seq!["prior_status"@]));
    lemma_optional_line(exclusions, BodyField::Ref, ref_spec(body));
    lemma_optional_line(exclusions, BodyField::Commit, commit_spec(body));
    lemma_optional_line(exclusions, BodyField::Sender, sender_spec(body));
    lemma_optional_line(exclusions, BodyField::Url, best_url_spec(body));
    lemma_optional_line(exclusions, BodyField::Delivery, delivery);
    lemma_lines_concat(l0, l1, exclusions);
    lemma_lines_concat(l0 + l1, l2, exclusions);
    lemma_lines_concat(l0 + l1 + l2, l3, exclusions);
    lemma_lines_concat(l0 + l1 + l2 + l3, l4, exclusions);
    lemma_lines_concat(l0 + l1 + l2 + l3 + l4, l5, exclusions);
    lemma_lines_concat(l0 + l1 + l2 + l3 + l4 + l5, l6, exclusions);
    lemma_lines_concat(l0 + l1 + l2 + l3 + l4 + l5 + l6, l7, exclusions);
    lemma_lines_concat(l0 + l1 + l2 + l3 + l4 + l5 + l6 + l7, l8, exclusions);
    let lines = message_lines(exclusions, event, event_type, delivery, body);
    assert(lines == l0 + l1 + l2 + l3 + l4 + l5 + l6 + l7 + l8);
    if exclusions.contains(excluded) {
        assert forall|k: int| 0 <= k < lines.len() implies !has_prefix(
            #[trigger] lines[k],
            field_name(excluded) + ": "@,
        ) by {
            assert(line_names_included_field(lines[k], exclusions));
            let g = choose|g: BodyField|
                !exclusions.contains(g) && #[trigger] has_prefix(lines[k], field_name(g) + ": "@);
            if has_prefix(lines[k], field_name(excluded) + ": "@) {
                lemma_one_field_per_line(lines[k], excluded, g);
            }
        }
    }
}

/// The value that a message shows for `field`, before the rule that leaves
/// out empty values.
spec fn field_value(
    field: BodyField,
    event: Seq<char>,
    event_type: Option<Seq<char>>,
    delivery: Option<Seq<char>>,
    body: JsonData,
) -> Option<Seq<char>> {
    match field {
        BodyField::Event => Some(kind_spec(event, event_type)),
        BodyField::Repository => repository_spec(body),
        BodyField::Action => str_at_spec(body, seq!["action"@]),
        BodyField::PriorStatus => str_at_spec(body, seq!["prior_status"@]),
        BodyField::Ref => ref_spec(body),
        BodyField::Commit => commit_spec(body),
        BodyField::Sender => sender_spec(body),
        BodyField::Url => best_url_spec(body),
        BodyField::Delivery => delivery,
    }
}

/// Adding lines after a list keeps what it holds.
proof fn lemma_contains_then(a: Seq<Seq<char>>, b: Seq<Seq<char>>, x: Seq<char>)
    requires
        a.contains(x),
    ensures
        (a + b).contains(x),
{
    let k = choose|k: int| 0 <= k < a.len() && a[k] == x;
    assert((a + b)[k] == x);
}

/// A list followed by a single line holds that line.
proof fn lemma_contains_single(a: Seq<Seq<char>>, b: Seq<Seq<char>>, x: Seq<char>)
    requires
        b == seq![x],
    ensures
        (a + b).contains(x),
{
    assert((a + b)[a.len() as int] == x);
}

/// The lines of a message, each field's lines in turn.
proof fn lemma_message_segments(
    exclusions: Set<BodyField>,
    event: Seq<char>,
    event_type: Option<Seq<char>>,
    delivery: Option<Seq<char>>,
    body: JsonData,
)
    ensures
        message_lines(exclusions, event, event_type, delivery, body) == line_spec(
            exclusions,
            BodyField::Event,
            kind_spec(event, event_type),
        ) + optional_line_spec(
            exclusions,
            BodyField::Repository,
            field_value(BodyField::Repository, event, event_type, delivery, body),
        ) + optional_line_spec(
            exclusions,
            BodyField::Action,
            field_value(BodyField::Action, event, event_type, delivery, body),
        ) + optional_line_spec(
            exclusions,
            BodyField::PriorStatus,
            field_value(BodyField::PriorStatus, event, event_type, delivery, body),
        ) + optional_line_spec(
            exclusions,
            BodyField::Ref,
            field_value(BodyField::Ref, event, event_type, delivery, body),
        ) + optional_line_spec(
            exclusions,
            BodyField::Commit,
            field_value(BodyField::Commit, event, event_type, delivery, body),
        ) + optional_line_spec(
            exclusions,
            BodyField::Sender,
            field_value(BodyField::Sender, event, event_type, delivery, body),
        ) + optional_line_spec(
            exclusions,
            BodyField::Url,
            field_value(BodyField::Url, event, event_type, delivery, body),
        ) + optional_line_spec(
            exclusions,
            BodyField::Delivery,
            field_value(BodyField::Delivery, event, event_type, delivery, body),
        ),
{
}

/// A field with a non-empty value that is not left out has its line.
proof fn lemma_field_line_present(
    exclusions: Set<BodyField>,
    event: Seq<char>,
    event_type: Option<Seq<char>>,
    delivery: Option<Seq<char>>,
    body: JsonData,
    field: BodyField,
)
    requires
        field_value(field, event, event_type, delivery, body) is Some,
        field_value(field, event, event_type, delivery, body)->0.len() > 0,
        !exclusions.contains(field),
    ensures
        message_lines(exclusions, event, event_type, delivery, body).contains(
            field_name(field) + ": "@ + field_value(field, event, event_type, delivery, body)->0,
        ),
{
    lemma_message_segments(exclusions, event, event_type, delivery, body);
    let fv = |f: BodyField| field_value(f, event, event_type, delivery, body);
    let l0 = line_spec(exclusions, BodyField::Event, kind_spec(event, event_type));
    let l1 = optional_line_spec(exclusions, BodyField::Repository, fv(BodyField::Repository));
    let l2 = optional_line_spec(exclusions, BodyField::Action, fv(BodyField::Action));
    let l3 = optional_line_spec(exclusions, BodyField::PriorStatus, fv(BodyField::PriorStatus));
    let l4 = optional_line_spec(exclusions, BodyField::Ref, fv(BodyField::Ref));
    let l5 = optional_line_spec(exclusions, BodyField::Commit, fv(BodyField::Commit));
    let l6 = optional_line_spec(exclusions, BodyField::Sender, fv(BodyField::Sender));
    let l7 = optional_line_spec(exclusions, BodyField::Url, fv(BodyField::Url));
    let l8 = optional_line_spec(exclusions, BodyField::Delivery, fv(BodyField::Delivery));
    let s = field_name(field) + ": "@ + fv(field)->0;
    let p0 = l0;
    let p1 = p0 + l1;
    let p2 = p1 + l2;
    let p3 = p2 + l3;
    let p4 = p3 + l4;
    let p5 = p4 + l5;
    let p6 = p5 + l6;
    let p7 = p6 + l7;
    let p8 = p7 + l8;
    match field {
        BodyField::Event => {
            assert(p0[0] == s);
            lemma_contains_then(p0, l1, s);
        },
        BodyField::Repository => lemma_contains_single(p0, l1, s),
        BodyField::Action => lemma_contains_single(p1, l2, s),
        BodyField::PriorStatus => lemma_contains_single(p2, l3, s),
        BodyField::Ref => lemma_contains_single(p3, l4, s),
        BodyField::Commit => lemma_contains_single(p4, l5, s),
        BodyField::Sender => lemma_contains_single(p5, l6, s),
        BodyField::Url => lemma_contains_single(p6, l7, s),
        BodyField::Delivery => lemma_contains_single(p7, l8, s),
    }
    if p1.contains(s) {
        lemma_contains_then(p1, l2, s);
    }
    if p2.contains(s) {
        lemma_contains_then(p2, l3, s);
    }
    if p3.contains(s) {
        lemma_contains_then(p3, l4, s);
    }
    if p4.contains(s) {
        lemma_contains_then(p4, l5, s);
    }
    if p5.contains(s) {
        lemma_contains_then(p5, l6, s);
    }
    if p6.contains(s) {
        lemma_contains_then(p6, l7, s);
    }
    if p7.contains(s) {
        lemma_contains_then(p7, l8, s);
    }
    assert(p8.contains(s));
}

/// A field that is left out, or that has no value or an empty one, has no
/// line (the event's line is there unless it is left out).
proof fn lemma_field_line_absent(
    exclusions: Set<BodyField>,
    event: Seq<char>,
    event_type: Option<Seq<char>>,
    delivery: Option<Seq<char>>,
    body: JsonData,
    field: BodyField,
)
    requires
        exclusions.contains(field) || (field != BodyField::Event && (field_value(
            field,
            event,
            event_type,
            delivery,
            body,
        ) is None || field_value(field, event, event_type, delivery, body)->0.len() == 0)),
    ensures
        forall|k: int|
            0 <= k < message_lines(exclusions, event, event_type, delivery, body).len()
                ==> !has_prefix(
                #[trigger] message_lines(exclusions, event, event_type, delivery, body)[k],
                field_name(field) + ": "@,
            ),
{
    if exclusions.contains(field) {
        lemma_message_excludes_fields(exclusions, event, event_type, delivery, body, field);
    } else {
        let more = exclusions.insert(field);
        lemma_message_segments(exclusions, event, event_type, delivery, body);
        lemma_message_segments(more, event, event_type, delivery, body);
        assert(optional_line_spec(
            more,
            field,
            field_value(field, event, event_type, delivery, body),
        ) == optional_line_spec(
            exclusions,
            field,
            field_value(field, event, event_type, delivery, body),
        ));
        assert(message_lines(more, event, event_type, delivery, body) == message_lines(
            exclusions,
            event,
            event_type,
            delivery,
            body,
        ));
        lemma_message_excludes_fields(more, event, event_type, delivery, body, field);
    }
}

/// The first header named `name` decides what `name` reads as: its value as
/// text where every byte is visible ASCII (32 to 126) or a tab, else
/// nothing; a name that no header has reads as nothing.
pub proof fn lemma_header_text(headers: Seq<(Seq<char>, Seq<u8>)>, name: Seq<char>, k: int)
    ensures
        0 <= k < headers.len() && headers[k].0 == name && (forall|j: int|
            0 <= j < k ==> #[trigger] headers[j].0 != name) ==> {
            &&& (forall|i: int|
                0 <= i < headers[k].1.len() ==> 32 <= #[trigger] headers[k].1[i] < 127
                    || headers[k].1[i] == 9) ==> header_spec(headers, name) == Some(
                headers[k].1.map_values(|b: u8| b as char),
            )
            &&& (exists|i: int|
                0 <= i < headers[k].1.len() && !(32 <= #[trigger] headers[k].1[i] < 127
                    || headers[k].1[i] == 9)) ==> header_spec(headers, name) is None
        },
        (forall|j: int| 0 <= j < headers.len() ==> #[trigger] headers[j].0 != name) ==> header_spec(
            headers,
            name,
        ) is None,
    decreases headers.len(),
{
    if headers.len() > 0 {
        lemma_header_text(headers.drop_first(), name, k - 1);
        if k > 0 && k < headers.len() {
            assert(headers.drop_first()[k - 1] == headers[k]);
            if forall|j: int| 0 <= j < k ==> #[trigger] headers[j].0 != name {
                assert(headers[0].0 != name);
                assert forall|j: int| 0 <= j < k - 1 implies #[trigger] headers.drop_first()[j].0
                    != name by {
                    assert(headers.drop_first()[j] == headers[j + 1]);
                }
            }
        }
        if forall|j: int| 0 <= j < headers.len() ==> #[trigger] headers[j].0 != name {
            assert(headers[0].0 != name);
            assert forall|j: int| 0 <= j < headers.len() - 1 implies #[trigger] headers.drop_first()[j].0
                != name by {
                assert(headers.drop_first()[j] == headers[j + 1]);
            }
        }
    }
}

/// A request's event, event type, delivery and signature are read from the
/// `x-forgejo-*` header, else from the `x-gitea-*` one.
pub proof fn lemma_request_header_names(headers: Seq<(Seq<char>, Seq<u8>)>)
    ensures
        event_header(headers) == match header_spec(headers, "x-forgejo-event"@) {
            Some(v) => Some(v),
            None => header_spec(headers, "x-gitea-event"@),
        },
        event_type_header(headers) == match header_spec(headers, "x-forgejo-event-type"@) {
            Some(v) => Some(v),
            None => header_spec(headers, "x-gitea-event-type"@),
        },
        delivery_header(headers) == match header_spec(headers, "x-forgejo-delivery"@) {
            Some(v) => Some(v),
            None => header_spec(headers, "x-gitea-delivery"@),
        },
        signature_header(headers) == match header_spec(headers, "x-forgejo-signature"@) {
            Some(v) => Some(v),
            None => header_spec(headers, "x-gitea-signature"@),
        },
{
}

/// A title reads `{prefix}: {kind} in {repository}`: the kind is the event
/// type, else the event; the repository is the string at
/// `repository.full_name`, else `repository.name`, else
/// `run.repository.full_name`, else `run.repository.name`, else
/// `unknown repository`.
pub proof fn lemma_title(prefix: Seq<char>, event: Seq<char>, event_type: Option<Seq<char>>, body: JsonData)
    ensures
        ({
            let head = prefix + ": "@ + match event_type {
                Some(t) => t,
                None => event,
            } + " in "@;
            let title = title_spec(prefix, event, event_type, body);
            let r0 = str_at_spec(body, seq!["repository"@, "full_name"@]);
            let r1 = str_at_spec(body, seq!["repository"@, "name"@]);
            let r2 = str_at_spec(body, seq!["run"@, "repository"@, "full_name"@]);
            let r3 = str_at_spec(body, seq!["run"@, "repository"@, "name"@]);
            &&& r0 is Some ==> title == head + r0->0
            &&& r0 is None && r1 is Some ==> title == head + r1->0
            &&& r0 is None && r1 is None && r2 is Some ==> title == head + r2->0
            &&& r0 is None && r1 is None && r2 is None && r3 is Some ==> title == head + r3->0
            &&& r0 is None && r1 is None && r2 is None && r3 is None ==> title == head
                + "unknown repository"@
        }),
{
}

/// A message's first line, unless left out, is `event: ` and the event
/// type, else the event.
pub proof fn lemma_message_event_line(
    exclusions: Set<BodyField>,
    event: Seq<char>,
    event_type: Option<Seq<char>>,
    delivery: Option<Seq<char>>,
    body: JsonData,
)
    ensures
        ({
            let lines = message_lines(exclusions, event, event_type, delivery, body);
            let kind = match event_type {
                Some(t) => t,
                None => event,
            };
            &&& !exclusions.contains(BodyField::Event) && kind.len() > 0 ==> lines.len() > 0
                && lines[0] == "event"@ + ": "@ + kind
            &&& exclusions.contains(BodyField::Event) ==> forall|k: int|
                0 <= k < lines.len() ==> !has_prefix(#[trigger] lines[k], "event"@ + ": "@)
        }),
{
    lemma_message_segments(exclusions, event, event_type, delivery, body);
    if exclusions.contains(BodyField::Event) {
        lemma_field_line_absent(exclusions, event, event_type, delivery, body, BodyField::Event);
    }
}

/// A message shows the repository at `repository.full_name`, else
/// `repository.name`, else `run.repository.full_name`, else
/// `run.repository.name`, and no repository line where none holds a string.
pub proof fn lemma_message_repository_line(
    exclusions: Set<BodyField>,
    event: Seq<char>,
    event_type: Option<Seq<char>>,
    delivery: Option<Seq<char>>,
    body: JsonData,
)
    ensures
        ({
            let lines = message_lines(exclusions, event, event_type, delivery, body);
            let shown = !exclusions.contains(BodyField::Repository);
            let name = "repository"@ + ": "@;
            let r0 = str_at_spec(body, seq!["repository"@, "full_name"@]);
            let r1 = str_at_spec(body, seq!["repository"@, "name"@]);
            let r2 = str_at_spec(body, seq!["run"@, "repository"@, "full_name"@]);
            let r3 = str_at_spec(body, seq!["run"@, "repository"@, "name"@]);
            &&& shown && r0 is Some && r0->0.len() > 0 ==> lines.contains(name + r0->0)
            &&& shown && r0 is None && r1 is Some && r1->0.len() > 0 ==> lines.contains(name + r1->0)
            &&& shown && r0 is None && r1 is None && r2 is Some && r2->0.len() > 0 ==> lines.contains(
                name + r2->0,
            )
            &&& shown && r0 is None && r1 is None && r2 is None && r3 is Some && r3->0.len() > 0
                ==> lines.contains(name + r3->0)
            &&& r0 is None && r1 is None && r2 is None && r3 is None ==> forall|k: int|
                0 <= k < lines.len() ==> !has_prefix(#[trigger] lines[k], name)
        }),
{
    let f = BodyField::Repository;
    let v = field_value(f, event, event_type, delivery, body);
    if v is Some && v->0.len() > 0 && !exclusions.contains(f) {
        lemma_field_line_present(exclusions, event, event_type, delivery, body, f);
    }
    if v is None {
        lemma_field_line_absent(exclusions, event, event_type, delivery, body, f);
    }
}

/// A message shows the string at `action`, and the one at `prior_status`,
/// each on its own line, and no such line where the body has no string
/// there.
pub proof fn lemma_message_action_lines(
    exclusions: Set<BodyField>,
    event: Seq<char>,
    event_type: Option<Seq<char>>,
    delivery: Option<Seq<char>>,
    body: JsonData,
)
    ensures
        ({
            let lines = message_lines(exclusions, event, event_type, delivery, body);
            let a = str_at_spec(body, seq!["action"@]);
            let p = str_at_spec(body, seq!["prior_status"@]);
            &&& !exclusions.contains(BodyField::Action) && a is Some && a->0.len() > 0
                ==> lines.contains("action"@ + ": "@ + a->0)
            &&& a is None ==> forall|k: int|
                0 <= k < lines.len() ==> !has_prefix(#[trigger] lines[k], "action"@ + ": "@)
            &&& !exclusions.contains(BodyField::PriorStatus) && p is Some && p->0.len() > 0
                ==> lines.contains("prior_status"@ + ": "@ + p->0)
            &&& p is None ==> forall|k: int|
                0 <= k < lines.len() ==> !has_prefix(#[trigger] lines[k], "prior_status"@ + ": "@)
        }),
{
    let f = BodyField::Action;
    let v = field_value(f, event, event_type, delivery, body);
    if v is Some && v->0.len() > 0 && !exclusions.contains(f) {
        lemma_field_line_present(exclusions, event, event_type, delivery, body, f);
    }
    if v is None {
        lemma_field_line_absent(exclusions, event, event_type, delivery, body, f);
    }
    let f = BodyField::PriorStatus;
    let v = field_value(f, event, event_type, delivery, body);
    if v is Some && v->0.len() > 0 && !exclusions.contains(f) {
        lemma_field_line_present(exclusions, event, event_type, delivery, body, f);
    }
    if v is None {
        lemma_field_line_absent(exclusions, event, event_type, delivery, body, f);
    }
}

/// A message shows the ref at `ref`, else `run.prettyref`, else
/// `pull_request.head.ref`, and no ref line where none holds a string.
pub proof fn lemma_message_ref_line(
    exclusions: Set<BodyField>,
    event: Seq<char>,
    event_type: Option<Seq<char>>,
    delivery: Option<Seq<char>>,
    body: JsonData,
)
    ensures
        ({
            let lines = message_lines(exclusions, event, event_type, delivery, body);
            let shown = !exclusions.contains(BodyField::Ref);
            let name = "ref"@ + ": "@;
            let r0 = str_at_spec(body, seq!["ref"@]);
            let r1 = str_at_spec(body, seq!["run"@, "prettyref"@]);
            let r2 = str_at_spec(body, seq!["pull_request"@, "head"@, "ref"@]);
            &&& shown && r0 is Some && r0->0.len() > 0 ==> lines.contains(name + r0->0)
            &&& shown && r0 is None && r1 is Some && r1->0.len() > 0 ==> lines.contains(name + r1->0)
            &&& shown && r0 is None && r1 is None && r2 is Some && r2->0.len() > 0 ==> lines.contains(
                name + r2->0,
            )
            &&& r0 is None && r1 is None && r2 is None ==> forall|k: int|
                0 <= k < lines.len() ==> !has_prefix(#[trigger] lines[k], name)
        }),
{
    let f = BodyField::Ref;
    let v = field_value(f, event, event_type, delivery, body);
    if v is Some && v->0.len() > 0 && !exclusions.contains(f) {
        lemma_field_line_present(exclusions, event, event_type, delivery, body, f);
    }
    if v is None {
        lemma_field_line_absent(exclusions, event, event_type, delivery, body, f);
    }
}

/// A message shows the commit at `after` (the commit a push leads to), else
/// `run.commit_sha`, else `pull_request.head.sha`, and no commit line where
/// none of them holds a string.
pub proof fn lemma_message_commit_line(
    exclusions: Set<BodyField>,
    event: Seq<char>,
    event_type: Option<Seq<char>>,
    delivery: Option<Seq<char>>,
    body: JsonData,
)
    ensures
        ({
            let lines = message_lines(exclusions, event, event_type, delivery, body);
            let shown = !exclusions.contains(BodyField::Commit);
            let name = "commit"@ + ": "@;
            let c0 = str_at_spec(body, seq!["after"@]);
            let c1 = str_at_spec(body, seq!["run"@, "commit_sha"@]);
            let c2 = str_at_spec(body, seq!["pull_request"@, "head"@, "sha"@]);
            &&& shown && c0 is Some && c0->0.len() > 0 ==> lines.contains(name + c0->0)
            &&& shown && c0 is None && c1 is Some && c1->0.len() > 0 ==> lines.contains(name + c1->0)
            &&& shown && c0 is None && c1 is None && c2 is Some && c2->0.len() > 0 ==> lines.contains(
                name + c2->0,
            )
            &&& c0 is None && c1 is None && c2 is None ==> forall|k: int|
                0 <= k < lines.len() ==> !has_prefix(#[trigger] lines[k], name)
        }),
{
    let f = BodyField::Commit;
    let v = field_value(f, event, event_type, delivery, body);
    if v is Some && v->0.len() > 0 && !exclusions.contains(f) {
        lemma_field_line_present(exclusions, event, event_type, delivery, body, f);
    }
    if v is None {
        lemma_field_line_absent(exclusions, event, event_type, delivery, body, f);
    }
}

/// A message shows the sender at `sender.login`, else `sender.username`,
/// else `run.trigger_user.login`, else `run.trigger_user.username`, and no
/// sender line where none holds a string.
pub proof fn lemma_message_sender_line(
    exclusions: Set<BodyField>,
    event: Seq<char>,
    event_type: Option<Seq<char>>,
    delivery: Option<Seq<char>>,
    body: JsonData,
)
    ensures
        ({
            let lines = message_lines(exclusions, event, event_type, delivery, body);
            let shown = !exclusions.contains(BodyField::Sender);
            let name = "sender"@ + ": "@;
            let s0 = str_at_spec(body, seq!["sender"@, "login"@]);
            let s1 = str_at_spec(body, seq!["sender"@, "username"@]);
            let s2 = str_at_spec(body, seq!["run"@, "trigger_user"@, "login"@]);
            let s3 = str_at_spec(body, seq!["run"@, "trigger_user"@, "username"@]);
            &&& shown && s0 is Some && s0->0.len() > 0 ==> lines.contains(name + s0->0)
            &&& shown && s0 is None && s1 is Some && s1->0.len() > 0 ==> lines.contains(name + s1->0)
            &&& shown && s0 is None && s1 is None && s2 is Some && s2->0.len() > 0 ==> lines.contains(
                name + s2->0,
            )
            &&& shown && s0 is None && s1 is None && s2 is None && s3 is Some && s3->0.len() > 0
                ==> lines.contains(name + s3->0)
            &&& s0 is None && s1 is None && s2 is None && s3 is None ==> forall|k: int|
                0 <= k < lines.len() ==> !has_prefix(#[trigger] lines[k], name)
        }),
{
    let f = BodyField::Sender;
    let v = field_value(f, event, event_type, delivery, body);
    if v is Some && v->0.len() > 0 && !exclusions.contains(f) {
        lemma_field_line_present(exclusions, event, event_type, delivery, body, f);
    }
    if v is None {
        lemma_field_line_absent(exclusions, event, event_type, delivery, body, f);
    }
}

/// A message shows the delivery id where the request has a non-empty one,
/// and no delivery line where it has none.
pub proof fn lemma_message_delivery_line(
    exclusions: Set<BodyField>,
    event: Seq<char>,
    event_type: Option<Seq<char>>,
    delivery: Option<Seq<char>>,
    body: JsonData,
)
    ensures
        ({
            let lines = message_lines(exclusions, event, event_type, delivery, body);
            &&& !exclusions.contains(BodyField::Delivery) && delivery is Some && delivery->0.len() > 0
                ==> lines.contains("delivery"@ + ": "@ + delivery->0)
            &&& delivery is None ==> forall|k: int|
                0 <= k < lines.len() ==> !has_prefix(#[trigger] lines[k], "delivery"@ + ": "@)
        }),
{
    let f = BodyField::Delivery;
    let v = field_value(f, event, event_type, delivery, body);
    if v is Some && v->0.len() > 0 && !exclusions.contains(f) {
        lemma_field_line_present(exclusions, event, event_type, delivery, body, f);
    }
    if v is None {
        lemma_field_line_absent(exclusions, event, event_type, delivery, body, f);
    }
}

/// The page of a payload: the string at `workflow_run.html_url`, else
/// `run.html_url`, else `compare_url`, else `pull_request.html_url`, else
/// `issue.html_url`, else `release.html_url`, else `repository.html_url`,
/// else `run.repository.html_url`: the repository's page only where no more
/// specific page is given. It is the click URL of the extras, which have no
/// `client::notification` where there is no page, and the message's url
/// line, which is missing where there is no page.
pub proof fn lemma_payload_page(
    exclusions: Set<BodyField>,
    event: Seq<char>,
    event_type: Option<Seq<char>>,
    delivery: Option<Seq<char>>,
    body: JsonData,
)
    ensures
        ({
            let lines = message_lines(exclusions, event, event_type, delivery, body);
            let extras = extras_spec(event, event_type, delivery, body);
            let click = str_at_spec(extras, seq!["client::notification"@, "click"@, "url"@]);
            let shown = !exclusions.contains(BodyField::Url);
            let name = "url"@ + ": "@;
            let u0 = str_at_spec(body, seq!["workflow_run"@, "html_url"@]);
            let u1 = str_at_spec(body, seq!["run"@, "html_url"@]);
            let u2 = str_at_spec(body, seq!["compare_url"@]);
            let u3 = str_at_spec(body, seq!["pull_request"@, "html_url"@]);
            let u4 = str_at_spec(body, seq!["issue"@, "html_url"@]);
            let u5 = str_at_spec(body, seq!["release"@, "html_url"@]);
            let u6 = str_at_spec(body, seq!["repository"@, "html_url"@]);
            let u7 = str_at_spec(body, seq!["run"@, "repository"@, "html_url"@]);
            &&& u0 is Some ==> click == u0
            &&& u0 is None && u1 is Some ==> click == u1
            &&& u0 is None && u1 is None && u2 is Some ==> click == u2
            &&& u0 is None && u1 is None && u2 is None && u3 is Some ==> click == u3
            &&& u0 is None && u1 is None && u2 is None && u3 is None && u4 is Some ==> click == u4
            &&& u0 is None && u1 is None && u2 is None && u3 is None && u4 is None && u5 is Some
                ==> click == u5
            &&& u0 is None && u1 is None && u2 is None && u3 is None && u4 is None && u5 is None
                && u6 is Some ==> click == u6
            &&& u0 is None && u1 is None && u2 is None && u3 is None && u4 is None && u5 is None
                && u6 is None ==> click == u7
            &&& u0 is None && u1 is None && u2 is None && u3 is None && u4 is None && u5 is None
                && u6 is None && u7 is None ==> json_get(extras, "client::notification"@) is None
                && forall|k: int| 0 <= k < lines.len() ==> !has_prefix(#[trigger] lines[k], name)
            &&& shown && click is Some && click->0.len() > 0 ==> lines.contains(name + click->0)
        }),
{
    lemma_extras_click_url(event, event_type, delivery, body);
    let f = BodyField::Url;
    let v = field_value(f, event, event_type, delivery, body);
    if v is Some && v->0.len() > 0 && !exclusions.contains(f) {
        lemma_field_line_present(exclusions, event, event_type, delivery, body, f);
    }
    if v is None {
        lemma_field_line_absent(exclusions, event, event_type, delivery, body, f);
    }
}

} // verus!
