//! Settings: their defaults, what a configuration file and the environment
//! change in them, and the checks that turn them into `Settings`.

use vstd::prelude::*;

use crate::events::{
    EventConfigError, EventConfigErrorView, EventFilter, EventNames,
    event_config_error_spec, event_config_message, filter_view_spec,
};
use crate::gotify::{parse_base_url, url_parse};
use crate::notification::{
    BodyFieldError, BodyFieldErrorView, BodyFieldExclusions, body_field_error_spec,
    body_field_message, named_fields,
};
use crate::text::{
    concat, normalize_names, opt_string_view, split_char, split_spec, starts_with_char, str_eq,
    str_views, trim, trim_end_char_spec, trim_spec, views,
};

verus! {

/// How the service logs.
#[derive(Debug, Clone)]
pub struct LoggingSettings {
    /// The log level or tracing filter.
    pub filter: String,
}

/// How notifications are written.
#[derive(Debug, Clone)]
pub struct NotificationSettings {
    pub body_exclude_fields: BodyFieldExclusions,
}

/// Where the service listens.
#[derive(Debug, Clone)]
pub struct ServerSettings {
    /// The listen address, as text that reads as a socket address.
    pub bind_addr: String,
    /// The route that webhooks are posted to.
    pub webhook_path: String,
}

/// Where and how notifications are sent.
#[derive(Debug, Clone)]
pub struct GotifySettings {
    /// The Gotify server's URL, as `url` serializes it.
    pub base_url: String,
    pub app_token: String,
    pub priority: i32,
    pub title_prefix: String,
}

/// Which Forgejo requests are accepted and forwarded.
#[derive(Debug, Clone)]
pub struct ForgejoSettings {
    /// The secret that signs requests, where one is set.
    pub secret: Option<String>,
    pub filter: EventFilter,
}

/// The service's settings.
#[derive(Debug, Clone)]
pub struct Settings {
    pub server: ServerSettings,
    pub logging: LoggingSettings,
    pub notification: NotificationSettings,
    pub gotify: GotifySettings,
    pub forgejo: ForgejoSettings,
}

/// The `[logging]` table of a configuration file.
#[derive(Debug, Default)]
pub struct FileLogging {
    pub level: Option<String>,
}

/// The `[notification]` table of a configuration file.
#[derive(Debug, Default)]
pub struct FileNotification {
    pub body_exclude_fields: Option<Vec<String>>,
}

/// The `[server]` table of a configuration file.
#[derive(Debug, Default)]
pub struct FileServer {
    pub bind_addr: Option<String>,
    pub webhook_path: Option<String>,
}

/// The `[gotify]` table of a configuration file.
#[derive(Debug, Default)]
pub struct FileGotify {
    pub base_url: Option<String>,
    pub app_token: Option<String>,
    pub priority: Option<i32>,
    pub title_prefix: Option<String>,
}

/// The `[forgejo]` table of a configuration file.
#[derive(Debug, Default)]
pub struct FileForgejo {
    pub secret: Option<String>,
    pub events: Option<Vec<String>>,
}

/// A configuration file.
#[derive(Debug, Default)]
pub struct FileSettings {
    pub server: Option<FileServer>,
    pub logging: Option<FileLogging>,
    pub notification: Option<FileNotification>,
    pub gotify: Option<FileGotify>,
    pub forgejo: Option<FileForgejo>,
}

/// Settings as read, before they are checked.
#[derive(Debug)]
pub struct RawSettings {
    pub log_level: String,
    pub notification_body_exclude_fields: Vec<String>,
    pub bind_addr: String,
    pub webhook_path: String,
    pub gotify_base_url: Option<String>,
    pub gotify_app_token: Option<String>,
    pub gotify_priority: i32,
    pub gotify_title_prefix: String,
    pub forgejo_secret: Option<String>,
    pub forgejo_events: Vec<String>,
}

impl Default for RawSettings {
    /// The defaults: log level `info`, no excluded fields, `0.0.0.0:3000`,
    /// `/webhook`, no Gotify URL or token, priority 5, title prefix
    /// `Forgejo`, no secret, and the event `action_run_failure`.
    fn default() -> (res: Self)
        ensures
            res.log_level@ == "info"@,
            res.notification_body_exclude_fields@.len() == 0,
            res.bind_addr@ == "0.0.0.0:3000"@,
            res.webhook_path@ == "/webhook"@,
            res.gotify_base_url is None,
            res.gotify_app_token is None,
            res.gotify_priority == 5,
            res.gotify_title_prefix@ == "Forgejo"@,
            res.forgejo_secret is None,
            views(res.forgejo_events@) == seq!["action_run_failure"@],
    {
        let events: Vec<String> = vec!["action_run_failure".to_owned()];
        assert(views(events@) =~= seq!["action_run_failure"@]);
        RawSettings {
            log_level: "info".to_owned(),
            notification_body_exclude_fields: Vec::new(),
            bind_addr: "0.0.0.0:3000".to_owned(),
            webhook_path: "/webhook".to_owned(),
            gotify_base_url: None,
            gotify_app_token: None,
            gotify_priority: 5,
            gotify_title_prefix: "Forgejo".to_owned(),
            forgejo_secret: None,
            forgejo_events: events,
        }
    }
}

/// The slot's new value: `value` where it is given, else the old one.
pub open spec fn assign_spec<T>(slot: T, value: Option<T>) -> T {
    match value {
        Some(v) => v,
        None => slot,
    }
}

/// Sets `slot` to `value` where a value is given.
pub fn assign<T>(slot: &mut T, value: Option<T>)
    ensures
        *final(slot) == assign_spec(*old(slot), value),
{
    if let Some(v) = value {
        *slot = v;
    }
}

/// `a` where it holds a value, else `b`.
pub open spec fn or_spec<T>(a: Option<T>, b: Option<T>) -> Option<T> {
    match a {
        Some(x) => Some(x),
        None => b,
    }
}

/// `a` where it holds a value, else `b`.
fn or_option<T>(a: Option<T>, b: Option<T>) -> (res: Option<T>)
    ensures
        res == or_spec(a, b),
{
    match a {
        Some(x) => Some(x),
        None => b,
    }
}

/// The `[logging] level` of a file.
pub open spec fn file_log_level(file: FileSettings) -> Option<String> {
    match file.logging {
        Some(l) => l.level,
        None => None,
    }
}

/// The `[notification] body_exclude_fields` of a file.
pub open spec fn file_body_exclude_fields(file: FileSettings) -> Option<Vec<String>> {
    match file.notification {
        Some(n) => n.body_exclude_fields,
        None => None,
    }
}

/// Raw settings with their texts as character sequences.
pub struct RawSettingsView {
    pub log_level: Seq<char>,
    pub notification_body_exclude_fields: Seq<Seq<char>>,
    pub bind_addr: Seq<char>,
    pub webhook_path: Seq<char>,
    pub gotify_base_url: Option<Seq<char>>,
    pub gotify_app_token: Option<Seq<char>>,
    pub gotify_priority: i32,
    pub gotify_title_prefix: Seq<char>,
    pub forgejo_secret: Option<Seq<char>>,
    pub forgejo_events: Seq<Seq<char>>,
}

impl View for RawSettings {
    type V = RawSettingsView;

    open spec fn view(&self) -> RawSettingsView {
        RawSettingsView {
            log_level: self.log_level@,
            notification_body_exclude_fields: views(self.notification_body_exclude_fields@),
            bind_addr: self.bind_addr@,
            webhook_path: self.webhook_path@,
            gotify_base_url: opt_string_view(self.gotify_base_url),
            gotify_app_token: opt_string_view(self.gotify_app_token),
            gotify_priority: self.gotify_priority,
            gotify_title_prefix: self.gotify_title_prefix@,
            forgejo_secret: opt_string_view(self.forgejo_secret),
            forgejo_events: views(self.forgejo_events@),
        }
    }
}

/// The view of an optional list of strings.
pub open spec fn opt_views(o: Option<Vec<String>>) -> Option<Seq<Seq<char>>> {
    match o {
        Some(v) => Some(views(v@)),
        None => None,
    }
}

/// The `[server]` value that `f` picks, if the file has that table.
pub open spec fn file_server_text(
    file: FileSettings,
    f: spec_fn(FileServer) -> Option<String>,
) -> Option<Seq<char>> {
    match file.server {
        Some(s) => opt_string_view(f(s)),
        None => None,
    }
}

/// The `[gotify]` value that `f` picks, if the file has that table.
pub open spec fn file_gotify_text(
    file: FileSettings,
    f: spec_fn(FileGotify) -> Option<String>,
) -> Option<Seq<char>> {
    match file.gotify {
        Some(g) => opt_string_view(f(g)),
        None => None,
    }
}

/// The `[gotify] priority` of a file.
pub open spec fn file_priority(file: FileSettings) -> Option<i32> {
    match file.gotify {
        Some(g) => g.priority,
        None => None,
    }
}

/// The `[forgejo] secret` of a file.
pub open spec fn file_secret(file: FileSettings) -> Option<Seq<char>> {
    match file.forgejo {
        Some(f) => opt_string_view(f.secret),
        None => None,
    }
}

/// The `[forgejo] events` of a file.
pub open spec fn file_events(file: FileSettings) -> Option<Seq<Seq<char>>> {
    match file.forgejo {
        Some(f) => opt_views(f.events),
        None => None,
    }
}

/// The raw settings after a configuration file is merged into them.
pub open spec fn merge_file_spec(raw: RawSettingsView, file: FileSettings) -> RawSettingsView {
    RawSettingsView {
        log_level: value_or(opt_string_view(file_log_level(file)), raw.log_level),
        notification_body_exclude_fields: assign_spec(
            raw.notification_body_exclude_fields,
            opt_views(file_body_exclude_fields(file)),
        ),
        bind_addr: value_or(file_server_text(file, |s: FileServer| s.bind_addr), raw.bind_addr),
        webhook_path: value_or(
            file_server_text(file, |s: FileServer| s.webhook_path),
            raw.webhook_path,
        ),
        gotify_base_url: or_spec(
            file_gotify_text(file, |g: FileGotify| g.base_url),
            raw.gotify_base_url,
        ),
        gotify_app_token: or_spec(
            file_gotify_text(file, |g: FileGotify| g.app_token),
            raw.gotify_app_token,
        ),
        gotify_priority: assign_spec(raw.gotify_priority, file_priority(file)),
        gotify_title_prefix: value_or(
            file_gotify_text(file, |g: FileGotify| g.title_prefix),
            raw.gotify_title_prefix,
        ),
        forgejo_secret: or_spec(file_secret(file), raw.forgejo_secret),
        forgejo_events: assign_spec(raw.forgejo_events, file_events(file)),
    }
}

impl RawSettings {
    /// Takes each setting that a configuration file gives in place of the
    /// current one; the secret and the Gotify URL and token stay where the
    /// file gives none.
    pub fn merge_file(&mut self, file: FileSettings)
        ensures
            final(self).log_level == assign_spec(old(self).log_level, file_log_level(file)),
            final(self).notification_body_exclude_fields == assign_spec(
                old(self).notification_body_exclude_fields,
                file_body_exclude_fields(file),
            ),
            final(self).bind_addr == match file.server {
                Some(s) => assign_spec(old(self).bind_addr, s.bind_addr),
                None => old(self).bind_addr,
            },
            final(self).webhook_path == match file.server {
                Some(s) => assign_spec(old(self).webhook_path, s.webhook_path),
                None => old(self).webhook_path,
            },
            final(self).gotify_base_url == match file.gotify {
                Some(g) => or_spec(g.base_url, old(self).gotify_base_url),
                None => old(self).gotify_base_url,
            },
            final(self).gotify_app_token == match file.gotify {
                Some(g) => or_spec(g.app_token, old(self).gotify_app_token),
                None => old(self).gotify_app_token,
            },
            final(self).gotify_priority == match file.gotify {
                Some(g) => assign_spec(old(self).gotify_priority, g.priority),
                None => old(self).gotify_priority,
            },
            final(self).gotify_title_prefix == match file.gotify {
                Some(g) => assign_spec(old(self).gotify_title_prefix, g.title_prefix),
                None => old(self).gotify_title_prefix,
            },
            final(self).forgejo_secret == match file.forgejo {
                Some(f) => or_spec(f.secret, old(self).forgejo_secret),
                None => old(self).forgejo_secret,
            },
            final(self).forgejo_events == match file.forgejo {
                Some(f) => assign_spec(old(self).forgejo_events, f.events),
                None => old(self).forgejo_events,
            },
            final(self)@ == merge_file_spec(old(self)@, file),
    {
        if let Some(logging) = file.logging {
            assign(&mut self.log_level, logging.level);
        }
        if let Some(notification) = file.notification {
            if let Some(body_exclude_fields) = notification.body_exclude_fields {
                self.notification_body_exclude_fields = body_exclude_fields;
            }
        }
        if let Some(server) = file.server {
            assign(&mut self.bind_addr, server.bind_addr);
            assign(&mut self.webhook_path, server.webhook_path);
        }
        if let Some(gotify) = file.gotify {
            let base_url = self.gotify_base_url.take();
            self.gotify_base_url = or_option(gotify.base_url, base_url);
            let app_token = self.gotify_app_token.take();
            self.gotify_app_token = or_option(gotify.app_token, app_token);
            assign(&mut self.gotify_priority, gotify.priority);
            assign(&mut self.gotify_title_prefix, gotify.title_prefix);
        }
        if let Some(forgejo) = file.forgejo {
            let secret = self.forgejo_secret.take();
            self.forgejo_secret = or_option(forgejo.secret, secret);
            if let Some(events) = forgejo.events {
                self.forgejo_events = events;
            }
        }
    }
}

/// The value of the first variable named `name`.
pub open spec fn env_lookup(env: Seq<(Seq<char>, Seq<char>)>, name: Seq<char>) -> Option<Seq<char>>
    decreases env.len(),
{
    if env.len() == 0 {
        None
    } else if env[0].0 == name {
        Some(env[0].1)
    } else {
        env_lookup(env.drop_first(), name)
    }
}

/// The value of the first of `names` that is set.
pub open spec fn read_env_spec(env: Seq<(Seq<char>, Seq<char>)>, names: Seq<Seq<char>>) -> Option<
    Seq<char>,
>
    decreases names.len(),
{
    if names.len() == 0 {
        None
    } else {
        match env_lookup(env, names[0]) {
            Some(v) => Some(v),
            None => read_env_spec(env, names.drop_first()),
        }
    }
}

/// Environment variables as character sequences.
pub open spec fn env_views(env: Seq<(String, String)>) -> Seq<(Seq<char>, Seq<char>)> {
    env.map_values(|e: (String, String)| (e.0@, e.1@))
}

/// The environment variables that settings are read from.
pub open spec fn env_names_spec() -> Seq<Seq<char>> {
    seq![
        "RUST_LOG"@,
        "LOG_LEVEL"@,
        "APP_LOG_LEVEL"@,
        "NOTIFICATION_BODY_EXCLUDE_FIELDS"@,
        "BIND_ADDR"@,
        "APP_BIND_ADDR"@,
        "WEBHOOK_PATH"@,
        "APP_WEBHOOK_PATH"@,
        "GOTIFY_BASE_URL"@,
        "GOTIFY_APP_TOKEN"@,
        "GOTIFY_PRIORITY"@,
        "GOTIFY_TITLE_PREFIX"@,
        "FORGEJO_SECRET"@,
        "FORGEJO_EVENTS"@,
    ]
}

/// The environment variables that settings are read from; `merge_env` reads
/// no other.
pub fn env_names() -> (res: Vec<&'static str>)
    ensures
        str_views(res@) == env_names_spec(),
{
    let res: Vec<&'static str> = vec![
        "RUST_LOG",
        "LOG_LEVEL",
        "APP_LOG_LEVEL",
        "NOTIFICATION_BODY_EXCLUDE_FIELDS",
        "BIND_ADDR",
        "APP_BIND_ADDR",
        "WEBHOOK_PATH",
        "APP_WEBHOOK_PATH",
        "GOTIFY_BASE_URL",
        "GOTIFY_APP_TOKEN",
        "GOTIFY_PRIORITY",
        "GOTIFY_TITLE_PREFIX",
        "FORGEJO_SECRET",
        "FORGEJO_EVENTS",
    ];
    assert(str_views(res@) =~= env_names_spec());
    res
}

/// The value of the first variable named `name`.
fn env_get(env: &Vec<(String, String)>, name: &str) -> (res: Option<String>)
    ensures
        opt_string_view(res) == env_lookup(env_views(env@), name@),
{
    let ghost ev = env_views(env@);
    let mut i: usize = 0;
    assert(ev.skip(0) =~= ev);
    while i < env.len()
        invariant
            i <= env@.len(),
            ev == env_views(env@),
            env_lookup(ev, name@) == env_lookup(ev.skip(i as int), name@),
        decreases env@.len() - i,
    {
        assert(ev.skip(i as int)[0] == (env@[i as int].0@, env@[i as int].1@));
        if str_eq(env[i].0.as_str(), name) {
            return Some(env[i].1.clone());
        }
        assert(ev.skip(i as int).drop_first() =~= ev.skip(i + 1));
        i = i + 1;
    }
    None
}

/// The value of the first of `names` that is set.
fn read_env(env: &Vec<(String, String)>, names: &[&str]) -> (res: Option<String>)
    ensures
        opt_string_view(res) == read_env_spec(env_views(env@), str_views(names@)),
{
    let ghost nv = str_views(names@);
    let mut i: usize = 0;
    assert(nv.skip(0) =~= nv);
    while i < names.len()
        invariant
            i <= names@.len(),
            nv == str_views(names@),
            read_env_spec(env_views(env@), nv) == read_env_spec(env_views(env@), nv.skip(i as int)),
        decreases names@.len() - i,
    {
        assert(nv.skip(i as int)[0] == names@[i as int]@);
        assert(nv.skip(i as int).drop_first() =~= nv.skip(i + 1));
        if let Some(v) = env_get(env, names[i]) {
            return Some(v);
        }
        i = i + 1;
    }
    assert(nv.skip(names@.len() as int) =~= Seq::<Seq<char>>::empty());
    None
}

/// Each item trimmed.
pub open spec fn trim_all(items: Seq<Seq<char>>) -> Seq<Seq<char>>
    decreases items.len(),
{
    if items.len() == 0 {
        Seq::empty()
    } else {
        trim_all(items.drop_last()).push(trim_spec(items.last()))
    }
}

/// The items of a comma-separated list, each trimmed.
pub open spec fn split_list_spec(value: Seq<char>) -> Seq<Seq<char>> {
    trim_all(split_spec(value, ','))
}

/// The items of a comma-separated list, each trimmed.
pub fn split_list(value: &str) -> (res: Vec<String>)
    ensures
        views(res@) == split_list_spec(value@),
{
    let pieces: Vec<String> = split_char(value, ',');
    let ghost pv = views(pieces@);
    let mut res: Vec<String> = Vec::new();
    let mut i: usize = 0;
    while i < pieces.len()
        invariant
            i <= pieces@.len(),
            pv == views(pieces@),
            pv == split_spec(value@, ','),
            views(res@) == trim_all(pv.take(i as int)),
        decreases pieces@.len() - i,
    {
        let item: &str = trim(pieces[i].as_str());
        let ghost before = views(res@);
        res.push(item.to_owned());
        assert(pv.take(i + 1).drop_last() =~= pv.take(i as int));
        assert(views(res@) =~= before.push(item@));
        i = i + 1;
    }
    assert(pv.take(pieces@.len() as int) =~= pv);
    res
}

/// Whether a character is an ASCII digit.
pub open spec fn is_ascii_digit(c: char) -> bool {
    '0' <= c <= '9'
}

/// The number that decimal digits stand for.
pub open spec fn digits_value(digits: Seq<char>) -> int
    decreases digits.len(),
{
    if digits.len() == 0 {
        0
    } else {
        digits_value(digits.drop_last()) * 10 + (digits.last() as u32 - 48)
    }
}

/// The `i32` that a text stands for, as `i32`'s `FromStr` reads it: an
/// optional `+` or `-`, then one or more ASCII digits, in range.
pub open spec fn parse_i32_spec(text: Seq<char>) -> Option<i32> {
    let signed = text.len() > 0 && (text[0] == '-' || text[0] == '+');
    let digits = if signed {
        text.drop_first()
    } else {
        text
    };
    let magnitude = digits_value(digits);
    let value = if text.len() > 0 && text[0] == '-' {
        -magnitude
    } else {
        magnitude
    };
    if digits.len() > 0 && (forall|i: int| 0 <= i < digits.len() ==> is_ascii_digit(#[trigger] digits[i]))
        && i32::MIN <= value <= i32::MAX {
        Some(value as i32)
    } else {
        None
    }
}

/// Reads an `i32` through `str::parse::<i32>`, which std documents as taking
/// an optional `+` or `-` followed by only decimal digits, and refusing a
/// value out of range.
#[verifier::external_body]
fn parse_i32(text: &str) -> (res: Option<i32>)
    ensures
        res == parse_i32_spec(text@),
{
    match text.parse::<i32>() {
        Ok(v) => Some(v),
        Err(_) => None,
    }
}

/// `value` where it is given, else `default`.
pub open spec fn value_or(value: Option<Seq<char>>, default: Seq<char>) -> Seq<char> {
    match value {
        Some(v) => v,
        None => default,
    }
}

/// Whichever `String` a variable gives, else the old one.
fn assign_from_env(slot: &mut String, value: Option<String>)
    ensures
        final(slot)@ == value_or(opt_string_view(value), old(slot)@),
{
    if let Some(v) = value {
        *slot = v;
    }
}

/// The environment variables that set the log level, first one first.
pub open spec fn log_level_vars() -> Seq<Seq<char>> {
    seq!["RUST_LOG"@, "LOG_LEVEL"@, "APP_LOG_LEVEL"@]
}

/// The environment variables that set the excluded body fields, first one first.
pub open spec fn body_exclude_fields_vars() -> Seq<Seq<char>> {
    seq!["NOTIFICATION_BODY_EXCLUDE_FIELDS"@]
}

/// The environment variables that set the listen address, first one first.
pub open spec fn bind_addr_vars() -> Seq<Seq<char>> {
    seq!["BIND_ADDR"@, "APP_BIND_ADDR"@]
}

/// The environment variables that set the webhook path, first one first.
pub open spec fn webhook_path_vars() -> Seq<Seq<char>> {
    seq!["WEBHOOK_PATH"@, "APP_WEBHOOK_PATH"@]
}

/// The environment variables that set the Gotify URL, first one first.
pub open spec fn gotify_base_url_vars() -> Seq<Seq<char>> {
    seq!["GOTIFY_BASE_URL"@]
}

/// The environment variables that set the Gotify application token, first one first.
pub open spec fn gotify_app_token_vars() -> Seq<Seq<char>> {
    seq!["GOTIFY_APP_TOKEN"@]
}

/// The environment variables that set the Gotify priority, first one first.
pub open spec fn gotify_priority_vars() -> Seq<Seq<char>> {
    seq!["GOTIFY_PRIORITY"@]
}

/// The environment variables that set the title prefix, first one first.
pub open spec fn gotify_title_prefix_vars() -> Seq<Seq<char>> {
    seq!["GOTIFY_TITLE_PREFIX"@]
}

/// The environment variables that set the Forgejo secret, first one first.
pub open spec fn forgejo_secret_vars() -> Seq<Seq<char>> {
    seq!["FORGEJO_SECRET"@]
}

/// The environment variables that set the Forgejo events, first one first.
pub open spec fn forgejo_events_vars() -> Seq<Seq<char>> {
    seq!["FORGEJO_EVENTS"@]
}

/// A list that the environment sets, split at commas and trimmed, else
/// `current`.
pub open spec fn env_list_or(value: Option<Seq<char>>, current: Seq<Seq<char>>) -> Seq<Seq<char>> {
    match value {
        Some(v) => split_list_spec(v),
        None => current,
    }
}

/// The priority that the environment sets, where it reads as an `i32`, else
/// `current`.
pub open spec fn env_priority_or(value: Option<Seq<char>>, current: i32) -> i32 {
    match value {
        Some(p) => assign_spec(current, parse_i32_spec(p)),
        None => current,
    }
}

/// The raw settings after the environment is merged into them.
pub open spec fn merge_env_spec(
    raw: RawSettingsView,
    env: Seq<(Seq<char>, Seq<char>)>,
) -> RawSettingsView {
    RawSettingsView {
        log_level: value_or(read_env_spec(env, log_level_vars()), raw.log_level),
        notification_body_exclude_fields: env_list_or(
            read_env_spec(env, body_exclude_fields_vars()),
            raw.notification_body_exclude_fields,
        ),
        bind_addr: value_or(read_env_spec(env, bind_addr_vars()), raw.bind_addr),
        webhook_path: value_or(read_env_spec(env, webhook_path_vars()), raw.webhook_path),
        gotify_base_url: or_spec(read_env_spec(env, gotify_base_url_vars()), raw.gotify_base_url),
        gotify_app_token: or_spec(
            read_env_spec(env, gotify_app_token_vars()),
            raw.gotify_app_token,
        ),
        gotify_priority: env_priority_or(
            read_env_spec(env, gotify_priority_vars()),
            raw.gotify_priority,
        ),
        gotify_title_prefix: value_or(
            read_env_spec(env, gotify_title_prefix_vars()),
            raw.gotify_title_prefix,
        ),
        forgejo_secret: or_spec(read_env_spec(env, forgejo_secret_vars()), raw.forgejo_secret),
        forgejo_events: env_list_or(read_env_spec(env, forgejo_events_vars()), raw.forgejo_events),
    }
}

impl RawSettings {
    /// Takes each setting that the environment gives in place of the
    /// current one: lists are split at commas and trimmed, and a priority
    /// that does not read as an `i32` leaves the old one.
    pub fn merge_env(&mut self, env: &Vec<(String, String)>)
        ensures
            final(self)@ == merge_env_spec(old(self)@, env_views(env@)),
    {
        let log_names: [&str; 3] = ["RUST_LOG", "LOG_LEVEL", "APP_LOG_LEVEL"];
        assert(str_views(log_names@) =~= seq!["RUST_LOG"@, "LOG_LEVEL"@, "APP_LOG_LEVEL"@]);
        let fields_names: [&str; 1] = ["NOTIFICATION_BODY_EXCLUDE_FIELDS"];
        assert(str_views(fields_names@) =~= seq!["NOTIFICATION_BODY_EXCLUDE_FIELDS"@]);
        let bind_names: [&str; 2] = ["BIND_ADDR", "APP_BIND_ADDR"];
        assert(str_views(bind_names@) =~= seq!["BIND_ADDR"@, "APP_BIND_ADDR"@]);
        let path_names: [&str; 2] = ["WEBHOOK_PATH", "APP_WEBHOOK_PATH"];
        assert(str_views(path_names@) =~= seq!["WEBHOOK_PATH"@, "APP_WEBHOOK_PATH"@]);
        let base_url_names: [&str; 1] = ["GOTIFY_BASE_URL"];
        assert(str_views(base_url_names@) =~= seq!["GOTIFY_BASE_URL"@]);
        let token_names: [&str; 1] = ["GOTIFY_APP_TOKEN"];
        assert(str_views(token_names@) =~= seq!["GOTIFY_APP_TOKEN"@]);
        let priority_names: [&str; 1] = ["GOTIFY_PRIORITY"];
        assert(str_views(priority_names@) =~= seq!["GOTIFY_PRIORITY"@]);
        let prefix_names: [&str; 1] = ["GOTIFY_TITLE_PREFIX"];
        assert(str_views(prefix_names@) =~= seq!["GOTIFY_TITLE_PREFIX"@]);
        let secret_names: [&str; 1] = ["FORGEJO_SECRET"];
        assert(str_views(secret_names@) =~= seq!["FORGEJO_SECRET"@]);
        let events_names: [&str; 1] = ["FORGEJO_EVENTS"];
        assert(str_views(events_names@) =~= seq!["FORGEJO_EVENTS"@]);
        assign_from_env(&mut self.log_level, read_env(env, &log_names));
        if let Some(fields) = read_env(env, &fields_names) {
            self.notification_body_exclude_fields = split_list(fields.as_str());
        }
        assign_from_env(&mut self.bind_addr, read_env(env, &bind_names));
        assign_from_env(&mut self.webhook_path, read_env(env, &path_names));
        let base_url = self.gotify_base_url.take();
        self.gotify_base_url = or_option(read_env(env, &base_url_names), base_url);
        let app_token = self.gotify_app_token.take();
        self.gotify_app_token = or_option(read_env(env, &token_names), app_token);
        if let Some(priority) = read_env(env, &priority_names) {
            let parsed = parse_i32(priority.as_str());
            assign(&mut self.gotify_priority, parsed);
        }
        assign_from_env(&mut self.gotify_title_prefix, read_env(env, &prefix_names));
        let secret = self.forgejo_secret.take();
        self.forgejo_secret = or_option(read_env(env, &secret_names), secret);
        if let Some(events) = read_env(env, &events_names) {
            self.forgejo_events = split_list(events.as_str());
        }
    }
}

/// The text of the error that `tracing_subscriber::EnvFilter::try_new`
/// refuses `filter` with, or nothing where it accepts `filter`.
pub uninterp spec fn env_filter_error(filter: Seq<char>) -> Option<Seq<char>>;

/// Why a log level or tracing filter is refused, through
/// `tracing_subscriber::EnvFilter::try_new` and the `Display` of its
/// `ParseError`; nothing where it is accepted.
#[verifier::external_body]
fn log_filter_error(filter: &str) -> (res: Option<String>)
    ensures
        opt_string_view(res) == env_filter_error(filter@),
{
    match tracing_subscriber::EnvFilter::try_new(filter) {
        Ok(_) => None,
        Err(e) => Some(e.to_string()),
    }
}

/// Why settings are refused.
#[derive(Debug)]
pub enum ConfigError {
    /// The log level or filter is not accepted, for the reason given.
    LogFilter { filter: String, error: String },
    /// The listen address does not read as a socket address.
    BindAddr,
    /// The webhook path does not start with `/`.
    WebhookPathStart,
    /// The webhook path is `/` alone.
    WebhookPathRoot,
    /// No Gotify URL is set.
    MissingGotifyBaseUrl,
    /// No Gotify application token is set.
    MissingGotifyAppToken,
    /// The event names are refused.
    Events(EventConfigError),
    /// The excluded body fields are refused.
    BodyFields(BodyFieldError),
    /// The Gotify URL does not parse, for the reason given.
    GotifyBaseUrl { error: String },
}

/// A `ConfigError` with its texts as character sequences.
pub enum ConfigErrorView {
    LogFilter { filter: Seq<char>, error: Seq<char> },
    BindAddr,
    WebhookPathStart,
    WebhookPathRoot,
    MissingGotifyBaseUrl,
    MissingGotifyAppToken,
    Events(EventConfigErrorView),
    BodyFields(BodyFieldErrorView),
    GotifyBaseUrl { error: Seq<char> },
}

impl View for ConfigError {
    type V = ConfigErrorView;

    open spec fn view(&self) -> ConfigErrorView {
        match self {
            ConfigError::LogFilter { filter, error } => ConfigErrorView::LogFilter {
                filter: filter@,
                error: error@,
            },
            ConfigError::BindAddr => ConfigErrorView::BindAddr,
            ConfigError::WebhookPathStart => ConfigErrorView::WebhookPathStart,
            ConfigError::WebhookPathRoot => ConfigErrorView::WebhookPathRoot,
            ConfigError::MissingGotifyBaseUrl => ConfigErrorView::MissingGotifyBaseUrl,
            ConfigError::MissingGotifyAppToken => ConfigErrorView::MissingGotifyAppToken,
            ConfigError::Events(e) => ConfigErrorView::Events(e@),
            ConfigError::BodyFields(e) => ConfigErrorView::BodyFields(e@),
            ConfigError::GotifyBaseUrl { error } => ConfigErrorView::GotifyBaseUrl { error: error@ },
        }
    }
}

/// The message of a `ConfigError`.
pub open spec fn config_message(e: ConfigErrorView) -> Seq<char> {
    match e {
        ConfigErrorView::LogFilter { filter, error } => "invalid log level/filter `"@ + filter
            + "`: "@ + error,
        ConfigErrorView::BindAddr => "invalid socket address syntax"@,
        ConfigErrorView::WebhookPathStart => "WEBHOOK_PATH must start with /"@,
        ConfigErrorView::WebhookPathRoot => "WEBHOOK_PATH must not be /"@,
        ConfigErrorView::MissingGotifyBaseUrl => "GOTIFY_BASE_URL is required"@,
        ConfigErrorView::MissingGotifyAppToken => "GOTIFY_APP_TOKEN is required"@,
        ConfigErrorView::Events(e) => event_config_message(e),
        ConfigErrorView::BodyFields(e) => body_field_message(e),
        ConfigErrorView::GotifyBaseUrl { error } => error,
    }
}

impl ConfigError {
    /// The error's message.
    pub fn to_string(&self) -> (res: String)
        ensures
            res@ == config_message(self@),
    {
        match self {
            ConfigError::LogFilter { filter, error } => {
                let mut res: String = concat("invalid log level/filter `", filter.as_str());
                res.append("`: ");
                res.append(error.as_str());
                res
            },
            ConfigError::BindAddr => "invalid socket address syntax".to_owned(),
            ConfigError::WebhookPathStart => "WEBHOOK_PATH must start with /".to_owned(),
            ConfigError::WebhookPathRoot => "WEBHOOK_PATH must not be /".to_owned(),
            ConfigError::MissingGotifyBaseUrl => "GOTIFY_BASE_URL is required".to_owned(),
            ConfigError::MissingGotifyAppToken => "GOTIFY_APP_TOKEN is required".to_owned(),
            ConfigError::Events(e) => e.to_string(),
            ConfigError::BodyFields(e) => e.to_string(),
            ConfigError::GotifyBaseUrl { error } => error.clone(),
        }
    }
}

/// The refusal that a webhook path meets, if any.
pub open spec fn path_error_spec(path: Seq<char>) -> Option<ConfigErrorView> {
    if !(path.len() > 0 && path[0] == '/') {
        Some(ConfigErrorView::WebhookPathStart)
    } else if path.len() <= 1 {
        Some(ConfigErrorView::WebhookPathRoot)
    } else {
        None
    }
}

/// The webhook path, where it starts with `/` and is more than `/`.
pub fn validate_path(path: String) -> (res: Result<String, ConfigError>)
    ensures
        match res {
            Ok(p) => path_error_spec(path@) is None && p == path,
            Err(e) => path_error_spec(path@) == Some(e@),
        },
{
    if !starts_with_char(path.as_str(), '/') {
        return Err(ConfigError::WebhookPathStart);
    }
    if path.as_str().unicode_len() <= 1 {
        return Err(ConfigError::WebhookPathRoot);
    }
    Ok(path)
}

/// The value, unless it is missing or blank.
pub open spec fn blank_to_none_spec(value: Option<String>) -> Option<String> {
    match value {
        Some(v) => if trim_spec(v@).len() > 0 {
            Some(v)
        } else {
            None
        },
        None => None,
    }
}

/// The value, unless it is missing or blank.
pub fn blank_to_none(value: Option<String>) -> (res: Option<String>)
    ensures
        res == blank_to_none_spec(value),
{
    match value {
        Some(v) => {
            if trim(v.as_str()).is_empty() {
                None
            } else {
                Some(v)
            }
        },
        None => None,
    }
}

/// The refusal that raw settings meet, if any; `log_filter_error` says why
/// the log filter is refused (nothing where it is accepted) and
/// `bind_addr_accepted` whether the listen address reads as a socket
/// address. The checks run in this order:
/// log filter, listen address, webhook path, Gotify URL and token present,
/// event names, excluded fields, Gotify URL parses.
pub open spec fn config_error_spec(
    raw: RawSettings,
    log_filter_error: Option<Seq<char>>,
    bind_addr_accepted: bool,
) -> Option<ConfigErrorView> {
    if log_filter_error is Some {
        Some(ConfigErrorView::LogFilter { filter: raw.log_level@, error: log_filter_error->0 })
    } else if !bind_addr_accepted {
        Some(ConfigErrorView::BindAddr)
    } else if path_error_spec(raw.webhook_path@) is Some {
        path_error_spec(raw.webhook_path@)
    } else if raw.gotify_base_url is None {
        Some(ConfigErrorView::MissingGotifyBaseUrl)
    } else if raw.gotify_app_token is None {
        Some(ConfigErrorView::MissingGotifyAppToken)
    } else if event_config_error_spec(views(raw.forgejo_events@)) is Some {
        Some(ConfigErrorView::Events(event_config_error_spec(views(raw.forgejo_events@))->0))
    } else if body_field_error_spec(views(raw.notification_body_exclude_fields@)) is Some {
        Some(
            ConfigErrorView::BodyFields(
                body_field_error_spec(views(raw.notification_body_exclude_fields@))->0,
            ),
        )
    } else if url_parse(trim_end_char_spec(raw.gotify_base_url->0@, '/')) is Err {
        Some(
            ConfigErrorView::GotifyBaseUrl {
                error: url_parse(trim_end_char_spec(raw.gotify_base_url->0@, '/'))->Err_0,
            },
        )
    } else {
        None
    }
}

/// What checked settings hold, given the raw ones that passed.
pub open spec fn settings_spec(s: Settings, raw: RawSettings) -> bool {
    &&& s.server.bind_addr == raw.bind_addr
    &&& s.server.webhook_path == raw.webhook_path
    &&& s.logging.filter == raw.log_level
    &&& s.notification.body_exclude_fields@ == named_fields(
        normalize_names(views(raw.notification_body_exclude_fields@)),
    )
    &&& url_parse(trim_end_char_spec(raw.gotify_base_url->0@, '/')) == Ok::<Seq<char>, Seq<char>>(
        s.gotify.base_url@,
    )
    &&& Some(s.gotify.app_token) == raw.gotify_app_token
    &&& s.gotify.priority == raw.gotify_priority
    &&& s.gotify.title_prefix == raw.gotify_title_prefix
    &&& s.forgejo.secret == blank_to_none_spec(raw.forgejo_secret)
    &&& s.forgejo.filter@ == filter_view_spec(normalize_names(views(raw.forgejo_events@)))
}

impl RawSettings {
    /// Checks the settings and gives them in their final form;
    /// `bind_addr_accepted` tells whether the listen address reads as a
    /// socket address.
    pub fn validate(self, bind_addr_accepted: bool) -> (res: Result<Settings, ConfigError>)
        ensures
            match res {
                Ok(s) => config_error_spec(
                    self,
                    env_filter_error(self.log_level@),
                    bind_addr_accepted,
                ) is None && settings_spec(s, self),
                Err(e) => config_error_spec(
                    self,
                    env_filter_error(self.log_level@),
                    bind_addr_accepted,
                ) == Some(e@),
            },
    {
        let filter_error = log_filter_error(self.log_level.as_str());
        self.validate_checked(filter_error, bind_addr_accepted)
    }

    /// Checks the settings and gives them in their final form;
    /// `log_filter_error` says why the log filter is refused (nothing where
    /// it is accepted) and `bind_addr_accepted` whether the listen address
    /// reads as a socket address.
    pub fn validate_checked(self, log_filter_error: Option<String>, bind_addr_accepted: bool) -> (res:
        Result<Settings, ConfigError>)
        ensures
            match res {
                Ok(s) => config_error_spec(
                    self,
                    opt_string_view(log_filter_error),
                    bind_addr_accepted,
                ) is None && settings_spec(s, self),
                Err(e) => config_error_spec(
                    self,
                    opt_string_view(log_filter_error),
                    bind_addr_accepted,
                ) == Some(e@),
            },
    {
        if let Some(error) = log_filter_error {
            return Err(ConfigError::LogFilter { filter: self.log_level, error });
        }
        if !bind_addr_accepted {
            return Err(ConfigError::BindAddr);
        }
        let webhook_path = match validate_path(self.webhook_path) {
            Ok(p) => p,
            Err(e) => {
                return Err(e);
            },
        };
        let base_url = match self.gotify_base_url {
            Some(u) => u,
            None => {
                return Err(ConfigError::MissingGotifyBaseUrl);
            },
        };
        let app_token = match self.gotify_app_token {
            Some(t) => t,
            None => {
                return Err(ConfigError::MissingGotifyAppToken);
            },
        };
        let filter = match EventFilter::new(EventNames::new(self.forgejo_events)) {
            Ok(f) => f,
            Err(e) => {
                return Err(ConfigError::Events(e));
            },
        };
        let body_exclude_fields = match BodyFieldExclusions::new(
            self.notification_body_exclude_fields,
        ) {
            Ok(f) => f,
            Err(e) => {
                return Err(ConfigError::BodyFields(e));
            },
        };
        let base_url_parsed = match parse_base_url(base_url.as_str()) {
            Ok(u) => u,
            Err(error) => {
                return Err(ConfigError::GotifyBaseUrl { error });
            },
        };
        Ok(
            Settings {
                server: ServerSettings { bind_addr: self.bind_addr, webhook_path },
                logging: LoggingSettings { filter: self.log_level },
                notification: NotificationSettings { body_exclude_fields },
                gotify: GotifySettings {
                    base_url: base_url_parsed,
                    app_token,
                    priority: self.gotify_priority,
                    title_prefix: self.gotify_title_prefix,
                },
                forgejo: ForgejoSettings { secret: blank_to_none(self.forgejo_secret), filter },
            },
        )
    }
}

/// Environment variables override file settings: after a configuration
/// file and then the environment are merged, each setting that the
/// environment sets has the environment's value, whatever the file gave;
/// each that it does not set has the file's value where the file gives one,
/// else the value from before.
pub proof fn lemma_env_overrides_file(
    raw: RawSettingsView,
    file: FileSettings,
    env: Seq<(Seq<char>, Seq<char>)>,
)
    ensures
        ({
            let from_file = merge_file_spec(raw, file);
            let merged = merge_env_spec(from_file, env);
            &&& merged.log_level == match read_env_spec(env, log_level_vars()) {
                Some(v) => v,
                None => match opt_string_view(file_log_level(file)) {
                    Some(f) => f,
                    None => raw.log_level,
                },
            }
            &&& merged.notification_body_exclude_fields == match read_env_spec(
                env,
                body_exclude_fields_vars(),
            ) {
                Some(v) => split_list_spec(v),
                None => match opt_views(file_body_exclude_fields(file)) {
                    Some(f) => f,
                    None => raw.notification_body_exclude_fields,
                },
            }
            &&& merged.bind_addr == match read_env_spec(env, bind_addr_vars()) {
                Some(v) => v,
                None => match file_server_text(file, |s: FileServer| s.bind_addr) {
                    Some(f) => f,
                    None => raw.bind_addr,
                },
            }
            &&& merged.webhook_path == match read_env_spec(env, webhook_path_vars()) {
                Some(v) => v,
                None => match file_server_text(file, |s: FileServer| s.webhook_path) {
                    Some(f) => f,
                    None => raw.webhook_path,
                },
            }
            &&& merged.gotify_base_url == match read_env_spec(env, gotify_base_url_vars()) {
                Some(v) => Some(v),
                None => match file_gotify_text(file, |g: FileGotify| g.base_url) {
                    Some(f) => Some(f),
                    None => raw.gotify_base_url,
                },
            }
            &&& merged.gotify_app_token == match read_env_spec(env, gotify_app_token_vars()) {
                Some(v) => Some(v),
                None => match file_gotify_text(file, |g: FileGotify| g.app_token) {
                    Some(f) => Some(f),
                    None => raw.gotify_app_token,
                },
            }
            &&& merged.gotify_priority == match read_env_spec(env, gotify_priority_vars()) {
                Some(p) if parse_i32_spec(p) is Some => parse_i32_spec(p)->0,
                _ => match file_priority(file) {
                    Some(f) => f,
                    None => raw.gotify_priority,
                },
            }
            &&& merged.gotify_title_prefix == match read_env_spec(env, gotify_title_prefix_vars()) {
                Some(v) => v,
                None => match file_gotify_text(file, |g: FileGotify| g.title_prefix) {
                    Some(f) => f,
                    None => raw.gotify_title_prefix,
                },
            }
            &&& merged.forgejo_secret == match read_env_spec(env, forgejo_secret_vars()) {
                Some(v) => Some(v),
                None => match file_secret(file) {
                    Some(f) => Some(f),
                    None => raw.forgejo_secret,
                },
            }
            &&& merged.forgejo_events == match read_env_spec(env, forgejo_events_vars()) {
                Some(v) => split_list_spec(v),
                None => match file_events(file) {
                    Some(f) => f,
                    None => raw.forgejo_events,
                },
            }
        }),
{
}

/// A variable's value is that of the first entry of the environment with
/// its name, and a name that no entry has has no value.
pub proof fn lemma_env_lookup(env: Seq<(Seq<char>, Seq<char>)>, name: Seq<char>, k: int)
    ensures
        0 <= k < env.len() && env[k].0 == name && (forall|j: int|
            0 <= j < k ==> #[trigger] env[j].0 != name) ==> env_lookup(env, name) == Some(env[k].1),
        (forall|j: int| 0 <= j < env.len() ==> #[trigger] env[j].0 != name) ==> env_lookup(
            env,
            name,
        ) is None,
    decreases env.len(),
{
    if env.len() > 0 {
        lemma_env_lookup(env.drop_first(), name, k - 1);
        if 0 < k < env.len() && forall|j: int| 0 <= j < k ==> #[trigger] env[j].0 != name {
            assert(env[0].0 != name);
            assert(env.drop_first()[k - 1] == env[k]);
            assert forall|j: int| 0 <= j < k - 1 implies #[trigger] env.drop_first()[j].0 != name by {
                assert(env.drop_first()[j] == env[j + 1]);
            }
        }
        if forall|j: int| 0 <= j < env.len() ==> #[trigger] env[j].0 != name {
            assert(env[0].0 != name);
            assert forall|j: int| 0 <= j < env.len() - 1 implies #[trigger] env.drop_first()[j].0
                != name by {
                assert(env.drop_first()[j] == env[j + 1]);
            }
        }
    }
}

/// The environment variables that set each setting, as documented, first
/// one first: `RUST_LOG`, `LOG_LEVEL`, `APP_LOG_LEVEL` for the log level;
/// `NOTIFICATION_BODY_EXCLUDE_FIELDS`; `BIND_ADDR`, `APP_BIND_ADDR`;
/// `WEBHOOK_PATH`, `APP_WEBHOOK_PATH`; `GOTIFY_BASE_URL`;
/// `GOTIFY_APP_TOKEN`; `GOTIFY_PRIORITY` (where it reads as an `i32`);
/// `GOTIFY_TITLE_PREFIX`; `FORGEJO_SECRET`; `FORGEJO_EVENTS`. A setting that
/// none of its variables sets keeps its value.
pub proof fn lemma_env_variable_names(raw: RawSettingsView, env: Seq<(Seq<char>, Seq<char>)>)
    ensures
        ({
            let m = merge_env_spec(raw, env);
            let rust_log = env_lookup(env, "RUST_LOG"@);
            let log_level = env_lookup(env, "LOG_LEVEL"@);
            let app_log_level = env_lookup(env, "APP_LOG_LEVEL"@);
            let fields = env_lookup(env, "NOTIFICATION_BODY_EXCLUDE_FIELDS"@);
            let bind = env_lookup(env, "BIND_ADDR"@);
            let app_bind = env_lookup(env, "APP_BIND_ADDR"@);
            let path = env_lookup(env, "WEBHOOK_PATH"@);
            let app_path = env_lookup(env, "APP_WEBHOOK_PATH"@);
            let base_url = env_lookup(env, "GOTIFY_BASE_URL"@);
            let token = env_lookup(env, "GOTIFY_APP_TOKEN"@);
            let priority = env_lookup(env, "GOTIFY_PRIORITY"@);
            let prefix = env_lookup(env, "GOTIFY_TITLE_PREFIX"@);
            let secret = env_lookup(env, "FORGEJO_SECRET"@);
            let events = env_lookup(env, "FORGEJO_EVENTS"@);
            &&& rust_log is Some ==> m.log_level == rust_log->0
            &&& rust_log is None && log_level is Some ==> m.log_level == log_level->0
            &&& rust_log is None && log_level is None && app_log_level is Some ==> m.log_level
                == app_log_level->0
            &&& rust_log is None && log_level is None && app_log_level is None ==> m.log_level
                == raw.log_level
            &&& fields is Some ==> m.notification_body_exclude_fields == split_list_spec(fields->0)
            &&& fields is None ==> m.notification_body_exclude_fields
                == raw.notification_body_exclude_fields
            &&& bind is Some ==> m.bind_addr == bind->0
            &&& bind is None && app_bind is Some ==> m.bind_addr == app_bind->0
            &&& bind is None && app_bind is None ==> m.bind_addr == raw.bind_addr
            &&& path is Some ==> m.webhook_path == path->0
            &&& path is None && app_path is Some ==> m.webhook_path == app_path->0
            &&& path is None && app_path is None ==> m.webhook_path == raw.webhook_path
            &&& base_url is Some ==> m.gotify_base_url == base_url
            &&& base_url is None ==> m.gotify_base_url == raw.gotify_base_url
            &&& token is Some ==> m.gotify_app_token == token
            &&& token is None ==> m.gotify_app_token == raw.gotify_app_token
            &&& priority is Some && parse_i32_spec(priority->0) is Some ==> m.gotify_priority
                == parse_i32_spec(priority->0)->0
            &&& (priority is None || parse_i32_spec(priority->0) is None) ==> m.gotify_priority
                == raw.gotify_priority
            &&& prefix is Some ==> m.gotify_title_prefix == prefix->0
            &&& prefix is None ==> m.gotify_title_prefix == raw.gotify_title_prefix
            &&& secret is Some ==> m.forgejo_secret == secret
            &&& secret is None ==> m.forgejo_secret == raw.forgejo_secret
            &&& events is Some ==> m.forgejo_events == split_list_spec(events->0)
            &&& events is None ==> m.forgejo_events == raw.forgejo_events
        }),
{
    reveal_with_fuel(read_env_spec, 4);
    assert(log_level_vars().drop_first() =~= seq!["LOG_LEVEL"@, "APP_LOG_LEVEL"@]);
    assert(seq!["LOG_LEVEL"@, "APP_LOG_LEVEL"@].drop_first() =~= seq!["APP_LOG_LEVEL"@]);
    assert(seq!["APP_LOG_LEVEL"@].drop_first() =~= Seq::<Seq<char>>::empty());
    assert(bind_addr_vars().drop_first() =~= seq!["APP_BIND_ADDR"@]);
    assert(seq!["APP_BIND_ADDR"@].drop_first() =~= Seq::<Seq<char>>::empty());
    assert(webhook_path_vars().drop_first() =~= seq!["APP_WEBHOOK_PATH"@]);
    assert(seq!["APP_WEBHOOK_PATH"@].drop_first() =~= Seq::<Seq<char>>::empty());
    assert(body_exclude_fields_vars().drop_first() =~= Seq::<Seq<char>>::empty());
    assert(gotify_base_url_vars().drop_first() =~= Seq::<Seq<char>>::empty());
    assert(gotify_app_token_vars().drop_first() =~= Seq::<Seq<char>>::empty());
    assert(gotify_priority_vars().drop_first() =~= Seq::<Seq<char>>::empty());
    assert(gotify_title_prefix_vars().drop_first() =~= Seq::<Seq<char>>::empty());
    assert(forgejo_secret_vars().drop_first() =~= Seq::<Seq<char>>::empty());
    assert(forgejo_events_vars().drop_first() =~= Seq::<Seq<char>>::empty());
}

} // verus!
