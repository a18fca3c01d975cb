use forgejo_actions_failed_webhook_gotify::config::{
    assign, blank_to_none, env_names, split_list, validate_path, ConfigError, FileForgejo,
    FileGotify, FileLogging, FileNotification, FileServer, FileSettings, RawSettings,
};
use forgejo_actions_failed_webhook_gotify::notification::BodyField;

fn ready() -> RawSettings {
    let mut raw = RawSettings::default();
    raw.gotify_base_url = Some("https://gotify.example.com/".to_owned());
    raw.gotify_app_token = Some("token".to_owned());
    raw
}

#[test]
fn defaults_subscribe_to_failed_action_runs() {
    let raw = RawSettings::default();
    assert_eq!(raw.log_level, "info");
    assert!(raw.notification_body_exclude_fields.is_empty());
    assert_eq!(raw.bind_addr, "0.0.0.0:3000");
    assert_eq!(raw.webhook_path, "/webhook");
    assert_eq!(raw.gotify_base_url, None);
    assert_eq!(raw.gotify_app_token, None);
    assert_eq!(raw.gotify_priority, 5);
    assert_eq!(raw.gotify_title_prefix, "Forgejo");
    assert_eq!(raw.forgejo_secret, None);
    assert_eq!(raw.forgejo_events, vec!["action_run_failure".to_owned()]);
}

#[test]
fn file_settings_replace_defaults() {
    let mut raw = RawSettings::default();
    raw.gotify_app_token = Some("from-env-earlier".to_owned());
    raw.merge_file(FileSettings {
        server: Some(FileServer {
            bind_addr: Some("127.0.0.1:8080".to_owned()),
            webhook_path: None,
        }),
        logging: Some(FileLogging { level: Some("debug".to_owned()) }),
        notification: Some(FileNotification {
            body_exclude_fields: Some(vec!["ref".to_owned()]),
        }),
        gotify: Some(FileGotify {
            base_url: Some("https://g.example.com".to_owned()),
            app_token: None,
            priority: Some(8),
            title_prefix: None,
        }),
        forgejo: Some(FileForgejo {
            secret: Some("s".to_owned()),
            events: Some(vec!["push".to_owned()]),
        }),
    });
    assert_eq!(raw.bind_addr, "127.0.0.1:8080");
    assert_eq!(raw.webhook_path, "/webhook");
    assert_eq!(raw.log_level, "debug");
    assert_eq!(raw.notification_body_exclude_fields, vec!["ref".to_owned()]);
    assert_eq!(raw.gotify_base_url.as_deref(), Some("https://g.example.com"));
    assert_eq!(raw.gotify_app_token.as_deref(), Some("from-env-earlier"));
    assert_eq!(raw.gotify_priority, 8);
    assert_eq!(raw.gotify_title_prefix, "Forgejo");
    assert_eq!(raw.forgejo_secret.as_deref(), Some("s"));
    assert_eq!(raw.forgejo_events, vec!["push".to_owned()]);

    let mut untouched = RawSettings::default();
    untouched.merge_file(FileSettings::default());
    assert_eq!(untouched.log_level, "info");
    assert_eq!(untouched.forgejo_events, vec!["action_run_failure".to_owned()]);
}

fn env(pairs: &[(&str, &str)]) -> Vec<(String, String)> {
    pairs
        .iter()
        .map(|(name, value)| ((*name).to_owned(), (*value).to_owned()))
        .collect()
}

#[test]
fn environment_overrides_file_settings() {
    let mut raw = RawSettings::default();
    raw.merge_file(FileSettings {
        logging: Some(FileLogging { level: Some("debug".to_owned()) }),
        gotify: Some(FileGotify {
            base_url: Some("https://file.example.com".to_owned()),
            ..FileGotify::default()
        }),
        ..FileSettings::default()
    });
    raw.merge_env(&env(&[
        ("LOG_LEVEL", "warn"),
        ("APP_LOG_LEVEL", "error"),
        ("GOTIFY_BASE_URL", "https://env.example.com"),
        ("FORGEJO_EVENTS", " push , issues,,"),
        ("NOTIFICATION_BODY_EXCLUDE_FIELDS", "ref,commit"),
        ("APP_BIND_ADDR", "127.0.0.1:1"),
        ("GOTIFY_PRIORITY", "-3"),
        ("GOTIFY_TITLE_PREFIX", "Git"),
        ("FORGEJO_SECRET", "abc"),
        ("APP_WEBHOOK_PATH", "/hook"),
        ("GOTIFY_APP_TOKEN", "t"),
    ]));
    assert_eq!(raw.log_level, "warn");
    assert_eq!(raw.gotify_base_url.as_deref(), Some("https://env.example.com"));
    assert_eq!(raw.forgejo_events, vec!["push", "issues", "", ""]);
    assert_eq!(raw.notification_body_exclude_fields, vec!["ref", "commit"]);
    assert_eq!(raw.bind_addr, "127.0.0.1:1");
    assert_eq!(raw.gotify_priority, -3);
    assert_eq!(raw.gotify_title_prefix, "Git");
    assert_eq!(raw.forgejo_secret.as_deref(), Some("abc"));
    assert_eq!(raw.webhook_path, "/hook");
    assert_eq!(raw.gotify_app_token.as_deref(), Some("t"));
}

#[test]
fn environment_priority_that_is_not_a_number_is_ignored() {
    let mut raw = RawSettings::default();
    raw.merge_env(&env(&[("GOTIFY_PRIORITY", "high")]));
    assert_eq!(raw.gotify_priority, 5);
    raw.merge_env(&env(&[("GOTIFY_PRIORITY", "+7")]));
    assert_eq!(raw.gotify_priority, 7);
    raw.merge_env(&env(&[("GOTIFY_PRIORITY", " 9")]));
    assert_eq!(raw.gotify_priority, 7);
    raw.merge_env(&env(&[("GOTIFY_PRIORITY", "99999999999")]));
    assert_eq!(raw.gotify_priority, 7);
    raw.merge_env(&env(&[("RUST_LOG", "trace"), ("LOG_LEVEL", "warn")]));
    assert_eq!(raw.log_level, "trace");
}

#[test]
fn env_names_lists_the_variables_read() {
    let names = env_names();
    assert_eq!(names.len(), 14);
    assert!(names.contains(&"RUST_LOG"));
    assert!(names.contains(&"FORGEJO_EVENTS"));
    assert!(!names.contains(&"APP_CONFIG"));
}

#[test]
fn split_list_trims_items() {
    assert_eq!(split_list(" a, b ,c"), vec!["a", "b", "c"]);
    assert_eq!(split_list(""), vec![""]);
    assert_eq!(split_list(","), vec!["", ""]);
}

#[test]
fn assign_replaces_only_given_values() {
    let mut slot = 1;
    assign(&mut slot, None);
    assert_eq!(slot, 1);
    assign(&mut slot, Some(2));
    assert_eq!(slot, 2);
}

#[test]
fn blank_secrets_are_none() {
    assert_eq!(blank_to_none(Some("  ".to_owned())), None);
    assert_eq!(blank_to_none(None), None);
    assert_eq!(blank_to_none(Some(" x ".to_owned())).as_deref(), Some(" x "));
}

#[test]
fn webhook_path_must_be_a_subpath() {
    assert_eq!(validate_path("/webhook".to_owned()).unwrap(), "/webhook");
    assert!(matches!(
        validate_path("webhook".to_owned()),
        Err(ConfigError::WebhookPathStart)
    ));
    assert!(matches!(
        validate_path("/".to_owned()),
        Err(ConfigError::WebhookPathRoot)
    ));
    assert!(matches!(
        validate_path(String::new()),
        Err(ConfigError::WebhookPathStart)
    ));
}

#[test]
fn validates_settings() {
    let mut raw = ready();
    raw.forgejo_secret = Some("   ".to_owned());
    raw.notification_body_exclude_fields = vec!["url".to_owned()];
    let settings = raw.validate(true).unwrap();
    assert_eq!(settings.server.bind_addr, "0.0.0.0:3000");
    assert_eq!(settings.server.webhook_path, "/webhook");
    assert_eq!(settings.logging.filter, "info");
    assert_eq!(settings.gotify.base_url, "https://gotify.example.com/");
    assert_eq!(settings.gotify.app_token, "token");
    assert_eq!(settings.gotify.priority, 5);
    assert_eq!(settings.gotify.title_prefix, "Forgejo");
    assert_eq!(settings.forgejo.secret, None);
    assert!(settings.notification.body_exclude_fields.includes(BodyField::Url));
    assert!(settings
        .forgejo
        .filter
        .is_subscribed("action_run_failure", Some("action_run_failure")));
}

#[test]
fn refuses_settings_in_order() {
    let mut raw = ready();
    raw.log_level = "info,foo=notalevel".to_owned();
    raw.webhook_path = "/".to_owned();
    let error = raw.validate(false).unwrap_err();
    assert!(matches!(error, ConfigError::LogFilter { .. }));
    let message = error.to_string();
    let prefix = "invalid log level/filter `info,foo=notalevel`: ";
    assert!(message.starts_with(prefix));
    assert!(message.len() > prefix.len());

    let mut raw = ready();
    raw.log_level = "debug,hyper=warn".to_owned();
    assert!(raw.validate(true).is_ok());

    let mut raw = ready();
    raw.webhook_path = "/".to_owned();
    let error = raw.validate(false).unwrap_err();
    assert!(matches!(error, ConfigError::BindAddr));
    assert_eq!(error.to_string(), "invalid socket address syntax");

    let mut raw = ready();
    raw.webhook_path = "/".to_owned();
    assert!(matches!(raw.validate(true), Err(ConfigError::WebhookPathRoot)));

    let mut raw = ready();
    raw.gotify_base_url = None;
    raw.gotify_app_token = None;
    let error = raw.validate(true).unwrap_err();
    assert!(matches!(error, ConfigError::MissingGotifyBaseUrl));
    assert_eq!(error.to_string(), "GOTIFY_BASE_URL is required");

    let mut raw = ready();
    raw.gotify_app_token = None;
    assert!(matches!(raw.validate(true), Err(ConfigError::MissingGotifyAppToken)));

    let mut raw = ready();
    raw.forgejo_events = vec!["nope".to_owned()];
    raw.notification_body_exclude_fields = vec!["nope".to_owned()];
    assert!(matches!(raw.validate(true), Err(ConfigError::Events(_))));

    let mut raw = ready();
    raw.notification_body_exclude_fields = vec!["nope".to_owned()];
    raw.gotify_base_url = Some("not a url".to_owned());
    let error = raw.validate(true).unwrap_err();
    assert!(matches!(error, ConfigError::BodyFields(_)));
    assert!(error.to_string().contains("nope"));

    let mut raw = ready();
    raw.gotify_base_url = Some("not a url".to_owned());
    let error = raw.validate(true).unwrap_err();
    assert!(matches!(error, ConfigError::GotifyBaseUrl { .. }));
    assert_eq!(error.to_string(), "relative URL without a base");
}

#[test]
fn validates_with_given_checks() {
    let error = ready()
        .validate_checked(Some("bad directive".to_owned()), true)
        .unwrap_err();
    assert!(matches!(error, ConfigError::LogFilter { .. }));
    assert_eq!(error.to_string(), "invalid log level/filter `info`: bad directive");
    let error = ready().validate_checked(None, false).unwrap_err();
    assert_eq!(error.to_string(), "invalid socket address syntax");
    assert!(ready().validate_checked(None, true).is_ok());
}
