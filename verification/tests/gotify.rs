use forgejo_actions_failed_webhook_gotify::gotify::{message_path, message_url, parse_base_url};

#[test]
fn appends_message_under_subpath() {
    let url = parse_base_url("https://example.com/gotify").unwrap();
    assert_eq!(message_url(&url), "https://example.com/gotify/message");
}

#[test]
fn message_url_at_root_and_with_trailing_slashes() {
    let root = parse_base_url("https://example.com").unwrap();
    assert_eq!(root, "https://example.com/");
    assert_eq!(message_url(&root), "https://example.com/message");
    let slashed = parse_base_url("https://example.com/gotify///").unwrap();
    assert_eq!(slashed, "https://example.com/gotify");
    assert_eq!(message_url(&slashed), "https://example.com/gotify/message");
}

#[test]
fn refuses_base_urls_that_do_not_parse() {
    assert_eq!(
        parse_base_url("not a url"),
        Err("relative URL without a base".to_owned())
    );
    assert_eq!(parse_base_url(""), Err("relative URL without a base".to_owned()));
    assert_eq!(
        parse_base_url("https://example.com:99999"),
        Err("invalid port number".to_owned())
    );
}

#[test]
fn message_path_trims_trailing_slashes() {
    assert_eq!(message_path("/gotify/"), "/gotify/message");
    assert_eq!(message_path("/gotify"), "/gotify/message");
    assert_eq!(message_path("/"), "/message");
    assert_eq!(message_path(""), "/message");
    assert_eq!(message_path("//a//"), "//a/message");
}

