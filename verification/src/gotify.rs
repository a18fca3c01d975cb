//! Gotify's message endpoint: the URLs that messages are posted to.

use vstd::prelude::*;

use crate::text::{concat, trim_end_char, trim_end_char_spec};

verus! {

/// The serialization of the URL that `url::Url::parse` makes of `input`, or
/// the text of the error it refuses `input` with.
pub uninterp spec fn url_parse(input: Seq<char>) -> Result<Seq<char>, Seq<char>>;

/// A result of two strings, taken by their character sequences.
pub open spec fn string_result_view(r: Result<String, String>) -> Result<Seq<char>, Seq<char>> {
    match r {
        Ok(s) => Ok(s@),
        Err(e) => Err(e@),
    }
}

/// The path of the URL that `url::Url::parse` makes of `url` (empty where it
/// refuses `url`).
pub uninterp spec fn url_path(url: Seq<char>) -> Seq<char>;

/// The serialization of the URL that `url::Url::parse` makes of `url`, with
/// its path set to `path` by `url::Url::set_path` (`url` itself where it is
/// refused).
pub uninterp spec fn url_with_path(url: Seq<char>, path: Seq<char>) -> Seq<char>;

/// Parses a URL through `url::Url::parse` and gives its serialization
/// (`Url::as_str`), or the text of the `url::ParseError` (its `Display`).
#[verifier::external_body]
fn parse_url(input: &str) -> (res: Result<String, String>)
    ensures
        string_result_view(res) == url_parse(input@),
{
    match url::Url::parse(input) {
        Ok(url) => Ok(url.as_str().to_owned()),
        Err(e) => Err(e.to_string()),
    }
}

/// The path of a URL, through `url::Url::parse` and `Url::path`.
#[verifier::external_body]
fn path_of_url(url: &str) -> (res: String)
    ensures
        res@ == url_path(url@),
{
    match url::Url::parse(url) {
        Ok(parsed) => parsed.path().to_owned(),
        Err(_) => String::new(),
    }
}

/// A URL with another path, through `url::Url::parse`, `Url::set_path` and
/// `Url::as_str`.
#[verifier::external_body]
fn url_replacing_path(url: &str, path: &str) -> (res: String)
    ensures
        res@ == url_with_path(url@, path@),
{
    match url::Url::parse(url) {
        Ok(mut parsed) => {
            parsed.set_path(path);
            parsed.as_str().to_owned()
        },
        Err(_) => url.to_owned(),
    }
}

/// The path of the message endpoint under a base path.
pub open spec fn message_path_spec(base_path: Seq<char>) -> Seq<char> {
    trim_end_char_spec(base_path, '/') + "/message"@
}

/// The path of the message endpoint under `base_path`: the path without its
/// trailing slashes, then `/message`.
pub fn message_path(base_path: &str) -> (res: String)
    ensures
        res@ == message_path_spec(base_path@),
{
    let trimmed: String = trim_end_char(base_path, '/');
    concat(trimmed.as_str(), "/message")
}

/// The URL that messages are posted to, under a Gotify base URL.
pub fn message_url(base_url: &str) -> (res: String)
    ensures
        res@ == url_with_path(base_url@, message_path_spec(url_path(base_url@))),
{
    let path: String = path_of_url(base_url);
    let new_path: String = message_path(path.as_str());
    url_replacing_path(base_url, new_path.as_str())
}

/// The Gotify base URL that a setting gives: the text without its trailing
/// slashes, parsed as a URL, as its serialization; or why the URL parser
/// refused it.
pub fn parse_base_url(text: &str) -> (res: Result<String, String>)
    ensures
        string_result_view(res) == url_parse(trim_end_char_spec(text@, '/')),
{
    let trimmed: String = trim_end_char(text, '/');
    parse_url(trimmed.as_str())
}

/// The message endpoint's path ends in `/message` after the base path
/// without its trailing slashes, so a trailing slash on the base path
/// changes nothing.
pub proof fn lemma_message_path(base_path: Seq<char>)
    ensures
        message_path_spec(base_path.push('/')) == message_path_spec(base_path),
        message_path_spec(base_path) == trim_end_char_spec(base_path, '/') + "/message"@,
        trim_end_char_spec(base_path, '/').len() == 0 || trim_end_char_spec(base_path, '/').last()
            != '/',
    decreases base_path.len(),
{
    assert(base_path.push('/').drop_last() =~= base_path);
    if base_path.len() > 0 && base_path.last() == '/' {
        lemma_message_path(base_path.drop_last());
    }
}

} // verus!
