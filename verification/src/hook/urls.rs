//! URL parsing and resolution through the `url` crate.

use vstd::prelude::*;

verus! {

/// The parts of a URL the search compares: its serialization, scheme, host
/// and effective port.
#[derive(Debug, Clone)]
pub struct UrlParts {
    pub text: String,
    pub scheme: String,
    pub host: Option<String>,
    pub port: Option<u16>,
}

pub open spec fn opt_text(o: Option<String>) -> Option<Seq<char>> {
    match o {
        Some(s) => Some(s@),
        None => None,
    }
}

pub open spec fn parts_view(u: UrlParts) -> (Seq<char>, Seq<char>, Option<Seq<char>>, Option<u16>) {
    (u.text@, u.scheme@, opt_text(u.host), u.port)
}

/// What `url::Url::parse` makes of a text: `None` when it does not parse,
/// else the URL's serialization, scheme, host and port-or-default.
pub uninterp spec fn parsed_url(text: Seq<char>) -> Option<(Seq<char>, Seq<char>, Option<Seq<char>>, Option<u16>)>;

/// What `url::Url::join` makes of `href` against the URL parsed from
/// `base`: `None` when either step fails.
pub uninterp spec fn joined_url(base: Seq<char>, href: Seq<char>) -> Option<(Seq<char>, Seq<char>, Option<Seq<char>>, Option<u16>)>;

/// The serialization `url::Url::parse_with_params` gives the URL `base`
/// with one query pair added, or `None` when `base` does not parse.
pub uninterp spec fn url_with_param(base: Seq<char>, key: Seq<char>, value: Seq<char>) -> Option<Seq<char>>;

/// Parses a URL with `url::Url::parse`; on failure, the crate's message.
#[verifier::external_body]
pub(crate) fn parse_url(text: &str) -> (r: Result<UrlParts, String>)
    ensures
        match r {
            Ok(u) => parsed_url(text@) == Some(parts_view(u)),
            Err(_) => parsed_url(text@) is None,
        },
{
    match url::Url::parse(text) {
        Ok(u) => Ok(
            UrlParts {
                text: u.to_string(),
                scheme: u.scheme().to_string(),
                host: u.host_str().map(|h| h.to_string()),
                port: u.port_or_known_default(),
            },
        ),
        Err(e) => Err(e.to_string()),
    }
}

/// Resolves `href` against `base` with `url::Url::parse` and
/// `url::Url::join`.
#[verifier::external_body]
pub(crate) fn join_url(base: &str, href: &str) -> (r: Option<UrlParts>)
    ensures
        match r {
            Some(u) => joined_url(base@, href@) == Some(parts_view(u)),
            None => joined_url(base@, href@) is None,
        },
{
    let u = url::Url::parse(base).ok()?.join(href).ok()?;
    Some(
        UrlParts {
            text: u.to_string(),
            scheme: u.scheme().to_string(),
            host: u.host_str().map(|h| h.to_string()),
            port: u.port_or_known_default(),
        },
    )
}

/// Adds the query pair `key=value` to `base` with
/// `url::Url::parse_with_params`.
#[verifier::external_body]
pub(crate) fn with_param(base: &str, key: &str, value: &str) -> (r: Option<String>)
    ensures
        match r {
            Some(u) => url_with_param(base@, key@, value@) == Some(u@),
            None => url_with_param(base@, key@, value@) is None,
        },
{
    url::Url::parse_with_params(base, &[(key, value)]).ok().map(|u| u.to_string())
}

} // verus!
