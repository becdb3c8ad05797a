//! HTTP API helpers: bearer-token checks and web UI serving rules.

use vstd::prelude::*;
use vstd::string::StringExecFns;
use vstd::string::StringSliceAdditionalSpecFns;
use crate::text::{char_pos, chars_of, eq_lit, string_of, trim};
use crate::common::{error_code, error_text, is_internal_error, ApiError, Error};

verus! {

/// Every request needs the token: a request without an `Authorization`
/// header is refused, and no header is accepted against an empty token.
pub proof fn law_token_required(header: Option<Seq<char>>, expected: Seq<char>)
    ensures
        header is None ==> !token_matches_spec(header, expected),
        expected.len() == 0 ==> !token_matches_spec(header, expected),
{
}

/// The token a token file holds: its trimmed contents, when not blank.
pub open spec fn stored_token_spec(contents: Seq<char>) -> Option<Seq<char>> {
    if trim(contents).len() > 0 {
        Some(trim(contents))
    } else {
        None
    }
}

/// The token in a token file's contents, `None` when it is blank.
pub fn stored_token(contents: &str) -> (r: Option<String>)
    ensures
        match r {
            Some(t) => stored_token_spec(contents@) == Some(t@),
            None => stored_token_spec(contents@) is None,
        },
{
    let c = chars_of(contents);
    let t = crate::text::trim_chars(c.as_slice());
    if t.len() > 0 {
        Some(string_of(t.as_slice()))
    } else {
        None
    }
}

/// Where the token of an API client comes from.
pub enum TokenSource {
    /// The token itself.
    Given(String),
    /// A token file.
    File(String),
    /// The `token` file of a data directory.
    DataDir(String),
    /// Nowhere: no token was configured.
    Missing,
}

/// The token source of the MCP client, in order of precedence: the
/// `--token` flag, the `--token-file` flag, the `--data-dir` flag, a
/// non-blank `AGPEER_TOKEN`, then `AGPEER_TOKEN_FILE`.
pub open spec fn token_source_spec(
    token: Option<Seq<char>>,
    token_file: Option<Seq<char>>,
    data_dir: Option<Seq<char>>,
    env_token: Option<Seq<char>>,
    env_token_file: Option<Seq<char>>,
) -> (int, Seq<char>) {
    if token is Some {
        (0, token->0)
    } else if token_file is Some {
        (1, token_file->0)
    } else if data_dir is Some {
        (2, data_dir->0)
    } else if env_token is Some && trim(env_token->0).len() > 0 {
        (0, env_token->0)
    } else if env_token_file is Some {
        (1, env_token_file->0)
    } else {
        (3, seq![])
    }
}

pub open spec fn token_source_view(s: TokenSource) -> (int, Seq<char>) {
    match s {
        TokenSource::Given(t) => (0, t@),
        TokenSource::File(f) => (1, f@),
        TokenSource::DataDir(d) => (2, d@),
        TokenSource::Missing => (3, seq![]),
    }
}

pub open spec fn opt_str(o: Option<String>) -> Option<Seq<char>> {
    match o {
        Some(s) => Some(s@),
        None => None,
    }
}

/// Resolves where the MCP client's token comes from.
pub fn token_source(
    token: Option<String>,
    token_file: Option<String>,
    data_dir: Option<String>,
    env_token: Option<String>,
    env_token_file: Option<String>,
) -> (r: TokenSource)
    ensures
        token_source_view(r) == token_source_spec(
            opt_str(token),
            opt_str(token_file),
            opt_str(data_dir),
            opt_str(env_token),
            opt_str(env_token_file),
        ),
{
    if let Some(t) = token {
        return TokenSource::Given(t);
    }
    if let Some(f) = token_file {
        return TokenSource::File(f);
    }
    if let Some(d) = data_dir {
        return TokenSource::DataDir(d);
    }
    if let Some(t) = env_token {
        let c = chars_of(t.as_str());
        let tr = crate::text::trim_chars(c.as_slice());
        if tr.len() > 0 {
            return TokenSource::Given(t);
        }
    }
    if let Some(f) = env_token_file {
        return TokenSource::File(f);
    }
    TokenSource::Missing
}

/// An error as the API answers it: the HTTP status code and the
/// client-safe error body.
pub struct ApiErrorResponse(pub u16, pub ApiError);

/// The HTTP status of an error: 503 for an unavailable backend, 401 for
/// failed authentication, 400 for a bad source or unsafe path, 410 for an
/// expired search or result, 404 for anything not found, 403 for a denied
/// action, 409 for a conflicting state, and 500 otherwise.
pub open spec fn http_status(e: Error) -> u16 {
    match e {
        Error::BackendUnavailable => 503,
        Error::AuthenticationFailed => 401,
        Error::InvalidSource | Error::UnsafePath => 400,
        Error::SearchExpired | Error::ResultExpired => 410,
        Error::TransferNotFound | Error::SearchNotFound | Error::ResultNotFound | Error::NotFound => 404,
        Error::PermissionDenied | Error::ProcessLaunchDenied => 403,
        Error::InvalidState(_) => 409,
        _ => 500,
    }
}

/// The API answer to an error: its status and its client-safe body.
pub fn err_to_response(e: Error) -> (r: ApiErrorResponse)
    ensures
        r.0 == http_status(e),
        r.1.code@ == error_code(e),
        r.1.message@ == if is_internal_error(e) {
            "internal error"@
        } else {
            error_text(e)
        },
{
    let status: u16 = match &e {
        Error::BackendUnavailable => 503,
        Error::AuthenticationFailed => 401,
        Error::InvalidSource | Error::UnsafePath => 400,
        Error::SearchExpired | Error::ResultExpired => 410,
        Error::TransferNotFound | Error::SearchNotFound | Error::ResultNotFound | Error::NotFound => 404,
        Error::PermissionDenied | Error::ProcessLaunchDenied => 403,
        Error::InvalidState(_) => 409,
        _ => 500,
    };
    ApiErrorResponse(status, e.into_api())
}

/// Whether an `Authorization` header carries the expected bearer token:
/// after the `Bearer ` prefix, the trimmed token must be non-empty and
/// equal to the expected one.
pub open spec fn token_matches_spec(header: Option<Seq<char>>, expected: Seq<char>) -> bool {
    match header {
        Some(h) => crate::text::starts_with(h, "Bearer "@) && {
            let t = trim(h.subrange(7, h.len() as int));
            t.len() > 0 && t == expected
        },
        None => false,
    }
}

/// Whether an `Authorization` header carries the expected bearer token.
pub fn token_matches(header: Option<&str>, expected: &str) -> (b: bool)
    ensures
        b == token_matches_spec(
            match header {
                Some(h) => Some(h@),
                None => None,
            },
            expected@,
        ),
{
    let h = match header {
        Some(h) => h,
        None => {
            return false;
        },
    };
    let hc = chars_of(h);
    let prefix = chars_of("Bearer ");
    proof {
        reveal_strlit("Bearer ");
    }
    if !crate::text::starts_with_chars(hc.as_slice(), prefix.as_slice()) {
        return false;
    }
    let rest = crate::text::slice_chars(hc.as_slice(), 7, hc.len());
    let t = crate::text::trim_chars(rest.as_slice());
    let e = chars_of(expected);
    t.len() > 0 && crate::text::chars_eq(t.as_slice(), e.as_slice())
}

/// The second `/`-separated segment of a path, when it has one.
pub open spec fn second_segment(path: Seq<char>) -> Option<Seq<char>> {
    let p = char_pos(path, '/');
    if p < 0 {
        None
    } else {
        let rest = path.subrange(p + 1, path.len() as int);
        let q = char_pos(rest, '/');
        Some(if q < 0 { rest } else { rest.subrange(0, q) })
    }
}

/// A request path under `/api` that no route served.
pub fn is_api_miss(path: &str) -> (b: bool)
    ensures
        b == (second_segment(path@) == Some("api"@)),
{
    let c = chars_of(path);
    let p = crate::text::char_index_from(c.as_slice(), '/', 0);
    assert(c@.subrange(0, c@.len() as int) =~= c@);
    if p >= c.len() {
        return false;
    }
    let q = crate::text::char_index_from(c.as_slice(), '/', p + 1);
    let seg = crate::text::slice_chars(c.as_slice(), p + 1, q);
    proof {
        let rest = c@.subrange(p + 1, c@.len() as int);
        if q < c.len() {
            assert(seg@ =~= rest.subrange(0, q - (p + 1)));
        } else {
            assert(seg@ =~= rest);
        }
    }
    eq_lit(seg.as_slice(), "api")
}

/// The text after the last `.` of a path, or the whole path.
pub open spec fn last_segment(path: Seq<char>) -> Seq<char> {
    let d = crate::paths::last_dot(path);
    if d < 0 { path } else { path.subrange(d + 1, path.len() as int) }
}

/// The content type served for a file extension.
pub open spec fn mime_spec(ext: Seq<char>) -> Seq<char> {
    if ext == "html"@ {
        "text/html; charset=utf-8"@
    } else if ext == "js"@ || ext == "mjs"@ {
        "text/javascript; charset=utf-8"@
    } else if ext == "css"@ {
        "text/css; charset=utf-8"@
    } else if ext == "json"@ || ext == "map"@ {
        "application/json"@
    } else if ext == "svg"@ {
        "image/svg+xml"@
    } else if ext == "png"@ {
        "image/png"@
    } else if ext == "jpg"@ || ext == "jpeg"@ {
        "image/jpeg"@
    } else if ext == "gif"@ {
        "image/gif"@
    } else if ext == "webp"@ {
        "image/webp"@
    } else if ext == "ico"@ {
        "image/x-icon"@
    } else if ext == "woff2"@ {
        "font/woff2"@
    } else if ext == "woff"@ {
        "font/woff"@
    } else if ext == "ttf"@ {
        "font/ttf"@
    } else if ext == "txt"@ {
        "text/plain; charset=utf-8"@
    } else if ext == "webmanifest"@ {
        "application/manifest+json"@
    } else {
        "application/octet-stream"@
    }
}

/// The content type served for a web UI asset named `stem.ext`, whatever
/// the stem, by its extension: html text/html, js and mjs text/javascript,
/// css text/css (all three in UTF-8), json and map application/json, svg
/// image/svg+xml, png image/png, jpg and jpeg image/jpeg, gif image/gif,
/// webp image/webp, ico image/x-icon, woff2 font/woff2, woff font/woff, ttf
/// font/ttf, txt text/plain in UTF-8, webmanifest
/// application/manifest+json.
pub proof fn law_mime_table(stem: Seq<char>)
    ensures
        mime_spec(last_segment(stem + ".html"@)) == "text/html; charset=utf-8"@,
        mime_spec(last_segment(stem + ".js"@)) == "text/javascript; charset=utf-8"@,
        mime_spec(last_segment(stem + ".mjs"@)) == "text/javascript; charset=utf-8"@,
        mime_spec(last_segment(stem + ".css"@)) == "text/css; charset=utf-8"@,
        mime_spec(last_segment(stem + ".json"@)) == "application/json"@,
        mime_spec(last_segment(stem + ".map"@)) == "application/json"@,
        mime_spec(last_segment(stem + ".svg"@)) == "image/svg+xml"@,
        mime_spec(last_segment(stem + ".png"@)) == "image/png"@,
        mime_spec(last_segment(stem + ".jpg"@)) == "image/jpeg"@,
        mime_spec(last_segment(stem + ".jpeg"@)) == "image/jpeg"@,
        mime_spec(last_segment(stem + ".gif"@)) == "image/gif"@,
        mime_spec(last_segment(stem + ".webp"@)) == "image/webp"@,
        mime_spec(last_segment(stem + ".ico"@)) == "image/x-icon"@,
        mime_spec(last_segment(stem + ".woff2"@)) == "font/woff2"@,
        mime_spec(last_segment(stem + ".woff"@)) == "font/woff"@,
        mime_spec(last_segment(stem + ".ttf"@)) == "font/ttf"@,
        mime_spec(last_segment(stem + ".txt"@)) == "text/plain; charset=utf-8"@,
        mime_spec(last_segment(stem + ".webmanifest"@)) == "application/manifest+json"@,
{
    reveal_strlit("html");
    reveal_strlit("js");
    reveal_strlit("mjs");
    reveal_strlit("css");
    reveal_strlit("json");
    reveal_strlit("map");
    reveal_strlit("svg");
    reveal_strlit("png");
    reveal_strlit("jpg");
    reveal_strlit("jpeg");
    reveal_strlit("gif");
    reveal_strlit("webp");
    reveal_strlit("ico");
    reveal_strlit("woff2");
    reveal_strlit("woff");
    reveal_strlit("ttf");
    reveal_strlit("txt");
    reveal_strlit("webmanifest");
    reveal_strlit(".html");
    lemma_last_segment(stem, "html"@);
    assert(stem + ".html"@ =~= stem + seq!['.'] + "html"@);
    reveal_strlit(".js");
    lemma_last_segment(stem, "js"@);
    assert(stem + ".js"@ =~= stem + seq!['.'] + "js"@);
    assert("js"@.len() != "html"@.len());
    reveal_strlit(".mjs");
    lemma_last_segment(stem, "mjs"@);
    assert(stem + ".mjs"@ =~= stem + seq!['.'] + "mjs"@);
    assert("mjs"@.len() != "html"@.len());
    reveal_strlit(".css");
    lemma_last_segment(stem, "css"@);
    assert(stem + ".css"@ =~= stem + seq!['.'] + "css"@);
    assert("css"@.len() != "html"@.len());
    assert("css"@.len() != "js"@.len());
    assert("css"@[0] != "mjs"@[0]);
    reveal_strlit(".json");
    lemma_last_segment(stem, "json"@);
    assert(stem + ".json"@ =~= stem + seq!['.'] + "json"@);
    assert("json"@[0] != "html"@[0]);
    assert("json"@.len() != "js"@.len());
    assert("json"@.len() != "mjs"@.len());
    assert("json"@.len() != "css"@.len());
    reveal_strlit(".map");
    lemma_last_segment(stem, "map"@);
    assert(stem + ".map"@ =~= stem + seq!['.'] + "map"@);
    assert("map"@.len() != "html"@.len());
    assert("map"@.len() != "js"@.len());
    assert("map"@[1] != "mjs"@[1]);
    assert("map"@[0] != "css"@[0]);
    reveal_strlit(".svg");
    lemma_last_segment(stem, "svg"@);
    assert(stem + ".svg"@ =~= stem + seq!['.'] + "svg"@);
    assert("svg"@.len() != "html"@.len());
    assert("svg"@.len() != "js"@.len());
    assert("svg"@[0] != "mjs"@[0]);
    assert("svg"@[0] != "css"@[0]);
    assert("svg"@.len() != "json"@.len());
    assert("svg"@[0] != "map"@[0]);
    reveal_strlit(".png");
    lemma_last_segment(stem, "png"@);
    assert(stem + ".png"@ =~= stem + seq!['.'] + "png"@);
    assert("png"@.len() != "html"@.len());
    assert("png"@.len() != "js"@.len());
    assert("png"@[0] != "mjs"@[0]);
    assert("png"@[0] != "css"@[0]);
    assert("png"@.len() != "json"@.len());
    assert("png"@[0] != "map"@[0]);
    assert("png"@[0] != "svg"@[0]);
    reveal_strlit(".jpg");
    lemma_last_segment(stem, "jpg"@);
    assert(stem + ".jpg"@ =~= stem + seq!['.'] + "jpg"@);
    assert("jpg"@.len() != "html"@.len());
    assert("jpg"@.len() != "js"@.len());
    assert("jpg"@[0] != "mjs"@[0]);
    assert("jpg"@[0] != "css"@[0]);
    assert("jpg"@.len() != "json"@.len());
    assert("jpg"@[0] != "map"@[0]);
    assert("jpg"@[0] != "svg"@[0]);
    assert("jpg"@[0] != "png"@[0]);
    reveal_strlit(".jpeg");
    lemma_last_segment(stem, "jpeg"@);
    assert(stem + ".jpeg"@ =~= stem + seq!['.'] + "jpeg"@);
    assert("jpeg"@[0] != "html"@[0]);
    assert("jpeg"@.len() != "js"@.len());
    assert("jpeg"@.len() != "mjs"@.len());
    assert("jpeg"@.len() != "css"@.len());
    assert("jpeg"@[1] != "json"@[1]);
    assert("jpeg"@.len() != "map"@.len());
    assert("jpeg"@.len() != "svg"@.len());
    assert("jpeg"@.len() != "png"@.len());
    reveal_strlit(".gif");
    lemma_last_segment(stem, "gif"@);
    assert(stem + ".gif"@ =~= stem + seq!['.'] + "gif"@);
    assert("gif"@.len() != "html"@.len());
    assert("gif"@.len() != "js"@.len());
    assert("gif"@[0] != "mjs"@[0]);
    assert("gif"@[0] != "css"@[0]);
    assert("gif"@.len() != "json"@.len());
    assert("gif"@[0] != "map"@[0]);
    assert("gif"@[0] != "svg"@[0]);
    assert("gif"@[0] != "png"@[0]);
    assert("gif"@[0] != "jpg"@[0]);
    assert("gif"@.len() != "jpeg"@.len());
    reveal_strlit(".webp");
    lemma_last_segment(stem, "webp"@);
    assert(stem + ".webp"@ =~= stem + seq!['.'] + "webp"@);
    assert("webp"@[0] != "html"@[0]);
    assert("webp"@.len() != "js"@.len());
    assert("webp"@.len() != "mjs"@.len());
    assert("webp"@.len() != "css"@.len());
    assert("webp"@[0] != "json"@[0]);
    assert("webp"@.len() != "map"@.len());
    assert("webp"@.len() != "svg"@.len());
    assert("webp"@.len() != "png"@.len());
    assert("webp"@.len() != "jpg"@.len());
    assert("webp"@[0] != "jpeg"@[0]);
    assert("webp"@.len() != "gif"@.len());
    reveal_strlit(".ico");
    lemma_last_segment(stem, "ico"@);
    assert(stem + ".ico"@ =~= stem + seq!['.'] + "ico"@);
    assert("ico"@.len() != "html"@.len());
    assert("ico"@.len() != "js"@.len());
    assert("ico"@[0] != "mjs"@[0]);
    assert("ico"@[0] != "css"@[0]);
    assert("ico"@.len() != "json"@.len());
    assert("ico"@[0] != "map"@[0]);
    assert("ico"@[0] != "svg"@[0]);
    assert("ico"@[0] != "png"@[0]);
    assert("ico"@[0] != "jpg"@[0]);
    assert("ico"@.len() != "jpeg"@.len());
    assert("ico"@[0] != "gif"@[0]);
    assert("ico"@.len() != "webp"@.len());
    reveal_strlit(".woff2");
    lemma_last_segment(stem, "woff2"@);
    assert(stem + ".woff2"@ =~= stem + seq!['.'] + "woff2"@);
    assert("woff2"@.len() != "html"@.len());
    assert("woff2"@.len() != "js"@.len());
    assert("woff2"@.len() != "mjs"@.len());
    assert("woff2"@.len() != "css"@.len());
    assert("woff2"@.len() != "json"@.len());
    assert("woff2"@.len() != "map"@.len());
    assert("woff2"@.len() != "svg"@.len());
    assert("woff2"@.len() != "png"@.len());
    assert("woff2"@.len() != "jpg"@.len());
    assert("woff2"@.len() != "jpeg"@.len());
    assert("woff2"@.len() != "gif"@.len());
    assert("woff2"@.len() != "webp"@.len());
    assert("woff2"@.len() != "ico"@.len());
    reveal_strlit(".woff");
    lemma_last_segment(stem, "woff"@);
    assert(stem + ".woff"@ =~= stem + seq!['.'] + "woff"@);
    assert("woff"@[0] != "html"@[0]);
    assert("woff"@.len() != "js"@.len());
    assert("woff"@.len() != "mjs"@.len());
    assert("woff"@.len() != "css"@.len());
    assert("woff"@[0] != "json"@[0]);
    assert("woff"@.len() != "map"@.len());
    assert("woff"@.len() != "svg"@.len());
    assert("woff"@.len() != "png"@.len());
    assert("woff"@.len() != "jpg"@.len());
    assert("woff"@[0] != "jpeg"@[0]);
    assert("woff"@.len() != "gif"@.len());
    assert("woff"@[1] != "webp"@[1]);
    assert("woff"@.len() != "ico"@.len());
    assert("woff"@.len() != "woff2"@.len());
    reveal_strlit(".ttf");
    lemma_last_segment(stem, "ttf"@);
    assert(stem + ".ttf"@ =~= stem + seq!['.'] + "ttf"@);
    assert("ttf"@.len() != "html"@.len());
    assert("ttf"@.len() != "js"@.len());
    assert("ttf"@[0] != "mjs"@[0]);
    assert("ttf"@[0] != "css"@[0]);
    assert("ttf"@.len() != "json"@.len());
    assert("ttf"@[0] != "map"@[0]);
    assert("ttf"@[0] != "svg"@[0]);
    assert("ttf"@[0] != "png"@[0]);
    assert("ttf"@[0] != "jpg"@[0]);
    assert("ttf"@.len() != "jpeg"@.len());
    assert("ttf"@[0] != "gif"@[0]);
    assert("ttf"@.len() != "webp"@.len());
    assert("ttf"@[0] != "ico"@[0]);
    assert("ttf"@.len() != "woff2"@.len());
    assert("ttf"@.len() != "woff"@.len());
    reveal_strlit(".txt");
    lemma_last_segment(stem, "txt"@);
    assert(stem + ".txt"@ =~= stem + seq!['.'] + "txt"@);
    assert("txt"@.len() != "html"@.len());
    assert("txt"@.len() != "js"@.len());
    assert("txt"@[0] != "mjs"@[0]);
    assert("txt"@[0] != "css"@[0]);
    assert("txt"@.len() != "json"@.len());
    assert("txt"@[0] != "map"@[0]);
    assert("txt"@[0] != "svg"@[0]);
    assert("txt"@[0] != "png"@[0]);
    assert("txt"@[0] != "jpg"@[0]);
    assert("txt"@.len() != "jpeg"@.len());
    assert("txt"@[0] != "gif"@[0]);
    assert("txt"@.len() != "webp"@.len());
    assert("txt"@[0] != "ico"@[0]);
    assert("txt"@.len() != "woff2"@.len());
    assert("txt"@.len() != "woff"@.len());
    assert("txt"@[1] != "ttf"@[1]);
    reveal_strlit(".webmanifest");
    lemma_last_segment(stem, "webmanifest"@);
    assert(stem + ".webmanifest"@ =~= stem + seq!['.'] + "webmanifest"@);
    assert("webmanifest"@.len() != "html"@.len());
    assert("webmanifest"@.len() != "js"@.len());
    assert("webmanifest"@.len() != "mjs"@.len());
    assert("webmanifest"@.len() != "css"@.len());
    assert("webmanifest"@.len() != "json"@.len());
    assert("webmanifest"@.len() != "map"@.len());
    assert("webmanifest"@.len() != "svg"@.len());
    assert("webmanifest"@.len() != "png"@.len());
    assert("webmanifest"@.len() != "jpg"@.len());
    assert("webmanifest"@.len() != "jpeg"@.len());
    assert("webmanifest"@.len() != "gif"@.len());
    assert("webmanifest"@.len() != "webp"@.len());
    assert("webmanifest"@.len() != "ico"@.len());
    assert("webmanifest"@.len() != "woff2"@.len());
    assert("webmanifest"@.len() != "woff"@.len());
    assert("webmanifest"@.len() != "ttf"@.len());
    assert("webmanifest"@.len() != "txt"@.len());
}

/// The last segment of `stem.ext` is `ext` when `ext` holds no dot.
proof fn lemma_last_segment(stem: Seq<char>, ext: Seq<char>)
    requires
        forall|i: int| 0 <= i < ext.len() ==> #[trigger] ext[i] != '.',
    ensures
        last_segment(stem + seq!['.'] + ext) == ext,
{
    lemma_last_dot_after(stem + seq!['.'], ext);
    assert((stem + seq!['.'] + ext).subrange(stem.len() as int + 1, (stem + seq!['.'] + ext).len() as int) =~= ext);
}

proof fn lemma_last_dot_after(a: Seq<char>, ext: Seq<char>)
    requires
        a.len() > 0,
        a.last() == '.',
        forall|i: int| 0 <= i < ext.len() ==> #[trigger] ext[i] != '.',
    ensures
        crate::paths::last_dot(a + ext) == a.len() - 1,
    decreases ext.len(),
{
    if ext.len() == 0 {
        assert(a + ext =~= a);
    } else {
        assert((a + ext).drop_last() =~= a + ext.drop_last());
        assert((a + ext).last() == ext.last());
        lemma_last_dot_after(a, ext.drop_last());
    }
}

/// The content type served for a web UI asset, by its extension.
pub fn mime_for(path: &str) -> (m: &'static str)
    ensures
        m@ == mime_spec(last_segment(path@)),
{
    let c = chars_of(path);
    let e = match crate::paths::last_dot_exec(c.as_slice()) {
        Some(d) => crate::text::slice_chars(c.as_slice(), d + 1, c.len()),
        None => crate::text::slice_chars(c.as_slice(), 0, c.len()),
    };
    assert(c@.subrange(0, c@.len() as int) =~= c@);
    let e = e.as_slice();
    if eq_lit(e, "html") {
        "text/html; charset=utf-8"
    } else if eq_lit(e, "js") || eq_lit(e, "mjs") {
        "text/javascript; charset=utf-8"
    } else if eq_lit(e, "css") {
        "text/css; charset=utf-8"
    } else if eq_lit(e, "json") || eq_lit(e, "map") {
        "application/json"
    } else if eq_lit(e, "svg") {
        "image/svg+xml"
    } else if eq_lit(e, "png") {
        "image/png"
    } else if eq_lit(e, "jpg") || eq_lit(e, "jpeg") {
        "image/jpeg"
    } else if eq_lit(e, "gif") {
        "image/gif"
    } else if eq_lit(e, "webp") {
        "image/webp"
    } else if eq_lit(e, "ico") {
        "image/x-icon"
    } else if eq_lit(e, "woff2") {
        "font/woff2"
    } else if eq_lit(e, "woff") {
        "font/woff"
    } else if eq_lit(e, "ttf") {
        "font/ttf"
    } else if eq_lit(e, "txt") {
        "text/plain; charset=utf-8"
    } else if eq_lit(e, "webmanifest") {
        "application/manifest+json"
    } else {
        "application/octet-stream"
    }
}

/// How `serde_json` writes one character inside a string literal: quote and
/// backslash are escaped with a backslash; backspace, tab, line feed, form
/// feed and carriage return get their short escapes; the other control
/// characters below U+0020 become `\u00XX` with lower-case hex; every
/// other character is written as it is.
pub open spec fn json_escape(c: char) -> Seq<char> {
    if c == '"' {
        seq!['\\', '"']
    } else if c == '\\' {
        seq!['\\', '\\']
    } else if c == '\u{8}' {
        seq!['\\', 'b']
    } else if c == '\t' {
        seq!['\\', 't']
    } else if c == '\n' {
        seq!['\\', 'n']
    } else if c == '\u{c}' {
        seq!['\\', 'f']
    } else if c == '\r' {
        seq!['\\', 'r']
    } else if (c as u32) < 0x20 {
        seq![
            '\\',
            'u',
            '0',
            '0',
            crate::ids::hex_char(((c as u32) / 16) as u128),
            crate::ids::hex_char(((c as u32) % 16) as u128),
        ]
    } else {
        seq![c]
    }
}

/// Every character of a text escaped.
pub open spec fn json_escaped(s: Seq<char>) -> Seq<char>
    decreases s.len(),
{
    if s.len() == 0 {
        seq![]
    } else {
        json_escaped(s.drop_last()) + json_escape(s.last())
    }
}

/// The JSON string literal `serde_json` writes for a text: the escaped text
/// between double quotes.
pub open spec fn json_string(s: Seq<char>) -> Seq<char> {
    seq!['"'] + json_escaped(s) + seq!['"']
}

/// Serializes a text as a JSON string literal with `serde_json::to_string`
/// (`format_escaped_str`); serializing a `str` never fails.
#[verifier::external_body]
fn json_string_literal(s: &str) -> (r: String)
    ensures
        r@ == json_string(s@),
{
    serde_json::to_string(s).unwrap_or_default()
}

/// The `<script>` snippet that embeds the API token as a JSON string
/// literal, so no token can leave the script's string.
pub fn token_script(token: &str) -> (r: String)
    ensures
        r@ == "<script>window.__AGPEER_TOKEN__="@ + json_string(token@) + ";</script>"@,
{
    let mut out = chars_of("<script>window.__AGPEER_TOKEN__=");
    let lit = json_string_literal(token);
    let lc = chars_of(lit.as_str());
    crate::text::push_all(&mut out, lc.as_slice());
    let tail = chars_of(";</script>");
    crate::text::push_all(&mut out, tail.as_slice());
    string_of(out.as_slice())
}

/// The text of a byte sequence, when it is valid UTF-8 (`std::str::from_utf8`).
#[verifier::external_body]
fn utf8_text(bytes: &[u8]) -> (r: Option<String>)
    ensures
        match r {
            Some(s) => vstd::utf8::valid_utf8(bytes@) && s@ == vstd::utf8::decode_utf8(bytes@),
            None => !vstd::utf8::valid_utf8(bytes@),
        },
{
    match std::str::from_utf8(bytes) {
        Ok(s) => Some(s.to_string()),
        Err(_) => None,
    }
}

/// The position of the last occurrence of `p` in `s`, if any.
pub open spec fn last_occurrence(s: Seq<char>, p: Seq<char>) -> Option<int> {
    if exists|i: int| crate::text::occurs_at(s, p, i) {
        Some(choose|i: int| crate::text::occurs_at(s, p, i) && forall|j: int| i < j ==> !crate::text::occurs_at(s, p, j))
    } else {
        None
    }
}

/// The script tag embedding the token.
pub open spec fn token_script_text(token: Seq<char>) -> Seq<char> {
    "<script>window.__AGPEER_TOKEN__="@ + json_string(token) + ";</script>"@
}

/// The served `index.html`: unchanged unless token injection is on and the
/// page is UTF-8 text; then the token script goes right before the last
/// `</body>`.
pub open spec fn index_html_spec(data: Seq<u8>, token: Seq<char>, inject: bool) -> Seq<u8> {
    if !inject || !vstd::utf8::valid_utf8(data) {
        data
    } else {
        let h = vstd::utf8::decode_utf8(data);
        match last_occurrence(h, "</body>"@) {
            Some(i) => vstd::utf8::encode_utf8(h.subrange(0, i) + token_script_text(token) + h.subrange(i, h.len() as int)),
            None => vstd::utf8::encode_utf8(h),
        }
    }
}

/// The web UI's `index.html`, with the API token injected when asked.
pub fn index_html(data: &[u8], token: &str, inject: bool) -> (r: Vec<u8>)
    ensures
        r@ == index_html_spec(data@, token@, inject),
{
    if !inject {
        return slice_to_vec(data);
    }
    let html = match utf8_text(data) {
        Some(h) => h,
        None => {
            return slice_to_vec(data);
        },
    };
    let h = chars_of(html.as_str());
    let tag = chars_of("</body>");
    let mut out: Vec<char> = Vec::new();
    match last_index(h.as_slice(), tag.as_slice()) {
        Some(i) => {
            let head = crate::text::slice_chars(h.as_slice(), 0, i);
            crate::text::push_all(&mut out, head.as_slice());
            let s = token_script(token);
            let sc = chars_of(s.as_str());
            crate::text::push_all(&mut out, sc.as_slice());
            let tail = crate::text::slice_chars(h.as_slice(), i, h.len());
            crate::text::push_all(&mut out, tail.as_slice());
        },
        None => {
            crate::text::push_all(&mut out, h.as_slice());
        },
    }
    let t = string_of(out.as_slice());
    let ts = t.as_str();
    let b = ts.as_bytes();
    proof {
        assert(ts.spec_bytes() == vstd::utf8::encode_utf8(ts@));
    }
    slice_to_vec(b)
}

fn slice_to_vec(b: &[u8]) -> (v: Vec<u8>)
    ensures
        v@ == b@,
{
    let mut v: Vec<u8> = Vec::new();
    let mut i: usize = 0;
    while i < b.len()
        invariant
            i <= b.len(),
            v@ == b@.take(i as int),
        decreases b.len() - i,
    {
        v.push(b[i]);
        i = i + 1;
        assert(v@ =~= b@.take(i as int));
    }
    assert(b@.take(b.len() as int) =~= b@);
    v
}

/// The last position where `p` occurs in `s`.
fn last_index(s: &[char], p: &[char]) -> (r: Option<usize>)
    ensures
        match r {
            Some(i) => last_occurrence(s@, p@) == Some(i as int) && crate::text::occurs_at(s@, p@, i as int),
            None => last_occurrence(s@, p@) is None,
        },
{
    if p.len() > s.len() {
        assert(forall|i: int| !crate::text::occurs_at(s@, p@, i));
        return None;
    }
    let mut k: usize = s.len() - p.len();
    loop
        invariant
            k <= s@.len() - p@.len(),
            p@.len() <= s@.len(),
            forall|j: int| k < j ==> !crate::text::occurs_at(s@, p@, j),
        decreases k,
    {
        if crate::text::matches_at(s, p, k) {
            proof {
                let c = choose|c: int| crate::text::occurs_at(s@, p@, c) && forall|j: int| c < j ==> !crate::text::occurs_at(s@, p@, j);
                assert(c == k);
            }
            return Some(k);
        }
        if k == 0 {
            assert(forall|j: int| !crate::text::occurs_at(s@, p@, j));
            return None;
        }
        k = k - 1;
    }
}

/// A request with a bearer token the server accepted.
pub struct BearerAuth;

/// A request without the expected bearer token.
pub struct AuthRejection;

impl BearerAuth {
    /// Accepts a request whose `Authorization` header carries the
    /// expected bearer token; rejects every other.
    pub fn from_header(header: Option<&str>, expected: &str) -> (r: Result<BearerAuth, AuthRejection>)
        ensures
            r is Ok <==> token_matches_spec(
                match header {
                    Some(h) => Some(h@),
                    None => None,
                },
                expected@,
            ),
    {
        if token_matches(header, expected) {
            Ok(BearerAuth)
        } else {
            Err(AuthRejection)
        }
    }
}

impl AuthRejection {
    /// The answer to a rejected request: 401 with an authentication error.
    pub fn into_response(self) -> (r: ApiErrorResponse)
        ensures
            r.0 == 401,
            r.1.code@ == "AuthenticationFailed"@,
            r.1.message@ == "missing or invalid bearer token"@,
    {
        ApiErrorResponse(401, ApiError::new("AuthenticationFailed", "missing or invalid bearer token"))
    }
}

/// A registered backend as the status endpoints report it.
pub struct BackendStatus {
    pub backend: String,
    pub transfer_available: bool,
    pub search_available: bool,
    pub state: String,
}

/// A plain confirmation message.
pub struct MessageResponse {
    pub message: String,
}

/// Body of a cancel or delete request.
pub struct CancelRequest {
    pub delete_data: Option<bool>,
}

/// The answer to a started search.
pub struct SearchResponse {
    pub search_id: String,
}

/// Optional destination of a search-result download.
pub struct DownloadDestination {
    pub destination: Option<String>,
}

fn clone_opt(o: &Option<String>) -> (r: Option<String>)
    ensures
        match r {
            Some(t) => o matches Some(u) && t@ == u@,
            None => o is None,
        },
{
    match o {
        Some(t) => Some(t.clone()),
        None => None,
    }
}

/// The transfer request that downloads a Soulseek search result: the
/// Soulseek backend, the source `soulseek:result:{id}`, the result's file
/// name as display name, the requested destination and no file selection.
pub fn result_download_request(
    result_id: &crate::ids::ResultId,
    filename: &str,
    body: &Option<DownloadDestination>,
) -> (r: crate::common::AddTransferRequest)
    ensures
        r.backend == crate::common::Backend::Soulseek,
        r.source@ == crate::soulseek::result_source(crate::ids::uuid_text(result_id.0)),
        r.display_name matches Some(n) && n@ == filename@,
        match r.destination {
            Some(d) => body matches Some(b) && b.destination matches Some(e) && d@ == e@,
            None => body is None || body->0.destination is None,
        },
        r.file_selection is None,
        r.metadata@.len() == 0,
{
    let mut source = String::from_str("soulseek:result:");
    let key = result_id.to_string();
    source.append(key.as_str());
    let destination = match body {
        Some(b) => clone_opt(&b.destination),
        None => None,
    };
    crate::common::AddTransferRequest {
        backend: crate::common::Backend::Soulseek,
        source,
        destination,
        display_name: Some(String::from_str(filename)),
        file_selection: None,
        metadata: Vec::new(),
    }
}

/// Query of a delete request.
pub struct DeleteQuery {
    pub delete_data: Option<bool>,
}

/// The JSON body of an API error.
pub struct ApiErrorBody {
    pub code: String,
    pub message: String,
}

/// Whether a cancel or delete request asks to delete the downloaded data
/// (it does not unless it says so).
pub fn delete_data_requested(r: &CancelRequest) -> (b: bool)
    ensures
        b == (r.delete_data == Some(true)),
{
    match r.delete_data {
        Some(d) => d,
        None => false,
    }
}

/// A backend's search availability: the magnet search only while it is
/// enabled (and, for the backend listing, registered); any other backend
/// while it is registered for searches.
pub open spec fn search_available_spec(b: crate::common::Backend, registered: bool, hook_enabled: bool, listing: bool) -> bool {
    match b {
        crate::common::Backend::Hook => hook_enabled && (!listing || registered),
        _ => registered,
    }
}

/// The status of each registered backend, in name order: whether it can
/// take transfers and searches, and ready. `listing` chooses the backend
/// listing's rule for the magnet search (enabled and registered) over the
/// status endpoint's (enabled).
pub fn backend_statuses(
    transfer: &Vec<crate::common::Backend>,
    search: &Vec<crate::common::Backend>,
    hook_enabled: bool,
    listing: bool,
) -> (r: Vec<BackendStatus>)
    ensures
        r@.len() == crate::events::available_spec(transfer@, search@).len(),
        forall|i: int|
            0 <= i < r@.len() ==> {
                let b = crate::events::available_spec(transfer@, search@)[i];
                &&& (#[trigger] r@[i]).backend@ == crate::common::backend_name(b)
                &&& r@[i].transfer_available == transfer@.contains(b)
                &&& r@[i].search_available == search_available_spec(b, search@.contains(b), hook_enabled, listing)
                &&& r@[i].state@ == "ready"@
            },
{
    let bs = crate::events::available_backends(transfer, search);
    let mut r: Vec<BackendStatus> = Vec::new();
    let mut i: usize = 0;
    while i < bs.len()
        invariant
            i <= bs@.len(),
            bs@ == crate::events::available_spec(transfer@, search@),
            r@.len() == i,
            forall|k: int|
                0 <= k < i ==> {
                    let b = bs@[k];
                    &&& (#[trigger] r@[k]).backend@ == crate::common::backend_name(b)
                    &&& r@[k].transfer_available == transfer@.contains(b)
                    &&& r@[k].search_available == search_available_spec(b, search@.contains(b), hook_enabled, listing)
                    &&& r@[k].state@ == "ready"@
                },
        decreases bs.len() - i,
    {
        let b = bs[i];
        let t = crate::events::has_backend(transfer, b);
        let sr = crate::events::has_backend(search, b);
        let s = match b {
            crate::common::Backend::Hook => hook_enabled && (!listing || sr),
            _ => sr,
        };
        let name = chars_of(b.as_str());
        let ready = chars_of("ready");
        r.push(BackendStatus {
            backend: string_of(name.as_slice()),
            transfer_available: t,
            search_available: s,
            state: string_of(ready.as_slice()),
        });
        i = i + 1;
    }
    r
}

} // verus!
