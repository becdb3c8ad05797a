//! Source validation and normalization shared by every engine.
//!
//! Every accepted torrent source is one of: a magnet URI (must start with
//! `magnet:?`), a path to an existing local `.torrent` file, or a remote
//! `.torrent` URL (`http://` or `https://`). Anything else is rejected.

use vstd::prelude::*;
use vstd::string::{StringExecFns, StringSliceAdditionalSpecFns};
use crate::text::{
    char_index_from, char_pos, chars_of, lower, lower_chars, slice_chars, starts_with,
    starts_with_chars, string_of, utf8_lossy,
};
use crate::util::{percent_decode, pct_decode_bytes};
use crate::paths::{file_stem, file_stem_of};
use crate::torrent::error::BackendError;

verus! {

/// A validated torrent source.
#[derive(Debug, Clone)]
pub enum SourceKind {
    /// A magnet URI, with the `xt` (info hash) and `dn` (display name) query
    /// values when present.
    Magnet { info_hash: Option<String>, display_name: Option<String> },
    /// A path to an existing local `.torrent` file.
    TorrentFile(String),
    /// A remote `.torrent` URL.
    TorrentUrl(String),
}

/// The value of the first `key=value` pair of a `&`-separated query whose
/// key is `key`; `None` when a pair without `=` comes first or no pair has
/// the key.
pub open spec fn query_lookup(q: Seq<char>, key: Seq<char>) -> Option<Seq<char>>
    decreases q.len(),
{
    let e = char_pos(q, '&');
    let pair = if e < 0 { q } else { q.subrange(0, e) };
    let eq = char_pos(pair, '=');
    if eq < 0 {
        None
    } else if pair.subrange(0, eq) == key {
        Some(pair.subrange(eq + 1, pair.len() as int))
    } else if e < 0 {
        None
    } else {
        proof {
            crate::text::lemma_char_pos(q, '&');
        }
        query_lookup(q.subrange(e + 1, q.len() as int), key)
    }
}

/// The query part of a magnet: after the first `?`, or the whole text.
pub open spec fn magnet_query(m: Seq<char>) -> Seq<char> {
    let q = char_pos(m, '?');
    if q < 0 { m } else { m.subrange(q + 1, m.len() as int) }
}

pub open spec fn btih_prefix() -> Seq<char> {
    "urn:btih:"@
}

/// The `key` value of a magnet URI; for `xt` without its `urn:btih:` prefix.
pub open spec fn magnet_value(m: Seq<char>, key: Seq<char>) -> Option<Seq<char>> {
    match query_lookup(magnet_query(m), key) {
        Some(v) => if key == "xt"@ && starts_with(v, btih_prefix()) {
            Some(v.subrange(btih_prefix().len() as int, v.len() as int))
        } else {
            Some(v)
        },
        None => None,
    }
}

/// Extract the value of `key` from the query part of a magnet URI. The
/// `urn:btih:` prefix is stripped from the `xt` value.
pub fn magnet_query_value(magnet: &str, key: &str) -> (r: Option<String>)
    ensures
        match r {
            Some(v) => magnet_value(magnet@, key@) == Some(v@),
            None => magnet_value(magnet@, key@) is None,
        },
{
    let m = chars_of(magnet);
    let k = chars_of(key);
    let qpos = char_index_from(m.as_slice(), '?', 0);
    assert(m@.subrange(0, m@.len() as int) =~= m@);
    let mut start: usize = if qpos < m.len() { qpos + 1 } else { 0 };
    assert(m@.subrange(start as int, m@.len() as int) =~= magnet_query(m@));
    loop
        invariant
            start <= m.len(),
            m@ == magnet@,
            k@ == key@,
            query_lookup(magnet_query(m@), k@) == query_lookup(m@.subrange(start as int, m@.len() as int), k@),
        decreases m.len() - start,
    {
        let ghost q = m@.subrange(start as int, m@.len() as int);
        let e = char_index_from(m.as_slice(), '&', start);
        let pair = slice_chars(m.as_slice(), start, e);
        assert(pair@ =~= (if char_pos(q, '&') < 0 { q } else { q.subrange(0, char_pos(q, '&')) }));
        let eq = char_index_from(pair.as_slice(), '=', 0);
        assert(pair@.subrange(0, pair@.len() as int) =~= pair@);
        if eq >= pair.len() {
            return None;
        }
        let pk = slice_chars(pair.as_slice(), 0, eq);
        if crate::text::chars_eq(pk.as_slice(), k.as_slice()) {
            let v = slice_chars(pair.as_slice(), eq + 1, pair.len());
            let xt = chars_of("xt");
            let prefix = chars_of("urn:btih:");
            proof {
                reveal_strlit("xt");
                reveal_strlit("urn:btih:");
            }
            if crate::text::chars_eq(k.as_slice(), xt.as_slice()) && starts_with_chars(v.as_slice(), prefix.as_slice()) {
                let stripped = slice_chars(v.as_slice(), prefix.len(), v.len());
                return Some(string_of(stripped.as_slice()));
            }
            return Some(string_of(v.as_slice()));
        }
        if e >= m.len() {
            return None;
        }
        assert(q.subrange(char_pos(q, '&') + 1, q.len() as int) =~= m@.subrange(e + 1, m@.len() as int));
        start = e + 1;
    }
}

/// How a source text is classified, given whether it names an existing
/// file.
pub open spec fn source_class(s: Seq<char>, is_file: bool) -> Option<u8> {
    if starts_with(s, "magnet:?"@) {
        Some(0u8)
    } else if starts_with(lower(s), "http://"@) || starts_with(lower(s), "https://"@) {
        Some(1u8)
    } else if is_file {
        Some(2u8)
    } else {
        None
    }
}

/// The display name a magnet's `dn` value decodes to.
pub open spec fn decoded_name(v: Seq<char>) -> Seq<char> {
    utf8_lossy(pct_decode_bytes(vstd::utf8::encode_utf8(v)))
}

/// The kind a classified source has: a magnet with its `xt` and decoded
/// `dn` values, a remote URL, or a local file, each holding the source.
pub open spec fn parsed_kind(source: Seq<char>, is_file: bool, k: SourceKind) -> bool {
    match source_class(source, is_file) {
        Some(0u8) => k matches SourceKind::Magnet { info_hash, display_name } && (match info_hash {
            Some(h) => magnet_value(source, "xt"@) == Some(h@),
            None => magnet_value(source, "xt"@) is None,
        }) && (match display_name {
            Some(d) => magnet_value(source, "dn"@) matches Some(v) && d@ == decoded_name(v),
            None => magnet_value(source, "dn"@) is None,
        }),
        Some(1u8) => k matches SourceKind::TorrentUrl(u) && u@ == source,
        Some(_) => k matches SourceKind::TorrentFile(p) && p@ == source,
        None => false,
    }
}

/// Validate `source` and classify it: a magnet URI (`magnet:?`), a remote
/// URL (`http://`/`https://`, any case), or — when `source_is_file` says the
/// path names an existing file — a local `.torrent` file. Anything else is
/// an invalid source.
pub fn parse_source(source: &str, source_is_file: bool) -> (r: Result<SourceKind, BackendError>)
    ensures
        match source_class(source@, source_is_file) {
            None => r matches Err(BackendError::InvalidSource),
            Some(_) => r matches Ok(k) && parsed_kind(source@, source_is_file, k),
        },
{
    let s = chars_of(source);
    let magnet = chars_of("magnet:?");
    let http = chars_of("http://");
    let https = chars_of("https://");
    proof {
        reveal_strlit("magnet:?");
        reveal_strlit("http://");
        reveal_strlit("https://");
        reveal_strlit("xt");
        reveal_strlit("dn");
    }
    if starts_with_chars(s.as_slice(), magnet.as_slice()) {
        let info_hash = magnet_query_value(source, "xt");
        let display_name = match magnet_query_value(source, "dn") {
            Some(dn) => Some(percent_decode(dn.as_str())),
            None => None,
        };
        return Ok(SourceKind::Magnet { info_hash, display_name });
    }
    let low = lower_chars(s.as_slice());
    if starts_with_chars(low.as_slice(), http.as_slice()) || starts_with_chars(low.as_slice(), https.as_slice()) {
        return Ok(SourceKind::TorrentUrl(String::from_str(source)));
    }
    if source_is_file {
        return Ok(SourceKind::TorrentFile(String::from_str(source)));
    }
    Err(BackendError::InvalidSource)
}

/// The last non-empty `/`-separated segment of a URL.
pub open spec fn last_url_segment(u: Seq<char>) -> Option<Seq<char>>
    decreases u.len(),
{
    if u.len() == 0 {
        None
    } else {
        let e = char_pos(u, '/');
        proof {
            crate::text::lemma_char_pos(u, '/');
        }
        if e < 0 {
            Some(u)
        } else {
            match last_url_segment(u.subrange(e + 1, u.len() as int)) {
                Some(x) => Some(x),
                None => if e > 0 { Some(u.subrange(0, e)) } else { None },
            }
        }
    }
}

/// The display name derived from a source when the caller supplied none.
pub open spec fn fallback_name_spec(k: SourceKind) -> Seq<char> {
    match k {
        SourceKind::Magnet { info_hash, display_name } => match display_name {
            Some(d) => d@,
            None => match info_hash {
                Some(h) => "magnet-"@ + h@,
                None => "magnet"@,
            },
        },
        SourceKind::TorrentFile(p) => match file_stem(p@) {
            Some(s) => s,
            None => "torrent"@,
        },
        SourceKind::TorrentUrl(u) => match last_url_segment(u@) {
            Some(s) => s,
            None => "download"@,
        },
    }
}

fn last_segment(u: &[char]) -> (r: Option<(usize, usize)>)
    ensures
        match r {
            Some((a, b)) => a <= b <= u.len() && last_url_segment(u@) == Some(u@.subrange(a as int, b as int)),
            None => last_url_segment(u@) is None,
        },
    decreases u.len(),
{
    if u.len() == 0 {
        return None;
    }
    let e = char_index_from(u, '/', 0);
    assert(u@.subrange(0, u@.len() as int) =~= u@);
    if e >= u.len() {
        return Some((0, u.len()));
    }
    let rest = &u[e + 1..u.len()];
    assert(rest@ =~= u@.subrange(e + 1, u@.len() as int));
    match last_segment(rest) {
        Some((a, b)) => {
            assert(rest@.subrange(a as int, b as int) =~= u@.subrange(e + 1 + a, e + 1 + b));
            Some((e + 1 + a, e + 1 + b))
        },
        None => if e > 0 {
            Some((0, e))
        } else {
            None
        },
    }
}

/// A sensible display name derived from the source when the caller supplied
/// none and the engine has no parsed metainfo yet.
pub fn fallback_name(kind: &SourceKind) -> (s: String)
    ensures
        s@ == fallback_name_spec(*kind),
{
    match kind {
        SourceKind::Magnet { display_name, info_hash } => match display_name {
            Some(d) => d.clone(),
            None => match info_hash {
                Some(h) => {
                    let mut s = String::from_str("magnet-");
                    s.append(h.as_str());
                    proof {
                        reveal_strlit("magnet-");
                    }
                    s
                },
                None => String::from_str("magnet"),
            },
        },
        SourceKind::TorrentFile(p) => {
            let pc = chars_of(p.as_str());
            match file_stem_of(pc.as_slice()) {
                Some(stem) => string_of(stem.as_slice()),
                None => String::from_str("torrent"),
            }
        },
        SourceKind::TorrentUrl(u) => {
            let uc = chars_of(u.as_str());
            match last_segment(uc.as_slice()) {
                Some((a, b)) => {
                    let seg = slice_chars(uc.as_slice(), a, b);
                    string_of(seg.as_slice())
                },
                None => String::from_str("download"),
            }
        },
    }
}

} // verus!
