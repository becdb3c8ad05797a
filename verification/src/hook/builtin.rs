//! Built-in magnet search: the domain-neutral page scanning that turns
//! search-engine and site pages into magnet hits.

use vstd::prelude::*;
use crate::text::{
    char_pos, chars_of, find, is_ws, is_ws_char, lower, lower_chars, replace, slice_chars,
    string_of, trim_start,
};
use crate::postprocess::organize::{collapse, collapse_exec};

pub use crate::util::{percent_decode, percent_encode};

verus! {

/// The position of the first character of `s` satisfying `f`, or the
/// length.
pub open spec fn first_pos(s: Seq<char>, f: spec_fn(char) -> bool) -> int
    decreases s.len(),
{
    if s.len() == 0 {
        0
    } else if f(s[0]) {
        0
    } else {
        1 + first_pos(s.drop_first(), f)
    }
}

pub proof fn lemma_first_pos(s: Seq<char>, f: spec_fn(char) -> bool, i: int)
    requires
        0 <= i <= s.len(),
        forall|j: int| 0 <= j < i ==> !f(#[trigger] s[j]),
        i == s.len() || f(s[i]),
    ensures
        first_pos(s, f) == i,
    decreases i,
{
    if i > 0 {
        assert forall|j: int| 0 <= j < i - 1 implies !f(#[trigger] s.drop_first()[j]) by {
            assert(s.drop_first()[j] == s[j + 1]);
        }
        lemma_first_pos(s.drop_first(), f, i - 1);
    }
}

pub open spec fn is_ws_fn() -> spec_fn(char) -> bool {
    |c: char| is_ws(c)
}

pub open spec fn is_amp_fn() -> spec_fn(char) -> bool {
    |c: char| c == '&'
}

/// Deduplication identity for a magnet URI: the lowercased (ASCII) `btih:`
/// info hash up to the next `&`, or the whole URI when no hash is present.
#[verifier::opaque]
pub open spec fn magnet_key_spec(m: Seq<char>) -> Seq<char> {
    match find(m, "btih:"@) {
        Some(p) => {
            let rest = m.subrange(p + 5, m.len() as int);
            let hash = rest.subrange(0, first_pos(rest, is_amp_fn()));
            if hash.len() > 0 {
                lower(hash)
            } else {
                m
            }
        },
        None => m,
    }
}

/// The first position at or after `from` whose character satisfies the
/// test, or the length; `amp` picks `&`, otherwise whitespace.
fn pos_from(s: &[char], from: usize, amp: bool) -> (r: usize)
    requires
        from <= s.len(),
    ensures
        from <= r <= s.len(),
        r - from == first_pos(
            s@.subrange(from as int, s@.len() as int),
            if amp { is_amp_fn() } else { is_ws_fn() },
        ),
{
    let ghost f = if amp { is_amp_fn() } else { is_ws_fn() };
    let ghost t = s@.subrange(from as int, s@.len() as int);
    let mut i = from;
    while i < s.len()
        invariant
            from <= i <= s.len(),
            f == (if amp { is_amp_fn() } else { is_ws_fn() }),
            t == s@.subrange(from as int, s@.len() as int),
            forall|j: int| 0 <= j < i - from ==> !f(#[trigger] t[j]),
        decreases s.len() - i,
    {
        let hit = if amp { s[i] == '&' } else { is_ws_char(s[i]) };
        if hit {
            proof {
                assert(f(t[i - from]));
                lemma_first_pos(t, f, i - from);
            }
            return i;
        }
        assert(!f(t[i - from]));
        i = i + 1;
    }
    proof {
        lemma_first_pos(t, f, i - from);
    }
    i
}

/// The first whitespace at or after `from`, or the length.
pub fn pos_from_ws(s: &[char], from: usize) -> (r: usize)
    requires
        from <= s.len(),
    ensures
        from <= r <= s.len(),
        r - from == first_pos(s@.subrange(from as int, s@.len() as int), is_ws_fn()),
{
    pos_from(s, from, false)
}

/// The first `&` at or after `from`, or the length.
pub fn pos_from_amp(s: &[char], from: usize) -> (r: usize)
    requires
        from <= s.len(),
    ensures
        from <= r <= s.len(),
        r - from == first_pos(s@.subrange(from as int, s@.len() as int), is_amp_fn()),
{
    pos_from(s, from, true)
}

fn magnet_key_chars(m: &[char]) -> (r: Vec<char>)
    ensures
        r@ == magnet_key_spec(m@),
{
    reveal(magnet_key_spec);
    let needle = chars_of("btih:");
    proof {
        reveal_strlit("btih:");
    }
    match crate::text::find_chars(m, needle.as_slice()) {
        Some(p) => {
            assert(crate::text::occurs_at(m@, needle@, p as int));
            assert(needle@.len() == 5);
            assert(p + 5 <= m.len());
            let start = p + 5;
            let end = pos_from(m, start, true);
            let ghost rest = m@.subrange(start as int, m@.len() as int);
            let hash = slice_chars(m, start, end);
            assert(hash@ =~= rest.subrange(0, first_pos(rest, is_amp_fn())));
            if hash.len() > 0 {
                lower_chars(hash.as_slice())
            } else {
                slice_chars(m, 0, m.len())
            }
        },
        None => slice_chars(m, 0, m.len()),
    }
}

/// Deduplication identity for a magnet URI: two magnets for the same
/// torrent that differ only in trailing parameters (or hash case) share it.
pub fn magnet_key(magnet: &str) -> (r: String)
    ensures
        r@ == magnet_key_spec(magnet@),
{
    let m = chars_of(magnet);
    assert(m@.subrange(0, m@.len() as int) =~= m@);
    let k = magnet_key_chars(m.as_slice());
    string_of(k.as_slice())
}

/// Minimal HTML entity un-escaping for titles and links.
#[verifier::opaque]
pub open spec fn html_unescape_spec(s: Seq<char>) -> Seq<char> {
    let s = replace(s, "&amp;"@, "&"@);
    let s = replace(s, "&lt;"@, "<"@);
    let s = replace(s, "&gt;"@, ">"@);
    let s = replace(s, "&quot;"@, "\""@);
    let s = replace(s, "&#039;"@, "'"@);
    let s = replace(s, "&apos;"@, "'"@);
    replace(s, "&#x27;"@, "'"@)
}

fn replace_lit(s: Vec<char>, from: &str, to: &str) -> (r: Vec<char>)
    ensures
        r@ == replace(s@, from@, to@),
{
    let f = chars_of(from);
    let t = chars_of(to);
    crate::text::replace_chars(s.as_slice(), f.as_slice(), t.as_slice())
}

pub fn html_unescape_chars(s: &[char]) -> (r: Vec<char>)
    ensures
        r@ == html_unescape_spec(s@),
{
    reveal(html_unescape_spec);
    let v = slice_chars(s, 0, s.len());
    assert(s@.subrange(0, s@.len() as int) =~= s@);
    let v = replace_lit(v, "&amp;", "&");
    let v = replace_lit(v, "&lt;", "<");
    let v = replace_lit(v, "&gt;", ">");
    let v = replace_lit(v, "&quot;", "\"");
    let v = replace_lit(v, "&#039;", "'");
    let v = replace_lit(v, "&apos;", "'");
    replace_lit(v, "&#x27;", "'")
}

/// Minimal HTML entity un-escaping for titles and links.
pub fn html_unescape(s: &str) -> (r: String)
    ensures
        r@ == html_unescape_spec(s@),
{
    let c = chars_of(s);
    let u = html_unescape_chars(c.as_slice());
    string_of(u.as_slice())
}

/// The value of the attribute `name` in a tag: after the first `name=`
/// and any whitespace, a quoted value up to its closing quote, or an
/// unquoted value up to whitespace.
#[verifier::opaque]
pub open spec fn attr_value_spec(tag: Seq<char>, name: Seq<char>) -> Option<Seq<char>> {
    let needle = name + "="@;
    match find(tag, needle) {
        None => None,
        Some(p) => {
            let rest = trim_start(tag.subrange(p + needle.len(), tag.len() as int));
            if rest.len() == 0 {
                None
            } else if rest[0] == '"' || rest[0] == '\'' {
                let v = rest.drop_first();
                let e = char_pos(v, rest[0]);
                if e < 0 {
                    None
                } else {
                    Some(v.subrange(0, e))
                }
            } else {
                Some(rest.subrange(0, first_pos(rest, is_ws_fn())))
            }
        },
    }
}

fn attr_value_chars(tag: &[char], name: &str) -> (r: Option<Vec<char>>)
    ensures
        match r {
            Some(v) => attr_value_spec(tag@, name@) == Some(v@),
            None => attr_value_spec(tag@, name@) is None,
        },
{
    reveal(attr_value_spec);
    let mut needle = chars_of(name);
    needle.push('=');
    proof {
        reveal_strlit("=");
    }
    assert(needle@ =~= name@ + "="@);
    let p = match crate::text::find_chars(tag, needle.as_slice()) {
        Some(p) => p,
        None => {
            return None;
        },
    };
    assert(crate::text::occurs_at(tag@, needle@, p as int));
    assert(p + needle.len() <= tag.len());
    let after = slice_chars(tag, p + needle.len(), tag.len());
    let (a, _b) = crate::text::trim_bounds(after.as_slice());
    let rest = slice_chars(after.as_slice(), a, after.len());
    if rest.len() == 0 {
        return None;
    }
    let q = rest[0];
    if q == '"' || q == '\'' {
        let e = crate::text::char_index_from(rest.as_slice(), q, 1);
        let ghost v = rest@.drop_first();
        assert(rest@.subrange(1, rest@.len() as int) =~= v);
        if e >= rest.len() {
            None
        } else {
            let r = slice_chars(rest.as_slice(), 1, e);
            assert(r@ =~= v.subrange(0, e - 1));
            Some(r)
        }
    } else {
        let e = pos_from(rest.as_slice(), 0, false);
        assert(rest@.subrange(0, rest@.len() as int) =~= rest@);
        Some(slice_chars(rest.as_slice(), 0, e))
    }
}

/// Read the value of an HTML attribute, e.g. `href="..."` or `href='...'`.
pub fn attr_value(tag: &str, name: &str) -> (r: Option<String>)
    ensures
        match r {
            Some(v) => attr_value_spec(tag@, name@) == Some(v@),
            None => attr_value_spec(tag@, name@) is None,
        },
{
    let t = chars_of(tag);
    match attr_value_chars(t.as_slice(), name) {
        Some(v) => Some(string_of(v.as_slice())),
        None => None,
    }
}

} // verus!

verus! {

/// A parsed `<a href="...">text</a>` element.
#[derive(Debug, Clone)]
pub struct Anchor {
    pub href: String,
    pub text: String,
}

/// `<a ` or `<a>` starts at `i`.
pub open spec fn anchor_start(h: Seq<char>, i: int) -> bool {
    0 <= i && i + 2 < h.len() && h[i] == '<' && h[i + 1] == 'a' && (h[i + 2] == ' ' || h[i + 2]
        == '>')
}

/// Where the anchor starting at `i` ends its opening tag (the `>`) and
/// where its `</a>` starts; `None` when no anchor starts there or either is
/// missing.
#[verifier::opaque]
pub open spec fn anchor_bounds(h: Seq<char>, i: int) -> Option<(int, int)> {
    let rel = char_pos(h.subrange(i, h.len() as int), '>');
    let ts = i + rel + 1;
    if anchor_start(h, i) && rel >= 0 {
        match find(h.subrange(ts, h.len() as int), "</a>"@) {
            Some(end) => Some((i + rel, ts + end)),
            None => None,
        }
    } else {
        None
    }
}

/// The anchor that starts at `i`, as its un-escaped href (empty without
/// one) and its un-escaped text with whitespace runs collapsed, with the
/// position after its `</a>`.
pub open spec fn anchor_parse(h: Seq<char>, i: int) -> Option<((Seq<char>, Seq<char>), int)> {
    match anchor_bounds(h, i) {
        Some((gt, e)) => {
            let href = match attr_value_spec(h.subrange(i, gt), "href"@) {
                Some(v) => v,
                None => Seq::<char>::empty(),
            };
            let text = collapse(h.subrange(gt + 1, e), false, false);
            Some(((html_unescape_spec(href), html_unescape_spec(text)), e + 4))
        },
        None => None,
    }
}

pub proof fn lemma_anchor_bounds(h: Seq<char>, i: int)
    requires
        0 <= i < h.len(),
    ensures
        anchor_bounds(h, i) matches Some((gt, e)) ==> i < gt < e && e + 4 <= h.len(),
{
    reveal(anchor_bounds);
    let t = h.subrange(i, h.len() as int);
    crate::text::lemma_char_pos(t, '>');
    let rel = char_pos(t, '>');
    if anchor_start(h, i) && rel >= 0 {
        let ts = i + rel + 1;
        crate::text::lemma_find(h.subrange(ts, h.len() as int), "</a>"@);
        reveal_strlit("</a>");
    }
}

pub proof fn lemma_anchor_parse_advances(h: Seq<char>, i: int)
    requires
        0 <= i < h.len(),
    ensures
        anchor_parse(h, i) matches Some((_, n)) ==> i < n <= h.len(),
{
    lemma_anchor_bounds(h, i);
}

/// The anchors of `h` from position `i` on.
pub open spec fn scan_from(h: Seq<char>, i: int) -> Seq<(Seq<char>, Seq<char>)>
    decreases h.len() - i,
{
    if i < 0 || i >= h.len() {
        seq![]
    } else {
        match anchor_parse(h, i) {
            Some((a, n)) => {
                proof {
                    lemma_anchor_parse_advances(h, i);
                }
                seq![a] + scan_from(h, n)
            },
            None => scan_from(h, i + 1),
        }
    }
}

pub open spec fn anchor_views(v: Seq<Anchor>) -> Seq<(Seq<char>, Seq<char>)> {
    Seq::new(v.len(), |k: int| (v[k].href@, v[k].text@))
}

fn anchor_bounds_exec(h: &Vec<char>, i: usize) -> (r: Option<(usize, usize)>)
    requires
        i < h@.len(),
    ensures
        match r {
            Some((gt, e)) => anchor_bounds(h@, i as int) == Some((gt as int, e as int)),
            None => anchor_bounds(h@, i as int) is None,
        },
{
    reveal(anchor_bounds);
    if !(h[i] == '<' && h.len() - i > 2 && h[i + 1] == 'a' && (h[i + 2] == ' ' || h[i + 2] == '>')) {
        return None;
    }
    let gt = crate::text::char_index_from(h.as_slice(), '>', i);
    if gt >= h.len() {
        return None;
    }
    let ts = gt + 1;
    let close = chars_of("</a>");
    let found = crate::text::find_from(h.as_slice(), close.as_slice(), ts);
    proof {
        crate::text::lemma_find_tail(h@, close@, ts as int, match found {
            Some(e) => Some(e as int),
            None => None,
        });
    }
    match found {
        Some(e) => Some((gt, e)),
        None => None,
    }
}

fn anchor_at(h: &Vec<char>, i: usize) -> (r: Option<(Vec<char>, Vec<char>, usize)>)
    requires
        i < h@.len(),
    ensures
        match r {
            Some((a, b, n)) => anchor_parse(h@, i as int) == Some(((a@, b@), n as int)),
            None => anchor_parse(h@, i as int) is None,
        },
{
    proof {
        lemma_anchor_bounds(h@, i as int);
    }
    let (gt, e) = match anchor_bounds_exec(h, i) {
        Some(b) => b,
        None => {
            return None;
        },
    };
    let tag = slice_chars(h.as_slice(), i, gt);
    let href = match attr_value_chars(tag.as_slice(), "href") {
        Some(v) => v,
        None => Vec::new(),
    };
    assert(e + 4 <= h.len());
    let raw = slice_chars(h.as_slice(), gt + 1, e);
    let text = collapse_exec(raw.as_slice());
    let hu = html_unescape_chars(href.as_slice());
    let tu = html_unescape_chars(text.as_slice());
    Some((hu, tu, e + 4))
}

/// Extract all `<a ...>...</a>` anchors in document order, with HTML
/// entities in href and text un-escaped.
pub fn scan_anchors(html: &str) -> (r: Vec<Anchor>)
    ensures
        anchor_views(r@) == scan_from(html@, 0),
{
    let h = chars_of(html);
    let mut out: Vec<Anchor> = Vec::new();
    let mut i: usize = 0;
    while i < h.len()
        invariant
            i <= h@.len(),
            h@ == html@,
            anchor_views(out@) + scan_from(h@, i as int) == scan_from(h@, 0),
        decreases h.len() - i,
    {
        proof {
            lemma_anchor_parse_advances(h@, i as int);
        }
        match anchor_at(&h, i) {
            Some((hu, tu, n)) => {
                let ghost before = anchor_views(out@);
                out.push(Anchor { href: string_of(hu.as_slice()), text: string_of(tu.as_slice()) });
                assert(anchor_views(out@) =~= before.push((hu@, tu@)));
                assert(anchor_views(out@) + scan_from(h@, n as int) =~= before + scan_from(h@, i as int));
                i = n;
            },
            None => {
                i = i + 1;
            },
        }
    }
    assert(anchor_views(out@) + scan_from(h@, i as int) =~= anchor_views(out@));
    out
}

} // verus!

verus! {

/// The text `percent_decode` makes of `s`.
pub open spec fn pct_text(s: Seq<char>) -> Seq<char> {
    crate::text::utf8_lossy(crate::util::pct_decode_bytes(vstd::utf8::encode_utf8(s)))
}

/// A character that ends a `uddg=` value.
pub open spec fn uddg_end_fn() -> spec_fn(char) -> bool {
    |c: char| c == '&' || c == '"' || c == '\'' || c == '<' || c == ' ' || c == '\n' || c == '\r'
}

/// The raw `uddg=` values of `s` in order (empty ones skipped), scanning on
/// after each value (or after one character when it is empty); `None` when
/// the scan meets a `uddg=` that ends the text, where the scan would step
/// past the end.
pub open spec fn uddg_scan(s: Seq<char>) -> Option<Seq<Seq<char>>>
    decreases s.len(),
{
    match find(s, "uddg="@) {
        None => Some(seq![]),
        Some(p) => {
            let value = s.subrange(p + 5, s.len() as int);
            let end = first_pos(value, uddg_end_fn());
            let skip = p + 5 + if end > 0 { end } else { 1 };
            if skip > s.len() {
                None
            } else {
                proof {
                    crate::text::lemma_find(s, "uddg="@);
                    reveal_strlit("uddg=");
                }
                match uddg_scan(s.subrange(skip, s.len() as int)) {
                    None => None,
                    Some(rest) => Some(
                        if end > 0 {
                            seq![value.subrange(0, end)] + rest
                        } else {
                            rest
                        },
                    ),
                }
            }
        },
    }
}

pub open spec fn pct_texts(v: Seq<Seq<char>>) -> Seq<Seq<char>> {
    Seq::new(v.len(), |i: int| pct_text(v[i]))
}

proof fn lemma_first_pos_bound(s: Seq<char>, f: spec_fn(char) -> bool)
    ensures
        0 <= first_pos(s, f) <= s.len(),
        first_pos(s, f) < s.len() ==> f(s[first_pos(s, f)]),
        forall|j: int| 0 <= j < first_pos(s, f) ==> !f(#[trigger] s[j]),
    decreases s.len(),
{
    if s.len() > 0 && !f(s[0]) {
        lemma_first_pos_bound(s.drop_first(), f);
        assert forall|j: int| 0 <= j < first_pos(s, f) implies !f(#[trigger] s[j]) by {
            if j > 0 {
                assert(s[j] == s.drop_first()[j - 1]);
            }
        }
    }
}

fn uddg_end_from(s: &[char], from: usize) -> (r: usize)
    requires
        from <= s.len(),
    ensures
        from <= r <= s.len(),
        r - from == first_pos(s@.subrange(from as int, s@.len() as int), uddg_end_fn()),
{
    let ghost f = uddg_end_fn();
    let ghost t = s@.subrange(from as int, s@.len() as int);
    let mut i = from;
    while i < s.len()
        invariant
            from <= i <= s.len(),
            f == uddg_end_fn(),
            t == s@.subrange(from as int, s@.len() as int),
            forall|j: int| 0 <= j < i - from ==> !f(#[trigger] t[j]),
        decreases s.len() - i,
    {
        let c = s[i];
        if c == '&' || c == '"' || c == '\'' || c == '<' || c == ' ' || c == '\n' || c == '\r' {
            proof {
                assert(f(t[i - from]));
                lemma_first_pos(t, f, i - from);
            }
            return i;
        }
        assert(!f(t[i - from]));
        i = i + 1;
    }
    proof {
        lemma_first_pos(t, f, i - from);
    }
    i
}

/// Decode every `uddg=` query value in `s` (DuckDuckGo redirect links
/// carry their real targets there).
pub fn uddg_targets(s: &str) -> (r: Vec<String>)
    requires
        uddg_scan(s@) is Some,
    ensures
        crate::hook::pattern::string_views(r@) == pct_texts(uddg_scan(s@)->0),
{
    let c = chars_of(s);
    let needle = chars_of("uddg=");
    proof {
        reveal_strlit("uddg=");
    }
    let mut out: Vec<String> = Vec::new();
    let mut start: usize = 0;
    assert(c@.subrange(0, c@.len() as int) =~= c@);
    loop
        invariant
            start <= c@.len(),
            c@ == s@,
            needle@ == "uddg="@,
            uddg_scan(c@.subrange(start as int, c@.len() as int)) is Some,
            uddg_scan(s@) matches Some(all) && crate::hook::pattern::string_views(out@) + pct_texts(
                uddg_scan(c@.subrange(start as int, c@.len() as int))->0,
            ) == pct_texts(all),
        decreases c.len() - start,
    {
        let ghost rest = c@.subrange(start as int, c@.len() as int);
        let found = crate::text::find_from(c.as_slice(), needle.as_slice(), start);
        proof {
            crate::text::lemma_find_tail(c@, needle@, start as int, match found {
                Some(p) => Some(p as int),
                None => None,
            });
        }
        let p = match found {
            Some(p) => p,
            None => {
                assert(pct_texts(seq![]) =~= Seq::<Seq<char>>::empty());
                assert(crate::hook::pattern::string_views(out@) + Seq::<Seq<char>>::empty() =~= crate::hook::pattern::string_views(out@));
                return out;
            },
        };
        assert(crate::text::occurs_at(c@, needle@, p as int));
        let vstart = p + 5;
        let end = uddg_end_from(c.as_slice(), vstart);
        let ghost value = rest.subrange(p - start + 5, rest.len() as int);
        assert(value =~= c@.subrange(vstart as int, c@.len() as int));
        let step: usize = if end > vstart { end - vstart } else { 1 };
        if c.len() - vstart < step {
            assert(false);
            return out;
        }
        let ghost next = c@.subrange(vstart + step, c@.len() as int);
        assert(rest.subrange(p - start + 5 + step, rest.len() as int) =~= next);
        if end > vstart {
            let raw = slice_chars(c.as_slice(), vstart, end);
            let text = string_of(raw.as_slice());
            let ghost before = crate::hook::pattern::string_views(out@);
            let decoded = percent_decode(text.as_str());
            out.push(decoded);
            proof {
                assert(raw@ =~= value.subrange(0, end - vstart));
                assert(crate::hook::pattern::string_views(out@) =~= before.push(pct_text(raw@)));
                let tail = uddg_scan(next)->0;
                assert(pct_texts(seq![raw@] + tail) =~= seq![pct_text(raw@)] + pct_texts(tail));
                assert(crate::hook::pattern::string_views(out@) + pct_texts(tail) =~= before + pct_texts(seq![raw@] + tail));
            }
        }
        start = vstart + step;
    }
}

/// Whether the `uddg=` scan of `s` stays inside the text, that is, whether
/// `uddg_targets` may be called on it.
pub fn uddg_scan_ok(s: &str) -> (b: bool)
    ensures
        b == (uddg_scan(s@) is Some),
{
    let c = chars_of(s);
    let needle = chars_of("uddg=");
    proof {
        reveal_strlit("uddg=");
    }
    let mut start: usize = 0;
    assert(c@.subrange(0, c@.len() as int) =~= c@);
    loop
        invariant
            start <= c@.len(),
            c@ == s@,
            needle@ == "uddg="@,
            needle@.len() == 5,
            (uddg_scan(s@) is Some) == (uddg_scan(c@.subrange(start as int, c@.len() as int)) is Some),
        decreases c.len() - start,
    {
        let ghost rest = c@.subrange(start as int, c@.len() as int);
        let found = crate::text::find_from(c.as_slice(), needle.as_slice(), start);
        proof {
            crate::text::lemma_find_tail(c@, needle@, start as int, match found {
                Some(p) => Some(p as int),
                None => None,
            });
        }
        let p = match found {
            Some(p) => p,
            None => {
                return true;
            },
        };
        assert(crate::text::occurs_at(c@, needle@, p as int));
        let vstart = p + 5;
        let end = uddg_end_from(c.as_slice(), vstart);
        let ghost value = rest.subrange(p - start + 5, rest.len() as int);
        assert(value =~= c@.subrange(vstart as int, c@.len() as int));
        let step: usize = if end > vstart { end - vstart } else { 1 };
        if c.len() - vstart < step {
            return false;
        }
        let ghost next = c@.subrange(vstart + step, c@.len() as int);
        assert(rest.subrange(p - start + 5 + step, rest.len() as int) =~= next);
        start = vstart + step;
    }
}

} // verus!

verus! {

/// The magnet URI pattern: the `btih` form with a 32- to 40-character hash
/// and any further `&` parameters.
pub const MAGNET_PATTERN: &'static str = "magnet:\\?xt=urn:btih:[A-Za-z0-9]{32,40}(?:&[^\"'\\s<>]*)*";

/// A magnet hit discovered by the built-in search or by an external hook
/// command.
#[derive(Debug, Clone, Default)]
pub struct SearchHit {
    pub magnet: String,
    pub title: Option<String>,
    pub size: Option<u64>,
    pub seeders: Option<u32>,
    pub leechers: Option<u32>,
}

pub open spec fn opt_view(o: Option<String>) -> Option<Seq<char>> {
    match o {
        Some(s) => Some(s@),
        None => None,
    }
}

/// A hit as its magnet and title.
pub open spec fn hit_view(h: SearchHit) -> (Seq<char>, Option<Seq<char>>) {
    (h.magnet@, opt_view(h.title))
}

pub open spec fn hit_views(v: Seq<SearchHit>) -> Seq<(Seq<char>, Option<Seq<char>>)> {
    Seq::new(v.len(), |i: int| hit_view(v[i]))
}

/// The first magnet match among the texts.
pub open spec fn first_magnet_in(p: Seq<char>, targets: Seq<Seq<char>>) -> Option<Seq<char>>
    decreases targets.len(),
{
    if targets.len() == 0 {
        None
    } else {
        match crate::hook::pattern::regex_first(p, false, targets[0]) {
            Some(m) => Some(m),
            None => first_magnet_in(p, targets.drop_first()),
        }
    }
}

/// The href can be resolved without the `uddg=` scan stepping past the end.
pub open spec fn resolve_ok(p: Seq<char>, href: Seq<char>) -> bool {
    crate::hook::pattern::regex_first(p, false, href) is None && crate::text::contains_at_least_once(
        href,
        "uddg="@,
    ) ==> uddg_scan(href) is Some
}

/// The magnet inside an anchor href, unwrapping `uddg=` redirect values
/// when the href itself holds none.
pub open spec fn resolved_spec(p: Seq<char>, href: Seq<char>) -> Option<Seq<char>> {
    match crate::hook::pattern::regex_first(p, false, href) {
        Some(m) => Some(m),
        None => if crate::text::contains_at_least_once(href, "uddg="@) {
            first_magnet_in(p, pct_texts(uddg_scan(href)->0))
        } else {
            None
        },
    }
}

/// The magnet inside an anchor href, decoding `uddg=` redirect wrappers
/// when present.
pub fn resolved_magnet(re: &crate::hook::pattern::Pattern, href: &str) -> (r: Option<String>)
    requires
        !re.insensitive(),
        resolve_ok(re.pattern(), href@),
    ensures
        opt_view(r) == resolved_spec(re.pattern(), href@),
{
    if let Some(m) = re.first(href) {
        return Some(m);
    }
    let h = chars_of(href);
    let needle = chars_of("uddg=");
    if !crate::text::contains_chars(h.as_slice(), needle.as_slice()) {
        return None;
    }
    let targets = uddg_targets(href);
    let ghost tv = pct_texts(uddg_scan(href@)->0);
    let mut k: usize = 0;
    assert(tv.subrange(0, tv.len() as int) =~= tv);
    while k < targets.len()
        invariant
            k <= targets@.len(),
            !re.insensitive(),
            crate::hook::pattern::regex_first(re.pattern(), false, href@) is None,
            crate::text::contains_at_least_once(href@, "uddg="@),
            tv == pct_texts(uddg_scan(href@)->0),
            crate::hook::pattern::string_views(targets@) == tv,
            first_magnet_in(re.pattern(), tv) == first_magnet_in(
                re.pattern(),
                tv.subrange(k as int, tv.len() as int),
            ),
        decreases targets.len() - k,
    {
        let ghost rest = tv.subrange(k as int, tv.len() as int);
        assert(rest[0] == targets@[k as int]@);
        assert(rest.drop_first() =~= tv.subrange(k + 1, tv.len() as int));
        if let Some(m) = re.first(targets[k].as_str()) {
            return Some(m);
        }
        k = k + 1;
    }
    assert(tv.subrange(k as int, tv.len() as int) =~= Seq::<Seq<char>>::empty());
    None
}

/// The trimmed text as a title, `None` when blank.
pub open spec fn title_of(text: Seq<char>) -> Option<Seq<char>> {
    if crate::text::trim(text).len() == 0 {
        None
    } else {
        Some(crate::text::trim(text))
    }
}

/// The candidate hits of a page's anchors: each anchor whose href resolves
/// to a magnet, titled by its text.
pub open spec fn anchor_candidates(p: Seq<char>, anchors: Seq<(Seq<char>, Seq<char>)>) -> Seq<
    (Seq<char>, Option<Seq<char>>),
>
    decreases anchors.len(),
{
    if anchors.len() == 0 {
        seq![]
    } else {
        let rest = anchor_candidates(p, anchors.drop_last());
        match resolved_spec(p, anchors.last().0) {
            Some(m) => rest.push((m, title_of(anchors.last().1))),
            None => rest,
        }
    }
}

/// Untitled candidates for raw magnet texts.
pub open spec fn raw_candidates(ms: Seq<Seq<char>>) -> Seq<(Seq<char>, Option<Seq<char>>)> {
    Seq::new(ms.len(), |i: int| (ms[i], None::<Seq<char>>))
}

/// The candidates whose magnet key is new, in order, with the keys seen
/// after them.
pub open spec fn dedupe(c: Seq<(Seq<char>, Option<Seq<char>>)>, seen: Seq<Seq<char>>) -> (Seq<
    (Seq<char>, Option<Seq<char>>),
>, Seq<Seq<char>>)
    decreases c.len(),
{
    if c.len() == 0 {
        (seq![], seen)
    } else {
        let (out, s) = dedupe(c.drop_last(), seen);
        let k = magnet_key_spec(c.last().0);
        if s.contains(k) {
            (out, s)
        } else {
            (out.push(c.last()), s.push(k))
        }
    }
}

/// The magnet keys of candidates, in order.
pub open spec fn cand_keys(c: Seq<(Seq<char>, Option<Seq<char>>)>) -> Seq<Seq<char>> {
    Seq::new(c.len(), |i: int| magnet_key_spec(c[i].0))
}

/// Deduplication by magnet key keeps at most one hit per key and none whose
/// key was already seen, and records exactly the kept keys: hashes that
/// differ only in letter case or trailing parameters collapse into one hit.
pub proof fn law_dedupe_keys(c: Seq<(Seq<char>, Option<Seq<char>>)>, seen: Seq<Seq<char>>)
    ensures
        ({
            let (out, s) = dedupe(c, seen);
            &&& s == seen + cand_keys(out)
            &&& forall|i: int, j: int| 0 <= i < j < out.len() ==> #[trigger] cand_keys(out)[i] != #[trigger] cand_keys(out)[j]
            &&& forall|i: int| 0 <= i < out.len() ==> !seen.contains(#[trigger] cand_keys(out)[i])
        }),
    decreases c.len(),
{
    if c.len() > 0 {
        law_dedupe_keys(c.drop_last(), seen);
        let (out0, s0) = dedupe(c.drop_last(), seen);
        let k = magnet_key_spec(c.last().0);
        if !s0.contains(k) {
            let out = out0.push(c.last());
            assert(cand_keys(out) =~= cand_keys(out0).push(k));
            assert(s0.push(k) =~= seen + cand_keys(out));
            assert forall|i: int| 0 <= i < out0.len() implies #[trigger] cand_keys(out0)[i] != k by {
                assert(s0[seen.len() + i] == cand_keys(out0)[i]);
            }
            assert forall|i: int| 0 <= i < seen.len() implies seen[i] != k by {
                assert(s0[i] == seen[i]);
            }
            assert forall|i: int, j: int| 0 <= i < j < out.len() implies #[trigger] cand_keys(out)[i] != #[trigger] cand_keys(out)[j] by {
                if j == out0.len() {
                    assert(cand_keys(out)[i] == cand_keys(out0)[i]);
                } else {
                    assert(cand_keys(out)[i] == cand_keys(out0)[i] && cand_keys(out)[j] == cand_keys(out0)[j]);
                }
            }
            assert forall|i: int| 0 <= i < out.len() implies !seen.contains(#[trigger] cand_keys(out)[i]) by {
                if i < out0.len() {
                    assert(cand_keys(out)[i] == cand_keys(out0)[i]);
                }
            }
        }
    }
}

/// Every anchor of the page can be resolved.
pub open spec fn page_ok(p: Seq<char>, html: Seq<char>) -> bool {
    forall|i: int| 0 <= i < scan_from(html, 0).len() ==> resolve_ok(p, #[trigger] scan_from(html, 0)[i].0)
}

/// The hits a page contributes: its anchors' magnets, then every raw magnet
/// text in it.
pub open spec fn page_candidates(p: Seq<char>, html: Seq<char>) -> Seq<(Seq<char>, Option<Seq<char>>)> {
    anchor_candidates(p, scan_from(html, 0)) + raw_candidates(crate::hook::pattern::regex_all(p, false, html))
}

pub fn contains_string(v: &Vec<String>, s: &String) -> (b: bool)
    ensures
        b == crate::hook::pattern::string_views(v@).contains(s@),
{
    let mut i: usize = 0;
    while i < v.len()
        invariant
            i <= v@.len(),
            forall|j: int| 0 <= j < i ==> v@[j]@ != s@,
        decreases v.len() - i,
    {
        if v[i] == *s {
            assert(crate::hook::pattern::string_views(v@)[i as int] == s@);
            return true;
        }
        i = i + 1;
    }
    proof {
        if crate::hook::pattern::string_views(v@).contains(s@) {
            let j = choose|j: int| 0 <= j < v@.len() && crate::hook::pattern::string_views(v@)[j] == s@;
            assert(v@[j]@ == s@);
        }
    }
    false
}

/// Adds the candidates whose magnet key is new.
fn add_new(
    cands: &Vec<(String, Option<String>)>,
    seen: &mut Vec<String>,
    out: &mut Vec<SearchHit>,
)
    ensures
        ({
            let c = Seq::new(cands@.len(), |i: int| (cands@[i].0@, opt_view(cands@[i].1)));
            let (o, s) = dedupe(c, crate::hook::pattern::string_views(old(seen)@));
            hit_views(final(out)@) == hit_views(old(out)@) + o && crate::hook::pattern::string_views(
                final(seen)@,
            ) == s
        }),
        forall|i: int| old(out)@.len() <= i < final(out)@.len() ==> (#[trigger] final(out)@[i]).size is None
            && final(out)@[i].seeders is None && final(out)@[i].leechers is None,
        forall|i: int| 0 <= i < old(out)@.len() ==> #[trigger] final(out)@[i] == old(out)@[i],
{
    let ghost c = Seq::new(cands@.len(), |i: int| (cands@[i].0@, opt_view(cands@[i].1)));
    let ghost out0 = out@;
    let ghost seen0 = crate::hook::pattern::string_views(seen@);
    let mut i: usize = 0;
    while i < cands.len()
        invariant
            i <= cands@.len(),
            c == Seq::new(cands@.len(), |i: int| (cands@[i].0@, opt_view(cands@[i].1))),
            out0 == old(out)@,
            seen0 == crate::hook::pattern::string_views(old(seen)@),
            ({
                let (o, s) = dedupe(c.take(i as int), seen0);
                hit_views(out@) == hit_views(out0) + o && crate::hook::pattern::string_views(seen@) == s
            }),
            out0.len() <= out@.len(),
            forall|j: int| out0.len() <= j < out@.len() ==> (#[trigger] out@[j]).size is None
                && out@[j].seeders is None && out@[j].leechers is None,
            forall|j: int| 0 <= j < out0.len() ==> #[trigger] out@[j] == out0[j],
        decreases cands.len() - i,
    {
        assert(c.take(i + 1).drop_last() =~= c.take(i as int));
        assert(c.take(i + 1).last() == c[i as int]);
        let key = magnet_key(cands[i].0.as_str());
        if !contains_string(seen, &key) {
            let ghost hv0 = hit_views(out@);
            let ghost sv0 = crate::hook::pattern::string_views(seen@);
            seen.push(key);
            let title = match &cands[i].1 {
                Some(t) => Some(t.clone()),
                None => None,
            };
            out.push(SearchHit { magnet: cands[i].0.clone(), title, size: None, seeders: None, leechers: None });
            assert(hit_views(out@) =~= hv0.push(c[i as int]));
            assert(crate::hook::pattern::string_views(seen@) =~= sv0.push(magnet_key_spec(c[i as int].0)));
        }
        i = i + 1;
    }
    assert(c.take(cands@.len() as int) =~= c);
}

} // verus!

verus! {

pub open spec fn cand_views(v: Seq<(String, Option<String>)>) -> Seq<(Seq<char>, Option<Seq<char>>)> {
    Seq::new(v.len(), |i: int| (v[i].0@, opt_view(v[i].1)))
}

fn page_cands(re: &crate::hook::pattern::Pattern, html: &str) -> (r: Vec<(String, Option<String>)>)
    requires
        !re.insensitive(),
        page_ok(re.pattern(), html@),
    ensures
        cand_views(r@) == page_candidates(re.pattern(), html@),
{
    let anchors = scan_anchors(html);
    let ghost av = scan_from(html@, 0);
    let mut r: Vec<(String, Option<String>)> = Vec::new();
    let mut i: usize = 0;
    while i < anchors.len()
        invariant
            i <= anchors@.len(),
            anchor_views(anchors@) == av,
            av == scan_from(html@, 0),
            !re.insensitive(),
            page_ok(re.pattern(), html@),
            cand_views(r@) == anchor_candidates(re.pattern(), av.take(i as int)),
        decreases anchors.len() - i,
    {
        assert(av.take(i + 1).drop_last() =~= av.take(i as int));
        assert(av[i as int].0 == anchors@[i as int].href@);
        assert(resolve_ok(re.pattern(), av[i as int].0));
        let ghost before = cand_views(r@);
        match resolved_magnet(re, anchors[i].href.as_str()) {
            Some(m) => {
                let tc = chars_of(anchors[i].text.as_str());
                let t = crate::text::trim_chars(tc.as_slice());
                let title = if t.len() == 0 { None } else { Some(string_of(t.as_slice())) };
                r.push((m, title));
                assert(cand_views(r@) =~= before.push((m@, title_of(anchors@[i as int].text@))));
            },
            None => {},
        }
        i = i + 1;
    }
    assert(av.take(av.len() as int) =~= av);
    let raw = re.all(html);
    let ghost rv = crate::hook::pattern::regex_all(re.pattern(), false, html@);
    let ghost base = cand_views(r@);
    let mut k: usize = 0;
    while k < raw.len()
        invariant
            k <= raw@.len(),
            crate::hook::pattern::string_views(raw@) == rv,
            cand_views(r@) == base + raw_candidates(rv.take(k as int)),
        decreases raw.len() - k,
    {
        let ghost before = cand_views(r@);
        r.push((raw[k].clone(), None));
        assert(raw_candidates(rv.take(k + 1)) =~= raw_candidates(rv.take(k as int)).push((rv[k as int], None::<Seq<char>>)));
        assert(cand_views(r@) =~= before.push((rv[k as int], None::<Seq<char>>)));
        k = k + 1;
    }
    assert(rv.take(rv.len() as int) =~= rv);
    r
}

/// Collect magnet hits from a page: direct magnet anchors (titled by their
/// text), `uddg=`-wrapped redirect targets, and bare magnet texts, each
/// kept only when its magnet key is not yet in `seen`.
pub fn note_hits(html: &str, seen: &mut Vec<String>, out: &mut Vec<SearchHit>)
    requires
        page_ok(MAGNET_PATTERN@, html@),
    ensures
        crate::hook::pattern::regex_compiles(MAGNET_PATTERN@, false) ==> ({
            let (o, s) = dedupe(
                page_candidates(MAGNET_PATTERN@, html@),
                crate::hook::pattern::string_views(old(seen)@),
            );
            hit_views(final(out)@) == hit_views(old(out)@) + o && crate::hook::pattern::string_views(
                final(seen)@,
            ) == s
        }),
        !crate::hook::pattern::regex_compiles(MAGNET_PATTERN@, false) ==> final(out)@ == old(out)@
            && final(seen)@ == old(seen)@,
        forall|i: int| 0 <= i < old(out)@.len() ==> #[trigger] final(out)@[i] == old(out)@[i],
{
    let re = match crate::hook::pattern::Pattern::compile(MAGNET_PATTERN) {
        Ok(re) => re,
        Err(_) => {
            return;
        },
    };
    let cands = page_cands(&re, html);
    add_new(&cands, seen, out);
}

/// Notes the hits of one result page as `note_hits` does, when the magnet
/// pattern compiles and every anchor of the page can be resolved; returns
/// whether it did, and changes nothing when it did not.
pub fn note_page_hits(html: &str, seen: &mut Vec<String>, out: &mut Vec<SearchHit>) -> (noted: bool)
    ensures
        noted == (crate::hook::pattern::regex_compiles(MAGNET_PATTERN@, false) && page_ok(
            MAGNET_PATTERN@,
            html@,
        )),
        noted ==> ({
            let (o, s) = dedupe(
                page_candidates(MAGNET_PATTERN@, html@),
                crate::hook::pattern::string_views(old(seen)@),
            );
            hit_views(final(out)@) == hit_views(old(out)@) + o && crate::hook::pattern::string_views(
                final(seen)@,
            ) == s
        }),
        !noted ==> final(out)@ == old(out)@ && final(seen)@ == old(seen)@,
{
    let re = match crate::hook::pattern::Pattern::compile(MAGNET_PATTERN) {
        Ok(re) => re,
        Err(_) => {
            return false;
        },
    };
    let anchors = scan_anchors(html);
    let ghost av = scan_from(html@, 0);
    let needle = chars_of("uddg=");
    let mut i: usize = 0;
    while i < anchors.len()
        invariant
            i <= anchors@.len(),
            anchor_views(anchors@) == av,
            av == scan_from(html@, 0),
            needle@ == "uddg="@,
            re.pattern() == MAGNET_PATTERN@,
            !re.insensitive(),
            forall|j: int| 0 <= j < i ==> resolve_ok(MAGNET_PATTERN@, #[trigger] av[j].0),
        decreases anchors.len() - i,
    {
        let href = anchors[i].href.as_str();
        assert(av[i as int].0 == href@);
        if re.first(href).is_none() {
            let h = chars_of(href);
            if crate::text::contains_chars(h.as_slice(), needle.as_slice()) && !uddg_scan_ok(href) {
                assert(!resolve_ok(MAGNET_PATTERN@, av[i as int].0));
                return false;
            }
        }
        i = i + 1;
    }
    note_hits(html, seen, out);
    true
}

} // verus!

verus! {

/// The group texts that start with `magnet:`, first occurrences only.
pub open spec fn distinct_magnets(v: Seq<Seq<char>>) -> Seq<Seq<char>>
    decreases v.len(),
{
    if v.len() == 0 {
        seq![]
    } else {
        let rest = distinct_magnets(v.drop_last());
        if crate::text::starts_with(v.last(), "magnet:"@) && !rest.contains(v.last()) {
            rest.push(v.last())
        } else {
            rest
        }
    }
}

/// Apply a user-supplied regex, taking capture group 1 or the whole match
/// as the magnet URI; an invalid regex is a `Backend` error.
pub fn extract_regex(html: &str, pattern: &str) -> (r: Result<Vec<String>, crate::common::Error>)
    ensures
        match r {
            Ok(v) => crate::hook::pattern::regex_compiles(pattern@, false)
                && crate::hook::pattern::string_views(v@) == distinct_magnets(
                crate::hook::pattern::regex_groups(pattern@, false, html@),
            ),
            Err(e) => !crate::hook::pattern::regex_compiles(pattern@, false) && (e matches crate::common::Error::Backend(m)
                && crate::text::starts_with(m@, "hook_search.sites has an invalid regex: "@)),
        },
{
    let re = match crate::hook::pattern::Pattern::compile(pattern) {
        Ok(re) => re,
        Err(msg) => {
            let mut t = chars_of("hook_search.sites has an invalid regex: ");
            let ghost head = t@;
            let mc = chars_of(msg.as_str());
            crate::text::push_all(&mut t, mc.as_slice());
            assert(t@.subrange(0, head.len() as int) =~= head);
            return Err(crate::common::Error::Backend(string_of(t.as_slice())));
        },
    };
    let groups = re.groups(html);
    let ghost g = crate::hook::pattern::regex_groups(pattern@, false, html@);
    let prefix = chars_of("magnet:");
    let mut out: Vec<String> = Vec::new();
    let mut i: usize = 0;
    while i < groups.len()
        invariant
            i <= groups@.len(),
            crate::hook::pattern::string_views(groups@) == g,
            prefix@ == "magnet:"@,
            crate::hook::pattern::string_views(out@) == distinct_magnets(g.take(i as int)),
        decreases groups.len() - i,
    {
        assert(g.take(i + 1).drop_last() =~= g.take(i as int));
        assert(g[i as int] == groups@[i as int]@);
        let gc = chars_of(groups[i].as_str());
        if crate::text::starts_with_chars(gc.as_slice(), prefix.as_slice()) && !contains_string(&out, &groups[i]) {
            let ghost before = crate::hook::pattern::string_views(out@);
            out.push(groups[i].clone());
            assert(crate::hook::pattern::string_views(out@) =~= before.push(g[i as int]));
        }
        i = i + 1;
    }
    assert(g.take(g.len() as int) =~= g);
    Ok(out)
}

} // verus!

verus! {

/// An href that is no detail page: empty, a magnet, script, in-page
/// fragment or mail link.
pub open spec fn skipped_href(h: Seq<char>) -> bool {
    ||| h.len() == 0
    ||| crate::text::starts_with(h, "magnet:"@)
    ||| crate::text::starts_with(h, "javascript:"@)
    ||| crate::text::starts_with(h, "#"@)
    ||| crate::text::starts_with(h, "mailto:"@)
}

/// The same-origin detail links among the anchors, resolved against
/// `base`, with the anchor text; links leaving the origin, and the base
/// itself, are dropped.
pub open spec fn detail_all(
    base: Seq<char>,
    origin: (Seq<char>, Option<Seq<char>>, Option<u16>),
    anchors: Seq<(Seq<char>, Seq<char>)>,
) -> Seq<(Seq<char>, Seq<char>)>
    decreases anchors.len(),
{
    if anchors.len() == 0 {
        seq![]
    } else {
        let rest = detail_all(base, origin, anchors.drop_last());
        let h = crate::text::trim(anchors.last().0);
        if skipped_href(h) {
            rest
        } else {
            match crate::hook::urls::joined_url(base, h) {
                None => rest,
                Some(u) => if (u.1, u.2, u.3) != origin || u.0 == base {
                    rest
                } else {
                    rest.push((u.0, anchors.last().1))
                },
            }
        }
    }
}

/// The first `max_pages` same-origin detail links of a result page; none
/// when `base` does not parse.
pub open spec fn detail_candidates_spec(html: Seq<char>, base: Seq<char>, max_pages: nat) -> Seq<
    (Seq<char>, Seq<char>),
> {
    match crate::hook::urls::parsed_url(base) {
        None => seq![],
        Some(b) => {
            let all = detail_all(base, (b.1, b.2, b.3), scan_from(html, 0));
            all.take(if max_pages < all.len() { max_pages as int } else { all.len() as int })
        },
    }
}

pub open spec fn pair_views(v: Seq<(String, String)>) -> Seq<(Seq<char>, Seq<char>)> {
    Seq::new(v.len(), |i: int| (v[i].0@, v[i].1@))
}

fn skipped_href_exec(h: &[char]) -> (b: bool)
    ensures
        b == skipped_href(h@),
{
    let m = chars_of("magnet:");
    let j = chars_of("javascript:");
    let x = chars_of("#");
    let t = chars_of("mailto:");
    h.len() == 0 || crate::text::starts_with_chars(h, m.as_slice()) || crate::text::starts_with_chars(
        h,
        j.as_slice(),
    ) || crate::text::starts_with_chars(h, x.as_slice()) || crate::text::starts_with_chars(h, t.as_slice())
}

/// Candidate detail-page links from a result page: same-origin absolute or
/// relative hrefs that are not magnets and not anchors, at most
/// `max_pages` of them.
pub fn detail_candidates(html: &str, base: &str, max_pages: usize) -> (r: Vec<(String, String)>)
    ensures
        pair_views(r@) == detail_candidates_spec(html@, base@, max_pages as nat),
{
    let b = match crate::hook::urls::parse_url(base) {
        Ok(b) => b,
        Err(_) => {
            return Vec::new();
        },
    };
    let ghost origin = (b.scheme@, crate::hook::urls::opt_text(b.host), b.port);
    let anchors = scan_anchors(html);
    let ghost av = scan_from(html@, 0);
    let bc = chars_of(base);
    let mut out: Vec<(String, String)> = Vec::new();
    let mut i: usize = 0;
    while i < anchors.len()
        invariant
            i <= anchors@.len(),
            anchor_views(anchors@) == av,
            bc@ == base@,
            origin == (b.scheme@, crate::hook::urls::opt_text(b.host), b.port),
            ({
                let all = detail_all(base@, origin, av.take(i as int));
                pair_views(out@) == all.take(
                    if max_pages < all.len() { max_pages as int } else { all.len() as int },
                )
            }),
        decreases anchors.len() - i,
    {
        assert(av.take(i + 1).drop_last() =~= av.take(i as int));
        let ghost all0 = detail_all(base@, origin, av.take(i as int));
        let hc = chars_of(anchors[i].href.as_str());
        let h = crate::text::trim_chars(hc.as_slice());
        if !skipped_href_exec(h.as_slice()) {
            let hs = string_of(h.as_slice());
            match crate::hook::urls::join_url(base, hs.as_str()) {
                Some(u) => {
                    let same_host = match (&u.host, &b.host) {
                        (Some(x), Some(y)) => *x == *y,
                        (None, None) => true,
                        _ => false,
                    };
                    let uc = chars_of(u.text.as_str());
                    if u.scheme == b.scheme && same_host && u.port == b.port && !crate::text::chars_eq(
                        uc.as_slice(),
                        bc.as_slice(),
                    ) {
                        let ghost all1 = all0.push((u.text@, av[i as int].1));
                        if out.len() < max_pages {
                            let ghost before = pair_views(out@);
                            out.push((u.text.clone(), anchors[i].text.clone()));
                            assert(pair_views(out@) =~= before.push((u.text@, anchors@[i as int].text@)));
                            assert(pair_views(out@) =~= all1.take(
                                if max_pages < all1.len() { max_pages as int } else { all1.len() as int },
                            ));
                        } else {
                            assert(pair_views(out@).len() == out@.len());
                            assert(all0.len() >= max_pages);
                            assert(all0.take(max_pages as int) =~= all1.take(max_pages as int));
                        }
                    }
                },
                None => {},
            }
        }
        i = i + 1;
    }
    assert(av.take(av.len() as int) =~= av);
    out
}

} // verus!

verus! {

pub open spec fn entry_error(domain: Seq<char>, what: Seq<char>) -> Seq<char> {
    "hook_search.sites entry '"@ + domain + "' "@ + what
}

fn entry_error_exec(domain: &String, what: &str) -> (r: String)
    ensures
        r@ == entry_error(domain@, what@),
{
    let mut t = chars_of("hook_search.sites entry '");
    let d = chars_of(domain.as_str());
    crate::text::push_all(&mut t, d.as_slice());
    let q = chars_of("' ");
    crate::text::push_all(&mut t, q.as_slice());
    let w = chars_of(what);
    crate::text::push_all(&mut t, w.as_slice());
    string_of(t.as_slice())
}

/// The page URL a site template searches for `query`: the trimmed template
/// with `{query}` replaced by the percent-encoded query, parsed as a URL.
/// A blank template, one without `{query}`, and one that does not parse
/// are `Backend` errors naming the site.
pub open spec fn site_url_spec(site: crate::common::HookSearchSite, query: Seq<char>) -> Result<
    Seq<char>,
    Seq<char>,
> {
    let template = crate::text::trim(site.search@);
    if template.len() == 0 {
        Err(entry_error(site.domain@, "has an empty search URL"@))
    } else if !crate::text::contains_at_least_once(template, "{query}"@) {
        Err(entry_error(site.domain@, "search URL must contain a {query} token"@))
    } else {
        let filled = replace(
            template,
            "{query}"@,
            crate::util::pct_encode_bytes(vstd::utf8::encode_utf8(query)),
        );
        match crate::hook::urls::parsed_url(filled) {
            Some(u) => Ok(u.0),
            None => Err(entry_error(site.domain@, "has an invalid search URL: "@)),
        }
    }
}

/// Builds the search URL of one user-configured site template.
pub fn site_search_url(site: &crate::common::HookSearchSite, query: &str) -> (r: Result<
    String,
    crate::common::Error,
>)
    ensures
        match r {
            Ok(u) => site_url_spec(*site, query@) == Ok::<Seq<char>, Seq<char>>(u@),
            Err(e) => site_url_spec(*site, query@) matches Err(m) && (e matches crate::common::Error::Backend(t)
                && crate::text::starts_with(t@, m)),
        },
{
    let sc = chars_of(site.search.as_str());
    let template = crate::text::trim_chars(sc.as_slice());
    if template.len() == 0 {
        let m = entry_error_exec(&site.domain, "has an empty search URL");
        assert(m@.subrange(0, m@.len() as int) =~= m@);
        return Err(crate::common::Error::Backend(m));
    }
    let token = chars_of("{query}");
    if !crate::text::contains_chars(template.as_slice(), token.as_slice()) {
        let m = entry_error_exec(&site.domain, "search URL must contain a {query} token");
        assert(m@.subrange(0, m@.len() as int) =~= m@);
        return Err(crate::common::Error::Backend(m));
    }
    let encoded = percent_encode(query);
    let ec = chars_of(encoded.as_str());
    let filled = crate::text::replace_chars(template.as_slice(), token.as_slice(), ec.as_slice());
    let fs = string_of(filled.as_slice());
    match crate::hook::urls::parse_url(fs.as_str()) {
        Ok(u) => Ok(u.text),
        Err(msg) => {
            let head = entry_error_exec(&site.domain, "has an invalid search URL: ");
            let mut t = chars_of(head.as_str());
            let mc = chars_of(msg.as_str());
            crate::text::push_all(&mut t, mc.as_slice());
            assert(t@.subrange(0, head@.len() as int) =~= head@);
            Err(crate::common::Error::Backend(string_of(t.as_slice())))
        },
    }
}

/// How many detail pages a site follows: its setting (5 when unset),
/// clamped to `1..=10`.
pub fn detail_page_limit(site: &crate::common::HookSearchSite) -> (n: usize)
    ensures
        n == ({
            let m = match site.max_pages {
                Some(m) => m,
                None => 5,
            };
            if m < 1 {
                1
            } else if m > 10 {
                10
            } else {
                m
            }
        }),
{
    let m = match site.max_pages {
        Some(m) => m,
        None => 5,
    };
    if m < 1 {
        1
    } else if m > 10 {
        10
    } else {
        m
    }
}

/// The engine query for `query`: `site:` scopes for each domain, the
/// query, and the literal magnet prefix.
pub open spec fn keywords_spec(query: Seq<char>, domains: Seq<Seq<char>>) -> Seq<char> {
    if domains.len() == 0 {
        query + " magnet:?xt=urn:btih:"@
    } else {
        site_scope(domains) + " "@ + query + " magnet:?xt=urn:btih:"@
    }
}

/// `site:<d>` for each domain, joined by spaces.
pub open spec fn site_scope(domains: Seq<Seq<char>>) -> Seq<char>
    decreases domains.len(),
{
    if domains.len() == 0 {
        seq![]
    } else if domains.len() == 1 {
        "site:"@ + domains[0]
    } else {
        site_scope(domains.drop_last()) + " "@ + "site:"@ + domains.last()
    }
}

/// The engine query text for a search.
pub fn generic_keywords(query: &str, domains: &Vec<String>) -> (r: String)
    ensures
        r@ == keywords_spec(query@, crate::hook::pattern::string_views(domains@)),
{
    let ghost dv = crate::hook::pattern::string_views(domains@);
    let mut t: Vec<char> = Vec::new();
    let mut i: usize = 0;
    while i < domains.len()
        invariant
            i <= domains@.len(),
            dv == crate::hook::pattern::string_views(domains@),
            t@ == site_scope(dv.take(i as int)),
        decreases domains.len() - i,
    {
        assert(dv.take(i + 1).drop_last() =~= dv.take(i as int));
        let d = chars_of(domains[i].as_str());
        if i > 0 {
            t.push(' ');
        }
        let s = chars_of("site:");
        let ghost t0 = t@;
        crate::text::push_all(&mut t, s.as_slice());
        crate::text::push_all(&mut t, d.as_slice());
        proof {
            if i == 0 {
                assert(t@ =~= "site:"@ + dv[0]);
            } else {
                assert(t@ =~= t0.drop_last() + " "@ + "site:"@ + dv[i as int]) by {
                    reveal_strlit(" ");
                }
            }
        }
        i = i + 1;
    }
    assert(dv.take(dv.len() as int) =~= dv);
    if domains.len() > 0 {
        t.push(' ');
    }
    let q = chars_of(query);
    crate::text::push_all(&mut t, q.as_slice());
    let tail = chars_of(" magnet:?xt=urn:btih:");
    crate::text::push_all(&mut t, tail.as_slice());
    proof {
        reveal_strlit(" ");
        if domains.len() == 0 {
            assert(t@ =~= query@ + " magnet:?xt=urn:btih:"@);
        } else {
            assert(t@ =~= site_scope(dv) + " "@ + query@ + " magnet:?xt=urn:btih:"@);
        }
    }
    string_of(t.as_slice())
}

/// The search engines queried in order: DuckDuckGo HTML, DuckDuckGo lite,
/// Bing.
pub open spec fn engines() -> Seq<Seq<char>> {
    seq![
        "https://html.duckduckgo.com/html/"@,
        "https://lite.duckduckgo.com/lite/"@,
        "https://www.bing.com/search"@,
    ]
}

/// The engine search URLs for a query text, in engine order, leaving out
/// any engine whose URL cannot be built.
pub open spec fn engine_urls_spec(keywords: Seq<char>) -> Seq<Seq<char>> {
    let u = |e: Seq<char>| crate::hook::urls::url_with_param(e, "q"@, keywords);
    let s0: Seq<Seq<char>> = seq![];
    let s1 = match u(engines()[0]) { Some(x) => s0.push(x), None => s0 };
    let s2 = match u(engines()[1]) { Some(x) => s1.push(x), None => s1 };
    match u(engines()[2]) { Some(x) => s2.push(x), None => s2 }
}

/// The URLs to fetch for a built-in search, one per engine.
pub fn engine_urls(keywords: &str) -> (r: Vec<String>)
    ensures
        crate::hook::pattern::string_views(r@) == engine_urls_spec(keywords@),
{
    let mut r: Vec<String> = Vec::new();
    let ghost s0 = crate::hook::pattern::string_views(r@);
    if let Some(u) = crate::hook::urls::with_param("https://html.duckduckgo.com/html/", "q", keywords) {
        r.push(u);
    }
    let ghost s1 = crate::hook::pattern::string_views(r@);
    if let Some(u) = crate::hook::urls::with_param("https://lite.duckduckgo.com/lite/", "q", keywords) {
        r.push(u);
    }
    if let Some(u) = crate::hook::urls::with_param("https://www.bing.com/search", "q", keywords) {
        r.push(u);
    }
    assert(crate::hook::pattern::string_views(r@) =~= engine_urls_spec(keywords@));
    r
}

} // verus!

verus! {

/// The hits a detail page adds: its first magnet, titled by the link text.
pub fn detail_hit(page: &str, text: &str, seen: &mut Vec<String>, out: &mut Vec<SearchHit>)
    ensures
        crate::hook::pattern::regex_compiles(MAGNET_PATTERN@, false) ==> ({
            let c = match crate::hook::pattern::regex_first(MAGNET_PATTERN@, false, page@) {
                Some(m) => seq![(m, title_of(text@))],
                None => seq![],
            };
            let (o, s) = dedupe(c, crate::hook::pattern::string_views(old(seen)@));
            hit_views(final(out)@) == hit_views(old(out)@) + o && crate::hook::pattern::string_views(
                final(seen)@,
            ) == s
        }),
        !crate::hook::pattern::regex_compiles(MAGNET_PATTERN@, false) ==> final(out)@ == old(out)@
            && final(seen)@ == old(seen)@,
        forall|i: int| 0 <= i < old(out)@.len() ==> #[trigger] final(out)@[i] == old(out)@[i],
{
    let re = match crate::hook::pattern::Pattern::compile(MAGNET_PATTERN) {
        Ok(re) => re,
        Err(_) => {
            return;
        },
    };
    let mut cands: Vec<(String, Option<String>)> = Vec::new();
    if let Some(m) = re.first(page) {
        let tc = chars_of(text);
        let t = crate::text::trim_chars(tc.as_slice());
        let title = if t.len() == 0 { None } else { Some(string_of(t.as_slice())) };
        cands.push((m, title));
    }
    assert(cand_views(cands@) =~= match crate::hook::pattern::regex_first(MAGNET_PATTERN@, false, page@) {
        Some(m) => seq![(m, title_of(text@))],
        None => seq![],
    });
    add_new(&cands, seen, out);
}

/// The hits a site adds with regex extraction: every magnet the site's
/// pattern extracts from the page whose key is new, untitled. A site with
/// no pattern, or an invalid one, is a `Backend` error.
pub fn regex_site_hits(
    page: &str,
    site: &crate::common::HookSearchSite,
    seen: &mut Vec<String>,
    out: &mut Vec<SearchHit>,
) -> (r: Result<(), crate::common::Error>)
    ensures
        match site.pattern {
            None => r matches Err(crate::common::Error::Backend(m)) && m@ == entry_error(
                site.domain@,
                "uses extract = \"regex\" but has no pattern"@,
            ) && final(out)@ == old(out)@ && final(seen)@ == old(seen)@,
            Some(p) => if crate::hook::pattern::regex_compiles(p@, false) {
                r is Ok && {
                    let c = raw_candidates(
                        distinct_magnets(crate::hook::pattern::regex_groups(p@, false, page@)),
                    );
                    let (o, s) = dedupe(c, crate::hook::pattern::string_views(old(seen)@));
                    hit_views(final(out)@) == hit_views(old(out)@) + o
                        && crate::hook::pattern::string_views(final(seen)@) == s
                }
            } else {
                r matches Err(crate::common::Error::Backend(_)) && final(out)@ == old(out)@
                    && final(seen)@ == old(seen)@
            },
        },
{
    let pattern = match &site.pattern {
        Some(p) => p,
        None => {
            return Err(
                crate::common::Error::Backend(
                    entry_error_exec(&site.domain, "uses extract = \"regex\" but has no pattern"),
                ),
            );
        },
    };
    let magnets = match extract_regex(page, pattern.as_str()) {
        Ok(v) => v,
        Err(e) => {
            return Err(e);
        },
    };
    let ghost mv = crate::hook::pattern::string_views(magnets@);
    let mut cands: Vec<(String, Option<String>)> = Vec::new();
    let mut i: usize = 0;
    while i < magnets.len()
        invariant
            i <= magnets@.len(),
            mv == crate::hook::pattern::string_views(magnets@),
            cand_views(cands@) == raw_candidates(mv.take(i as int)),
        decreases magnets.len() - i,
    {
        let ghost before = cand_views(cands@);
        cands.push((magnets[i].clone(), None));
        assert(raw_candidates(mv.take(i + 1)) =~= raw_candidates(mv.take(i as int)).push((mv[i as int], None::<Seq<char>>)));
        assert(cand_views(cands@) =~= before.push((mv[i as int], None::<Seq<char>>)));
        i = i + 1;
    }
    assert(mv.take(mv.len() as int) =~= mv);
    add_new(&cands, seen, out);
    Ok(())
}

} // verus!
