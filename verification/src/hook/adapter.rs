//! The hook search backend's logic: building the external command, parsing
//! its output, and normalizing hits into search results.

use vstd::prelude::*;
use crate::hook::builtin::{
    SearchHit, first_pos, is_amp_fn, is_ws_fn, lemma_first_pos, opt_view, pct_text, percent_decode,
};
use crate::hook::pattern::string_views;
use crate::ids::{ResultId, uuid_v5_url, uuid_v5_url_bits};
use crate::text::{chars_of, find, replace, slice_chars, string_of, trim, str_lowercase};
use vstd::string::StringExecFns;
use vstd::string::StringSliceAdditionalSpecFns;

verus! {

/// The info hash text after `btih:`, when the magnet has one.
pub open spec fn btih_tail(m: Seq<char>) -> Option<Seq<char>> {
    match find(m, "btih:"@) {
        Some(q) => Some(m.subrange(q + 5, m.len() as int)),
        None => None,
    }
}

/// The `dn=` value up to the next `&`, when the magnet has one.
pub open spec fn dn_value(m: Seq<char>) -> Option<Seq<char>> {
    match find(m, "dn="@) {
        Some(p) => {
            let rest = m.subrange(p + 3, m.len() as int);
            Some(rest.subrange(0, first_pos(rest, is_amp_fn())))
        },
        None => None,
    }
}

/// The number of bytes of the hash shown: at most eight (its byte length
/// read as `str::len` gives it).
pub open spec fn shown_bytes(h: Seq<char>) -> int {
    let t = (vstd::utf8::encode_utf8(h).len() as usize) as int;
    if t < 8 { t } else { 8 }
}

/// The shown bytes of the hash end on a character boundary (slicing
/// elsewhere panics).
pub open spec fn display_ok(m: Seq<char>) -> bool {
    (dn_value(m) matches Some(n) && n.len() > 0) || match btih_tail(m) {
        Some(h) => vstd::utf8::is_char_boundary(vstd::utf8::encode_utf8(h), shown_bytes(h)),
        None => true,
    }
}

/// A human-readable fallback name for a magnet: its decoded `dn=`
/// parameter, else `magnet (` and the first eight bytes of its info hash
/// and `)`, else `magnet`.
pub open spec fn display_name_spec(m: Seq<char>) -> Seq<char> {
    match dn_value(m) {
        Some(n) if n.len() > 0 => pct_text(n),
        _ => match btih_tail(m) {
            Some(h) => "magnet ("@ + vstd::utf8::decode_utf8(
                vstd::utf8::encode_utf8(h).subrange(0, shown_bytes(h)),
            ) + ")"@,
            None => "magnet"@,
        },
    }
}

/// A human-readable fallback name derived from the magnet's `dn=`
/// parameter or its info hash.
pub fn display_name(magnet: &str) -> (r: String)
    requires
        display_ok(magnet@),
    ensures
        r@ == display_name_spec(magnet@),
{
    let m = chars_of(magnet);
    let dn = chars_of("dn=");
    proof {
        reveal_strlit("dn=");
        reveal_strlit("btih:");
    }
    match crate::text::find_chars(m.as_slice(), dn.as_slice()) {
        Some(p) => {
            assert(crate::text::occurs_at(m@, dn@, p as int));
            assert(p + 3 <= m.len());
            let end = crate::hook::builtin::pos_from_amp(m.as_slice(), p + 3);
            let ghost rest = m@.subrange(p + 3, m@.len() as int);
            let name = slice_chars(m.as_slice(), p + 3, end);
            assert(name@ =~= rest.subrange(0, first_pos(rest, is_amp_fn())));
            assert(dn_value(magnet@) == Some(name@));
            if name.len() > 0 {
                let ns = string_of(name.as_slice());
                return percent_decode(ns.as_str());
            }
        },
        None => {
            assert(dn_value(magnet@) is None);
        },
    }
    assert(!(dn_value(magnet@) matches Some(n) && n.len() > 0));
    let bt = chars_of("btih:");
    match crate::text::find_chars(m.as_slice(), bt.as_slice()) {
        Some(q) => {
            assert(crate::text::occurs_at(m@, bt@, q as int));
            assert(q + 5 <= m.len());
            let h = slice_chars(m.as_slice(), q + 5, m.len());
            let hs = string_of(h.as_slice());
            let hstr = hs.as_str();
            assert(btih_tail(magnet@) == Some(h@));
            assert(hstr.spec_bytes() == vstd::utf8::encode_utf8(h@));
            let total = hstr.len();
            let n: usize = if total < 8 { total } else { 8 };
            assert(n == shown_bytes(h@));
            if !hstr.is_char_boundary(n) {
                assert(false);
                return String::new();
            }
            let (pre, _) = hstr.split_at(n);
            proof {
                vstd::utf8::encode_utf8_decode_utf8(pre@);
            }
            let mut out = chars_of("magnet (");
            let pc = chars_of(pre);
            crate::text::push_all(&mut out, pc.as_slice());
            let close = chars_of(")");
            crate::text::push_all(&mut out, close.as_slice());
            proof {
                assert(out@ =~= "magnet ("@ + pre@ + ")"@);
            }
            string_of(out.as_slice())
        },
        None => String::from_str("magnet"),
    }
}

} // verus!

verus! {

pub open spec fn is_title_trail(c: char) -> bool {
    c == '|' || c == ',' || c == '\t' || c == ' '
}

/// Trailing `|`, `,`, tab and space removed.
pub open spec fn trim_title_trail(s: Seq<char>) -> Seq<char>
    decreases s.len(),
{
    if s.len() > 0 && is_title_trail(s.last()) {
        trim_title_trail(s.drop_last())
    } else {
        s
    }
}

/// `(magnet_uri, title)` from a plain output line: the magnet runs from
/// `magnet:` to the next whitespace; the title is what precedes it, trimmed
/// and without trailing separators.
pub open spec fn extract_magnet_spec(line: Seq<char>) -> Option<(Seq<char>, Seq<char>)> {
    match find(line, "magnet:"@) {
        None => None,
        Some(st) => {
            let rest = line.subrange(st, line.len() as int);
            Some(
                (
                    rest.subrange(0, first_pos(rest, is_ws_fn())),
                    trim_title_trail(trim(line.subrange(0, st))),
                ),
            )
        },
    }
}

fn trim_title_trail_exec(s: &[char]) -> (r: Vec<char>)
    ensures
        r@ == trim_title_trail(s@),
{
    let mut n = s.len();
    assert(s@.take(n as int) =~= s@);
    while n > 0 && (s[n - 1] == '|' || s[n - 1] == ',' || s[n - 1] == '\t' || s[n - 1] == ' ')
        invariant
            n <= s.len(),
            trim_title_trail(s@) == trim_title_trail(s@.take(n as int)),
        decreases n,
    {
        assert(s@.take(n as int).drop_last() =~= s@.take(n - 1));
        n = n - 1;
    }
    assert(s@.take(n as int) =~= s@.subrange(0, n as int));
    slice_chars(s, 0, n)
}

/// A plain output line `T<sep> magnet:...`, with `<sep>` one of `|`, `,`
/// or a tab: the magnet is everything from `magnet:` on (it holds no
/// whitespace) and the title is exactly `T`, the separator dropped, when
/// `T` holds no `magnet:`, does not start with whitespace, and ends in
/// neither whitespace nor `|` nor `,`.
pub proof fn law_extract_title(t: Seq<char>, sep: char, m: Seq<char>)
    requires
        sep == '|' || sep == ',' || sep == '\t',
        t.len() > 0,
        !crate::text::is_ws(t[0]),
        !crate::text::is_ws(t.last()),
        t.last() != '|',
        t.last() != ',',
        !crate::text::contains_at_least_once(t, "magnet:"@),
        crate::text::occurs_at(m, "magnet:"@, 0),
        forall|i: int| 0 <= i < m.len() ==> !crate::text::is_ws(#[trigger] m[i]),
    ensures
        extract_magnet_spec(t + seq![sep, ' '] + m) == Some((m, t)),
{
    reveal_strlit("magnet:");
    let p = "magnet:"@;
    let n = t.len() as int;
    let l = t + seq![sep, ' '] + m;
    assert(l.subrange(n + 2, n + 9) =~= m.subrange(0, 7));
    assert(crate::text::occurs_at(l, p, n + 2));
    assert forall|j: int| 0 <= j < n + 2 implies !crate::text::occurs_at(l, p, j) by {
        if crate::text::occurs_at(l, p, j) {
            if j + 7 <= n {
                assert(l.subrange(j, j + 7) =~= t.subrange(j, j + 7));
                assert(crate::text::occurs_at(t, p, j));
            } else if j <= n {
                assert(l.subrange(j, j + 7)[n - j] == l[n]);
                assert(l[n] == sep);
            } else {
                assert(l.subrange(j, j + 7)[0] == l[n + 1]);
            }
        }
    }
    crate::text::lemma_find(l, p);
    assert(find(l, p) == Some(n + 2));
    let rest = l.subrange(n + 2, l.len() as int);
    assert(rest =~= m);
    assert forall|j: int| 0 <= j < m.len() implies !(#[trigger] is_ws_fn()(m[j])) by {}
    lemma_first_pos(m, is_ws_fn(), m.len() as int);
    let head = l.subrange(0, n + 2);
    assert(head =~= t + seq![sep, ' ']);
    assert(crate::text::trim_start(head) == head);
    assert(head.drop_last() =~= t + seq![sep]);
    assert((t + seq![sep]).drop_last() =~= t);
    assert(crate::text::trim_end(t) == t);
    assert(trim_title_trail(t) == t);
    assert(head.last() == ' ');
    assert(crate::text::trim_end(head) == crate::text::trim_end(t + seq![sep]));
    assert((t + seq![sep]).last() == sep);
    if sep == '\t' {
        assert(crate::text::trim_end(t + seq![sep]) == crate::text::trim_end(t));
        assert(crate::text::trim_end(head) == t);
    } else {
        assert(crate::text::trim_end(t + seq![sep]) == t + seq![sep]);
        assert(crate::text::trim_end(head) == t + seq![sep]);
        assert(trim_title_trail(t + seq![sep]) == t);
    }
    assert(trim(head) == crate::text::trim_end(head));
}

/// Extract `(magnet_uri, title)` from a plain output line.
pub fn extract_magnet(line: &str) -> (r: Option<(String, String)>)
    ensures
        match r {
            Some((m, t)) => extract_magnet_spec(line@) == Some((m@, t@)),
            None => extract_magnet_spec(line@) is None,
        },
{
    let l = chars_of(line);
    let needle = chars_of("magnet:");
    let st = match crate::text::find_chars(l.as_slice(), needle.as_slice()) {
        Some(st) => st,
        None => {
            return None;
        },
    };
    assert(crate::text::occurs_at(l@, needle@, st as int));
    let end = crate::hook::builtin::pos_from_ws(l.as_slice(), st);
    let magnet = slice_chars(l.as_slice(), st, end);
    let ghost rest = l@.subrange(st as int, l@.len() as int);
    assert(magnet@ =~= rest.subrange(0, first_pos(rest, is_ws_fn())));
    let head = slice_chars(l.as_slice(), 0, st);
    let t = crate::text::trim_chars(head.as_slice());
    let title = trim_title_trail_exec(t.as_slice());
    Some((string_of(magnet.as_slice()), string_of(title.as_slice())))
}

/// A normalized hook search result.
#[derive(Debug, Clone)]
pub struct HookResult {
    /// The name-based identifier of the magnet.
    pub result_id: ResultId,
    /// The magnet URI.
    pub magnet: String,
    pub filename: String,
    /// The lower-cased text after the file name's last dot, when not empty.
    pub extension: Option<String>,
    pub size: Option<u64>,
    pub seeders: Option<u32>,
    pub leechers: Option<u32>,
}

/// The file name of a result: a title that is not blank, else the
/// magnet's display name.
pub open spec fn filename_spec(magnet: Seq<char>, title: Option<Seq<char>>) -> Seq<char> {
    match title {
        Some(t) if trim(t).len() > 0 => t,
        _ => display_name_spec(magnet),
    }
}

/// The extension of a file name: its text after the last dot, lower-cased,
/// when that is not empty.
pub open spec fn extension_spec(filename: Seq<char>) -> Option<Seq<char>> {
    let d = crate::paths::last_dot(filename);
    if d < 0 {
        None
    } else {
        let e = str_lowercase(filename.subrange(d + 1, filename.len() as int));
        if e.len() == 0 {
            None
        } else {
            Some(e)
        }
    }
}

/// A result can be built without the display name's slicing panicking.
pub open spec fn result_ok(magnet: Seq<char>, title: Option<Seq<char>>) -> bool {
    (title matches Some(t) && trim(t).len() > 0) || display_ok(magnet)
}

/// The result `r` is built for the magnet with these details.
pub open spec fn built(
    r: HookResult,
    magnet: Seq<char>,
    title: Option<Seq<char>>,
    size: Option<u64>,
    seeders: Option<u32>,
    leechers: Option<u32>,
) -> bool {
    &&& r.result_id == ResultId(uuid_v5_url(vstd::utf8::encode_utf8(magnet)))
    &&& r.magnet@ == magnet
    &&& r.filename@ == filename_spec(magnet, title)
    &&& opt_view(r.extension) == extension_spec(filename_spec(magnet, title))
    &&& r.size == size
    &&& r.seeders == seeders
    &&& r.leechers == leechers
}

/// Build a normalized search result for a magnet.
pub fn build_result(
    magnet: &str,
    title: Option<String>,
    size: Option<u64>,
    seeders: Option<u32>,
    leechers: Option<u32>,
) -> (r: HookResult)
    requires
        result_ok(magnet@, opt_view(title)),
    ensures
        built(r, magnet@, opt_view(title), size, seeders, leechers),
{
    let filename = match title {
        Some(t) => {
            if crate::text::is_blank(t.as_str()) {
                display_name(magnet)
            } else {
                t
            }
        },
        None => display_name(magnet),
    };
    let fc = chars_of(filename.as_str());
    let extension = match crate::paths::last_dot_exec(fc.as_slice()) {
        Some(d) => {
            let tail = slice_chars(fc.as_slice(), d + 1, fc.len());
            let ts = string_of(tail.as_slice());
            let e = crate::text::to_lowercase(ts.as_str());
            let ec = chars_of(e.as_str());
            if ec.len() == 0 {
                None
            } else {
                Some(e)
            }
        },
        None => None,
    };
    let id = uuid_v5_url_bits(magnet.as_bytes());
    HookResult {
        result_id: ResultId(id),
        magnet: String::from_str(magnet),
        filename,
        extension,
        size,
        seeders,
        leechers,
    }
}

/// The budget of a search: the caller's maximum, bounded by the backend's
/// (each at least one).
pub fn budget(request_max: usize, backend_max: usize) -> (n: usize)
    ensures
        n == ({
            let a = if request_max < 1 { 1 } else { request_max };
            let b = if backend_max < 1 { 1 } else { backend_max };
            if a < b { a } else { b }
        }),
{
    let a = if request_max < 1 { 1 } else { request_max };
    let b = if backend_max < 1 { 1 } else { backend_max };
    if a < b { a } else { b }
}

} // verus!

verus! {

/// The `\n`-separated parts of a text.
pub open spec fn lines_spec(s: Seq<char>) -> Seq<Seq<char>>
    decreases s.len(),
{
    let p = crate::text::char_pos(s, '\n');
    if p < 0 {
        seq![s]
    } else {
        proof {
            crate::text::lemma_char_pos(s, '\n');
        }
        seq![s.subrange(0, p)] + lines_spec(s.subrange(p + 1, s.len() as int))
    }
}

/// A candidate: magnet, title, size, seeders, leechers.
pub type Pick = (Seq<char>, Option<Seq<char>>, Option<u64>, Option<u32>, Option<u32>);

pub open spec fn pick_magnets(p: Seq<Pick>) -> Seq<Seq<char>> {
    Seq::new(p.len(), |i: int| p[i].0)
}

/// The JSON hits kept: trimmed magnets that are not empty, first
/// occurrences only.
pub open spec fn json_picks(h: Seq<SearchHit>) -> Seq<Pick>
    decreases h.len(),
{
    if h.len() == 0 {
        seq![]
    } else {
        let rest = json_picks(h.drop_last());
        let x = h.last();
        let m = trim(x.magnet@);
        if m.len() == 0 || pick_magnets(rest).contains(m) {
            rest
        } else {
            rest.push((m, opt_view(x.title), x.size, x.seeders, x.leechers))
        }
    }
}

/// The plain-output lines kept: trimmed lines that are not empty, not
/// comments and hold a magnet, first occurrences of each magnet only, each
/// titled by the text before its magnet.
pub open spec fn line_picks(lines: Seq<Seq<char>>) -> Seq<Pick>
    decreases lines.len(),
{
    if lines.len() == 0 {
        seq![]
    } else {
        let rest = line_picks(lines.drop_last());
        let line = trim(lines.last());
        if line.len() == 0 || line[0] == '#' {
            rest
        } else {
            match extract_magnet_spec(line) {
                None => rest,
                Some((m, t)) => if pick_magnets(rest).contains(m) {
                    rest
                } else {
                    rest.push((m, Some(t), None, None, None))
                },
            }
        }
    }
}

/// What hook output yields before truncation: the JSON hits when the output
/// parsed as a JSON array of hits, else its lines.
pub open spec fn output_picks(text: Seq<char>, json: Option<Seq<SearchHit>>) -> Seq<Pick> {
    match json {
        Some(h) => json_picks(h),
        None => line_picks(lines_spec(text)),
    }
}

pub open spec fn picks_ok(p: Seq<Pick>) -> bool {
    forall|i: int| 0 <= i < p.len() ==> result_ok(#[trigger] p[i].0, p[i].1)
}

fn lines_of(t: &[char]) -> (r: Vec<Vec<char>>)
    ensures
        Seq::new(r@.len(), |i: int| r@[i]@) == lines_spec(t@),
{
    let mut r: Vec<Vec<char>> = Vec::new();
    let mut start: usize = 0;
    assert(t@.subrange(0, t@.len() as int) =~= t@);
    loop
        invariant
            start <= t@.len(),
            Seq::new(r@.len(), |i: int| r@[i]@) + lines_spec(t@.subrange(start as int, t@.len() as int))
                == lines_spec(t@),
        decreases t.len() - start,
    {
        let ghost rest = t@.subrange(start as int, t@.len() as int);
        let ghost before = Seq::new(r@.len(), |i: int| r@[i]@);
        let e = crate::text::char_index_from(t, '\n', start);
        let part = slice_chars(t, start, e);
        r.push(part);
        assert(Seq::new(r@.len(), |i: int| r@[i]@) =~= before.push(part@));
        if e >= t.len() {
            assert(part@ =~= rest);
            assert(lines_spec(rest) == seq![rest]);
            assert(Seq::new(r@.len(), |i: int| r@[i]@) =~= before + lines_spec(rest));
            return r;
        }
        assert(part@ =~= rest.subrange(0, e - start));
        assert(rest.subrange(e - start + 1, rest.len() as int) =~= t@.subrange(e + 1, t@.len() as int));
        assert(Seq::new(r@.len(), |i: int| r@[i]@) + lines_spec(t@.subrange(e + 1, t@.len() as int))
            =~= before + lines_spec(rest));
        start = e + 1;
    }
}

pub type PickVal = (String, Option<String>, Option<u64>, Option<u32>, Option<u32>);

pub open spec fn pick_views(v: Seq<PickVal>) -> Seq<Pick> {
    Seq::new(v.len(), |i: int| (v[i].0@, opt_view(v[i].1), v[i].2, v[i].3, v[i].4))
}

fn seen_magnet(v: &Vec<PickVal>, m: &[char]) -> (b: bool)
    ensures
        b == pick_magnets(pick_views(v@)).contains(m@),
{
    let mut i: usize = 0;
    while i < v.len()
        invariant
            i <= v@.len(),
            forall|j: int| 0 <= j < i ==> v@[j].0@ != m@,
        decreases v.len() - i,
    {
        let c = chars_of(v[i].0.as_str());
        if crate::text::chars_eq(c.as_slice(), m) {
            assert(pick_magnets(pick_views(v@))[i as int] == m@);
            return true;
        }
        i = i + 1;
    }
    proof {
        if pick_magnets(pick_views(v@)).contains(m@) {
            let j = choose|j: int| 0 <= j < v@.len() && pick_magnets(pick_views(v@))[j] == m@;
            assert(v@[j].0@ == m@);
        }
    }
    false
}

fn picks_from_json(hits: &Vec<SearchHit>) -> (r: Vec<PickVal>)
    ensures
        pick_views(r@) == json_picks(hits@),
{
    let mut r: Vec<PickVal> = Vec::new();
    let mut i: usize = 0;
    while i < hits.len()
        invariant
            i <= hits@.len(),
            pick_views(r@) == json_picks(hits@.take(i as int)),
        decreases hits.len() - i,
    {
        assert(hits@.take(i + 1).drop_last() =~= hits@.take(i as int));
        let mc = chars_of(hits[i].magnet.as_str());
        let m = crate::text::trim_chars(mc.as_slice());
        if m.len() > 0 && !seen_magnet(&r, m.as_slice()) {
            let ghost before = pick_views(r@);
            let title = match &hits[i].title {
                Some(t) => Some(t.clone()),
                None => None,
            };
            r.push((string_of(m.as_slice()), title, hits[i].size, hits[i].seeders, hits[i].leechers));
            assert(pick_views(r@) =~= before.push(
                (m@, opt_view(hits@[i as int].title), hits@[i as int].size, hits@[i as int].seeders, hits@[i as int].leechers),
            ));
        }
        i = i + 1;
    }
    assert(hits@.take(hits@.len() as int) =~= hits@);
    r
}

fn picks_from_lines(text: &[char]) -> (r: Vec<PickVal>)
    ensures
        pick_views(r@) == line_picks(lines_spec(text@)),
{
    let lines = lines_of(text);
    let ghost lv = Seq::new(lines@.len(), |i: int| lines@[i]@);
    let mut r: Vec<PickVal> = Vec::new();
    let mut i: usize = 0;
    while i < lines.len()
        invariant
            i <= lines@.len(),
            lv == Seq::new(lines@.len(), |i: int| lines@[i]@),
            lv == lines_spec(text@),
            pick_views(r@) == line_picks(lv.take(i as int)),
        decreases lines.len() - i,
    {
        assert(lv.take(i + 1).drop_last() =~= lv.take(i as int));
        assert(lv.take(i + 1).last() == lines@[i as int]@);
        let line = crate::text::trim_chars(lines[i].as_slice());
        if line.len() > 0 && line[0] != '#' {
            let ls = string_of(line.as_slice());
            match extract_magnet(ls.as_str()) {
                Some((m, t)) => {
                    let mc = chars_of(m.as_str());
                    if !seen_magnet(&r, mc.as_slice()) {
                        let ghost before = pick_views(r@);
                        let ghost tv = t@;
                        r.push((m, Some(t), None, None, None));
                        assert(pick_views(r@) =~= before.push((mc@, Some(tv), None, None, None)));
                    }
                },
                None => {},
            }
        }
        i = i + 1;
    }
    assert(lv.take(lv.len() as int) =~= lv);
    r
}

/// The trimmed text of hook output, with invalid UTF-8 replaced.
pub fn output_text(bytes: &[u8]) -> (r: String)
    ensures
        r@ == trim(crate::text::utf8_lossy(bytes@)),
{
    let s = crate::text::string_from_utf8_lossy(bytes);
    crate::text::trim_str(s.as_str())
}

/// Whether hook output is to be read as a JSON array of hits.
pub fn wants_json(text: &str) -> (b: bool)
    ensures
        b == (text@.len() > 0 && text@[0] == '['),
{
    let c = chars_of(text);
    c.len() > 0 && c[0] == '['
}

/// No magnet occurs twice.
pub open spec fn distinct_magnets(p: Seq<Pick>) -> bool {
    forall|i: int, j: int| 0 <= i < j < p.len() ==> #[trigger] p[i].0 != #[trigger] p[j].0
}

proof fn lemma_push_distinct(rest: Seq<Pick>, x: Pick)
    requires
        distinct_magnets(rest),
        !pick_magnets(rest).contains(x.0),
    ensures
        distinct_magnets(rest.push(x)),
{
    let p = rest.push(x);
    assert forall|i: int, j: int| 0 <= i < j < p.len() implies #[trigger] p[i].0 != #[trigger] p[j].0 by {
        if j == rest.len() {
            assert(pick_magnets(rest)[i] == rest[i].0);
        } else {
            assert(p[i] == rest[i] && p[j] == rest[j]);
        }
    }
}

proof fn lemma_json_distinct(h: Seq<SearchHit>)
    ensures
        distinct_magnets(json_picks(h)),
    decreases h.len(),
{
    if h.len() > 0 {
        lemma_json_distinct(h.drop_last());
        let rest = json_picks(h.drop_last());
        let m = trim(h.last().magnet@);
        if !(m.len() == 0 || pick_magnets(rest).contains(m)) {
            lemma_push_distinct(rest, (m, opt_view(h.last().title), h.last().size, h.last().seeders, h.last().leechers));
        }
    }
}

proof fn lemma_lines_distinct(lines: Seq<Seq<char>>)
    ensures
        distinct_magnets(line_picks(lines)),
    decreases lines.len(),
{
    if lines.len() > 0 {
        lemma_lines_distinct(lines.drop_last());
        let rest = line_picks(lines.drop_last());
        let line = trim(lines.last());
        if !(line.len() == 0 || line[0] == '#') {
            if let Some((m, t)) = extract_magnet_spec(line) {
                if !pick_magnets(rest).contains(m) {
                    lemma_push_distinct(rest, (m, Some(t), None, None, None));
                }
            }
        }
    }
}

/// Hook output is deduplicated by magnet: whether it is read as JSON hits
/// or as lines, no magnet is kept twice, so no two results of
/// [`parse_output`] share a magnet.
pub proof fn law_output_magnets_distinct(text: Seq<char>, json: Option<Seq<SearchHit>>)
    ensures
        distinct_magnets(output_picks(text, json)),
{
    match json {
        Some(h) => lemma_json_distinct(h),
        None => lemma_lines_distinct(lines_spec(text)),
    }
}

/// Normalizes hook output into search results, deduplicated by magnet and
/// cut to `max_results`: the hits of `json` (what the output parsed to as a
/// JSON array of hits) when given, else a magnet per line of `text`.
pub fn parse_output(text: &str, json: Option<Vec<SearchHit>>, max_results: usize) -> (r: Vec<HookResult>)
    requires
        picks_ok(output_picks(text@, match json { Some(h) => Some(h@), None => None })),
    ensures
        ({
            let p = output_picks(text@, match json { Some(h) => Some(h@), None => None });
            &&& r@.len() == if max_results < p.len() { max_results as int } else { p.len() as int }
            &&& forall|i: int| 0 <= i < r@.len() ==> built(#[trigger] r@[i], p[i].0, p[i].1, p[i].2, p[i].3, p[i].4)
        }),
{
    let ghost js = match &json { Some(h) => Some(h@), None => None };
    let picks = match &json {
        Some(h) => picks_from_json(h),
        None => {
            let t = chars_of(text);
            picks_from_lines(t.as_slice())
        },
    };
    let ghost p = pick_views(picks@);
    assert(p == output_picks(text@, js));
    let mut out: Vec<HookResult> = Vec::new();
    let mut i: usize = 0;
    while i < picks.len() && i < max_results
        invariant
            i <= picks@.len(),
            i <= max_results,
            p == pick_views(picks@),
            picks_ok(p),
            out@.len() == i,
            forall|k: int| 0 <= k < i ==> built(#[trigger] out@[k], p[k].0, p[k].1, p[k].2, p[k].3, p[k].4),
        decreases picks.len() - i,
    {
        assert(result_ok(p[i as int].0, p[i as int].1));
        let title = match &picks[i].1 {
            Some(t) => Some(t.clone()),
            None => None,
        };
        let r = build_result(picks[i].0.as_str(), title, picks[i].2, picks[i].3, picks[i].4);
        out.push(r);
        i = i + 1;
    }
    out
}

} // verus!

verus! {

/// The domains joined by commas.
pub open spec fn comma_join(d: Seq<Seq<char>>) -> Seq<char>
    decreases d.len(),
{
    if d.len() == 0 {
        seq![]
    } else if d.len() == 1 {
        d[0]
    } else {
        comma_join(d.drop_last()) + ","@ + d.last()
    }
}

/// An argument with `{query}` and then `{domains}` substituted.
pub open spec fn with_query(part: Seq<char>, query: Seq<char>) -> Seq<char> {
    replace(part, "{query}"@, query)
}

pub open spec fn with_domains(part: Seq<char>, query: Seq<char>, joined: Seq<char>) -> Seq<char> {
    replace(with_query(part, query), "{domains}"@, joined)
}

/// The command for a query: the template's first word as the program, its
/// other words with `{query}` and `{domains}` substituted, then the query
/// when no word used `{query}`, then the comma-joined domains when there
/// are some and no word used `{domains}`. `None` for an empty template.
pub open spec fn command_spec(template: Seq<Seq<char>>, query: Seq<char>, domains: Seq<Seq<char>>) -> Option<
    (Seq<char>, Seq<Seq<char>>),
> {
    if template.len() == 0 {
        None
    } else {
        let joined = comma_join(domains);
        let parts = template.drop_first();
        let base = Seq::new(parts.len(), |i: int| with_domains(parts[i], query, joined));
        let used_query = exists|i: int| 0 <= i < parts.len() && #[trigger] with_query(parts[i], query) != parts[i];
        let used_domains = exists|i: int|
            0 <= i < parts.len() && #[trigger] with_domains(parts[i], query, joined) != with_query(parts[i], query);
        let a1 = if used_query { base } else { base.push(query) };
        let a2 = if !used_domains && domains.len() > 0 { a1.push(joined) } else { a1 };
        Some((template[0], a2))
    }
}

/// Split a command template into (program, args), substituting `{query}`
/// and `{domains}` and appending what the template does not reference. No
/// shell is involved: values pass verbatim as single arguments.
pub fn build_command(template: &Vec<String>, query: &str, domains: &Vec<String>) -> (r: Option<(String, Vec<String>)>)
    ensures
        match r {
            Some((p, a)) => command_spec(string_views(template@), query@, string_views(domains@)) == Some(
                (p@, string_views(a@)),
            ),
            None => command_spec(string_views(template@), query@, string_views(domains@)) is None,
        },
{
    let ghost tv = string_views(template@);
    let ghost dv = string_views(domains@);
    let mut joined: Vec<char> = Vec::new();
    let mut k: usize = 0;
    while k < domains.len()
        invariant
            k <= domains@.len(),
            dv == string_views(domains@),
            joined@ == comma_join(dv.take(k as int)),
        decreases domains.len() - k,
    {
        assert(dv.take(k + 1).drop_last() =~= dv.take(k as int));
        let ghost j0 = joined@;
        if k > 0 {
            joined.push(',');
        }
        let d = chars_of(domains[k].as_str());
        crate::text::push_all(&mut joined, d.as_slice());
        proof {
            reveal_strlit(",");
            if k == 0 {
                assert(joined@ =~= dv[0]);
            } else {
                assert(joined@ =~= j0 + ","@ + dv[k as int]);
            }
        }
        k = k + 1;
    }
    assert(dv.take(dv.len() as int) =~= dv);
    if template.len() == 0 {
        return None;
    }
    let program = template[0].clone();
    let q = chars_of(query);
    let qt = chars_of("{query}");
    let dt = chars_of("{domains}");
    let ghost parts = tv.drop_first();
    let mut args: Vec<String> = Vec::new();
    let mut used_query = false;
    let mut used_domains = false;
    let mut i: usize = 1;
    while i < template.len()
        invariant
            1 <= i <= template@.len(),
            tv == string_views(template@),
            parts == tv.drop_first(),
            q@ == query@,
            qt@ == "{query}"@,
            dt@ == "{domains}"@,
            joined@ == comma_join(dv),
            string_views(args@) == Seq::new((i - 1) as nat, |j: int| with_domains(parts[j], query@, joined@)),
            used_query == exists|j: int| 0 <= j < i - 1 && #[trigger] with_query(parts[j], query@) != parts[j],
            used_domains == exists|j: int|
                0 <= j < i - 1 && #[trigger] with_domains(parts[j], query@, joined@) != with_query(parts[j], query@),
        decreases template.len() - i,
    {
        let part = chars_of(template[i].as_str());
        assert(part@ == parts[i - 1]);
        let wq = crate::text::replace_chars(part.as_slice(), qt.as_slice(), q.as_slice());
        assert(wq@ == with_query(parts[i - 1], query@));
        if !crate::text::chars_eq(wq.as_slice(), part.as_slice()) {
            assert(with_query(parts[i - 1], query@) != parts[i - 1]);
            used_query = true;
        }
        let wd = crate::text::replace_chars(wq.as_slice(), dt.as_slice(), joined.as_slice());
        assert(wd@ == with_domains(parts[i - 1], query@, joined@));
        if !crate::text::chars_eq(wd.as_slice(), wq.as_slice()) {
            assert(with_domains(parts[i - 1], query@, joined@) != with_query(parts[i - 1], query@));
            used_domains = true;
        }
        let ghost before = string_views(args@);
        args.push(string_of(wd.as_slice()));
        assert(string_views(args@) =~= before.push(wd@));
        assert(string_views(args@) =~= Seq::new(i as nat, |j: int| with_domains(parts[j], query@, joined@)));
        i = i + 1;
    }
    if !used_query {
        args.push(String::from_str(query));
    }
    if !used_domains && domains.len() > 0 {
        args.push(string_of(joined.as_slice()));
    }
    let ghost base = Seq::new(parts.len(), |j: int| with_domains(parts[j], query@, joined@));
    assert(Seq::new((i - 1) as nat, |j: int| with_domains(parts[j], query@, joined@)) =~= base);
    proof {
        let a1 = if used_query { base } else { base.push(query@) };
        let a2 = if !used_domains && dv.len() > 0 { a1.push(joined@) } else { a1 };
        assert(string_views(args@) =~= a2);
    }
    Some((program, args))
}

} // verus!

verus! {

/// The site hits merged into a result list of `n` hits: hits with a magnet
/// not yet seen are added, until the list reaches the budget.
pub open spec fn merged(n: int, seen: Seq<Seq<char>>, page: Seq<SearchHit>, budget: int) -> (Seq<SearchHit>, Seq<Seq<char>>)
    decreases page.len(),
{
    if page.len() == 0 {
        (seq![], seen)
    } else {
        let h = page[0];
        if seen.contains(h.magnet@) {
            merged(n, seen, page.drop_first(), budget)
        } else if n + 1 >= budget {
            (seq![h], seen.push(h.magnet@))
        } else {
            let (a, s) = merged(n + 1, seen.push(h.magnet@), page.drop_first(), budget);
            (seq![h] + a, s)
        }
    }
}

/// The magnets of the hits.
pub fn seen_magnets(hits: &Vec<SearchHit>) -> (r: Vec<String>)
    ensures
        string_views(r@) == Seq::new(hits@.len(), |i: int| hits@[i].magnet@),
{
    let mut r: Vec<String> = Vec::new();
    let mut i: usize = 0;
    while i < hits.len()
        invariant
            i <= hits@.len(),
            string_views(r@) == Seq::new(i as nat, |j: int| hits@[j].magnet@),
        decreases hits.len() - i,
    {
        let ghost before = string_views(r@);
        r.push(hits[i].magnet.clone());
        assert(string_views(r@) =~= before.push(hits@[i as int].magnet@));
        assert(string_views(r@) =~= Seq::new((i + 1) as nat, |j: int| hits@[j].magnet@));
        i = i + 1;
    }
    r
}

/// A copy of a hit.
pub fn clone_hit(h: &SearchHit) -> (r: SearchHit)
    ensures
        r == *h,
{
    SearchHit {
        magnet: h.magnet.clone(),
        title: match &h.title {
            Some(t) => Some(t.clone()),
            None => None,
        },
        size: h.size,
        seeders: h.seeders,
        leechers: h.leechers,
    }
}

/// Merges one site's hits into the result list (see [`merged`]).
pub fn merge_hits(hits: &mut Vec<SearchHit>, seen: &mut Vec<String>, page_hits: Vec<SearchHit>, budget: usize)
    ensures
        ({
            let (a, s) = merged(old(hits)@.len() as int, string_views(old(seen)@), page_hits@, budget as int);
            final(hits)@ == old(hits)@ + a && string_views(final(seen)@) == s
        }),
{
    let ghost h0 = hits@;
    let ghost s0 = string_views(seen@);
    let mut k: usize = 0;
    assert(page_hits@.subrange(0, page_hits@.len() as int) =~= page_hits@);
    assert(hits@ + merged(h0.len() as int, s0, page_hits@, budget as int).0 =~= h0 + merged(h0.len() as int, s0, page_hits@, budget as int).0);
    while k < page_hits.len()
        invariant
            k <= page_hits@.len(),
            h0 == old(hits)@,
            s0 == string_views(old(seen)@),
            h0.len() <= hits@.len(),
            ({
                let (a, s) = merged(
                    hits@.len() as int,
                    string_views(seen@),
                    page_hits@.subrange(k as int, page_hits@.len() as int),
                    budget as int,
                );
                let (a0, t0) = merged(h0.len() as int, s0, page_hits@, budget as int);
                hits@ + a == h0 + a0 && s == t0
            }),
        decreases page_hits.len() - k,
    {
        let ghost rest = page_hits@.subrange(k as int, page_hits@.len() as int);
        assert(rest.drop_first() =~= page_hits@.subrange(k + 1, page_hits@.len() as int));
        assert(rest[0] == page_hits@[k as int]);
        let ghost sv = string_views(seen@);
        if !crate::hook::builtin::contains_string(seen, &page_hits[k].magnet) {
            let ghost hv = hits@;
            seen.push(page_hits[k].magnet.clone());
            hits.push(clone_hit(&page_hits[k]));
            assert(string_views(seen@) =~= sv.push(page_hits@[k as int].magnet@));
            if hits.len() >= budget {
                proof {
                    assert(hits@ + seq![] =~= hv + seq![page_hits@[k as int]]);
                }
                return;
            }
            proof {
                let (a, s) = merged(hits@.len() as int, string_views(seen@), rest.drop_first(), budget as int);
                assert(hits@ + a =~= hv + (seq![page_hits@[k as int]] + a));
            }
        }
        k = k + 1;
    }
    proof {
        assert(page_hits@.subrange(k as int, page_hits@.len() as int) =~= Seq::<SearchHit>::empty());
        assert(hits@ + seq![] =~= hits@);
    }
}

} // verus!

verus! {

/// The hits with a magnet that is not blank, the magnet trimmed.
pub open spec fn hit_picks(h: Seq<SearchHit>) -> Seq<Pick>
    decreases h.len(),
{
    if h.len() == 0 {
        seq![]
    } else {
        let rest = hit_picks(h.drop_last());
        let x = h.last();
        let m = trim(x.magnet@);
        if m.len() == 0 {
            rest
        } else {
            rest.push((m, opt_view(x.title), x.size, x.seeders, x.leechers))
        }
    }
}

/// Normalizes built-in search hits into results, dropping hits with a
/// blank magnet.
pub fn results_from_hits(hits: &Vec<SearchHit>) -> (r: Vec<HookResult>)
    requires
        picks_ok(hit_picks(hits@)),
    ensures
        r@.len() == hit_picks(hits@).len(),
        forall|i: int|
            0 <= i < r@.len() ==> {
                let p = #[trigger] hit_picks(hits@)[i];
                built(r@[i], p.0, p.1, p.2, p.3, p.4)
            },
{
    let mut out: Vec<HookResult> = Vec::new();
    let mut i: usize = 0;
    while i < hits.len()
        invariant
            i <= hits@.len(),
            picks_ok(hit_picks(hits@)),
            out@.len() == hit_picks(hits@.take(i as int)).len(),
            hit_picks(hits@.take(i as int)).len() <= hit_picks(hits@).len(),
            forall|k: int| 0 <= k < out@.len() ==> hit_picks(hits@.take(i as int))[k] == hit_picks(hits@)[k],
            forall|k: int|
                0 <= k < out@.len() ==> {
                    let p = #[trigger] hit_picks(hits@)[k];
                    built(out@[k], p.0, p.1, p.2, p.3, p.4)
                },
        decreases hits.len() - i,
    {
        assert(hits@.take(i + 1).drop_last() =~= hits@.take(i as int));
        proof {
            lemma_hit_picks_prefix(hits@, i as int + 1);
        }
        let mc = chars_of(hits[i].magnet.as_str());
        let m = crate::text::trim_chars(mc.as_slice());
        if m.len() > 0 {
            let n = out.len();
            assert(hit_picks(hits@.take(i + 1))[n as int] == hit_picks(hits@)[n as int]);
            assert(result_ok(hit_picks(hits@)[n as int].0, hit_picks(hits@)[n as int].1));
            let title = match &hits[i].title {
                Some(t) => Some(t.clone()),
                None => None,
            };
            let ms = string_of(m.as_slice());
            let r = build_result(ms.as_str(), title, hits[i].size, hits[i].seeders, hits[i].leechers);
            out.push(r);
        }
        i = i + 1;
    }
    assert(hits@.take(hits@.len() as int) =~= hits@);
    out
}

proof fn lemma_hit_picks_prefix(h: Seq<SearchHit>, i: int)
    requires
        0 <= i <= h.len(),
    ensures
        hit_picks(h.take(i)).len() <= hit_picks(h).len(),
        forall|k: int| 0 <= k < hit_picks(h.take(i)).len() ==> hit_picks(h.take(i))[k] == hit_picks(h)[k],
    decreases h.len() - i,
{
    if i < h.len() {
        lemma_hit_picks_prefix(h, i + 1);
        assert(h.take(i + 1).drop_last() =~= h.take(i));
    } else {
        assert(h.take(i) =~= h);
    }
}

} // verus!
