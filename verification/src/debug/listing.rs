//! Listings whose length is capped by output lines: the source files
//! (`code_files`) and the definition sites of a symbol (`code_symbol`).

use vstd::prelude::*;
use crate::debug::inputs::{DebugError, FilesInput, SymbolInput};
use crate::debug::report::{
    clamp, clamp_usize, count_newlines, lemma_newlines_append, newlines, or_default, FileLines,
    MAX_RESULTS,
};
use crate::hook::pattern::{regex_compiles, regex_first, string_views, Pattern};
use crate::text::{chars_of, decimal, decimal_chars, ends_with, push_all, str_lowercase, string_of, trim};

verus! {

fn push_str(out: &mut Vec<char>, s: &str)
    ensures
        final(out)@ == old(out)@ + s@,
{
    let c = chars_of(s);
    push_all(out, c.as_slice());
}

/// Appends text, keeping `nl` the number of newlines in `out`.
fn push_counted(out: &mut Vec<char>, nl: &mut usize, s: &[char])
    requires
        *old(nl) == newlines(old(out)@),
    ensures
        final(out)@ == old(out)@ + s@,
        *final(nl) == newlines(final(out)@),
{
    let k = count_newlines(s);
    push_all(out, s);
    let _len = out.len();
    proof {
        lemma_newlines_append(old(out)@, s@);
        lemma_newlines_append(out@, seq![]);
    }
    *nl = *nl + k;
}

/// The most output lines a listing shows.
pub open spec fn listing_limit(limit: Option<usize>) -> int {
    clamp(or_default(limit, MAX_RESULTS as int), 1, MAX_RESULTS as int)
}

// ---------------------------------------------------------------------------
// code_files
// ---------------------------------------------------------------------------

/// The path filter of `code_files`: a non-empty pattern.
pub open spec fn files_filter(p: FilesInput) -> Option<Seq<char>> {
    match p.pattern {
        Some(s) => if s@.len() > 0 {
            Some(s@)
        } else {
            None
        },
        None => None,
    }
}

/// One path of the walk: counted; skipped when it fails the filter; the
/// listing stops when it already holds `limit` lines, else the path is
/// listed. The state is (listing, paths counted, stopped).
pub open spec fn files_step(st: (Seq<char>, int, bool), path: Seq<char>, filter: Option<Seq<char>>, limit: int) -> (
    Seq<char>,
    int,
    bool,
) {
    let (out, total, stopped) = st;
    if stopped {
        st
    } else if filter matches Some(f) && regex_first(f, false, path) is None {
        (out, total + 1, false)
    } else if newlines(out) >= limit {
        (out, total + 1, true)
    } else {
        (out + path + "\n"@, total + 1, false)
    }
}

/// The state after the first `n` paths.
pub open spec fn files_run(paths: Seq<Seq<char>>, n: int, filter: Option<Seq<char>>, limit: int) -> (
    Seq<char>,
    int,
    bool,
)
    decreases n,
{
    if n <= 0 {
        (seq![], 0, false)
    } else {
        files_step(files_run(paths, n - 1, filter, limit), paths[n - 1], filter, limit)
    }
}

/// The `code_files` report: the listing, the paths counted and the lines
/// listed less one (the count the original footer shows).
pub open spec fn files_text(p: FilesInput, paths: Seq<Seq<char>>) -> Seq<char> {
    let (out, total, _) = files_run(paths, paths.len() as int, files_filter(p), listing_limit(p.limit));
    let listed = if newlines(out) > 0 {
        newlines(out) - 1
    } else {
        0
    };
    out + "-- "@ + decimal(total as nat) + " files indexed, "@ + decimal(listed as nat) + " listed\n"@
}

proof fn lemma_files_stopped(paths: Seq<Seq<char>>, k: int, m: int, filter: Option<Seq<char>>, limit: int)
    requires
        k <= m,
        files_run(paths, k, filter, limit).2,
    ensures
        files_run(paths, m, filter, limit) == files_run(paths, k, filter, limit),
    decreases m - k,
{
    if k < m {
        lemma_files_stopped(paths, k, m - 1, filter, limit);
    }
}

/// `code_files`: the walked source files' relative paths, those matching
/// the pattern when a non-empty one is given, capped by output lines. A
/// pattern the regex crate refuses is a `Regex` error.
pub fn code_files(p: &FilesInput, paths: &Vec<String>) -> (r: Result<String, DebugError>)
    ensures
        match r {
            Ok(t) => (files_filter(*p) matches Some(f) ==> regex_compiles(f, false)) && t@ == files_text(
                *p,
                string_views(paths@),
            ),
            Err(e) => files_filter(*p) matches Some(f) && !regex_compiles(f, false) && (
            e matches DebugError::Regex { pat, msg } && pat@ == f),
        },
{
    let filter: Option<Pattern> = match &p.pattern {
        Some(s) => if chars_of(s.as_str()).len() > 0 {
            match Pattern::compile(s.as_str()) {
                Ok(f) => Some(f),
                Err(msg) => {
                    return Err(DebugError::Regex { pat: s.clone(), msg });
                },
            }
        } else {
            None
        },
        None => None,
    };
    let ghost fl = files_filter(*p);
    let ghost pv = string_views(paths@);
    let limit = clamp_usize(
        match p.limit {
            Some(l) => l,
            None => MAX_RESULTS,
        },
        1,
        MAX_RESULTS,
    );
    let mut out: Vec<char> = Vec::new();
    let mut nl: usize = 0;
    let mut total: usize = 0;
    let mut stopped = false;
    let mut i: usize = 0;
    while i < paths.len() && !stopped
        invariant
            i <= paths@.len(),
            pv == string_views(paths@),
            fl == files_filter(*p),
            filter matches Some(f) ==> fl == Some(f.pattern()) && !f.insensitive(),
            filter is None ==> fl is None,
            limit == listing_limit(p.limit),
            nl == newlines(out@),
            total <= i,
            files_run(pv, i as int, fl, limit as int) == (out@, total as int, stopped),
        decreases paths.len() - i,
    {
        let path = paths[i].as_str();
        assert(pv[i as int] == path@);
        total = total + 1;
        let pass = match &filter {
            None => true,
            Some(f) => f.is_match(path),
        };
        if !pass {
        } else if nl >= limit {
            stopped = true;
        } else {
            let pc = chars_of(path);
            push_counted(&mut out, &mut nl, pc.as_slice());
            let n1 = chars_of("\n");
            push_counted(&mut out, &mut nl, n1.as_slice());
        }
        i = i + 1;
    }
    proof {
        if stopped {
            lemma_files_stopped(pv, i as int, pv.len() as int, fl, limit as int);
        }
    }
    let listed = if nl > 0 {
        nl - 1
    } else {
        0
    };
    push_str(&mut out, "-- ");
    let d = decimal_chars(total as u64);
    push_all(&mut out, d.as_slice());
    push_str(&mut out, " files indexed, ");
    let l = decimal_chars(listed as u64);
    push_all(&mut out, l.as_slice());
    push_str(&mut out, " listed\n");
    Ok(string_of(out.as_slice()))
}

// ---------------------------------------------------------------------------
// code_symbol
// ---------------------------------------------------------------------------

/// The definition pattern of a symbol: a definition keyword followed by
/// the name as a whole identifier, or an `impl` header naming it.
pub open spec fn symbol_pattern(name: Seq<char>) -> Seq<char> {
    "\\b(?:pub\\s+)?(?:async\\s+)?(?:unsafe\\s+)?(?:fn|struct|enum|trait|mod|const|static|type)\\s+"@
        + name + "\\b|\\bimpl(?:<[^>]*>)?\\s+[\\w:<>, ]*\\b"@ + name + "\\b"@
}

/// `n` right-aligned in five columns, as `{:>5}` writes it.
pub open spec fn pad5(d: Seq<char>) -> Seq<char> {
    if d.len() < 5 {
        Seq::new((5 - d.len()) as nat, |i: int| ' ') + d
    } else {
        d
    }
}

/// Lines `lo..hi` of a definition snippet, each as `{number:>5}: {line}`.
pub open spec fn snippet(lines: Seq<Seq<char>>, lo: int, hi: int) -> Seq<char>
    decreases hi - lo,
{
    if hi <= lo {
        seq![]
    } else {
        snippet(lines, lo, hi - 1) + pad5(decimal(hi as nat)) + ": "@ + lines[hi - 1] + "\n"@
    }
}

/// One definition site: `== {path}:{line number} ==`, then two lines of
/// context on each side.
pub open spec fn site_block(path: Seq<char>, lines: Seq<Seq<char>>, idx: int) -> Seq<char> {
    let lo = if idx >= 2 {
        idx - 2
    } else {
        0
    };
    let hi = if idx + 3 < lines.len() {
        idx + 3
    } else {
        lines.len() as int
    };
    "== "@ + path + ":"@ + decimal((idx + 1) as nat) + " ==\n"@ + snippet(lines, lo, hi)
}

/// One line of a file: a definition site is counted; the walk stops when
/// the listing already holds `limit` lines, else the site is shown.
pub open spec fn site_step(
    st: (Seq<char>, int, bool),
    path: Seq<char>,
    lines: Seq<Seq<char>>,
    j: int,
    pat: Seq<char>,
    limit: int,
) -> (Seq<char>, int, bool) {
    let (out, total, stopped) = st;
    if stopped || regex_first(pat, false, lines[j]) is None {
        st
    } else if newlines(out) >= limit {
        (out, total + 1, true)
    } else {
        (out + site_block(path, lines, j), total + 1, false)
    }
}

/// The state after the first `j` lines of a file.
pub open spec fn sites_in(
    path: Seq<char>,
    lines: Seq<Seq<char>>,
    j: int,
    pat: Seq<char>,
    limit: int,
    st: (Seq<char>, int, bool),
) -> (Seq<char>, int, bool)
    decreases j,
{
    if j <= 0 {
        st
    } else {
        site_step(sites_in(path, lines, j - 1, pat, limit, st), path, lines, j - 1, pat, limit)
    }
}

/// A file is searched for definitions: no language is given, or its path
/// ends with `.{language}` (lower-cased).
pub open spec fn lang_ok(path: Seq<char>, lang: Option<Seq<char>>) -> bool {
    lang matches Some(l) ==> ends_with(path, "."@ + str_lowercase(l))
}

/// The state after the first `n` files.
pub open spec fn sites_run(
    files: Seq<FileLines>,
    n: int,
    pat: Seq<char>,
    lang: Option<Seq<char>>,
    limit: int,
) -> (Seq<char>, int, bool)
    decreases n,
{
    if n <= 0 {
        (seq![], 0, false)
    } else {
        let st = sites_run(files, n - 1, pat, lang, limit);
        let f = files[n - 1];
        if st.2 || !lang_ok(f.label@, lang) {
            st
        } else {
            sites_in(f.label@, string_views(f.lines@), f.lines@.len() as int, pat, limit, st)
        }
    }
}

pub open spec fn lang_view(o: Option<String>) -> Option<Seq<char>> {
    match o {
        Some(s) => Some(s@),
        None => None,
    }
}

/// The `code_symbol` report for a (trimmed) name.
pub open spec fn symbol_text(p: SymbolInput, name: Seq<char>, files: Seq<FileLines>) -> Seq<char> {
    let (out, total, _) = sites_run(
        files,
        files.len() as int,
        symbol_pattern(name),
        lang_view(p.lang),
        listing_limit(p.limit),
    );
    out + "-- "@ + decimal(total as nat) + " definition sites (capped)\n"@
}

proof fn lemma_sites_in_stopped(
    path: Seq<char>,
    lines: Seq<Seq<char>>,
    k: int,
    m: int,
    pat: Seq<char>,
    limit: int,
    st: (Seq<char>, int, bool),
)
    requires
        k <= m,
        sites_in(path, lines, k, pat, limit, st).2,
    ensures
        sites_in(path, lines, m, pat, limit, st) == sites_in(path, lines, k, pat, limit, st),
    decreases m - k,
{
    if k < m {
        lemma_sites_in_stopped(path, lines, k, m - 1, pat, limit, st);
    }
}

proof fn lemma_sites_run_stopped(
    files: Seq<FileLines>,
    k: int,
    m: int,
    pat: Seq<char>,
    lang: Option<Seq<char>>,
    limit: int,
)
    requires
        k <= m,
        sites_run(files, k, pat, lang, limit).2,
    ensures
        sites_run(files, m, pat, lang, limit) == sites_run(files, k, pat, lang, limit),
    decreases m - k,
{
    if k < m {
        lemma_sites_run_stopped(files, k, m - 1, pat, lang, limit);
    }
}

fn push_snippet_line(out: &mut Vec<char>, nl: &mut usize, n: usize, line: &str)
    requires
        *old(nl) == newlines(old(out)@),
    ensures
        final(out)@ == old(out)@ + pad5(decimal(n as nat)) + ": "@ + line@ + "\n"@,
        *final(nl) == newlines(final(out)@),
{
    let d = decimal_chars(n as u64);
    let mut t: Vec<char> = Vec::new();
    let mut k: usize = d.len();
    if k < 5 {
        while k < 5
            invariant
                d.len() <= k <= 5,
                t@ == Seq::new((k - d.len()) as nat, |i: int| ' '),
            decreases 5 - k,
        {
            t.push(' ');
            k = k + 1;
            assert(t@ =~= Seq::new((k - d.len()) as nat, |i: int| ' '));
        }
    }
    push_all(&mut t, d.as_slice());
    assert(t@ =~= pad5(decimal(n as nat)));
    push_str(&mut t, ": ");
    push_str(&mut t, line);
    push_str(&mut t, "\n");
    push_counted(out, nl, t.as_slice());
}

fn push_site(out: &mut Vec<char>, nl: &mut usize, f: &FileLines, idx: usize)
    requires
        idx < f.lines@.len(),
        *old(nl) == newlines(old(out)@),
    ensures
        final(out)@ == old(out)@ + site_block(f.label@, string_views(f.lines@), idx as int),
        *final(nl) == newlines(final(out)@),
        *final(nl) >= *old(nl) + 1,
{
    let ghost v = string_views(f.lines@);
    let len = f.lines.len();
    let lo = if idx >= 2 {
        idx - 2
    } else {
        0
    };
    let hi = if 3 < len - idx {
        idx + 3
    } else {
        len
    };
    let mut h: Vec<char> = Vec::new();
    push_str(&mut h, "== ");
    push_str(&mut h, f.label.as_str());
    push_str(&mut h, ":");
    let d = decimal_chars((idx + 1) as u64);
    push_all(&mut h, d.as_slice());
    let ghost hb = h@;
    push_str(&mut h, " ==\n");
    proof {
        reveal_strlit(" ==\n");
        assert(h@.last() == '\n');
        lemma_newlines_append(h@.drop_last(), seq![]);
    }
    let ghost nl0 = *nl;
    push_counted(out, nl, h.as_slice());
    let ghost nl1 = *nl;
    assert(nl1 >= nl0 + 1) by {
        lemma_newlines_append(old(out)@, h@);
    }
    let ghost head = out@;
    let mut k: usize = lo;
    while k < hi
        invariant
            lo <= k <= hi,
            hi <= len,
            len == f.lines@.len(),
            v == string_views(f.lines@),
            out@ == head + snippet(v, lo as int, k as int),
            *nl == newlines(out@),
            *nl >= nl1,
        decreases hi - k,
    {
        let ghost before = out@;
        let ghost nlb = *nl;
        let ghost rest = pad5(decimal((k + 1) as nat)) + ": "@ + f.lines@[k as int]@ + "\n"@;
        push_snippet_line(out, nl, k + 1, f.lines[k].as_str());
        proof {
            assert(out@ == before + rest);
            lemma_newlines_append(before, rest);
            lemma_newlines_append(rest, seq![]);
        }
        k = k + 1;
    }
}

/// `code_symbol`: the definition sites of a name across the walked files
/// (those of the language, when one is given), each with a snippet, capped
/// by output lines. A blank name is an error; so is a name that makes the
/// definition pattern one the regex crate refuses.
pub fn code_symbol(p: &SymbolInput, files: &Vec<FileLines>) -> (r: Result<String, DebugError>)
    ensures
        ({
            let name = trim(p.name@);
            match r {
                Ok(t) => name.len() > 0 && regex_compiles(symbol_pattern(name), false) && t@ == symbol_text(
                    *p,
                    name,
                    files@,
                ),
                Err(e) => if name.len() == 0 {
                    e matches DebugError::Other(m) && m@ == "symbol name is required"@
                } else {
                    !regex_compiles(symbol_pattern(name), false) && (e matches DebugError::Regex {
                        pat,
                        msg,
                    } && pat@ == "definition for "@ + name)
                },
            }
        }),
{
    let nc = chars_of(p.name.as_str());
    let name = crate::text::trim_chars(nc.as_slice());
    if name.len() == 0 {
        let m = chars_of("symbol name is required");
        return Err(DebugError::Other(string_of(m.as_slice())));
    }
    let mut pt: Vec<char> = Vec::new();
    push_str(
        &mut pt,
        "\\b(?:pub\\s+)?(?:async\\s+)?(?:unsafe\\s+)?(?:fn|struct|enum|trait|mod|const|static|type)\\s+",
    );
    push_all(&mut pt, name.as_slice());
    push_str(&mut pt, "\\b|\\bimpl(?:<[^>]*>)?\\s+[\\w:<>, ]*\\b");
    push_all(&mut pt, name.as_slice());
    push_str(&mut pt, "\\b");
    let pts = string_of(pt.as_slice());
    let re = match Pattern::compile(pts.as_str()) {
        Ok(re) => re,
        Err(msg) => {
            let mut d = chars_of("definition for ");
            push_all(&mut d, name.as_slice());
            return Err(DebugError::Regex { pat: string_of(d.as_slice()), msg });
        },
    };
    let lang: Option<Vec<char>> = match &p.lang {
        Some(l) => {
            let lo = crate::text::to_lowercase(l.as_str());
            let mut s = chars_of(".");
            let lc = chars_of(lo.as_str());
            push_all(&mut s, lc.as_slice());
            Some(s)
        },
        None => None,
    };
    let limit = clamp_usize(
        match p.limit {
            Some(l) => l,
            None => MAX_RESULTS,
        },
        1,
        MAX_RESULTS,
    );
    let ghost pat = symbol_pattern(name@);
    let ghost lv = lang_view(p.lang);
    let ghost fs = files@;
    let mut out: Vec<char> = Vec::new();
    let mut nl: usize = 0;
    let mut total: usize = 0;
    let mut stopped = false;
    let mut fi: usize = 0;
    while fi < files.len() && !stopped
        invariant
            fi <= files@.len(),
            fs == files@,
            re.pattern() == pat,
            !re.insensitive(),
            lv == lang_view(p.lang),
            lang matches Some(s) ==> p.lang matches Some(l) && s@ == "."@ + str_lowercase(l@),
            lang is None ==> p.lang is None,
            limit == listing_limit(p.limit),
            nl == newlines(out@),
            limit <= MAX_RESULTS,
            !stopped ==> total <= nl && total <= limit,
            total <= limit + 1,
            sites_run(fs, fi as int, pat, lv, limit as int) == (out@, total as int, stopped),
        decreases files.len() - fi,
    {
        let f = &files[fi];
        assert(fs[fi as int] == *f);
        let ok = match &lang {
            None => true,
            Some(s) => {
                let lc = chars_of(f.label.as_str());
                crate::text::ends_with_chars(lc.as_slice(), s.as_slice())
            },
        };
        let ghost st0 = (out@, total as int, stopped);
        let ghost v = string_views(f.lines@);
        if ok {
            let mut li: usize = 0;
            while li < f.lines.len() && !stopped
                invariant
                    li <= f.lines@.len(),
                    v == string_views(f.lines@),
                    re.pattern() == pat,
                    !re.insensitive(),
                    limit == listing_limit(p.limit),
                    nl == newlines(out@),
                    limit <= MAX_RESULTS,
                    !stopped ==> total <= nl && total <= limit,
                    total <= limit + 1,
                    !st0.2,
                    sites_in(f.label@, v, li as int, pat, limit as int, st0) == (out@, total as int, stopped),
                decreases f.lines.len() - li,
            {
                let line = f.lines[li].as_str();
                assert(v[li as int] == line@);
                if re.is_match(line) {
                    total = total + 1;
                    if nl >= limit {
                        stopped = true;
                    } else {
                        push_site(&mut out, &mut nl, f, li);
                    }
                }
                li = li + 1;
            }
            proof {
                if stopped {
                    lemma_sites_in_stopped(f.label@, v, li as int, v.len() as int, pat, limit as int, st0);
                }
            }
        }
        fi = fi + 1;
    }
    proof {
        if stopped {
            lemma_sites_run_stopped(fs, fi as int, fs.len() as int, pat, lv, limit as int);
        }
    }
    push_str(&mut out, "-- ");
    let d = decimal_chars(total as u64);
    push_all(&mut out, d.as_slice());
    push_str(&mut out, " definition sites (capped)\n");
    Ok(string_of(out.as_slice()))
}

} // verus!
