//! Regex search over log and source lines (`log_search`, `code_grep`):
//! every matching line in file order, shown with a context window, up to a
//! limit.

use vstd::prelude::*;
use crate::debug::inputs::{DebugError, GrepInput, LogSearchInput};
use crate::debug::report::{clamp, clamp_usize, or_default, text_opt, FileLines, MAX_RESULTS};
use crate::hook::pattern::{regex_compiles, regex_first, string_views, Pattern};
use crate::text::{chars_of, contains_at_least_once, decimal, decimal_chars, push_all, str_lowercase, string_of};

verus! {

/// A line is a match: it contains the `contains` text ignoring case (when
/// one is given) and the pattern finds a match in it.
pub open spec fn is_hit(line: Seq<char>, pat: Seq<char>, ci: bool, contains: Option<Seq<char>>) -> bool {
    &&& (contains matches Some(c) ==> contains_at_least_once(str_lowercase(line), str_lowercase(c)))
    &&& regex_first(pat, ci, line) is Some
}

/// The matches among the first `j` lines of file `f`, as (file, line)
/// positions.
pub open spec fn file_hits(
    lines: Seq<Seq<char>>,
    f: int,
    j: int,
    pat: Seq<char>,
    ci: bool,
    contains: Option<Seq<char>>,
) -> Seq<(int, int)>
    decreases j,
{
    if j <= 0 {
        seq![]
    } else {
        let r = file_hits(lines, f, j - 1, pat, ci, contains);
        if is_hit(lines[j - 1], pat, ci, contains) {
            r.push((f, j - 1))
        } else {
            r
        }
    }
}

/// A file is searched: it has no path filter, or its label matches it.
pub open spec fn searched(label: Seq<char>, filter: Option<Seq<char>>) -> bool {
    filter matches Some(p) ==> regex_first(p, false, label) is Some
}

/// The matches in the first `n` files, in file and line order.
pub open spec fn all_hits(
    files: Seq<FileLines>,
    n: int,
    pat: Seq<char>,
    ci: bool,
    contains: Option<Seq<char>>,
    filter: Option<Seq<char>>,
) -> Seq<(int, int)>
    decreases n,
{
    if n <= 0 {
        seq![]
    } else {
        let f = files[n - 1];
        all_hits(files, n - 1, pat, ci, contains, filter) + if searched(f.label@, filter) {
            file_hits(string_views(f.lines@), n - 1, f.lines@.len() as int, pat, ci, contains)
        } else {
            seq![]
        }
    }
}

pub open spec fn prefix_of<A>(a: Seq<A>, b: Seq<A>) -> bool {
    a.len() <= b.len() && b.take(a.len() as int) == a
}

proof fn lemma_prefix_trans<A>(a: Seq<A>, b: Seq<A>, c: Seq<A>)
    requires
        prefix_of(a, b),
        prefix_of(b, c),
    ensures
        prefix_of(a, c),
{
    assert(c.take(a.len() as int) =~= c.take(b.len() as int).take(a.len() as int));
}

proof fn lemma_file_hits_prefix(
    lines: Seq<Seq<char>>,
    f: int,
    j: int,
    k: int,
    pat: Seq<char>,
    ci: bool,
    contains: Option<Seq<char>>,
)
    requires
        j <= k,
    ensures
        prefix_of(file_hits(lines, f, j, pat, ci, contains), file_hits(lines, f, k, pat, ci, contains)),
    decreases k - j,
{
    let a = file_hits(lines, f, j, pat, ci, contains);
    if j == k {
        assert(a.take(a.len() as int) =~= a);
    } else {
        lemma_file_hits_prefix(lines, f, j, k - 1, pat, ci, contains);
        let b = file_hits(lines, f, k - 1, pat, ci, contains);
        let c = file_hits(lines, f, k, pat, ci, contains);
        if k > 0 && is_hit(lines[k - 1], pat, ci, contains) {
            assert(c.take(b.len() as int) =~= b);
        } else {
            assert(c.take(b.len() as int) =~= b);
        }
        lemma_prefix_trans(a, b, c);
    }
}

proof fn lemma_all_hits_prefix(
    files: Seq<FileLines>,
    n: int,
    m: int,
    pat: Seq<char>,
    ci: bool,
    contains: Option<Seq<char>>,
    filter: Option<Seq<char>>,
)
    requires
        n <= m,
    ensures
        prefix_of(all_hits(files, n, pat, ci, contains, filter), all_hits(files, m, pat, ci, contains, filter)),
    decreases m - n,
{
    let a = all_hits(files, n, pat, ci, contains, filter);
    if n == m {
        assert(a.take(a.len() as int) =~= a);
    } else {
        lemma_all_hits_prefix(files, n, m - 1, pat, ci, contains, filter);
        let b = all_hits(files, m - 1, pat, ci, contains, filter);
        let c = all_hits(files, m, pat, ci, contains, filter);
        if m > 0 {
            assert(c.take(b.len() as int) =~= b);
        } else {
            assert(c.take(b.len() as int) =~= b);
        }
        lemma_prefix_trans(a, b, c);
    }
}

/// `>` on the matched line of a context window, a space on the others.
pub open spec fn marker(on: bool) -> Seq<char> {
    if on {
        ">"@
    } else {
        " "@
    }
}

/// The context window's first line (0-based).
pub open spec fn ctx_lo(idx: int, ctx: int) -> int {
    if idx >= ctx {
        idx - ctx
    } else {
        0
    }
}

/// The context window's end (exclusive).
pub open spec fn ctx_hi(idx: int, ctx: int, len: int) -> int {
    if idx + 1 + ctx < len {
        idx + 1 + ctx
    } else {
        len
    }
}

/// Lines `lo..hi` of a context window, each as `{marker}{number}: {line}`.
pub open spec fn ctx_text(lines: Seq<Seq<char>>, lo: int, hi: int, idx: int) -> Seq<char>
    decreases hi - lo,
{
    if hi <= lo {
        seq![]
    } else {
        ctx_text(lines, lo, hi - 1, idx) + marker(hi - 1 == idx) + decimal(hi as nat) + ": "@ + lines[hi
            - 1] + "\n"@
    }
}

/// One match shown: `== {label}:{line index} ==`, then its window.
pub open spec fn block(label: Seq<char>, lines: Seq<Seq<char>>, idx: int, ctx: int) -> Seq<char> {
    "== "@ + label + ":"@ + decimal(idx as nat) + " ==\n"@ + ctx_text(
        lines,
        ctx_lo(idx, ctx),
        ctx_hi(idx, ctx, lines.len() as int),
        idx,
    )
}

/// The matches shown, one block each.
pub open spec fn blocks(files: Seq<FileLines>, hs: Seq<(int, int)>, ctx: int) -> Seq<char>
    decreases hs.len(),
{
    if hs.len() == 0 {
        seq![]
    } else {
        let (f, i) = hs.last();
        blocks(files, hs.drop_last(), ctx) + block(files[f].label@, string_views(files[f].lines@), i, ctx)
    }
}

fn push_str(out: &mut Vec<char>, s: &str)
    ensures
        final(out)@ == old(out)@ + s@,
{
    let c = chars_of(s);
    push_all(out, c.as_slice());
}

fn push_num(out: &mut Vec<char>, n: usize)
    ensures
        final(out)@ == old(out)@ + decimal(n as nat),
{
    let d = decimal_chars(n as u64);
    push_all(out, d.as_slice());
}

/// Appends the block of line `idx` of a file.
fn push_block(out: &mut Vec<char>, f: &FileLines, idx: usize, ctx: usize)
    requires
        idx < f.lines@.len(),
    ensures
        final(out)@ == old(out)@ + block(f.label@, string_views(f.lines@), idx as int, ctx as int),
{
    let ghost v = string_views(f.lines@);
    let len = f.lines.len();
    let lo = if idx >= ctx {
        idx - ctx
    } else {
        0
    };
    let hi = if ctx < len - idx - 1 {
        idx + 1 + ctx
    } else {
        len
    };
    push_str(out, "== ");
    push_str(out, f.label.as_str());
    push_str(out, ":");
    push_num(out, idx);
    push_str(out, " ==\n");
    let ghost head = out@;
    let mut k: usize = lo;
    while k < hi
        invariant
            lo <= k <= hi,
            hi <= len,
            len == f.lines@.len(),
            v == string_views(f.lines@),
            out@ == head + ctx_text(v, lo as int, k as int, idx as int),
        decreases hi - k,
    {
        if k == idx {
            push_str(out, ">");
        } else {
            push_str(out, " ");
        }
        push_num(out, k + 1);
        push_str(out, ": ");
        push_str(out, f.lines[k].as_str());
        push_str(out, "\n");
        k = k + 1;
    }
}

pub open spec fn pattern_opt(o: Option<Pattern>) -> Option<Seq<char>> {
    match o {
        Some(p) => Some(p.pattern()),
        None => None,
    }
}

/// What a scan found: the shown blocks, the matches counted, the matches
/// shown, and whether it stopped at the limit.
pub struct Scan {
    pub text: Vec<char>,
    pub total: usize,
    pub shown: usize,
    pub stopped: bool,
}

/// The scan's outcome for the matches `h`: below the limit every match is
/// shown; past it the first `limit` are shown and one more was counted.
pub open spec fn scanned(s: Scan, files: Seq<FileLines>, h: Seq<(int, int)>, ctx: int, limit: int) -> bool {
    if h.len() > limit {
        &&& s.stopped
        &&& s.total == limit + 1
        &&& s.shown == limit
        &&& s.text@ == blocks(files, h.take(limit), ctx)
    } else {
        &&& !s.stopped
        &&& s.total == h.len()
        &&& s.shown == h.len()
        &&& s.text@ == blocks(files, h, ctx)
    }
}

/// Walks the files in order and their lines in order, showing each match
/// with its context until `limit` matches were shown; the next match stops
/// the walk.
fn scan(
    files: &Vec<FileLines>,
    re: &Pattern,
    contains: &Option<String>,
    filter: &Option<Pattern>,
    ctx: usize,
    limit: usize,
) -> (r: Scan)
    requires
        limit < usize::MAX,
        filter matches Some(p) ==> !p.insensitive(),
    ensures
        scanned(
            r,
            files@,
            all_hits(
                files@,
                files@.len() as int,
                re.pattern(),
                re.insensitive(),
                text_opt(*contains),
                pattern_opt(*filter),
            ),
            ctx as int,
            limit as int,
        ),
{
    let ghost pat = re.pattern();
    let ghost ci = re.insensitive();
    let ghost cs = text_opt(*contains);
    let ghost fl = pattern_opt(*filter);
    let ghost fs = files@;
    let ghost h = all_hits(fs, fs.len() as int, pat, ci, cs, fl);
    let lc: Option<Vec<char>> = match contains {
        Some(s) => {
            let l = crate::text::to_lowercase(s.as_str());
            Some(chars_of(l.as_str()))
        },
        None => None,
    };
    let mut out: Vec<char> = Vec::new();
    let mut total: usize = 0;
    let mut shown: usize = 0;
    let mut stopped = false;
    let mut fi: usize = 0;
    while fi < files.len() && !stopped
        invariant
            fi <= files@.len(),
            fs == files@,
            pat == re.pattern(),
            ci == re.insensitive(),
            cs == text_opt(*contains),
            fl == pattern_opt(*filter),
            h == all_hits(fs, fs.len() as int, pat, ci, cs, fl),
            lc matches Some(v) ==> contains matches Some(s) && v@ == str_lowercase(s@),
            lc is None ==> contains is None,
            limit < usize::MAX,
            filter matches Some(p) ==> !p.insensitive(),
            !stopped ==> {
                let cur = all_hits(fs, fi as int, pat, ci, cs, fl);
                &&& total == cur.len()
                &&& shown == cur.len()
                &&& shown <= limit
                &&& out@ == blocks(fs, cur, ctx as int)
            },
            stopped ==> scanned(Scan { text: out, total, shown, stopped }, fs, h, ctx as int, limit as int),
        decreases files.len() - fi,
    {
        let f = &files[fi];
        let ok_f = match filter {
            None => true,
            Some(p) => p.is_match(f.label.as_str()),
        };
        let ghost base = all_hits(fs, fi as int, pat, ci, cs, fl);
        let ghost lv = string_views(f.lines@);
        assert(fs[fi as int] == *f);
        if ok_f {
            let mut li: usize = 0;
            while li < f.lines.len() && !stopped
                invariant
                    fi < files@.len(),
                    fs == files@,
                    fs[fi as int] == *f,
                    lv == string_views(f.lines@),
                    searched(f.label@, fl),
                    li <= f.lines@.len(),
                    pat == re.pattern(),
                    ci == re.insensitive(),
                    cs == text_opt(*contains),
                    fl == pattern_opt(*filter),
                    h == all_hits(fs, fs.len() as int, pat, ci, cs, fl),
                    base == all_hits(fs, fi as int, pat, ci, cs, fl),
                    lc matches Some(v) ==> contains matches Some(s) && v@ == str_lowercase(s@),
                    lc is None ==> contains is None,
                    limit < usize::MAX,
                    !stopped ==> {
                        let cur = base + file_hits(lv, fi as int, li as int, pat, ci, cs);
                        &&& total == cur.len()
                        &&& shown == cur.len()
                        &&& shown <= limit
                        &&& out@ == blocks(fs, cur, ctx as int)
                    },
                    stopped ==> scanned(
                        Scan { text: out, total, shown, stopped },
                        fs,
                        h,
                        ctx as int,
                        limit as int,
                    ),
                decreases f.lines.len() - li,
            {
                let line = f.lines[li].as_str();
                assert(lv[li as int] == line@);
                let ok_c = match &lc {
                    None => true,
                    Some(cv) => {
                        let l = crate::text::to_lowercase(line);
                        let lcs = chars_of(l.as_str());
                        crate::text::contains_chars(lcs.as_slice(), cv.as_slice())
                    },
                };
                let m = ok_c && re.is_match(line);
                assert(m == is_hit(line@, pat, ci, cs));
                let ghost cur = base + file_hits(lv, fi as int, li as int, pat, ci, cs);
                let ghost next = base + file_hits(lv, fi as int, li + 1, pat, ci, cs);
                if m {
                    assert(next =~= cur.push((fi as int, li as int)));
                    total = total + 1;
                    if shown >= limit {
                        stopped = true;
                        proof {
                            lemma_file_hits_prefix(lv, fi as int, li + 1, lv.len() as int, pat, ci, cs);
                            let whole = base + file_hits(lv, fi as int, lv.len() as int, pat, ci, cs);
                            assert(whole == all_hits(fs, fi + 1, pat, ci, cs, fl));
                            let fh = file_hits(lv, fi as int, li + 1, pat, ci, cs);
                            let fw = file_hits(lv, fi as int, lv.len() as int, pat, ci, cs);
                            assert(whole.take(next.len() as int) =~= base + fw.take(fh.len() as int));
                            lemma_all_hits_prefix(fs, fi + 1, fs.len() as int, pat, ci, cs, fl);
                            lemma_prefix_trans(next, whole, h);
                            assert(h.take(limit as int) =~= next.take(limit as int));
                            assert(next.take(limit as int) =~= cur);
                        }
                    } else {
                        push_block(&mut out, f, li, ctx);
                        shown = shown + 1;
                        assert(next.drop_last() =~= cur);
                    }
                } else {
                    assert(next =~= cur);
                }
                li = li + 1;
            }
            proof {
                if !stopped {
                    assert(li == f.lines@.len());
                    assert(base + file_hits(lv, fi as int, li as int, pat, ci, cs) == all_hits(
                        fs,
                        fi + 1,
                        pat,
                        ci,
                        cs,
                        fl,
                    ));
                }
            }
        } else {
            assert(base + seq![] =~= base);
            assert(all_hits(fs, fi + 1, pat, ci, cs, fl) =~= base);
        }
        fi = fi + 1;
    }
    proof {
        if !stopped {
            assert(fi == fs.len());
        }
    }
    Scan { text: out, total, shown, stopped }
}

/// The number of context lines a search shows around a match.
pub open spec fn ctx_of(context: Option<usize>) -> int {
    clamp(or_default(context, 0), 0, 5)
}

/// The most matches a search shows.
pub open spec fn limit_of(limit: Option<usize>) -> int {
    clamp(or_default(limit, MAX_RESULTS as int), 1, MAX_RESULTS as int)
}

/// The matches `log_search` finds in the readable log files.
pub open spec fn log_hits(p: LogSearchInput, files: Seq<FileLines>) -> Seq<(int, int)> {
    all_hits(files, files.len() as int, p.pattern@, true, text_opt(p.contains), None)
}

/// The `log_search` report: the shown matches, then the count of matches
/// (one past the limit when it was reached), of log files, and of matches
/// shown.
pub open spec fn log_search_text(p: LogSearchInput, files: Seq<FileLines>, listed: int) -> Seq<char> {
    let h = log_hits(p, files);
    let lim = limit_of(p.limit);
    let n = if h.len() > lim {
        lim
    } else {
        h.len() as int
    };
    let total = if h.len() > lim {
        lim + 1
    } else {
        h.len() as int
    };
    blocks(files, h.take(n), ctx_of(p.context)) + "-- "@ + decimal(total as nat) + " matches across "@
        + decimal(listed as nat) + " file(s), "@ + decimal(n as nat) + " shown\n"@
}

/// `log_search`: a case-insensitive regex search over the log files (the
/// readable ones, newest first, out of `listed` listed), with context; a
/// pattern the regex crate refuses is a `Regex` error.
pub fn log_search(p: &LogSearchInput, files: &Vec<FileLines>, listed: usize) -> (r: Result<String, DebugError>)
    ensures
        match r {
            Ok(t) => regex_compiles(p.pattern@, true) && t@ == log_search_text(*p, files@, listed as int),
            Err(e) => !regex_compiles(p.pattern@, true) && (e matches DebugError::Regex { pat, msg }
                && pat@ == p.pattern@),
        },
{
    let re = match Pattern::build(p.pattern.as_str(), true) {
        Ok(re) => re,
        Err(msg) => {
            return Err(DebugError::Regex { pat: p.pattern.clone(), msg });
        },
    };
    let ctx = clamp_usize(
        match p.context {
            Some(c) => c,
            None => 0,
        },
        0,
        5,
    );
    let limit = clamp_usize(
        match p.limit {
            Some(l) => l,
            None => MAX_RESULTS,
        },
        1,
        MAX_RESULTS,
    );
    let none: Option<Pattern> = None;
    let s = scan(files, &re, &p.contains, &none, ctx, limit);
    let mut out = s.text;
    push_str(&mut out, "-- ");
    push_num(&mut out, s.total);
    push_str(&mut out, " matches across ");
    push_num(&mut out, listed);
    push_str(&mut out, " file(s), ");
    push_num(&mut out, s.shown);
    push_str(&mut out, " shown\n");
    proof {
        let h = log_hits(*p, files@);
        if h.len() <= limit {
            assert(h.take(h.len() as int) =~= h);
        }
    }
    Ok(string_of(out.as_slice()))
}

/// The matches `code_grep` finds in the walked files.
pub open spec fn grep_hits(p: GrepInput, files: Seq<FileLines>) -> Seq<(int, int)> {
    all_hits(files, files.len() as int, p.pattern@, p.case_insensitive, None, text_opt(p.file_pattern))
}

/// The `code_grep` report: the shown matches, then either where the walk
/// stopped (one match past the limit) or the counts.
pub open spec fn grep_text(p: GrepInput, files: Seq<FileLines>) -> Seq<char> {
    let h = grep_hits(p, files);
    let lim = limit_of(p.limit);
    let ctx = ctx_of(p.context);
    if h.len() > lim {
        blocks(files, h.take(lim), ctx) + "-- stopped at "@ + decimal((lim + 1) as nat) + " total matches\n"@
    } else {
        blocks(files, h, ctx) + "-- "@ + decimal(h.len()) + " total matches, "@ + decimal(h.len())
            + " shown\n"@
    }
}

/// `code_grep`: a regex search over the walked source files (those whose
/// relative path matches the file pattern, when one is given), with
/// context. A pattern the regex crate refuses is a `Regex` error naming it,
/// the search pattern first.
pub fn code_grep(p: &GrepInput, files: &Vec<FileLines>) -> (r: Result<String, DebugError>)
    ensures
        match r {
            Ok(t) => regex_compiles(p.pattern@, p.case_insensitive) && (p.file_pattern matches Some(
                fp,
            ) ==> regex_compiles(fp@, false)) && t@ == grep_text(*p, files@),
            Err(e) => if !regex_compiles(p.pattern@, p.case_insensitive) {
                e matches DebugError::Regex { pat, msg } && pat@ == p.pattern@
            } else {
                p.file_pattern matches Some(fp) && !regex_compiles(fp@, false) && (
                e matches DebugError::Regex { pat, msg } && pat@ == fp@)
            },
        },
{
    let re = match Pattern::build(p.pattern.as_str(), p.case_insensitive) {
        Ok(re) => re,
        Err(msg) => {
            return Err(DebugError::Regex { pat: p.pattern.clone(), msg });
        },
    };
    let filter: Option<Pattern> = match &p.file_pattern {
        Some(fp) => match Pattern::compile(fp.as_str()) {
            Ok(f) => Some(f),
            Err(msg) => {
                return Err(DebugError::Regex { pat: fp.clone(), msg });
            },
        },
        None => None,
    };
    assert(pattern_opt(filter) == text_opt(p.file_pattern));
    let ctx = clamp_usize(
        match p.context {
            Some(c) => c,
            None => 0,
        },
        0,
        5,
    );
    let limit = clamp_usize(
        match p.limit {
            Some(l) => l,
            None => MAX_RESULTS,
        },
        1,
        MAX_RESULTS,
    );
    let none: Option<String> = None;
    let s = scan(files, &re, &none, &filter, ctx, limit);
    let mut out = s.text;
    if s.stopped {
        push_str(&mut out, "-- stopped at ");
        push_num(&mut out, s.total);
        push_str(&mut out, " total matches\n");
    } else {
        push_str(&mut out, "-- ");
        push_num(&mut out, s.total);
        push_str(&mut out, " total matches, ");
        push_num(&mut out, s.shown);
        push_str(&mut out, " shown\n");
    }
    Ok(string_of(out.as_slice()))
}

} // verus!
