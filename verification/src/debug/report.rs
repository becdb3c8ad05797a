//! The text reports of the debugging tools, built from what the server read
//! (log and source lines, file lists, git output).

use vstd::prelude::*;
use crate::debug::inputs::{GitDiffInput, GitLogInput, LogTailInput, ReadInput};
use crate::hook::pattern::string_views;
use crate::text::{
    chars_of, contains_at_least_once, decimal, decimal_chars, push_all, str_lowercase,
    str_uppercase, string_of,
};

verus! {

/// The most result lines or matches one call surfaces.
pub const MAX_RESULTS: usize = 100;

/// The default tail window of `log_tail`.
pub const DEFAULT_TAIL: usize = 200;

/// Lines per log file before the writer rotates.
pub const LOG_LINES_PER_FILE: usize = 2000;

/// Rotated log files kept.
pub const LOG_FILE_RETENTION: usize = 20;

/// A file the server read: its label (the path relative to the root it
/// was found under) and its lines.
pub struct FileLines {
    pub label: String,
    pub lines: Vec<String>,
}

pub open spec fn clamp(v: int, lo: int, hi: int) -> int {
    if v < lo {
        lo
    } else if v > hi {
        hi
    } else {
        v
    }
}

/// `v.clamp(lo, hi)`.
pub fn clamp_usize(v: usize, lo: usize, hi: usize) -> (r: usize)
    requires
        lo <= hi,
    ensures
        r == clamp(v as int, lo as int, hi as int),
{
    if v < lo {
        lo
    } else if v > hi {
        hi
    } else {
        v
    }
}

pub open spec fn text_opt(o: Option<String>) -> Option<Seq<char>> {
    match o {
        Some(s) => Some(s@),
        None => None,
    }
}

pub open spec fn or_default(o: Option<usize>, d: int) -> int {
    match o {
        Some(n) => n as int,
        None => d,
    }
}

/// The lines, each followed by a newline.
pub open spec fn lines_text(ls: Seq<Seq<char>>) -> Seq<char>
    decreases ls.len(),
{
    if ls.len() == 0 {
        seq![]
    } else {
        lines_text(ls.drop_last()) + ls.last() + "\n"@
    }
}

fn push_str(out: &mut Vec<char>, s: &str)
    ensures
        final(out)@ == old(out)@ + s@,
{
    let c = chars_of(s);
    push_all(out, c.as_slice());
}

fn push_num(out: &mut Vec<char>, n: usize)
    ensures
        final(out)@ == old(out)@ + decimal(n as nat),
{
    let d = decimal_chars(n as u64);
    push_all(out, d.as_slice());
}

// ---------------------------------------------------------------------------
// log_tail
// ---------------------------------------------------------------------------

/// A log line passes the `log_tail` filters: it contains the `contains`
/// text ignoring case, and ` LEVEL ` (the console shape of a tracing
/// level) for the upper-cased `level`.
pub open spec fn tail_keep(line: Seq<char>, contains: Option<Seq<char>>, level: Option<Seq<char>>) -> bool {
    &&& (contains matches Some(c) ==> contains_at_least_once(str_lowercase(line), str_lowercase(c)))
    &&& (level matches Some(l) ==> contains_at_least_once(line, " "@ + str_uppercase(l) + " "@))
}

/// The lines passing the `log_tail` filters, in order.
pub open spec fn kept(lines: Seq<Seq<char>>, contains: Option<Seq<char>>, level: Option<Seq<char>>) -> Seq<
    Seq<char>,
>
    decreases lines.len(),
{
    if lines.len() == 0 {
        seq![]
    } else {
        let r = kept(lines.drop_last(), contains, level);
        if tail_keep(lines.last(), contains, level) {
            r.push(lines.last())
        } else {
            r
        }
    }
}

pub proof fn lemma_kept_append(
    a: Seq<Seq<char>>,
    b: Seq<Seq<char>>,
    contains: Option<Seq<char>>,
    level: Option<Seq<char>>,
)
    ensures
        kept(a + b, contains, level) == kept(a, contains, level) + kept(b, contains, level),
    decreases b.len(),
{
    if b.len() == 0 {
        assert(a + b =~= a);
        assert(kept(b, contains, level) =~= seq![]);
        assert(kept(a, contains, level) + kept(b, contains, level) =~= kept(a, contains, level));
    } else {
        lemma_kept_append(a, b.drop_last(), contains, level);
        assert((a + b).drop_last() =~= a + b.drop_last());
        assert((a + b).last() == b.last());
        let ka = kept(a, contains, level);
        let kb = kept(b.drop_last(), contains, level);
        if tail_keep(b.last(), contains, level) {
            assert(ka + kb.push(b.last()) =~= (ka + kb).push(b.last()));
        }
    }
}

/// The number of last lines `log_tail` inspects.
pub open spec fn tail_window(p: LogTailInput) -> int {
    clamp(or_default(p.lines, DEFAULT_TAIL as int), 1, 2000)
}

/// The lines `log_tail` shows: the filtered lines of the window, at most
/// `MAX_RESULTS` of them.
pub open spec fn tail_shown(lines: Seq<Seq<char>>, p: LogTailInput) -> Seq<Seq<char>> {
    let want = tail_window(p);
    let start = if lines.len() > want {
        lines.len() - want
    } else {
        0
    };
    let k = kept(lines.subrange(start, lines.len() as int), text_opt(p.contains), text_opt(p.level));
    if k.len() > MAX_RESULTS {
        k.take(MAX_RESULTS as int)
    } else {
        k
    }
}

/// The `log_tail` report on the latest log file.
pub open spec fn tail_text(label: Seq<char>, lines: Seq<Seq<char>>, p: LogTailInput) -> Seq<char> {
    let shown = tail_shown(lines, p);
    "# "@ + label + " ("@ + decimal(lines.len()) + " lines)\n"@ + lines_text(shown) + "-- "@
        + decimal(shown.len()) + " matching lines (capped)\n"@
}

/// `log_tail`: the last lines of the latest log file, filtered by text and
/// level and capped; a note when there is no log file.
pub fn log_tail(p: &LogTailInput, latest: Option<&FileLines>) -> (r: String)
    ensures
        r@ == match latest {
            None => "no agpeer log files found"@,
            Some(f) => tail_text(f.label@, string_views(f.lines@), *p),
        },
{
    let f = match latest {
        None => {
            let t = chars_of("no agpeer log files found");
            return string_of(t.as_slice());
        },
        Some(f) => f,
    };
    let ghost v = string_views(f.lines@);
    let want = clamp_usize(
        match p.lines {
            Some(n) => n,
            None => DEFAULT_TAIL,
        },
        1,
        2000,
    );
    let c: Option<Vec<char>> = match &p.contains {
        Some(s) => {
            let l = crate::text::to_lowercase(s.as_str());
            Some(chars_of(l.as_str()))
        },
        None => None,
    };
    let lv: Option<Vec<char>> = match &p.level {
        Some(s) => {
            let u = crate::text::to_uppercase(s.as_str());
            let mut n: Vec<char> = Vec::new();
            push_str(&mut n, " ");
            push_str(&mut n, u.as_str());
            push_str(&mut n, " ");
            assert(n@ =~= " "@ + str_uppercase(s@) + " "@);
            Some(n)
        },
        None => None,
    };
    let n = f.lines.len();
    let start = if n > want {
        n - want
    } else {
        0
    };
    let mut out: Vec<char> = Vec::new();
    push_str(&mut out, "# ");
    push_str(&mut out, f.label.as_str());
    push_str(&mut out, " (");
    push_num(&mut out, n);
    push_str(&mut out, " lines)\n");
    let ghost head = out@;
    let mut shown: usize = 0;
    let mut i: usize = start;
    while i < n && shown < MAX_RESULTS
        invariant
            start <= i <= n,
            n == f.lines@.len(),
            v == string_views(f.lines@),
            c matches Some(cv) ==> p.contains matches Some(s) && cv@ == str_lowercase(s@),
            c is None ==> p.contains is None,
            lv matches Some(lvv) ==> p.level matches Some(s) && lvv@ == " "@ + str_uppercase(s@)
                + " "@,
            lv is None ==> p.level is None,
            shown == kept(v.subrange(start as int, i as int), text_opt(p.contains), text_opt(p.level)).len(),
            shown <= MAX_RESULTS,
            out@ == head + lines_text(
                kept(v.subrange(start as int, i as int), text_opt(p.contains), text_opt(p.level)),
            ),
        decreases n - i,
    {
        let line = f.lines[i].as_str();
        assert(v[i as int] == line@);
        let ok_c = match &c {
            None => true,
            Some(cv) => {
                let l = crate::text::to_lowercase(line);
                let lc = chars_of(l.as_str());
                crate::text::contains_chars(lc.as_slice(), cv.as_slice())
            },
        };
        let ok_l = match &lv {
            None => true,
            Some(lvv) => {
                let lc = chars_of(line);
                crate::text::contains_chars(lc.as_slice(), lvv.as_slice())
            },
        };
        assert(v.subrange(start as int, i + 1).drop_last() =~= v.subrange(start as int, i as int));
        assert(v.subrange(start as int, i + 1).last() == line@);
        let ghost kb = kept(v.subrange(start as int, i as int), text_opt(p.contains), text_opt(p.level));
        assert((ok_c && ok_l) == tail_keep(line@, text_opt(p.contains), text_opt(p.level)));
        if ok_c && ok_l {
            push_str(&mut out, line);
            push_str(&mut out, "\n");
            shown = shown + 1;
            assert(kb.push(line@).drop_last() =~= kb);
            assert(out@ =~= head + lines_text(kb.push(line@)));
        }
        i = i + 1;
    }
    proof {
        let w = v.subrange(start as int, n as int);
        let pre = v.subrange(start as int, i as int);
        let rest = v.subrange(i as int, n as int);
        assert(w =~= pre + rest);
        lemma_kept_append(pre, rest, text_opt(p.contains), text_opt(p.level));
        let k = kept(w, text_opt(p.contains), text_opt(p.level));
        let kp = kept(pre, text_opt(p.contains), text_opt(p.level));
        if i < n {
            assert(shown == MAX_RESULTS);
            assert(k.take(MAX_RESULTS as int) =~= kp);
        } else {
            assert(pre =~= w);
        }
        assert(tail_shown(v, *p) == kp);
    }
    push_str(&mut out, "-- ");
    push_num(&mut out, shown);
    push_str(&mut out, " matching lines (capped)\n");
    string_of(out.as_slice())
}

// ---------------------------------------------------------------------------
// code_read
// ---------------------------------------------------------------------------

/// The first line `code_read` shows (1-based).
pub open spec fn read_start(p: ReadInput) -> int {
    let s = or_default(p.start, 1);
    if s < 1 {
        1
    } else {
        s
    }
}

/// The number of lines `code_read` shows at most.
pub open spec fn read_count(p: ReadInput, len: int) -> int {
    clamp(or_default(p.lines, len), 1, 1000)
}

/// Lines `lo..hi` (0-based) of the file, each as `{number}: {line}`.
pub open spec fn numbered(lines: Seq<Seq<char>>, lo: int, hi: int) -> Seq<char>
    decreases hi - lo,
{
    if hi <= lo {
        seq![]
    } else {
        numbered(lines, lo, hi - 1) + decimal(hi as nat) + ": "@ + lines[hi - 1] + "\n"@
    }
}

/// The `code_read` report: the labelled file's lines from the start line,
/// as many as asked, numbered.
pub open spec fn read_text(label: Seq<char>, lines: Seq<Seq<char>>, p: ReadInput) -> Seq<char> {
    let lo = read_start(p) - 1;
    let end = read_start(p) + read_count(p, lines.len() as int) - 1;
    let hi = if end < lines.len() {
        end
    } else {
        lines.len() as int
    };
    "# "@ + label + "\n"@ + numbered(lines, lo, hi)
}

/// `code_read`: a range of a file's lines, numbered.
pub fn code_read(p: &ReadInput, label: &str, lines: &Vec<String>) -> (r: String)
    requires
        read_start(*p) + read_count(*p, lines.len() as int) <= usize::MAX,
    ensures
        r@ == read_text(label@, string_views(lines@), *p),
{
    let ghost v = string_views(lines@);
    let start = match p.start {
        Some(s) => if s < 1 {
            1
        } else {
            s
        },
        None => 1,
    };
    let count = clamp_usize(
        match p.lines {
            Some(n) => n,
            None => lines.len(),
        },
        1,
        1000,
    );
    let end = start + count - 1;
    let hi = if end < lines.len() {
        end
    } else {
        lines.len()
    };
    let mut out: Vec<char> = Vec::new();
    push_str(&mut out, "# ");
    push_str(&mut out, label);
    push_str(&mut out, "\n");
    let ghost head = out@;
    let lo = start - 1;
    let mut j: usize = lo;
    if lo < hi {
        while j < hi
            invariant
                lo <= j <= hi,
                hi <= lines@.len(),
                v == string_views(lines@),
                out@ == head + numbered(v, lo as int, j as int),
            decreases hi - j,
        {
            push_num(&mut out, j + 1);
            push_str(&mut out, ": ");
            push_str(&mut out, lines[j].as_str());
            push_str(&mut out, "\n");
            j = j + 1;
        }
    } else {
        assert(numbered(v, lo as int, hi as int) =~= seq![]);
    }
    string_of(out.as_slice())
}

// ---------------------------------------------------------------------------
// runtime_info and git
// ---------------------------------------------------------------------------

/// The `runtime_info` report: the roots in use, the log rotation settings
/// and the latest log file with its size.
pub open spec fn runtime_text(root: Seq<char>, log_dir: Seq<char>, latest: Option<(Seq<char>, u64)>) -> Seq<
    char,
> {
    "root:     "@ + root + "\nlog_dir:  "@ + log_dir + "\nlog_rotation: "@ + decimal(
        LOG_LINES_PER_FILE as nat,
    ) + " lines/file, "@ + decimal(LOG_FILE_RETENTION as nat) + " files retained\n"@ + match latest {
        Some((path, size)) => "latest_log: "@ + path + " ("@ + decimal(size as nat) + " bytes)\n"@,
        None => "latest_log: (none found)\n"@,
    }
}

/// `runtime_info`: where the server looks, and the latest log file.
pub fn runtime_info(root: &str, log_dir: &str, latest: Option<(&str, u64)>) -> (r: String)
    ensures
        r@ == runtime_text(
            root@,
            log_dir@,
            match latest {
                Some((p, s)) => Some((p@, s)),
                None => None,
            },
        ),
{
    let mut out: Vec<char> = Vec::new();
    push_str(&mut out, "root:     ");
    push_str(&mut out, root);
    push_str(&mut out, "\nlog_dir:  ");
    push_str(&mut out, log_dir);
    push_str(&mut out, "\nlog_rotation: ");
    push_num(&mut out, LOG_LINES_PER_FILE);
    push_str(&mut out, " lines/file, ");
    push_num(&mut out, LOG_FILE_RETENTION);
    push_str(&mut out, " files retained\n");
    match latest {
        Some((path, size)) => {
            push_str(&mut out, "latest_log: ");
            push_str(&mut out, path);
            push_str(&mut out, " (");
            let d = decimal_chars(size);
            push_all(&mut out, d.as_slice());
            push_str(&mut out, " bytes)\n");
        },
        None => {
            push_str(&mut out, "latest_log: (none found)\n");
        },
    }
    string_of(out.as_slice())
}

/// The number of lines `str::lines` finds in a text: one per newline, and
/// one more for a last line without one.
pub open spec fn line_count(s: Seq<char>) -> int {
    newlines(s) + if s.len() > 0 && s.last() != '\n' {
        1int
    } else {
        0
    }
}

/// The number of newline characters in a text.
pub open spec fn newlines(s: Seq<char>) -> int
    decreases s.len(),
{
    if s.len() == 0 {
        0
    } else {
        newlines(s.drop_last()) + if s.last() == '\n' {
            1int
        } else {
            0
        }
    }
}

pub proof fn lemma_newlines_append(a: Seq<char>, b: Seq<char>)
    ensures
        newlines(a + b) == newlines(a) + newlines(b),
        0 <= newlines(a) <= a.len(),
    decreases b.len() + a.len(),
{
    if b.len() == 0 {
        assert(a + b =~= a);
        if a.len() > 0 {
            lemma_newlines_append(a.drop_last(), b);
        }
    } else {
        lemma_newlines_append(a, b.drop_last());
        assert((a + b).drop_last() =~= a + b.drop_last());
    }
}

/// The newlines in a text.
pub fn count_newlines(s: &[char]) -> (n: usize)
    ensures
        n == newlines(s@),
{
    let mut n: usize = 0;
    let mut i: usize = 0;
    while i < s.len()
        invariant
            i <= s.len(),
            n == newlines(s@.take(i as int)),
            n <= i,
        decreases s.len() - i,
    {
        assert(s@.take(i + 1).drop_last() =~= s@.take(i as int));
        proof {
            lemma_newlines_append(s@.take(i as int), seq![s@[i as int]]);
        }
        if s[i] == '\n' {
            n = n + 1;
        }
        i = i + 1;
    }
    assert(s@.take(s.len() as int) =~= s@);
    n
}

/// The `git_status` report: branch, last commit, and the short status with
/// its line count.
pub open spec fn git_status_text(branch: Seq<char>, last: Seq<char>, short: Seq<char>) -> Seq<char> {
    "branch: "@ + branch + "\nlast:   "@ + last + "\n--- status --short ("@ + decimal(
        line_count(short) as nat,
    ) + ") ---\n"@ + short
}

/// `git_status`: the summary of what git reported.
pub fn git_status_report(branch: &str, last: &str, short: &str) -> (r: String)
    ensures
        r@ == git_status_text(branch@, last@, short@),
{
    let sc = chars_of(short);
    let nl = count_newlines(sc.as_slice());
    proof {
        if sc@.len() > 0 {
            lemma_newlines_append(sc@.drop_last(), seq![sc@.last()]);
            assert(sc@.drop_last() + seq![sc@.last()] =~= sc@);
            assert(newlines(seq![sc@.last()]) == if sc@.last() == '\n' { 1int } else { 0 }) by {
                assert(seq![sc@.last()].drop_last() =~= Seq::<char>::empty());
            }
        }
    }
    let lines = if sc.len() > 0 && sc[sc.len() - 1] != '\n' {
        nl + 1
    } else {
        nl
    };
    let mut out: Vec<char> = Vec::new();
    push_str(&mut out, "branch: ");
    push_str(&mut out, branch);
    push_str(&mut out, "\nlast:   ");
    push_str(&mut out, last);
    push_str(&mut out, "\n--- status --short (");
    push_num(&mut out, lines);
    push_str(&mut out, ") ---\n");
    push_all(&mut out, sc.as_slice());
    string_of(out.as_slice())
}

/// The number of commits `git_log` lists.
pub open spec fn git_log_count(p: GitLogInput) -> int {
    clamp(or_default(p.limit, 20), 1, 100)
}

/// `git_log`'s arguments: one line per commit, for the last commits.
pub fn git_log_args(p: &GitLogInput) -> (r: Vec<String>)
    ensures
        string_views(r@) == seq!["log"@, "--oneline"@, "-"@ + decimal(git_log_count(*p) as nat)],
{
    let n = clamp_usize(
        match p.limit {
            Some(n) => n,
            None => 20,
        },
        1,
        100,
    );
    let mut a: Vec<String> = Vec::new();
    let l = chars_of("log");
    a.push(string_of(l.as_slice()));
    let o = chars_of("--oneline");
    a.push(string_of(o.as_slice()));
    let mut c: Vec<char> = Vec::new();
    push_str(&mut c, "-");
    push_num(&mut c, n);
    a.push(string_of(c.as_slice()));
    assert(string_views(a@) =~= seq!["log"@, "--oneline"@, "-"@ + decimal(git_log_count(*p) as nat)]);
    a
}

/// `git_diff`'s arguments: the diff of one path, the full diff, or its
/// `--stat` summary.
pub open spec fn git_diff_spec(p: GitDiffInput) -> Seq<Seq<char>> {
    match p.path {
        Some(path) => seq!["diff"@, "--"@, path@],
        None => if p.full {
            seq!["diff"@]
        } else {
            seq!["diff"@, "--stat"@]
        },
    }
}

/// `git_diff`'s arguments.
pub fn git_diff_args(p: &GitDiffInput) -> (r: Vec<String>)
    ensures
        string_views(r@) == git_diff_spec(*p),
{
    let mut a: Vec<String> = Vec::new();
    let d = chars_of("diff");
    a.push(string_of(d.as_slice()));
    match &p.path {
        Some(path) => {
            let s = chars_of("--");
            a.push(string_of(s.as_slice()));
            a.push(path.clone());
        },
        None => {
            if !p.full {
                let s = chars_of("--stat");
                a.push(string_of(s.as_slice()));
            }
        },
    }
    assert(string_views(a@) =~= git_diff_spec(*p));
    a
}

} // verus!
