//! Path text helpers. Paths are read as on Windows, the platform library
//! roots default to: both `/` and `\` separate components, so POSIX paths
//! read the same way.

use vstd::prelude::*;
use crate::text::slice_chars;

verus! {

pub open spec fn is_sep(c: char) -> bool {
    c == '/' || c == '\\'
}

/// The length of `s[..n]` without its trailing separators.
pub open spec fn trim_len(s: Seq<char>, n: int) -> int
    decreases n,
{
    if n <= 0 {
        0
    } else if is_sep(s[n - 1]) {
        trim_len(s, n - 1)
    } else {
        n
    }
}

/// The position of the last separator in `s[..n]`, or -1.
pub open spec fn last_sep_before(s: Seq<char>, n: int) -> int
    decreases n,
{
    if n <= 0 {
        -1
    } else if is_sep(s[n - 1]) {
        n - 1
    } else {
        last_sep_before(s, n - 1)
    }
}

/// The bounds of the final normal component of `s[..n]` (`Path::file_name`):
/// trailing separators and `.` components are skipped; an empty path or a
/// final `..` has none.
pub open spec fn name_bounds(s: Seq<char>, n: int) -> Option<(int, int)>
    decreases n,
{
    let t = trim_len(s, n);
    let i = last_sep_before(s, t);
    if t - (i + 1) == 1 && s[i + 1] == '.' {
        if 0 <= i && i < n {
            name_bounds(s, i)
        } else {
            None
        }
    } else if t == i + 1 || (t - (i + 1) == 2 && s[i + 1] == '.' && s[i + 2] == '.') {
        None
    } else {
        Some((i + 1, t))
    }
}

/// The bounds of the component before the final one (`Path::parent` then
/// `Path::file_name`).
pub open spec fn parent_name_bounds(s: Seq<char>, n: int) -> Option<(int, int)>
    decreases n,
{
    let t = trim_len(s, n);
    let i = last_sep_before(s, t);
    if t - (i + 1) == 1 && s[i + 1] == '.' {
        if 0 <= i && i < n {
            parent_name_bounds(s, i)
        } else {
            None
        }
    } else if 0 <= i && i < n {
        name_bounds(s, i)
    } else {
        None
    }
}

pub open spec fn file_name(p: Seq<char>) -> Option<Seq<char>> {
    match name_bounds(p, p.len() as int) {
        Some((a, b)) => Some(p.subrange(a, b)),
        None => None,
    }
}

pub open spec fn parent_name(p: Seq<char>) -> Option<Seq<char>> {
    match parent_name_bounds(p, p.len() as int) {
        Some((a, b)) => Some(p.subrange(a, b)),
        None => None,
    }
}

/// The position of the last `.` in `s`, or -1.
pub open spec fn last_dot(s: Seq<char>) -> int
    decreases s.len(),
{
    if s.len() == 0 {
        -1
    } else if s.last() == '.' {
        s.len() - 1
    } else {
        last_dot(s.drop_last())
    }
}

/// `Path::file_stem`: the file name without its final extension; a name
/// without a dot, or whose only dot leads, is its own stem.
pub open spec fn file_stem(p: Seq<char>) -> Option<Seq<char>> {
    match file_name(p) {
        Some(n) => if last_dot(n) <= 0 {
            Some(n)
        } else {
            Some(n.subrange(0, last_dot(n)))
        },
        None => None,
    }
}

/// `Path::extension`: the text after the final dot of the file name, when
/// the name has a dot other than a leading one.
pub open spec fn extension(p: Seq<char>) -> Option<Seq<char>> {
    match file_name(p) {
        Some(n) => if last_dot(n) <= 0 {
            None
        } else {
            Some(n.subrange(last_dot(n) + 1, n.len() as int))
        },
        None => None,
    }
}

/// The separator joining onto `base`: `\` when the base already uses it.
pub open spec fn sep_for(base: Seq<char>) -> char {
    if base.contains('\\') { '\\' } else { '/' }
}

/// `base` joined with a relative `name`.
pub open spec fn join(base: Seq<char>, name: Seq<char>) -> Seq<char> {
    if base.len() == 0 {
        name
    } else if is_sep(base.last()) {
        base + name
    } else {
        base + seq![sep_for(base)] + name
    }
}

pub proof fn lemma_trim_len(s: Seq<char>, n: int)
    requires
        0 <= n <= s.len(),
    ensures
        0 <= trim_len(s, n) <= n,
        trim_len(s, n) > 0 ==> !is_sep(s[trim_len(s, n) - 1]),
    decreases n,
{
    if n > 0 && is_sep(s[n - 1]) {
        lemma_trim_len(s, n - 1);
    }
}

pub proof fn lemma_last_sep(s: Seq<char>, n: int)
    requires
        0 <= n <= s.len(),
    ensures
        -1 <= last_sep_before(s, n) < n,
        last_sep_before(s, n) >= 0 ==> is_sep(s[last_sep_before(s, n)]),
        forall|j: int| last_sep_before(s, n) < j < n ==> !is_sep(#[trigger] s[j]),
    decreases n,
{
    if n > 0 && !is_sep(s[n - 1]) {
        lemma_last_sep(s, n - 1);
    }
}

fn is_sep_char(c: char) -> (b: bool)
    ensures
        b == is_sep(c),
{
    c == '/' || c == '\\'
}

fn trim_len_exec(s: &[char], n: usize) -> (t: usize)
    requires
        n <= s.len(),
    ensures
        t == trim_len(s@, n as int),
    decreases n,
{
    if n == 0 {
        0
    } else if is_sep_char(s[n - 1]) {
        trim_len_exec(s, n - 1)
    } else {
        n
    }
}

fn last_sep_exec(s: &[char], n: usize) -> (i: Option<usize>)
    requires
        n <= s.len(),
    ensures
        match i {
            Some(k) => last_sep_before(s@, n as int) == k as int,
            None => last_sep_before(s@, n as int) == -1,
        },
    decreases n,
{
    if n == 0 {
        None
    } else if is_sep_char(s[n - 1]) {
        Some(n - 1)
    } else {
        last_sep_exec(s, n - 1)
    }
}

/// The bounds of the final component of `s[..n]`.
pub fn name_bounds_exec(s: &[char], n: usize) -> (r: Option<(usize, usize)>)
    requires
        n <= s.len(),
    ensures
        match r {
            Some((a, b)) => name_bounds(s@, n as int) == Some((a as int, b as int)) && a <= b
                <= n,
            None => name_bounds(s@, n as int) is None,
        },
    decreases n,
{
    let t = trim_len_exec(s, n);
    proof {
        lemma_trim_len(s@, n as int);
        lemma_last_sep(s@, t as int);
    }
    let i = last_sep_exec(s, t);
    let start: usize = match i {
        Some(k) => k + 1,
        None => 0,
    };
    if t - start == 1 && s[start] == '.' {
        match i {
            Some(k) => name_bounds_exec(s, k),
            None => None,
        }
    } else if t == start || (t - start == 2 && s[start] == '.' && s[start + 1] == '.') {
        None
    } else {
        Some((start, t))
    }
}

/// The bounds of the component before the final one in `s[..n]`.
pub fn parent_name_bounds_exec(s: &[char], n: usize) -> (r: Option<(usize, usize)>)
    requires
        n <= s.len(),
    ensures
        match r {
            Some((a, b)) => parent_name_bounds(s@, n as int) == Some((a as int, b as int)) && a
                <= b <= n,
            None => parent_name_bounds(s@, n as int) is None,
        },
    decreases n,
{
    let t = trim_len_exec(s, n);
    proof {
        lemma_trim_len(s@, n as int);
        lemma_last_sep(s@, t as int);
    }
    let i = last_sep_exec(s, t);
    let start: usize = match i {
        Some(k) => k + 1,
        None => 0,
    };
    if t - start == 1 && s[start] == '.' {
        match i {
            Some(k) => parent_name_bounds_exec(s, k),
            None => None,
        }
    } else {
        match i {
            Some(k) => {
                let r = name_bounds_exec(s, k);
                r
            },
            None => None,
        }
    }
}

/// `Path::file_name` of a path text.
pub fn file_name_of(p: &[char]) -> (r: Option<Vec<char>>)
    ensures
        match r {
            Some(v) => file_name(p@) == Some(v@),
            None => file_name(p@) is None,
        },
{
    match name_bounds_exec(p, p.len()) {
        Some((a, b)) => Some(slice_chars(p, a, b)),
        None => None,
    }
}

/// The file name of the path's parent directory.
pub fn parent_name_of(p: &[char]) -> (r: Option<Vec<char>>)
    ensures
        match r {
            Some(v) => parent_name(p@) == Some(v@),
            None => parent_name(p@) is None,
        },
{
    match parent_name_bounds_exec(p, p.len()) {
        Some((a, b)) => Some(slice_chars(p, a, b)),
        None => None,
    }
}

/// The position of the last `.` in `s`.
pub fn last_dot_exec(s: &[char]) -> (r: Option<usize>)
    ensures
        match r {
            Some(k) => last_dot(s@) == k as int && k < s.len(),
            None => last_dot(s@) == -1,
        },
{
    let mut n = s.len();
    assert(s@.take(n as int) =~= s@);
    while n > 0
        invariant
            n <= s.len(),
            last_dot(s@) == last_dot(s@.take(n as int)),
        decreases n,
    {
        assert(s@.take(n as int).drop_last() =~= s@.take(n - 1));
        if s[n - 1] == '.' {
            return Some(n - 1);
        }
        n = n - 1;
    }
    None
}

/// `Path::file_stem` of a path text.
pub fn file_stem_of(p: &[char]) -> (r: Option<Vec<char>>)
    ensures
        match r {
            Some(v) => file_stem(p@) == Some(v@),
            None => file_stem(p@) is None,
        },
{
    match file_name_of(p) {
        Some(n) => match last_dot_exec(n.as_slice()) {
            Some(d) => if d == 0 {
                Some(n)
            } else {
                Some(slice_chars(n.as_slice(), 0, d))
            },
            None => Some(n),
        },
        None => None,
    }
}

/// `Path::extension` of a path text.
pub fn extension_of(p: &[char]) -> (r: Option<Vec<char>>)
    ensures
        match r {
            Some(v) => extension(p@) == Some(v@),
            None => extension(p@) is None,
        },
{
    match file_name_of(p) {
        Some(n) => match last_dot_exec(n.as_slice()) {
            Some(d) => if d == 0 {
                None
            } else {
                Some(slice_chars(n.as_slice(), d + 1, n.len()))
            },
            None => None,
        },
        None => None,
    }
}

/// `base` joined with a relative `name`, with the separator `base` uses.
pub fn join_chars(base: &[char], name: &[char]) -> (r: Vec<char>)
    ensures
        r@ == join(base@, name@),
{
    if base.len() == 0 {
        return slice_chars(name, 0, name.len());
    }
    let mut r = slice_chars(base, 0, base.len());
    assert(base@.subrange(0, base.len() as int) =~= base@);
    if !is_sep_char(base[base.len() - 1]) {
        let mut has_backslash = false;
        let mut i: usize = 0;
        while i < base.len()
            invariant
                i <= base.len(),
                has_backslash == exists|j: int| 0 <= j < i && base@[j] == '\\',
            decreases base.len() - i,
        {
            if base[i] == '\\' {
                has_backslash = true;
            }
            i = i + 1;
        }
        assert(has_backslash == base@.contains('\\'));
        r.push(if has_backslash { '\\' } else { '/' });
    }
    crate::text::push_all(&mut r, name);
    r
}

/// Joins path texts.
pub fn join_path(base: &String, name: &[char]) -> (r: String)
    ensures
        r@ == join(base@, name@),
{
    let b = crate::text::chars_of(base.as_str());
    let j = join_chars(b.as_slice(), name);
    crate::text::string_of(j.as_slice())
}

} // verus!

verus! {

/// A joined path begins with its base.
pub proof fn lemma_join_extends(base: Seq<char>, name: Seq<char>)
    ensures
        crate::text::starts_with(join(base, name), base),
{
    let j = join(base, name);
    if base.len() == 0 {
        assert(j.subrange(0, 0) =~= base);
    } else {
        assert(j.subrange(0, base.len() as int) =~= base);
    }
}

} // verus!
