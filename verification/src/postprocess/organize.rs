//! Conservative media organization for Jellyfin/Plex-compatible library
//! trees:
//!
//! ```text
//! <root>/Movies/<Title> (<Year>)/<file>
//! <root>/TV Shows/<Title>/Season NN/<file>
//! <root>/Music/<Artist>/<Album>/<file>
//! <root>/<Category folder>/<file>
//! ```
//!
//! Titles are cleaned (dots, underscores and dashes become spaces, common
//! release tags are dropped). Episode markers and `Season N` folders are
//! found with Unicode case mapping (`char::to_uppercase`,
//! `str::to_lowercase`); release tags are matched on characters upper-cased
//! one by one, so a tag's cut never falls inside a character.

use vstd::prelude::*;
use vstd::string::StringExecFns;
use crate::text::{
    char_pos, chars_of, find, is_ascii_digit, is_ascii_ws, is_ws, is_ws_char, lower, lower_chars,
    replace_char, replace_char_chars, slice_chars, string_of, trim, trim_chars, upper, upper_chars,
    upper_char, digit_value, digits_value, is_digit_char, digit_of, digits_value_capped,
};
use crate::paths::{file_name, file_name_of, file_stem, file_stem_of, join, join_chars, parent_name, parent_name_of};
use crate::postprocess::classify::Category;

verus! {

// ---------------------------------------------------------------------------
// Title cleaning
// ---------------------------------------------------------------------------

/// A character upper-cased for tag matching: its `char::to_uppercase` form
/// when that is a single character, else the character itself (a
/// character whose upper-case form is longer never matches one tag
/// character).
pub open spec fn upper1(c: char) -> char {
    if crate::text::char_upper(c).len() == 1 {
        crate::text::char_upper(c)[0]
    } else {
        c
    }
}

/// The text upper-cased character by character for tag matching; it has
/// the text's length, so a match marks the characters to remove.
pub open spec fn upper_each(s: Seq<char>) -> Seq<char> {
    Seq::new(s.len(), |i: int| upper1(s[i]))
}

fn upper_each_exec(s: &[char]) -> (r: Vec<char>)
    ensures
        r@ == upper_each(s@),
{
    let mut r: Vec<char> = Vec::new();
    let mut i: usize = 0;
    while i < s.len()
        invariant
            i <= s.len(),
            r@ == Seq::new(i as nat, |j: int| upper1(s@[j])),
        decreases s.len() - i,
    {
        let u = crate::text::char_to_uppercase(s[i]);
        let c = if u.len() == 1 {
            u[0]
        } else {
            s[i]
        };
        r.push(c);
        assert(r@ =~= Seq::new((i + 1) as nat, |j: int| upper1(s@[j])));
        i = i + 1;
    }
    assert(r@ =~= upper_each(s@));
    r
}

/// A character that bounds a release tag: whitespace, a separator (`.`,
/// `_`, `-`) or a bracket.
pub open spec fn tag_bound(c: char) -> bool {
    is_ws(c) || c == '.' || c == '_' || c == '-' || is_bracket(c)
}

/// `tag` occurs at `i` as a whole token: it matches the upper-cased
/// characters there, and the text starts or has a bound right before it,
/// and ends or has a bound right after it.
pub open spec fn token_at(s: Seq<char>, tag: Seq<char>, i: int) -> bool {
    &&& crate::text::occurs_at(upper_each(s), tag, i)
    &&& (i == 0 || tag_bound(s[i - 1]))
    &&& (i + tag.len() == s.len() || tag_bound(s[i + tag.len()]))
}

/// The first position at or after `i` where `tag` occurs as a whole token,
/// or -1.
pub open spec fn token_from(s: Seq<char>, tag: Seq<char>, i: int) -> int
    decreases s.len() + 1 - i,
{
    if i < 0 || i > s.len() {
        -1
    } else if token_at(s, tag, i) {
        i
    } else {
        token_from(s, tag, i + 1)
    }
}

/// The text with the first case-insensitive whole-token occurrence of
/// `tag` (matched on upper-cased characters) replaced by a space,
/// repeatedly, until none is left. A tag inside a longer word is kept.
pub open spec fn remove_tag(s: Seq<char>, tag: Seq<char>) -> Seq<char>
    decreases s.len(),
{
    if tag.len() < 2 {
        s
    } else {
        let i = token_from(s, tag, 0);
        if 0 <= i && i + tag.len() <= s.len() {
            remove_tag(s.subrange(0, i) + seq![' '] + s.subrange(i + tag.len(), s.len() as int), tag)
        } else {
            s
        }
    }
}

fn tag_bound_exec(c: char) -> (b: bool)
    ensures
        b == tag_bound(c),
{
    is_ws_char(c) || c == '.' || c == '_' || c == '-' || c == '(' || c == ')' || c == '[' || c == ']'
}

/// The first whole-token occurrence of `t` in `s`, given `up`, the
/// upper-cased characters of `s`.
fn token_pos(s: &[char], up: &[char], t: &[char]) -> (r: Option<usize>)
    requires
        up@ == upper_each(s@),
        t@.len() >= 1,
    ensures
        match r {
            Some(i) => i as int == token_from(s@, t@, 0) && i + t@.len() <= s@.len(),
            None => token_from(s@, t@, 0) == -1,
        },
{
    let mut i: usize = 0;
    while i < s.len()
        invariant
            i <= s@.len(),
            t@.len() >= 1,
            up@ == upper_each(s@),
            up@.len() == s@.len(),
            token_from(s@, t@, 0) == token_from(s@, t@, i as int),
        decreases s.len() - i,
    {
        if crate::text::matches_at(up, t, i) {
            let before = i == 0 || tag_bound_exec(s[i - 1]);
            let after = i + t.len() == s.len() || tag_bound_exec(s[i + t.len()]);
            if before && after {
                return Some(i);
            }
        }
        i = i + 1;
    }
    assert(!token_at(s@, t@, s@.len() as int));
    assert(token_from(s@, t@, s@.len() as int + 1) == -1);
    None
}

/// Every release tag removed, in the fixed tag order.
pub open spec fn remove_tags(s: Seq<char>) -> Seq<char> {
    let s = remove_tag(s, "1080P"@);
    let s = remove_tag(s, "720P"@);
    let s = remove_tag(s, "2160P"@);
    let s = remove_tag(s, "4K"@);
    let s = remove_tag(s, "X264"@);
    let s = remove_tag(s, "X265"@);
    let s = remove_tag(s, "H264"@);
    let s = remove_tag(s, "H265"@);
    let s = remove_tag(s, "BLURAY"@);
    let s = remove_tag(s, "WEBRIP"@);
    let s = remove_tag(s, "WEB-DL"@);
    let s = remove_tag(s, "HDTV"@);
    let s = remove_tag(s, "REMUX"@);
    let s = remove_tag(s, "DVDRIP"@);
    let s = remove_tag(s, "BRRIP"@);
    let s = remove_tag(s, "AAC"@);
    let s = remove_tag(s, "AC3"@);
    let s = remove_tag(s, "DTS"@);
    remove_tag(s, "TRUEHD"@)
}

/// Whitespace runs collapsed to single spaces, without leading or trailing
/// whitespace (`split_whitespace` joined by spaces). `pending` records a
/// whitespace run after emitted text.
pub open spec fn collapse(s: Seq<char>, pending: bool, started: bool) -> Seq<char>
    decreases s.len(),
{
    if s.len() == 0 {
        seq![]
    } else if is_ws(s[0]) {
        collapse(s.drop_first(), started, started)
    } else {
        (if pending { seq![' '] } else { seq![] }) + seq![s[0]] + collapse(s.drop_first(), false, true)
    }
}

pub open spec fn is_bracket(c: char) -> bool {
    c == '(' || c == ')' || c == '[' || c == ']'
}

/// The text without bracket characters.
pub open spec fn strip_brackets(s: Seq<char>) -> Seq<char>
    decreases s.len(),
{
    if s.len() == 0 {
        seq![]
    } else if is_bracket(s.last()) {
        strip_brackets(s.drop_last())
    } else {
        strip_brackets(s.drop_last()).push(s.last())
    }
}

/// Title normalization: release tags are removed (before separators are
/// replaced, so that `WEB-DL` is found), separators become spaces,
/// whitespace is collapsed, brackets dropped, and the ends trimmed.
#[verifier::opaque]
pub open spec fn clean_title_spec(raw: Seq<char>) -> Seq<char> {
    let s = replace_char(replace_char(replace_char(remove_tags(raw), '.', ' '), '_', ' '), '-', ' ');
    trim(strip_brackets(collapse(s, false, false)))
}

fn remove_tag_exec(s: Vec<char>, tag: &str) -> (r: Vec<char>)
    requires
        tag@.len() >= 2,
    ensures
        r@ == remove_tag(s@, tag@),
{
    let t = chars_of(tag);
    let mut out = s;
    loop
        invariant
            t@ == tag@,
            t@.len() >= 2,
            remove_tag(s@, tag@) == remove_tag(out@, tag@),
        decreases out@.len(),
    {
        let up = upper_each_exec(out.as_slice());
        match token_pos(out.as_slice(), up.as_slice(), t.as_slice()) {
            Some(i) => {
                let tlen: usize = t.len();
                let olen: usize = out.len();
                assert(i + tlen <= olen);
                let end: usize = i + tlen;
                let mut next = slice_chars(out.as_slice(), 0, i);
                next.push(' ');
                let tail = slice_chars(out.as_slice(), end, olen);
                crate::text::push_all(&mut next, tail.as_slice());
                assert(next@ =~= out@.subrange(0, i as int) + seq![' '] + out@.subrange(i + t@.len(), out@.len() as int));
                out = next;
            },
            None => {
                return out;
            },
        }
    }
}

pub fn collapse_exec(s: &[char]) -> (r: Vec<char>)
    ensures
        r@ == collapse(s@, false, false),
{
    let mut r: Vec<char> = Vec::new();
    let mut pending = false;
    let mut started = false;
    let mut i: usize = 0;
    assert(s@.subrange(0, s@.len() as int) =~= s@);
    while i < s.len()
        invariant
            i <= s.len(),
            r@ + collapse(s@.subrange(i as int, s@.len() as int), pending, started) == collapse(s@, false, false),
        decreases s.len() - i,
    {
        let ghost rest = s@.subrange(i as int, s@.len() as int);
        assert(rest.drop_first() =~= s@.subrange(i + 1, s@.len() as int));
        if is_ws_char(s[i]) {
            pending = started;
        } else {
            let ghost r0 = r@;
            if pending {
                r.push(' ');
            }
            r.push(s[i]);
            assert(r@ =~= r0 + ((if pending { seq![' '] } else { seq![] }) + seq![s@[i as int]]));
            pending = false;
            started = true;
        }
        i = i + 1;
    }
    assert(s@.subrange(i as int, s@.len() as int) =~= Seq::<char>::empty());
    assert(r@ + Seq::<char>::empty() =~= r@);
    r
}

fn strip_brackets_exec(s: &[char]) -> (r: Vec<char>)
    ensures
        r@ == strip_brackets(s@),
{
    let mut r: Vec<char> = Vec::new();
    let mut i: usize = 0;
    while i < s.len()
        invariant
            i <= s.len(),
            r@ == strip_brackets(s@.take(i as int)),
        decreases s.len() - i,
    {
        assert(s@.take(i + 1).drop_last() =~= s@.take(i as int));
        let c = s[i];
        if !(c == '(' || c == ')' || c == '[' || c == ']') {
            r.push(c);
        }
        i = i + 1;
    }
    assert(s@.take(s.len() as int) =~= s@);
    r
}

fn clean_title_chars(raw: &[char]) -> (r: Vec<char>)
    ensures
        r@ == clean_title_spec(raw@),
{
    reveal(clean_title_spec);
    proof {
        reveal_strlit("1080P");
        reveal_strlit("720P");
        reveal_strlit("2160P");
        reveal_strlit("4K");
        reveal_strlit("X264");
        reveal_strlit("X265");
        reveal_strlit("H264");
        reveal_strlit("H265");
        reveal_strlit("BLURAY");
        reveal_strlit("WEBRIP");
        reveal_strlit("WEB-DL");
        reveal_strlit("HDTV");
        reveal_strlit("REMUX");
        reveal_strlit("DVDRIP");
        reveal_strlit("BRRIP");
        reveal_strlit("AAC");
        reveal_strlit("AC3");
        reveal_strlit("DTS");
        reveal_strlit("TRUEHD");
    }
    let raw_v = slice_chars(raw, 0, raw.len());
    assert(raw_v@ =~= raw@);
    let mut out = remove_tag_exec(raw_v, "1080P");
    out = remove_tag_exec(out, "720P");
    out = remove_tag_exec(out, "2160P");
    out = remove_tag_exec(out, "4K");
    out = remove_tag_exec(out, "X264");
    out = remove_tag_exec(out, "X265");
    out = remove_tag_exec(out, "H264");
    out = remove_tag_exec(out, "H265");
    out = remove_tag_exec(out, "BLURAY");
    out = remove_tag_exec(out, "WEBRIP");
    out = remove_tag_exec(out, "WEB-DL");
    out = remove_tag_exec(out, "HDTV");
    out = remove_tag_exec(out, "REMUX");
    out = remove_tag_exec(out, "DVDRIP");
    out = remove_tag_exec(out, "BRRIP");
    out = remove_tag_exec(out, "AAC");
    out = remove_tag_exec(out, "AC3");
    out = remove_tag_exec(out, "DTS");
    out = remove_tag_exec(out, "TRUEHD");
    let s1 = replace_char_chars(out.as_slice(), '.', ' ');
    let s2 = replace_char_chars(s1.as_slice(), '_', ' ');
    let out = replace_char_chars(s2.as_slice(), '-', ' ');
    let c = collapse_exec(out.as_slice());
    let b = strip_brackets_exec(c.as_slice());
    trim_chars(b.as_slice())
}

/// Normalize a title: separators become spaces, tags are removed,
/// whitespace is collapsed.
pub fn clean_title(raw: &str) -> (r: String)
    ensures
        r@ == clean_title_spec(raw@),
{
    let c = chars_of(raw);
    let t = clean_title_chars(c.as_slice());
    string_of(t.as_slice())
}

} // verus!

verus! {

// ---------------------------------------------------------------------------
// Episode, season and year markers
// ---------------------------------------------------------------------------

pub open spec fn keep_compact(c: char) -> bool {
    !is_ascii_ws(c) && c != '.' && c != '-' && c != '_'
}

/// The characters of `u` that stay in [`compact`].
pub open spec fn keep_filter(u: Seq<char>) -> Seq<char>
    decreases u.len(),
{
    if u.len() == 0 {
        seq![]
    } else if keep_compact(u.last()) {
        keep_filter(u.drop_last()).push(u.last())
    } else {
        keep_filter(u.drop_last())
    }
}

/// The text upper-cased character by character (`char::to_uppercase`, as
/// `str::to_uppercase` does), without whitespace, dots, dashes and
/// underscores.
pub open spec fn compact(s: Seq<char>) -> Seq<char>
    decreases s.len(),
{
    if s.len() == 0 {
        seq![]
    } else {
        compact(s.drop_last()) + keep_filter(crate::text::char_upper(s.last()))
    }
}

/// The number of digits (at most two) starting at `i`.
pub open spec fn ndig2(c: Seq<char>, i: int) -> int {
    if 0 <= i < c.len() && is_ascii_digit(c[i]) {
        if i + 1 < c.len() && is_ascii_digit(c[i + 1]) {
            2
        } else {
            1
        }
    } else {
        0
    }
}

/// An episode marker `<s><d>[<d>]<e>` starts at `i`.
pub open spec fn marker_at(c: Seq<char>, i: int, s: char, e: char) -> bool {
    0 <= i < c.len() && c[i] == s && i + 1 < c.len() && ndig2(c, i + 1) >= 1 && i + 1 + ndig2(
        c,
        i + 1,
    ) < c.len() && c[i + 1 + ndig2(c, i + 1)] == e
}


/// The season number of the marker at `i`.
pub open spec fn marker_value(c: Seq<char>, i: int) -> int {
    if ndig2(c, i + 1) == 1 {
        digit_value(c[i + 1])
    } else {
        digit_value(c[i + 1]) * 10 + digit_value(c[i + 2])
    }
}

/// The first marker at or after `i`, or -1.
pub open spec fn find_marker(c: Seq<char>, i: int, s: char, e: char) -> int
    decreases c.len() - i,
{
    if i < 0 || i >= c.len() {
        -1
    } else if marker_at(c, i, s, e) {
        i
    } else {
        find_marker(c, i + 1, s, e)
    }
}

/// `SxxEyy` markers in the compacted, upper-cased text.
#[verifier::opaque]
pub open spec fn find_season_spec(text: Seq<char>) -> Option<u32> {
    let c = compact(text);
    let k = find_marker(c, 0, 'S', 'E');
    if k < 0 {
        None
    } else {
        Some(marker_value(c, k) as u32)
    }
}

/// Appends the characters of `u` that stay in [`compact`].
fn push_kept(r: &mut Vec<char>, u: &Vec<char>)
    ensures
        final(r)@ == old(r)@ + keep_filter(u@),
{
    let ghost r0 = r@;
    let mut j: usize = 0;
    while j < u.len()
        invariant
            j <= u@.len(),
            r@ == r0 + keep_filter(u@.take(j as int)),
        decreases u.len() - j,
    {
        assert(u@.take(j + 1).drop_last() =~= u@.take(j as int));
        let c = u[j];
        if !(c == ' ' || c == '\t' || c == '\n' || c == '\u{c}' || c == '\r') && c != '.' && c != '-' && c != '_' {
            r.push(c);
        }
        assert(r@ =~= r0 + keep_filter(u@.take(j + 1)));
        j = j + 1;
    }
    assert(u@.take(u@.len() as int) =~= u@);
}

fn compact_exec(s: &[char]) -> (r: Vec<char>)
    ensures
        r@ == compact(s@),
{
    let mut r: Vec<char> = Vec::new();
    let mut i: usize = 0;
    while i < s.len()
        invariant
            i <= s.len(),
            r@ == compact(s@.take(i as int)),
        decreases s.len() - i,
    {
        assert(s@.take(i + 1).drop_last() =~= s@.take(i as int));
        let u = crate::text::char_to_uppercase(s[i]);
        push_kept(&mut r, &u);
        i = i + 1;
    }
    assert(s@.take(s.len() as int) =~= s@);
    r
}

fn ndig2_exec(c: &[char], i: usize) -> (n: usize)
    ensures
        n == ndig2(c@, i as int),
{
    if i < c.len() && is_digit_char(c[i]) {
        if i + 1 < c.len() && is_digit_char(c[i + 1]) {
            2
        } else {
            1
        }
    } else {
        0
    }
}

/// The first marker `<s><d>[<d>]<e>` in `c`.
fn find_marker_exec(c: &[char], s: char, e: char) -> (r: Option<usize>)
    ensures
        match r {
            Some(k) => find_marker(c@, 0, s, e) == k as int && marker_at(c@, k as int, s, e),
            None => find_marker(c@, 0, s, e) == -1,
        },
{
    let mut i: usize = 0;
    while i < c.len()
        invariant
            i <= c.len(),
            find_marker(c@, 0, s, e) == find_marker(c@, i as int, s, e),
        decreases c.len() - i,
    {
        if c[i] == s && i + 1 < c.len() {
            let n = ndig2_exec(c, i + 1);
            if n >= 1 && i + 1 + n < c.len() && c[i + 1 + n] == e {
                return Some(i);
            }
        }
        i = i + 1;
    }
    None
}


fn marker_value_exec(c: &[char], k: usize) -> (v: u32)
    requires
        k + 1 < c.len(),
        ndig2(c@, k + 1) >= 1,
    ensures
        v as int == marker_value(c@, k as int),
{
    let k1: usize = k + 1;
    let n = ndig2_exec(c, k1);
    if n == 1 {
        digit_of(c[k1])
    } else {
        digit_of(c[k1]) * 10 + digit_of(c[k1 + 1])
    }
}

/// `S01E01` / `S1E05` / `S.01.E.02` markers (dots/spaces ignored).
pub fn find_season(text: &[char]) -> (r: Option<u32>)
    ensures
        r == find_season_spec(text@),
{
    reveal(find_season_spec);
    let c = compact_exec(text);
    match find_marker_exec(c.as_slice(), 'S', 'E') {
        Some(k) => {
            let v = marker_value_exec(c.as_slice(), k);
            Some(v)
        },
        None => None,
    }
}

/// The position in `t`, at or after `i`, of the character whose upper-case
/// form brings kept character number `k` into [`compact`], `seen` kept
/// characters having come before `i`; the length when there is none.
pub open spec fn kept_pos(t: Seq<char>, k: int, i: int, seen: int) -> int
    decreases t.len() - i,
{
    if i < 0 || i >= t.len() {
        t.len() as int
    } else if k < seen + keep_filter(crate::text::char_upper(t[i])).len() {
        i
    } else {
        kept_pos(t, k, i + 1, seen + keep_filter(crate::text::char_upper(t[i])).len())
    }
}

/// The text before the season marker that [`find_season`] finds (dots,
/// dashes, underscores and whitespace inside the marker allowed), cleaned;
/// the whole text, cleaned, when there is no marker.
#[verifier::opaque]
pub open spec fn title_before_season_spec(text: Seq<char>) -> Seq<char> {
    let k = find_marker(compact(text), 0, 'S', 'E');
    let best = if k < 0 { text.len() as int } else { kept_pos(text, k, 0, 0) };
    clean_title_spec(text.subrange(0, best))
}

proof fn lemma_find_marker_range(c: Seq<char>, i: int, s: char, e: char)
    requires
        0 <= i,
    ensures
        find_marker(c, i, s, e) == -1 || (i <= find_marker(c, i, s, e) < c.len()),
    decreases c.len() - i,
{
    if i < c.len() && !marker_at(c, i, s, e) {
        lemma_find_marker_range(c, i + 1, s, e);
    }
}

fn kept_pos_exec(t: &[char], k: usize) -> (p: usize)
    ensures
        p as int == kept_pos(t@, k as int, 0, 0),
        p <= t@.len(),
{
    let mut i: usize = 0;
    let mut seen: usize = 0;
    while i < t.len()
        invariant
            i <= t@.len(),
            seen <= k,
            kept_pos(t@, k as int, 0, 0) == kept_pos(t@, k as int, i as int, seen as int),
        decreases t.len() - i,
    {
        let u = crate::text::char_to_uppercase(t[i]);
        let mut kept: Vec<char> = Vec::new();
        push_kept(&mut kept, &u);
        assert(kept@ =~= keep_filter(u@));
        if k - seen < kept.len() {
            return i;
        }
        seen = seen + kept.len();
        i = i + 1;
    }
    t.len()
}

fn title_before_season(text: &[char]) -> (r: Vec<char>)
    ensures
        r@ == title_before_season_spec(text@),
{
    reveal(title_before_season_spec);
    let c = compact_exec(text);
    let best = match find_marker_exec(c.as_slice(), 'S', 'E') {
        Some(k) => kept_pos_exec(text, k),
        None => text.len(),
    };
    let head = slice_chars(text, 0, best);
    clean_title_chars(head.as_slice())
}

/// Whitespace (Unicode) removed.
pub open spec fn ws_free(s: Seq<char>) -> Seq<char>
    decreases s.len(),
{
    if s.len() == 0 {
        seq![]
    } else if is_ws(s.last()) {
        ws_free(s.drop_last())
    } else {
        ws_free(s.drop_last()).push(s.last())
    }
}

/// The leading ASCII digits of `s`.
pub open spec fn leading_digits(s: Seq<char>) -> Seq<char>
    decreases s.len(),
{
    if s.len() > 0 && is_ascii_digit(s[0]) {
        seq![s[0]] + leading_digits(s.drop_first())
    } else {
        seq![]
    }
}


/// `u32::from_str` of a non-empty run of digits.
pub open spec fn u32_of_digits(s: Seq<char>) -> Option<u32> {
    if digits_value(s) <= u32::MAX {
        Some(digits_value(s) as u32)
    } else {
        None
    }
}

/// What one path part says of a season: `Some(r)` when its lower-cased,
/// whitespace-free text has `season` followed by digits (whose value is
/// `r`, `None` past `u32`), `None` when the part says nothing.
pub open spec fn part_hint(part: Seq<char>) -> Option<Option<u32>> {
    let comp = ws_free(crate::text::str_lowercase(part));
    match find(comp, "season"@) {
        Some(i) => {
            let d = leading_digits(comp.subrange(i + 6, comp.len() as int));
            if d.len() == 0 {
                None
            } else {
                Some(u32_of_digits(d))
            }
        },
        None => None,
    }
}

/// A folder hint like `Season 1` in the first `/`-separated part that has
/// one.
pub open spec fn folder_hint(text: Seq<char>) -> Option<u32>
    decreases text.len(),
{
    let e = char_pos(text, '/');
    let part = if e < 0 { text } else { text.subrange(0, e) };
    match part_hint(part) {
        Some(r) => r,
        None => if e < 0 {
            None
        } else {
            proof {
                crate::text::lemma_char_pos(text, '/');
            }
            folder_hint(text.subrange(e + 1, text.len() as int))
        },
    }
}

fn ws_free_exec(s: &[char]) -> (r: Vec<char>)
    ensures
        r@ == ws_free(s@),
{
    let mut r: Vec<char> = Vec::new();
    let mut i: usize = 0;
    while i < s.len()
        invariant
            i <= s.len(),
            r@ == ws_free(s@.take(i as int)),
        decreases s.len() - i,
    {
        assert(s@.take(i + 1).drop_last() =~= s@.take(i as int));
        if !is_ws_char(s[i]) {
            r.push(s[i]);
        }
        i = i + 1;
    }
    assert(s@.take(s.len() as int) =~= s@);
    r
}


fn leading_digits_exec(s: &[char], from: usize) -> (r: Vec<char>)
    requires
        from <= s.len(),
    ensures
        r@ == leading_digits(s@.subrange(from as int, s@.len() as int)),
        forall|j: int| 0 <= j < r@.len() ==> is_ascii_digit(#[trigger] r@[j]),
    decreases s.len() - from,
{
    let ghost t = s@.subrange(from as int, s@.len() as int);
    if from < s.len() && is_digit_char(s[from]) {
        let rest = leading_digits_exec(s, from + 1);
        assert(t.drop_first() =~= s@.subrange(from + 1, s@.len() as int));
        let mut r: Vec<char> = Vec::new();
        r.push(s[from]);
        crate::text::push_all(&mut r, rest.as_slice());
        r
    } else {
        Vec::new()
    }
}

fn part_hint_exec(part: &[char]) -> (r: Option<Option<u32>>)
    ensures
        r == part_hint(part@),
{
    let ps = string_of(part);
    let ls = crate::text::to_lowercase(ps.as_str());
    let l = chars_of(ls.as_str());
    let comp = ws_free_exec(l.as_slice());
    let season = chars_of("season");
    proof {
        reveal_strlit("season");
    }
    match crate::text::find_chars(comp.as_slice(), season.as_slice()) {
        Some(i) => {
            assert(crate::text::occurs_at(comp@, season@, i as int));
            assert(i + 6 <= comp.len());
            let d = leading_digits_exec(comp.as_slice(), i + 6);
            if d.len() == 0 {
                None
            } else {
                let v = digits_value_capped(d.as_slice());
                if v <= 0xffff_ffff {
                    Some(Some(v as u32))
                } else {
                    Some(None)
                }
            }
        },
        None => None,
    }
}

/// A folder hint like "Season 1".
pub fn season_folder_hint(text: &[char]) -> (r: Option<u32>)
    ensures
        r == folder_hint(text@),
{
    let mut start: usize = 0;
    assert(text@.subrange(0, text@.len() as int) =~= text@);
    loop
        invariant
            start <= text.len(),
            folder_hint(text@) == folder_hint(text@.subrange(start as int, text@.len() as int)),
        decreases text.len() - start,
    {
        let ghost t = text@.subrange(start as int, text@.len() as int);
        let e = crate::text::char_index_from(text, '/', start);
        let part = slice_chars(text, start, e);
        assert(part@ =~= (if char_pos(t, '/') < 0 { t } else { t.subrange(0, char_pos(t, '/')) }));
        match part_hint_exec(part.as_slice()) {
            Some(r) => {
                return r;
            },
            None => {},
        }
        if e >= text.len() {
            return None;
        }
        assert(t.subrange(char_pos(t, '/') + 1, t.len() as int) =~= text@.subrange(e + 1, text@.len() as int));
        start = e + 1;
    }
}

/// The first four-digit group (digits counted in groups of four from the
/// start of each digit run) that reads as a year in 1900..=2100.
pub open spec fn year_scan(s: Seq<char>, i: int, blen: int, bval: int) -> Option<u32>
    decreases s.len() - i,
{
    if i < 0 || i >= s.len() {
        None
    } else if is_ascii_digit(s[i]) {
        let nl = blen + 1;
        let nv = bval * 10 + digit_value(s[i]);
        if nl == 4 {
            if 1900 <= nv <= 2100 {
                Some(nv as u32)
            } else {
                year_scan(s, i + 1, 0, 0)
            }
        } else {
            year_scan(s, i + 1, nl, nv)
        }
    } else {
        year_scan(s, i + 1, 0, 0)
    }
}

#[verifier::opaque]
pub open spec fn find_year_spec(s: Seq<char>) -> Option<u32> {
    year_scan(s, 0, 0, 0)
}

/// Four digits at `i`.
pub open spec fn four_digits(s: Seq<char>, i: int) -> bool {
    0 <= i && i + 4 <= s.len() && is_ascii_digit(s[i]) && is_ascii_digit(s[i + 1]) && is_ascii_digit(s[i + 2])
        && is_ascii_digit(s[i + 3])
}

/// The number the four digits at `i` spell.
pub open spec fn four_digit_value(s: Seq<char>, i: int) -> int {
    crate::text::digit_value(s[i]) * 1000 + crate::text::digit_value(s[i + 1]) * 100 + crate::text::digit_value(
        s[i + 2],
    ) * 10 + crate::text::digit_value(s[i + 3])
}

/// A year standing at the start of a run of digits: four digits at `i`
/// that read as a number in 1900..=2100, at the start of the text or after
/// a character that is no digit (as in `Inception.2010.1080p`).
pub open spec fn standalone_year(s: Seq<char>, i: int) -> bool {
    &&& four_digits(s, i)
    &&& i == 0 || !is_ascii_digit(s[i - 1])
    &&& 1900 <= four_digit_value(s, i) <= 2100
}

/// The movie year search finds every year that starts a run of digits: when
/// there is one, the search finds a year, and when no digit comes before
/// it, the year found is that one. Whatever the search finds is a year in
/// 1900..=2100 spelled by four digits of the text.
pub proof fn law_find_year(s: Seq<char>, i: int)
    ensures
        standalone_year(s, i) ==> find_year_spec(s) is Some,
        standalone_year(s, i) && (forall|j: int| 0 <= j < i ==> !is_ascii_digit(#[trigger] s[j]))
            ==> find_year_spec(s) == Some(four_digit_value(s, i) as u32),
        find_year_spec(s) matches Some(y) ==> 1900 <= y <= 2100 && exists|j: int|
            four_digits(s, j) && #[trigger] four_digit_value(s, j) == y,
{
    reveal(find_year_spec);
    if standalone_year(s, i) {
        lemma_year_reached(s, 0, 0, 0, i);
        if forall|j: int| 0 <= j < i ==> !is_ascii_digit(#[trigger] s[j]) {
            lemma_year_first(s, 0, i);
        }
    }
    if year_scan(s, 0, 0, 0) is Some {
        assert(s.subrange(0, 0) =~= Seq::<char>::empty());
        lemma_year_found(s, 0, 0, 0);
    }
}

proof fn lemma_year_reached(s: Seq<char>, j: int, bl: int, bv: int, i: int)
    requires
        0 <= j <= i,
        standalone_year(s, i),
        j == i ==> bl == 0 && bv == 0,
        bl >= 0,
    ensures
        year_scan(s, j, bl, bv) is Some,
    decreases i - j,
{
    if j == i {
        assert(year_scan(s, i + 3, 3, (crate::text::digit_value(s[i]) * 10 + crate::text::digit_value(s[i + 1])) * 10
            + crate::text::digit_value(s[i + 2])) is Some);
        assert(year_scan(s, i + 2, 2, crate::text::digit_value(s[i]) * 10 + crate::text::digit_value(s[i + 1])) is Some);
        assert(year_scan(s, i + 1, 1, crate::text::digit_value(s[i])) is Some);
    } else if is_ascii_digit(s[j]) {
        let nl = bl + 1;
        let nv = bv * 10 + crate::text::digit_value(s[j]);
        if nl == 4 {
            if !(1900 <= nv <= 2100) {
                lemma_year_reached(s, j + 1, 0, 0, i);
            }
        } else {
            lemma_year_reached(s, j + 1, nl, nv, i);
        }
    } else {
        lemma_year_reached(s, j + 1, 0, 0, i);
    }
}

proof fn lemma_year_first(s: Seq<char>, j: int, i: int)
    requires
        0 <= j <= i,
        standalone_year(s, i),
        forall|k: int| 0 <= k < i ==> !is_ascii_digit(#[trigger] s[k]),
    ensures
        year_scan(s, j, 0, 0) == Some(four_digit_value(s, i) as u32),
    decreases i - j,
{
    if j < i {
        assert(!is_ascii_digit(s[j]));
        lemma_year_first(s, j + 1, i);
    } else {
        let d0 = crate::text::digit_value(s[i]);
        let d1 = crate::text::digit_value(s[i + 1]);
        let d2 = crate::text::digit_value(s[i + 2]);
        let d3 = crate::text::digit_value(s[i + 3]);
        assert(((d0 * 10 + d1) * 10 + d2) * 10 + d3 == four_digit_value(s, i));
        assert(year_scan(s, i + 3, 3, (d0 * 10 + d1) * 10 + d2) == Some(four_digit_value(s, i) as u32));
        assert(year_scan(s, i + 2, 2, d0 * 10 + d1) == Some(four_digit_value(s, i) as u32));
        assert(year_scan(s, i + 1, 1, d0) == Some(four_digit_value(s, i) as u32));
    }
}

/// The digits the scan holds before `i`: `bl` of them, reading as `bv`.
pub open spec fn scan_holds(s: Seq<char>, i: int, bl: int, bv: int) -> bool {
    &&& 0 <= bl <= 3
    &&& bl <= i
    &&& forall|k: int| i - bl <= k < i ==> is_ascii_digit(#[trigger] s[k])
    &&& bl == 0 ==> bv == 0
    &&& bl == 1 ==> bv == crate::text::digit_value(s[i - 1])
    &&& bl == 2 ==> bv == crate::text::digit_value(s[i - 2]) * 10 + crate::text::digit_value(s[i - 1])
    &&& bl == 3 ==> bv == crate::text::digit_value(s[i - 3]) * 100 + crate::text::digit_value(s[i - 2]) * 10
        + crate::text::digit_value(s[i - 1])
}

proof fn lemma_year_found(s: Seq<char>, i: int, bl: int, bv: int)
    requires
        0 <= i,
        scan_holds(s, i, bl, bv),
        year_scan(s, i, bl, bv) is Some,
    ensures
        year_scan(s, i, bl, bv) matches Some(y) && 1900 <= y <= 2100 && exists|j: int|
            four_digits(s, j) && #[trigger] four_digit_value(s, j) == y,
    decreases s.len() - i,
{
    if i < s.len() {
        if is_ascii_digit(s[i]) {
            let nl = bl + 1;
            let nv = bv * 10 + crate::text::digit_value(s[i]);
            if nl == 4 {
                if 1900 <= nv <= 2100 {
                    assert(four_digits(s, i - 3));
                    assert(four_digit_value(s, i - 3) == nv);
                } else {
                    lemma_year_found(s, i + 1, 0, 0);
                }
            } else {
                lemma_year_found(s, i + 1, nl, nv);
            }
        } else {
            lemma_year_found(s, i + 1, 0, 0);
        }
    }
}

/// A movie year marker.
pub fn find_year(text: &[char]) -> (r: Option<u32>)
    ensures
        r == find_year_spec(text@),
{
    reveal(find_year_spec);
    let mut blen: u32 = 0;
    let mut bval: u32 = 0;
    let mut i: usize = 0;
    while i < text.len()
        invariant
            i <= text.len(),
            blen < 4,
            bval < 1000,
            blen == 0 ==> bval == 0,
            blen == 1 ==> bval < 10,
            blen == 2 ==> bval < 100,
            find_year_spec(text@) == year_scan(text@, i as int, blen as int, bval as int),
        decreases text.len() - i,
    {
        let c = text[i];
        if is_digit_char(c) {
            let nl = blen + 1;
            let nv = bval * 10 + digit_of(c);
            if nl == 4 {
                if 1900 <= nv && nv <= 2100 {
                    return Some(nv);
                }
                blen = 0;
                bval = 0;
            } else {
                blen = nl;
                bval = nv;
            }
        } else {
            blen = 0;
            bval = 0;
        }
        i = i + 1;
    }
    None
}

/// A year in 1900..=2100 spelled by the four digits at `i`.
pub open spec fn year_at(s: Seq<char>, i: int) -> bool {
    0 <= i && i + 3 < s.len() && is_ascii_digit(s[i]) && is_ascii_digit(s[i + 1]) && is_ascii_digit(
        s[i + 2],
    ) && is_ascii_digit(s[i + 3]) && 1900 <= digits_value(s.subrange(i, i + 4)) <= 2100
}

pub open spec fn first_year_at(s: Seq<char>, i: int) -> int
    decreases s.len() - i,
{
    if i < 0 || i + 3 >= s.len() {
        s.len() as int
    } else if year_at(s, i) {
        i
    } else {
        first_year_at(s, i + 1)
    }
}

/// The text before the first year, cleaned.
#[verifier::opaque]
pub open spec fn title_before_year_spec(text: Seq<char>) -> Seq<char> {
    clean_title_spec(text.subrange(0, first_year_at(text, 0)))
}

proof fn lemma_first_year_range(s: Seq<char>, i: int)
    requires
        0 <= i,
    ensures
        0 <= first_year_at(s, i) <= s.len(),
    decreases s.len() - i,
{
    if i + 3 < s.len() && !year_at(s, i) {
        lemma_first_year_range(s, i + 1);
    }
}

fn first_year_pos(text: &[char]) -> (p: usize)
    ensures
        p as int == first_year_at(text@, 0),
        p <= text.len(),
{
    proof {
        lemma_first_year_range(text@, 0);
    }
    let mut i: usize = 0;
    loop
        invariant
            i <= text.len(),
            first_year_at(text@, 0) == first_year_at(text@, i as int),
        decreases text.len() - i,
    {
        if text.len() - i <= 3 {
            return text.len();
        }
        if is_digit_char(text[i]) && is_digit_char(text[i + 1]) && is_digit_char(text[i + 2])
            && is_digit_char(text[i + 3]) {
            let four = slice_chars(text, i, i + 4);
            let v = digits_value_capped(four.as_slice());
            if 1900 <= v && v <= 2100 {
                return i;
            }
        }
        i = i + 1;
    }
}

fn title_before_year(text: &[char]) -> (r: Vec<char>)
    ensures
        r@ == title_before_year_spec(text@),
{
    reveal(title_before_year_spec);
    let best = first_year_pos(text);
    let head = slice_chars(text, 0, best);
    clean_title_chars(head.as_slice())
}

} // verus!

verus! {

// ---------------------------------------------------------------------------
// Media kinds
// ---------------------------------------------------------------------------

/// How a media file should be nested under the library root.
#[derive(Debug, Clone, PartialEq, Eq)]
pub enum MediaKind {
    /// A single film: `Movies/<Title> (<Year>)/`.
    Movie { year: Option<u32> },
    /// An episode of a series: `TV Shows/<Title>/Season NN/`.
    TvSeries { season: Option<u32> },
    /// A music track: `Music/<Artist>/<Album>/`.
    Music { artist: Option<String>, album: Option<String> },
    /// Not confidently identifiable: place at the category root.
    Other,
}

/// What a [`MediaKind`] stands for, with texts as character sequences.
pub enum MediaKindView {
    Movie { year: Option<u32> },
    TvSeries { season: Option<u32> },
    Music { artist: Option<Seq<char>>, album: Option<Seq<char>> },
    Other,
}

pub open spec fn opt_text(o: Option<String>) -> Option<Seq<char>> {
    match o {
        Some(s) => Some(s@),
        None => None,
    }
}

impl View for MediaKind {
    type V = MediaKindView;

    open spec fn view(&self) -> MediaKindView {
        match self {
            MediaKind::Movie { year } => MediaKindView::Movie { year: *year },
            MediaKind::TvSeries { season } => MediaKindView::TvSeries { season: *season },
            MediaKind::Music { artist, album } => MediaKindView::Music {
                artist: opt_text(*artist),
                album: opt_text(*album),
            },
            MediaKind::Other => MediaKindView::Other,
        }
    }
}

/// `" - "`, the separator of the parts of a music file name.
pub open spec fn dash_sep() -> Seq<char> {
    seq![' ', '-', ' ']
}

/// `"Artist - Album - 01 - Track"`: the first two of at least three
/// `" - "`-separated parts of the file stem, each trimmed and cleaned.
#[verifier::opaque]
pub open spec fn parse_music_spec(p: Seq<char>) -> Option<(Seq<char>, Seq<char>)> {
    match file_stem(p) {
        Some(name) => match find(name, dash_sep()) {
            Some(i) => {
                let rest = name.subrange(i + 3, name.len() as int);
                match find(rest, dash_sep()) {
                    Some(j) => Some(
                        (
                            clean_title_spec(trim(name.subrange(0, i))),
                            clean_title_spec(trim(rest.subrange(0, j))),
                        ),
                    ),
                    None => None,
                }
            },
            None => None,
        },
        None => None,
    }
}

/// The media kind of the path `p`: episode markers in the whole path (with
/// `\` read as `/`) or in the file name, then a `Season N` folder, then a
/// year in the path or the file name, then an `Artist - Album - Track`
/// file name.
#[verifier::opaque]
pub open spec fn media_kind_spec(p: Seq<char>) -> MediaKindView {
    let full = replace_char(p, '\\', '/');
    let name = match file_name(p) {
        Some(n) => n,
        None => Seq::<char>::empty(),
    };
    if find_season_spec(full) is Some {
        MediaKindView::TvSeries { season: find_season_spec(full) }
    } else if find_season_spec(name) is Some {
        MediaKindView::TvSeries { season: find_season_spec(name) }
    } else if folder_hint(full) is Some {
        MediaKindView::TvSeries { season: folder_hint(full) }
    } else if find_year_spec(full) is Some {
        MediaKindView::Movie { year: find_year_spec(full) }
    } else if find_year_spec(name) is Some {
        MediaKindView::Movie { year: find_year_spec(name) }
    } else {
        match parse_music_spec(p) {
            Some((artist, album)) => MediaKindView::Music {
                artist: Some(artist),
                album: Some(album),
            },
            None => MediaKindView::Other,
        }
    }
}

/// The cleaned title of the path `p`: from its file stem (or the whole
/// text when it has none), cut at the episode marker for an episode and
/// at the year for a film; `None` when nothing is left.
pub open spec fn title_spec(p: Seq<char>) -> Option<Seq<char>> {
    let candidate = match file_stem(p) {
        Some(s) => s,
        None => p,
    };
    let cleaned = match media_kind_spec(p) {
        MediaKindView::TvSeries { .. } => title_before_season_spec(candidate),
        MediaKindView::Movie { .. } => title_before_year_spec(candidate),
        _ => clean_title_spec(candidate),
    };
    if cleaned.len() == 0 {
        None
    } else {
        Some(cleaned)
    }
}

fn parse_music(p: &[char]) -> (r: Option<(Vec<char>, Vec<char>)>)
    ensures
        match r {
            Some((a, b)) => parse_music_spec(p@) == Some((a@, b@)),
            None => parse_music_spec(p@) is None,
        },
{
    reveal(parse_music_spec);
    let name = match file_stem_of(p) {
        Some(n) => n,
        None => {
            return None;
        },
    };
    let mut sep: Vec<char> = Vec::new();
    sep.push(' ');
    sep.push('-');
    sep.push(' ');
    assert(sep@ =~= dash_sep());
    let i = match crate::text::find_chars(name.as_slice(), sep.as_slice()) {
        Some(i) => i,
        None => {
            return None;
        },
    };
    assert(crate::text::occurs_at(name@, sep@, i as int));
    assert(i + 3 <= name.len());
    let rest = slice_chars(name.as_slice(), i + 3, name.len());
    let j = match crate::text::find_chars(rest.as_slice(), sep.as_slice()) {
        Some(j) => j,
        None => {
            return None;
        },
    };
    assert(crate::text::occurs_at(rest@, sep@, j as int));
    let a = slice_chars(name.as_slice(), 0, i);
    let b = slice_chars(rest.as_slice(), 0, j);
    let at = trim_chars(a.as_slice());
    let bt = trim_chars(b.as_slice());
    Some((clean_title_chars(at.as_slice()), clean_title_chars(bt.as_slice())))
}

fn media_kind_chars(p: &[char]) -> (k: MediaKind)
    ensures
        k@ == media_kind_spec(p@),
{
    reveal(media_kind_spec);
    let full = replace_char_chars(p, '\\', '/');
    let name = match file_name_of(p) {
        Some(n) => n,
        None => Vec::new(),
    };
    assert(name@ == (match file_name(p@) {
        Some(n) => n,
        None => Seq::<char>::empty(),
    }));
    if let Some(s) = find_season(full.as_slice()) {
        return MediaKind::TvSeries { season: Some(s) };
    }
    if let Some(s) = find_season(name.as_slice()) {
        return MediaKind::TvSeries { season: Some(s) };
    }
    if let Some(s) = season_folder_hint(full.as_slice()) {
        return MediaKind::TvSeries { season: Some(s) };
    }
    if let Some(y) = find_year(full.as_slice()) {
        return MediaKind::Movie { year: Some(y) };
    }
    if let Some(y) = find_year(name.as_slice()) {
        return MediaKind::Movie { year: Some(y) };
    }
    match parse_music(p) {
        Some((a, b)) => MediaKind::Music {
            artist: Some(string_of(a.as_slice())),
            album: Some(string_of(b.as_slice())),
        },
        None => MediaKind::Other,
    }
}

/// Determine how to nest `src` (uses the filename plus any folder hints
/// such as a `Season N` directory).
pub fn media_kind_for(src: &str) -> (k: MediaKind)
    ensures
        k@ == media_kind_spec(src@),
{
    let p = chars_of(src);
    media_kind_chars(p.as_slice())
}

fn title_chars(p: &[char]) -> (r: Option<Vec<char>>)
    ensures
        match r {
            Some(t) => title_spec(p@) == Some(t@),
            None => title_spec(p@) is None,
        },
{
    let candidate = match file_stem_of(p) {
        Some(s) => s,
        None => slice_chars(p, 0, p.len()),
    };
    assert(p@.subrange(0, p@.len() as int) =~= p@);
    let kind = media_kind_chars(p);
    let cleaned = match kind {
        MediaKind::TvSeries { .. } => title_before_season(candidate.as_slice()),
        MediaKind::Movie { .. } => title_before_year(candidate.as_slice()),
        _ => clean_title_chars(candidate.as_slice()),
    };
    if cleaned.len() == 0 {
        None
    } else {
        Some(cleaned)
    }
}

/// A cleaned, human-readable title derived from the path. For episodes the
/// title is cut at the season marker; for movies at the year.
pub fn title_from_path(path: &str) -> (r: Option<String>)
    ensures
        match r {
            Some(t) => title_spec(path@) == Some(t@),
            None => title_spec(path@) is None,
        },
{
    let p = chars_of(path);
    match title_chars(p.as_slice()) {
        Some(t) => Some(string_of(t.as_slice())),
        None => None,
    }
}

} // verus!

verus! {

// ---------------------------------------------------------------------------
// Library layout
// ---------------------------------------------------------------------------

/// The default folder of each category under the library root.
pub open spec fn default_folder(c: Category) -> Seq<char> {
    match c {
        Category::Audio => "Music"@,
        Category::Video => "Movies"@,
        Category::Image => "Pictures"@,
        Category::Archive => "Archives"@,
        Category::Document => "Documents"@,
        Category::Software => "Software"@,
        Category::Unknown => "Other"@,
    }
}

/// The folder that the first entry for `c` names, `Other` when none does.
pub open spec fn folder_lookup(v: Seq<(Category, String)>, c: Category) -> Seq<char>
    decreases v.len(),
{
    if v.len() == 0 {
        "Other"@
    } else if v[0].0 == c {
        v[0].1@
    } else {
        folder_lookup(v.drop_first(), c)
    }
}

/// `o` when it holds a text, else `d`.
pub open spec fn text_or(o: Option<Seq<char>>, d: Seq<char>) -> Seq<char> {
    match o {
        Some(t) => t,
        None => d,
    }
}

/// The category folder entries, each folder by its text.
pub open spec fn folder_entries(v: Seq<(Category, String)>) -> Seq<(Category, Seq<char>)> {
    Seq::new(v.len(), |i: int| (v[i].0, v[i].1@))
}

/// The seven folder entries a new organizer starts with, in order.
pub open spec fn default_folder_list() -> Seq<(Category, Seq<char>)> {
    seq![
        (Category::Audio, "Music"@),
        (Category::Video, "Movies"@),
        (Category::Image, "Pictures"@),
        (Category::Archive, "Archives"@),
        (Category::Document, "Documents"@),
        (Category::Software, "Software"@),
        (Category::Unknown, "Other"@),
    ]
}

/// Computes destinations under the library root for a given source file.
#[derive(Debug, Clone)]
pub struct Organizer {
    pub library_root: String,
    /// Category and the subfolder name under the library root; the first
    /// entry for a category counts.
    pub category_folders: Vec<(Category, String)>,
}

impl Organizer {
    /// The folder that `c` goes to.
    pub open spec fn folder(&self, c: Category) -> Seq<char> {
        folder_lookup(self.category_folders@, c)
    }

    /// No category has two entries.
    pub open spec fn wf(&self) -> bool {
        forall|i: int, j: int|
            0 <= i < j < self.category_folders@.len() ==> #[trigger] self.category_folders@[i].0
                != #[trigger] self.category_folders@[j].0
    }

    /// The directory that `src`, of category `c`, goes to.
    pub open spec fn destination_spec(&self, src: Seq<char>, c: Category) -> Seq<char> {
        let root = self.library_root@;
        match (c, media_kind_spec(src)) {
            (Category::Video, MediaKindView::TvSeries { season }) => {
                let title = text_or(title_spec(src), "Unknown Series"@);
                let base = join(join(root, "TV Shows"@), title);
                match season {
                    Some(n) => join(base, "Season "@ + crate::text::decimal2(n as nat)),
                    None => base,
                }
            },
            (Category::Video, MediaKindView::Movie { year }) => {
                let title = text_or(title_spec(src), "Unknown Title"@);
                let base = join(root, self.folder(Category::Video));
                match year {
                    Some(y) => join(base, title + " ("@ + crate::text::decimal(y as nat) + ")"@),
                    None => join(base, title),
                }
            },
            (Category::Audio, MediaKindView::Music { artist, album }) => {
                let a = match artist {
                    Some(a) => a,
                    None => text_or(title_spec(src), "Unknown Artist"@),
                };
                join(
                    join(join(root, self.folder(Category::Audio)), a),
                    text_or(album, "Unknown Album"@),
                )
            },
            (Category::Audio, MediaKindView::Other) => {
                let base = join(root, self.folder(Category::Audio));
                match parent_name(src) {
                    Some(parent) => join(base, clean_title_spec(parent)),
                    None => base,
                }
            },
            _ => join(root, self.folder(c)),
        }
    }

    /// Create an organizer with the default Jellyfin-friendly category names.
    pub fn new(library_root: String) -> (o: Self)
        ensures
            o.library_root@ == library_root@,
            folder_entries(o.category_folders@) == default_folder_list(),
            o.wf(),
            forall|c: Category| #[trigger] o.folder(c) == default_folder(c),
    {
        let mut v: Vec<(Category, String)> = Vec::new();
        v.push((Category::Audio, String::from_str("Music")));
        v.push((Category::Video, String::from_str("Movies")));
        v.push((Category::Image, String::from_str("Pictures")));
        v.push((Category::Archive, String::from_str("Archives")));
        v.push((Category::Document, String::from_str("Documents")));
        v.push((Category::Software, String::from_str("Software")));
        v.push((Category::Unknown, String::from_str("Other")));
        let o = Organizer { library_root, category_folders: v };
        assert(folder_entries(o.category_folders@) =~= default_folder_list());
        assert forall|c: Category| #[trigger] o.folder(c) == default_folder(c) by {
            reveal_with_fuel(folder_lookup, 8);
        }
        o
    }

    /// The subfolder name for a category.
    pub fn category_folder(&self, category: Category) -> (r: String)
        ensures
            r@ == self.folder(category),
    {
        let mut i: usize = 0;
        assert(self.category_folders@.subrange(0, self.category_folders@.len() as int)
            =~= self.category_folders@);
        while i < self.category_folders.len()
            invariant
                i <= self.category_folders@.len(),
                self.folder(category) == folder_lookup(
                    self.category_folders@.subrange(i as int, self.category_folders@.len() as int),
                    category,
                ),
            decreases self.category_folders.len() - i,
        {
            let ghost rest = self.category_folders@.subrange(
                i as int,
                self.category_folders@.len() as int,
            );
            assert(rest.drop_first() =~= self.category_folders@.subrange(
                i + 1,
                self.category_folders@.len() as int,
            ));
            if self.category_folders[i].0 == category {
                return self.category_folders[i].1.clone();
            }
            i = i + 1;
        }
        String::from_str("Other")
    }

    /// Compute the destination directory (without moving anything) for `src`.
    pub fn destination_for(&self, src: &str, category: Category) -> (r: String)
        ensures
            r@ == self.destination_spec(src@, category),
    {
        let p = chars_of(src);
        let root = chars_of(self.library_root.as_str());
        let kind = media_kind_chars(p.as_slice());
        let r = match (category, kind) {
            (Category::Video, MediaKind::TvSeries { season }) => {
                let title = match title_chars(p.as_slice()) {
                    Some(t) => t,
                    None => chars_of("Unknown Series"),
                };
                let shows = chars_of("TV Shows");
                let b0 = join_chars(root.as_slice(), shows.as_slice());
                let base = join_chars(b0.as_slice(), title.as_slice());
                match season {
                    Some(n) => {
                        let mut d = chars_of("Season ");
                        let digits = crate::text::decimal2_chars(n as u64);
                        crate::text::push_all(&mut d, digits.as_slice());
                        join_chars(base.as_slice(), d.as_slice())
                    },
                    None => base,
                }
            },
            (Category::Video, MediaKind::Movie { year }) => {
                let title = match title_chars(p.as_slice()) {
                    Some(t) => t,
                    None => chars_of("Unknown Title"),
                };
                let folder = self.category_folder(Category::Video);
                let fc = chars_of(folder.as_str());
                let base = join_chars(root.as_slice(), fc.as_slice());
                match year {
                    Some(y) => {
                        let mut d = title;
                        let open = chars_of(" (");
                        let close = chars_of(")");
                        let digits = crate::text::decimal_chars(y as u64);
                        crate::text::push_all(&mut d, open.as_slice());
                        crate::text::push_all(&mut d, digits.as_slice());
                        crate::text::push_all(&mut d, close.as_slice());
                        join_chars(base.as_slice(), d.as_slice())
                    },
                    None => join_chars(base.as_slice(), title.as_slice()),
                }
            },
            (Category::Audio, MediaKind::Music { artist, album }) => {
                let a = match artist {
                    Some(a) => chars_of(a.as_str()),
                    None => match title_chars(p.as_slice()) {
                        Some(t) => t,
                        None => chars_of("Unknown Artist"),
                    },
                };
                let al = match album {
                    Some(al) => chars_of(al.as_str()),
                    None => chars_of("Unknown Album"),
                };
                let folder = self.category_folder(Category::Audio);
                let fc = chars_of(folder.as_str());
                let b0 = join_chars(root.as_slice(), fc.as_slice());
                let b1 = join_chars(b0.as_slice(), a.as_slice());
                join_chars(b1.as_slice(), al.as_slice())
            },
            (Category::Audio, MediaKind::Other) => {
                let folder = self.category_folder(Category::Audio);
                let fc = chars_of(folder.as_str());
                let base = join_chars(root.as_slice(), fc.as_slice());
                match parent_name_of(p.as_slice()) {
                    Some(parent) => {
                        let t = clean_title_chars(parent.as_slice());
                        join_chars(base.as_slice(), t.as_slice())
                    },
                    None => base,
                }
            },
            (c, _) => {
                let folder = self.category_folder(c);
                let fc = chars_of(folder.as_str());
                join_chars(root.as_slice(), fc.as_slice())
            },
        };
        string_of(r.as_slice())
    }
}

} // verus!

verus! {

proof fn lemma_join2_extends(root: Seq<char>, a: Seq<char>, b: Seq<char>)
    ensures
        crate::text::starts_with(join(join(root, a), b), root),
{
    crate::paths::lemma_join_extends(root, a);
    crate::paths::lemma_join_extends(join(root, a), b);
    crate::text::lemma_starts_with_trans(join(join(root, a), b), join(root, a), root);
}

/// Nothing outside the library root is ever a destination: every directory
/// that [`Organizer::destination_for`] computes begins with the root.
pub proof fn law_destination_under_root(o: Organizer, src: Seq<char>, c: Category)
    ensures
        crate::text::starts_with(o.destination_spec(src, c), o.library_root@),
{
    let root = o.library_root@;
    match (c, media_kind_spec(src)) {
        (Category::Video, MediaKindView::TvSeries { season }) => {
            let title = text_or(title_spec(src), "Unknown Series"@);
            let base = join(join(root, "TV Shows"@), title);
            lemma_join2_extends(root, "TV Shows"@, title);
            match season {
                Some(n) => {
                    let d = "Season "@ + crate::text::decimal2(n as nat);
                    crate::paths::lemma_join_extends(base, d);
                    crate::text::lemma_starts_with_trans(join(base, d), base, root);
                },
                None => {},
            }
        },
        (Category::Video, MediaKindView::Movie { year }) => {
            let title = text_or(title_spec(src), "Unknown Title"@);
            let f = o.folder(Category::Video);
            match year {
                Some(y) => lemma_join2_extends(
                    root,
                    f,
                    title + " ("@ + crate::text::decimal(y as nat) + ")"@,
                ),
                None => lemma_join2_extends(root, f, title),
            }
        },
        (Category::Audio, MediaKindView::Music { artist, album }) => {
            let a = match artist {
                Some(a) => a,
                None => text_or(title_spec(src), "Unknown Artist"@),
            };
            let f = o.folder(Category::Audio);
            let b = join(join(root, f), a);
            lemma_join2_extends(root, f, a);
            crate::paths::lemma_join_extends(b, text_or(album, "Unknown Album"@));
            crate::text::lemma_starts_with_trans(
                join(b, text_or(album, "Unknown Album"@)),
                b,
                root,
            );
        },
        (Category::Audio, MediaKindView::Other) => {
            let f = o.folder(Category::Audio);
            crate::paths::lemma_join_extends(root, f);
            match parent_name(src) {
                Some(parent) => lemma_join2_extends(root, f, clean_title_spec(parent)),
                None => {},
            }
        },
        _ => {
            crate::paths::lemma_join_extends(root, o.folder(c));
        },
    }
}

/// The text holds no `.` at all.
pub open spec fn no_dot(s: Seq<char>) -> bool {
    forall|i: int| 0 <= i < s.len() ==> s[i] != '.'
}

/// A `..` path component of `t` starts at `i`.
pub open spec fn dotdot_at(t: Seq<char>, i: int) -> bool {
    &&& 0 <= i && i + 1 < t.len() && t[i] == '.' && t[i + 1] == '.'
    &&& (i == 0 || crate::paths::is_sep(t[i - 1]))
    &&& (i + 2 == t.len() || crate::paths::is_sep(t[i + 2]))
}

/// No path component of `t` is `..`.
pub open spec fn no_dotdot(t: Seq<char>) -> bool {
    forall|i: int| !#[trigger] dotdot_at(t, i)
}

/// `t` follows `root` at a component boundary.
pub open spec fn tail_at(root: Seq<char>, t: Seq<char>) -> bool {
    t.len() == 0 || root.len() == 0 || crate::paths::is_sep(root.last()) || crate::paths::is_sep(t[0])
}

proof fn lemma_no_dot_dotdot(s: Seq<char>)
    requires
        no_dot(s),
    ensures
        no_dotdot(s),
{
    assert forall|i: int| !#[trigger] dotdot_at(s, i) by {
        if 0 <= i < s.len() {
            assert(s[i] != '.');
        }
    }
}

proof fn lemma_collapse_no_dot(s: Seq<char>, pending: bool, started: bool)
    requires
        no_dot(s),
    ensures
        no_dot(collapse(s, pending, started)),
    decreases s.len(),
{
    if s.len() > 0 {
        assert(no_dot(s.drop_first())) by {
            assert forall|i: int| 0 <= i < s.drop_first().len() implies s.drop_first()[i] != '.' by {
                assert(s.drop_first()[i] == s[i + 1]);
            }
        }
        if is_ws(s[0]) {
            lemma_collapse_no_dot(s.drop_first(), started, started);
        } else {
            lemma_collapse_no_dot(s.drop_first(), false, true);
            let h = (if pending { seq![' '] } else { seq![] }) + seq![s[0]];
            let r = collapse(s.drop_first(), false, true);
            assert(collapse(s, pending, started) == h + r);
            assert forall|i: int| 0 <= i < (h + r).len() implies (h + r)[i] != '.' by {
                if i >= h.len() {
                    assert((h + r)[i] == r[i - h.len()]);
                }
            }
        }
    }
}

proof fn lemma_strip_no_dot(s: Seq<char>)
    requires
        no_dot(s),
    ensures
        no_dot(strip_brackets(s)),
    decreases s.len(),
{
    if s.len() > 0 {
        assert(no_dot(s.drop_last())) by {
            assert forall|i: int| 0 <= i < s.drop_last().len() implies s.drop_last()[i] != '.' by {
                assert(s.drop_last()[i] == s[i]);
            }
        }
        lemma_strip_no_dot(s.drop_last());
    }
}

proof fn lemma_trim_start_no_dot(s: Seq<char>)
    requires
        no_dot(s),
    ensures
        no_dot(crate::text::trim_start(s)),
    decreases s.len(),
{
    if s.len() > 0 && is_ws(s[0]) {
        assert(no_dot(s.drop_first())) by {
            assert forall|i: int| 0 <= i < s.drop_first().len() implies s.drop_first()[i] != '.' by {
                assert(s.drop_first()[i] == s[i + 1]);
            }
        }
        lemma_trim_start_no_dot(s.drop_first());
    }
}

proof fn lemma_trim_end_no_dot(s: Seq<char>)
    requires
        no_dot(s),
    ensures
        no_dot(crate::text::trim_end(s)),
    decreases s.len(),
{
    if s.len() > 0 && is_ws(s.last()) {
        assert(no_dot(s.drop_last())) by {
            assert forall|i: int| 0 <= i < s.drop_last().len() implies s.drop_last()[i] != '.' by {
                assert(s.drop_last()[i] == s[i]);
            }
        }
        lemma_trim_end_no_dot(s.drop_last());
    }
}

/// A cleaned title holds no `.`: dots become spaces.
proof fn lemma_clean_no_dot(raw: Seq<char>)
    ensures
        no_dot(clean_title_spec(raw)),
{
    reveal(clean_title_spec);
    let s1 = replace_char(remove_tags(raw), '.', ' ');
    let s = replace_char(replace_char(s1, '_', ' '), '-', ' ');
    assert(no_dot(s));
    lemma_collapse_no_dot(s, false, false);
    lemma_strip_no_dot(collapse(s, false, false));
    lemma_trim_start_no_dot(strip_brackets(collapse(s, false, false)));
    lemma_trim_end_no_dot(crate::text::trim_start(strip_brackets(collapse(s, false, false))));
}

proof fn lemma_title_no_dot(src: Seq<char>)
    ensures
        title_spec(src) matches Some(t) ==> no_dot(t),
{
    reveal(title_before_season_spec);
    reveal(title_before_year_spec);
    let candidate = match file_stem(src) {
        Some(s) => s,
        None => src,
    };
    lemma_clean_no_dot(candidate);
    let k = find_marker(compact(candidate), 0, 'S', 'E');
    let best = if k < 0 { candidate.len() as int } else { kept_pos(candidate, k, 0, 0) };
    lemma_clean_no_dot(candidate.subrange(0, best));
    lemma_clean_no_dot(candidate.subrange(0, first_year_at(candidate, 0)));
}

proof fn lemma_decimal_no_dot(n: nat)
    ensures
        no_dot(crate::text::decimal(n)),
    decreases n,
{
    if n < 10 {
        assert(crate::text::digit_char(n as int) != '.') by {
            assert((48 + n) as char != '.');
        }
    } else {
        lemma_decimal_no_dot(n / 10);
        let d = (n % 10) as int;
        assert(crate::text::digit_char(d) != '.') by {
            assert((48 + d) as char != '.');
        }
    }
}

proof fn lemma_concat_no_dot(a: Seq<char>, b: Seq<char>)
    requires
        no_dot(a),
        no_dot(b),
    ensures
        no_dot(a + b),
{
    assert forall|i: int| 0 <= i < (a + b).len() implies (a + b)[i] != '.' by {
        if i >= a.len() {
            assert((a + b)[i] == b[i - a.len()]);
        }
    }
}

proof fn lemma_music_no_dot(p: Seq<char>)
    ensures
        parse_music_spec(p) matches Some((x, y)) ==> no_dot(x) && no_dot(y),
{
    reveal(parse_music_spec);
    if let Some(name) = file_stem(p) {
        if let Some(i) = find(name, dash_sep()) {
            let rest = name.subrange(i + 3, name.len() as int);
            lemma_clean_no_dot(trim(name.subrange(0, i)));
            if let Some(j) = find(rest, dash_sep()) {
                lemma_clean_no_dot(trim(rest.subrange(0, j)));
                assert(parse_music_spec(p) == Some(
                    (clean_title_spec(trim(name.subrange(0, i))), clean_title_spec(trim(rest.subrange(0, j)))),
                ));
            }
        }
    }
}

/// Joining a component free of `..` onto `root + t` keeps the tail after
/// `root` free of `..` components and at a component boundary.
proof fn lemma_join_tail(root: Seq<char>, t: Seq<char>, seg: Seq<char>) -> (t2: Seq<char>)
    requires
        no_dotdot(t),
        tail_at(root, t),
        no_dotdot(seg),
    ensures
        join(root + t, seg) == root + t2,
        no_dotdot(t2),
        tail_at(root, t2),
{
    let x = root + t;
    if x.len() == 0 {
        assert(root + seg =~= seg);
        seg
    } else if crate::paths::is_sep(x.last()) {
        let t2 = t + seg;
        assert(join(x, seg) =~= root + t2);
        assert forall|i: int| !#[trigger] dotdot_at(t2, i) by {
            if dotdot_at(t2, i) {
                if i + 1 < t.len() {
                    if i + 2 < t.len() {
                        assert(dotdot_at(t, i));
                    } else {
                        assert(t[i + 1] == t.last());
                        assert(x.last() == t.last());
                    }
                } else if i + 1 == t.len() {
                    assert(t2[i + 1] == seg[0]);
                    assert(t2[i] == t.last());
                    assert(x.last() == t.last());
                } else {
                    let j = i - t.len();
                    assert(t2[i] == seg[j] && t2[i + 1] == seg[j + 1]);
                    if j > 0 {
                        assert(t2[i - 1] == seg[j - 1]);
                    } else if t.len() > 0 {
                        assert(t2[i - 1] == t.last());
                        assert(x.last() == t.last());
                    }
                    if i + 2 < t2.len() {
                        assert(t2[i + 2] == seg[j + 2]);
                    }
                    assert(dotdot_at(seg, j));
                }
            }
        }
        if t.len() > 0 {
            assert(t2[0] == t[0]);
        } else if t2.len() > 0 && root.len() > 0 {
            assert(x.last() == root.last());
        }
        t2
    } else {
        let sp = crate::paths::sep_for(x);
        let t2 = t + seq![sp] + seg;
        assert(join(x, seg) =~= root + t2);
        assert(crate::paths::is_sep(sp));
        assert forall|i: int| !#[trigger] dotdot_at(t2, i) by {
            if dotdot_at(t2, i) {
                if i + 1 < t.len() {
                    if i + 2 < t.len() {
                        assert(dotdot_at(t, i));
                    } else {
                        assert(t2[i + 2] == sp);
                        assert(dotdot_at(t, i));
                    }
                } else if i + 1 == t.len() {
                    assert(t2[i + 1] == sp);
                } else if i == t.len() {
                    assert(t2[i] == sp);
                } else {
                    let j = i - t.len() - 1;
                    assert(t2[i] == seg[j] && t2[i + 1] == seg[j + 1]);
                    if j > 0 {
                        assert(t2[i - 1] == seg[j - 1]);
                    }
                    if i + 2 < t2.len() {
                        assert(t2[i + 2] == seg[j + 2]);
                    }
                    assert(dotdot_at(seg, j));
                }
            }
        }
        if t.len() > 0 {
            assert(t2[0] == t[0]);
        } else {
            assert(t2[0] == sp);
        }
        t2
    }
}

/// The default category folders have no `..` component, so an organizer
/// made by [`Organizer::new`] meets [`law_destination_components`].
pub proof fn lemma_default_folders_safe(c: Category)
    ensures
        no_dotdot(default_folder(c)),
{
    reveal_strlit("Music");
    reveal_strlit("Movies");
    reveal_strlit("Pictures");
    reveal_strlit("Archives");
    reveal_strlit("Documents");
    reveal_strlit("Software");
    reveal_strlit("Other");
    assert(no_dot(default_folder(c)));
    lemma_no_dot_dotdot(default_folder(c));
}

/// The destination never leaves the library root: it is the root followed,
/// at a component boundary, by path components none of which is `..`,
/// whenever no category folder has a `..` component (as with the default
/// folders). Cleaned titles and artist and album names hold no `.` at all.
pub proof fn law_destination_components(o: Organizer, src: Seq<char>, c: Category)
    requires
        forall|k: Category| #[trigger] no_dotdot(o.folder(k)),
    ensures
        exists|t: Seq<char>|
            #![trigger no_dotdot(t)]
            o.destination_spec(src, c) == o.library_root@ + t && no_dotdot(t) && tail_at(o.library_root@, t),
{
    let root = o.library_root@;
    let e: Seq<char> = seq![];
    assert(root + e =~= root);
    assert(no_dotdot(e));
    lemma_title_no_dot(src);
    reveal_strlit("TV Shows");
    reveal_strlit("Unknown Series");
    reveal_strlit("Unknown Title");
    reveal_strlit("Unknown Artist");
    reveal_strlit("Unknown Album");
    reveal_strlit("Season ");
    reveal_strlit(" (");
    reveal_strlit(")");
    assert(no_dot("TV Shows"@));
    assert(no_dot("Unknown Series"@));
    assert(no_dot("Unknown Title"@));
    assert(no_dot("Unknown Artist"@));
    assert(no_dot("Unknown Album"@));
    assert(no_dot("Season "@));
    assert(no_dot(" ("@));
    assert(no_dot(")"@));
    let d = o.destination_spec(src, c);
    match (c, media_kind_spec(src)) {
        (Category::Video, MediaKindView::TvSeries { season }) => {
            let title = text_or(title_spec(src), "Unknown Series"@);
            lemma_no_dot_dotdot("TV Shows"@);
            lemma_no_dot_dotdot(title);
            let t1 = lemma_join_tail(root, e, "TV Shows"@);
            let t2 = lemma_join_tail(root, t1, title);
            match season {
                Some(n) => {
                    let sd = "Season "@ + crate::text::decimal2(n as nat);
                    lemma_decimal_no_dot(n as nat);
                    if (n as nat) < 10 {
                        assert(no_dot(seq!['0']));
                        lemma_concat_no_dot(seq!['0'], crate::text::decimal(n as nat));
                    }
                    lemma_concat_no_dot("Season "@, crate::text::decimal2(n as nat));
                    lemma_no_dot_dotdot(sd);
                    let t3 = lemma_join_tail(root, t2, sd);
                    assert(no_dotdot(t3));
                },
                None => {
                    assert(no_dotdot(t2));
                },
            }
        },
        (Category::Video, MediaKindView::Movie { year }) => {
            let title = text_or(title_spec(src), "Unknown Title"@);
            let f = o.folder(Category::Video);
            assert(no_dotdot(f));
            let t1 = lemma_join_tail(root, e, f);
            match year {
                Some(y) => {
                    let seg = title + " ("@ + crate::text::decimal(y as nat) + ")"@;
                    lemma_decimal_no_dot(y as nat);
                    lemma_concat_no_dot(title, " ("@);
                    lemma_concat_no_dot(title + " ("@, crate::text::decimal(y as nat));
                    lemma_concat_no_dot(title + " ("@ + crate::text::decimal(y as nat), ")"@);
                    lemma_no_dot_dotdot(seg);
                    let t2 = lemma_join_tail(root, t1, seg);
                    assert(no_dotdot(t2));
                },
                None => {
                    lemma_no_dot_dotdot(title);
                    let t2 = lemma_join_tail(root, t1, title);
                    assert(no_dotdot(t2));
                },
            }
        },
        (Category::Audio, MediaKindView::Music { artist, album }) => {
            reveal(media_kind_spec);
            let a = match artist {
                Some(a) => a,
                None => text_or(title_spec(src), "Unknown Artist"@),
            };
            let al = text_or(album, "Unknown Album"@);
            assert(parse_music_spec(src) == Some((artist->0, album->0)));
            lemma_music_no_dot(src);
            assert(no_dot(a));
            assert(no_dot(al));
            let f = o.folder(Category::Audio);
            assert(no_dotdot(f));
            lemma_no_dot_dotdot(a);
            lemma_no_dot_dotdot(al);
            let t1 = lemma_join_tail(root, e, f);
            let t2 = lemma_join_tail(root, t1, a);
            let t3 = lemma_join_tail(root, t2, al);
            assert(no_dotdot(t3));
        },
        (Category::Audio, MediaKindView::Other) => {
            let f = o.folder(Category::Audio);
            assert(no_dotdot(f));
            let t1 = lemma_join_tail(root, e, f);
            match parent_name(src) {
                Some(parent) => {
                    lemma_clean_no_dot(parent);
                    lemma_no_dot_dotdot(clean_title_spec(parent));
                    let t2 = lemma_join_tail(root, t1, clean_title_spec(parent));
                    assert(no_dotdot(t2));
                },
                None => {
                    assert(no_dotdot(t1));
                },
            }
        },
        _ => {
            let f = o.folder(c);
            assert(no_dotdot(f));
            let t1 = lemma_join_tail(root, e, f);
            assert(no_dotdot(t1));
        },
    }
}

impl Organizer {
    /// The path that `src` is moved to: its file name (or `download` when it
    /// has none) under [`Organizer::destination_for`].
    pub fn destination_file_for(&self, src: &str, category: Category) -> (r: String)
        ensures
            r@ == join(
                self.destination_spec(src@, category),
                text_or(file_name(src@), "download"@),
            ),
    {
        let dir = self.destination_for(src, category);
        let p = chars_of(src);
        let name = match file_name_of(p.as_slice()) {
            Some(n) => n,
            None => chars_of("download"),
        };
        crate::paths::join_path(&dir, name.as_slice())
    }
}

} // verus!

verus! {

/// What organizing a file does once its destination is known.
#[derive(Debug, Clone, Copy, PartialEq, Eq, Structural)]
pub enum PlaceStep {
    /// The file already is at its destination: nothing to do.
    AlreadyInPlace,
    /// The destination directory resolves outside the library root: refused
    /// as an unsafe path.
    Outside,
    /// Something already is at the destination: refused.
    Occupied,
    /// Move (or copy and remove) the file to the destination.
    Move,
}

/// Decides the placing of a file: a file already at its destination stays;
/// else a destination directory outside the library root is refused, then
/// an occupied destination; otherwise the file is moved.
pub fn place_step(same_path: bool, inside_root: bool, destination_exists: bool) -> (s: PlaceStep)
    ensures
        s == if same_path {
            PlaceStep::AlreadyInPlace
        } else if !inside_root {
            PlaceStep::Outside
        } else if destination_exists {
            PlaceStep::Occupied
        } else {
            PlaceStep::Move
        },
{
    if same_path {
        PlaceStep::AlreadyInPlace
    } else if !inside_root {
        PlaceStep::Outside
    } else if destination_exists {
        PlaceStep::Occupied
    } else {
        PlaceStep::Move
    }
}

} // verus!
