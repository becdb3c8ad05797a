//! Minimal bencode reader for `.torrent` metainfo (name, file list, sizes,
//! private flag). It never panics, rejects malformed input (and lists and
//! dictionaries nested deeper than `MAX_DEPTH`, so deep input cannot exhaust
//! the stack), and is not part
//! of the BitTorrent wire protocol.

use vstd::prelude::*;
use crate::text::{string_from_utf8_lossy, utf8_lossy};
use vstd::string::StringExecFns;

verus! {

/// A parsed bencode value. Dictionary entries are kept in input order; a key
/// that occurs twice is read with its last value.
#[derive(Debug)]
pub enum Value {
    Int(i64),
    Bytes(Vec<u8>),
    List(Vec<Value>),
    Dict(Vec<(Vec<u8>, Value)>),
}

/// The mathematical model of a bencode value.
pub enum BValue {
    Int(int),
    Bytes(Seq<u8>),
    List(Seq<BValue>),
    Dict(Seq<(Seq<u8>, BValue)>),
}

pub open spec fn view_value(v: Value) -> BValue
    decreases v,
{
    match v {
        Value::Int(i) => BValue::Int(i as int),
        Value::Bytes(b) => BValue::Bytes(b@),
        Value::List(l) => BValue::List(view_values(l@)),
        Value::Dict(d) => BValue::Dict(view_entries(d@)),
    }
}

pub open spec fn view_values(s: Seq<Value>) -> Seq<BValue>
    decreases s,
{
    if s.len() == 0 {
        seq![]
    } else {
        view_values(s.drop_last()).push(view_value(s.last()))
    }
}

pub open spec fn view_entries(s: Seq<(Vec<u8>, Value)>) -> Seq<(Seq<u8>, BValue)>
    decreases s,
{
    if s.len() == 0 {
        seq![]
    } else {
        view_entries(s.drop_last()).push((s.last().0@, view_value(s.last().1)))
    }
}

} // verus!

verus! {

pub open spec fn is_digit_byte(b: u8) -> bool {
    0x30 <= b && b <= 0x39
}

pub open spec fn all_digits(t: Seq<u8>) -> bool {
    forall|i: int| 0 <= i < t.len() ==> is_digit_byte(#[trigger] t[i])
}

/// The decimal value of a run of digit bytes.
pub open spec fn decimal_value(t: Seq<u8>) -> int
    decreases t.len(),
{
    if t.len() == 0 {
        0
    } else {
        decimal_value(t.drop_last()) * 10 + (t.last() - 0x30)
    }
}

/// `i64::from_str` on text made of digits and `-`: an optional leading `-`
/// followed by at least one digit, within the range of `i64`.
pub open spec fn i64_text_value(t: Seq<u8>) -> Option<int> {
    if t.len() > 0 && t[0] == 0x2D {
        let r = t.drop_first();
        if r.len() > 0 && all_digits(r) && decimal_value(r) <= 0x8000_0000_0000_0000 {
            Some(-decimal_value(r))
        } else {
            None
        }
    } else if t.len() > 0 && all_digits(t) && decimal_value(t) <= 0x7fff_ffff_ffff_ffff {
        Some(decimal_value(t))
    } else {
        None
    }
}

/// The first position at or after `k` that is neither a digit nor `-`.
pub open spec fn int_scan_end(d: Seq<u8>, k: int) -> int
    decreases d.len() - k,
{
    if k < 0 || k >= d.len() || !(is_digit_byte(d[k]) || d[k] == 0x2D) {
        k
    } else {
        int_scan_end(d, k + 1)
    }
}

/// The first position at or after `k` that is not a digit.
pub open spec fn digit_scan_end(d: Seq<u8>, k: int) -> int
    decreases d.len() - k,
{
    if k < 0 || k >= d.len() || !is_digit_byte(d[k]) {
        k
    } else {
        digit_scan_end(d, k + 1)
    }
}

/// An integer `i<digits>e` starting at `pos` (the `i`).
pub open spec fn sp_int(d: Seq<u8>, pos: int) -> Option<(BValue, int)> {
    let e = int_scan_end(d, pos + 1);
    if e < d.len() && d[e] == 0x65 {
        match i64_text_value(d.subrange(pos + 1, e)) {
            Some(n) => Some((BValue::Int(n), e + 1)),
            None => None,
        }
    } else {
        None
    }
}

/// A byte string `<len>:<bytes>` starting at `pos` (the first digit).
pub open spec fn sp_bytes(d: Seq<u8>, pos: int) -> Option<(BValue, int)> {
    let c = digit_scan_end(d, pos);
    if c < d.len() && d[c] == 0x3A {
        let len = decimal_value(d.subrange(pos, c));
        let end = c + 1 + len;
        if c > pos && len <= usize::MAX && end <= usize::MAX && end <= d.len() {
            Some((BValue::Bytes(d.subrange(c + 1, end)), end))
        } else {
            None
        }
    } else {
        None
    }
}

/// The deepest nesting of lists and dictionaries the reader accepts; a
/// deeper document is rejected, so reading never exhausts the stack.
pub const MAX_DEPTH: usize = 256;

/// A value starting at `pos`, with the position just after it, with at
/// most `depth` more levels of lists and dictionaries inside it.
pub open spec fn sp_value(d: Seq<u8>, pos: int, depth: int) -> Option<(BValue, int)>
    decreases d.len() - pos, 0int,
{
    if pos < 0 || pos >= d.len() {
        None
    } else if d[pos] == 0x69 {
        sp_int(d, pos)
    } else if d[pos] == 0x6C {
        if depth <= 0 {
            None
        } else {
            sp_list(d, pos + 1, seq![], depth - 1)
        }
    } else if d[pos] == 0x64 {
        if depth <= 0 {
            None
        } else {
            sp_dict(d, pos + 1, seq![], depth - 1)
        }
    } else if is_digit_byte(d[pos]) {
        sp_bytes(d, pos)
    } else {
        None
    }
}

/// The rest of a list whose items so far are `acc`, from `pos`.
pub open spec fn sp_list(d: Seq<u8>, pos: int, acc: Seq<BValue>, depth: int) -> Option<(BValue, int)>
    decreases d.len() - pos, 1int,
{
    if pos < 0 || pos >= d.len() {
        None
    } else if d[pos] == 0x65 {
        Some((BValue::List(acc), pos + 1))
    } else {
        match sp_value(d, pos, depth) {
            Some((v, p)) => if p > pos && p <= d.len() {
                sp_list(d, p, acc.push(v), depth)
            } else {
                None
            },
            None => None,
        }
    }
}

/// The rest of a dictionary whose entries so far are `acc`, from `pos`.
pub open spec fn sp_dict(d: Seq<u8>, pos: int, acc: Seq<(Seq<u8>, BValue)>, depth: int) -> Option<(BValue, int)>
    decreases d.len() - pos, 1int,
{
    if pos < 0 || pos >= d.len() {
        None
    } else if d[pos] == 0x65 {
        Some((BValue::Dict(acc), pos + 1))
    } else {
        match sp_value(d, pos, depth) {
            Some((BValue::Bytes(k), p1)) => if p1 > pos && p1 <= d.len() {
                match sp_value(d, p1, depth) {
                    Some((v, p2)) => if p2 > p1 && p2 <= d.len() {
                        sp_dict(d, p2, acc.push((k, v)), depth)
                    } else {
                        None
                    },
                    None => None,
                }
            } else {
                None
            },
            _ => None,
        }
    }
}

/// A complete document: one value, nested at most [`MAX_DEPTH`] deep, and
/// nothing after it.
pub open spec fn sp_parse(d: Seq<u8>) -> Option<BValue> {
    match sp_value(d, 0, MAX_DEPTH as int) {
        Some((v, p)) => if p == d.len() {
            Some(v)
        } else {
            None
        },
        None => None,
    }
}

proof fn lemma_int_scan(d: Seq<u8>, a: int, k: int)
    requires
        0 <= a <= k <= d.len(),
        forall|j: int| a <= j < k ==> (is_digit_byte(#[trigger] d[j]) || d[j] == 0x2D),
    ensures
        int_scan_end(d, a) == int_scan_end(d, k),
    decreases k - a,
{
    if a < k {
        lemma_int_scan(d, a + 1, k);
    }
}

proof fn lemma_digit_scan(d: Seq<u8>, a: int, k: int)
    requires
        0 <= a <= k <= d.len(),
        forall|j: int| a <= j < k ==> is_digit_byte(#[trigger] d[j]),
    ensures
        digit_scan_end(d, a) == digit_scan_end(d, k),
    decreases k - a,
{
    if a < k {
        lemma_digit_scan(d, a + 1, k);
    }
}

proof fn lemma_decimal_nonneg(t: Seq<u8>)
    requires
        all_digits(t),
    ensures
        decimal_value(t) >= 0,
    decreases t.len(),
{
    if t.len() > 0 {
        assert(all_digits(t.drop_last())) by {
            assert forall|i: int| 0 <= i < t.drop_last().len() implies is_digit_byte(#[trigger] t.drop_last()[i]) by {
                assert(t.drop_last()[i] == t[i]);
            }
        }
        lemma_decimal_nonneg(t.drop_last());
        assert(is_digit_byte(t[t.len() - 1]));
    }
}

/// The decimal value of `t`, capped at `cap`.
fn capped_decimal(t: &[u8], cap: u128) -> (r: u128)
    requires
        all_digits(t@),
        cap <= 0x1_0000_0000_0000_0000,
    ensures
        r == if decimal_value(t@) < cap { decimal_value(t@) } else { cap as int },
{
    let mut acc: u128 = 0;
    let mut i: usize = 0;
    while i < t.len()
        invariant
            i <= t.len(),
            all_digits(t@),
            cap <= 0x1_0000_0000_0000_0000,
            acc <= cap,
            acc == if decimal_value(t@.take(i as int)) < cap { decimal_value(t@.take(i as int)) } else { cap as int },
        decreases t.len() - i,
    {
        let ghost prev = t@.take(i as int);
        assert(t@.take(i + 1).drop_last() =~= prev);
        assert(is_digit_byte(t@[i as int]));
        let dgt = (t[i] - 48u8) as u128;
        proof {
            assert(all_digits(prev)) by {
                assert forall|j: int| 0 <= j < prev.len() implies is_digit_byte(#[trigger] prev[j]) by {
                    assert(prev[j] == t@[j]);
                }
            }
            lemma_decimal_nonneg(prev);
        }
        let next = acc * 10 + dgt;
        proof {
            let x = decimal_value(prev);
            assert(decimal_value(t@.take(i + 1)) == x * 10 + dgt);
            if x >= cap {
                assert(x * 10 + dgt >= cap) by (nonlinear_arith)
                    requires x >= cap, dgt >= 0;
            }
        }
        acc = if next < cap { next } else { cap };
        i = i + 1;
    }
    assert(t@.take(t.len() as int) =~= t@);
    acc
}

/// `i64::from_str` on text made of digits and `-`.
fn i64_from_text(t: &[u8]) -> (r: Option<i64>)
    requires
        forall|i: int| 0 <= i < t@.len() ==> (is_digit_byte(#[trigger] t@[i]) || t@[i] == 0x2D),
    ensures
        match r {
            Some(n) => i64_text_value(t@) == Some(n as int),
            None => i64_text_value(t@) is None,
        },
{
    if t.len() == 0 {
        return None;
    }
    if t[0] == 45u8 {
        let rest = &t[1..t.len()];
        assert(rest@ =~= t@.drop_first());
        if rest.len() == 0 {
            return None;
        }
        let mut k: usize = 0;
        while k < rest.len()
            invariant
                k <= rest.len(),
                rest@ == t@.drop_first(),
                t@.len() > 0 && t@[0] == 0x2D,
                forall|j: int| 0 <= j < k ==> is_digit_byte(#[trigger] rest@[j]),
            decreases rest.len() - k,
        {
            if !(48u8 <= rest[k] && rest[k] <= 57u8) {
                assert(!is_digit_byte(rest@[k as int]));
                assert(!all_digits(rest@));
                return None;
            }
            k = k + 1;
        }
        let v = capped_decimal(rest, 0x8000_0000_0000_0001);
        if v > 0x8000_0000_0000_0000 {
            return None;
        }
        proof {
            lemma_decimal_nonneg(rest@);
        }
        if v == 0x8000_0000_0000_0000 {
            return Some(i64::MIN);
        }
        let m = v as i64;
        Some(-m)
    } else {
        let mut k: usize = 0;
        while k < t.len()
            invariant
                k <= t.len(),
                t@.len() > 0 && t@[0] != 0x2D,
                forall|j: int| 0 <= j < k ==> is_digit_byte(#[trigger] t@[j]),
            decreases t.len() - k,
        {
            if !(48u8 <= t[k] && t[k] <= 57u8) {
                assert(!is_digit_byte(t@[k as int]));
                assert(!all_digits(t@));
                return None;
            }
            k = k + 1;
        }
        let v = capped_decimal(t, 0x8000_0000_0000_0000);
        if v > 0x7fff_ffff_ffff_ffff {
            return None;
        }
        proof {
            lemma_decimal_nonneg(t@);
        }
        Some(v as i64)
    }
}

proof fn lemma_view_values_push(s: Seq<Value>, v: Value)
    ensures
        view_values(s.push(v)) == view_values(s).push(view_value(v)),
{
    assert(s.push(v).drop_last() =~= s);
}

proof fn lemma_view_entries_push(s: Seq<(Vec<u8>, Value)>, e: (Vec<u8>, Value))
    ensures
        view_entries(s.push(e)) == view_entries(s).push((e.0@, view_value(e.1))),
{
    assert(s.push(e).drop_last() =~= s);
}

/// An integer `i<digits>e` starting at `pos` (the `i`).
fn parse_int(d: &[u8], pos: usize) -> (r: Result<(Value, usize), &'static str>)
    requires
        pos < d.len(),
        d@[pos as int] == 0x69,
    ensures
        match r {
            Ok((v, p)) => sp_int(d@, pos as int) == Some((view_value(v), p as int)) && pos < p
                <= d.len(),
            Err(_) => sp_int(d@, pos as int) is None,
        },
{
    let start = pos + 1;
    let mut i = start;
    while i < d.len() && d[i] != 101u8
        invariant
            start <= i <= d.len(),
            start == pos + 1,
            forall|j: int| start <= j < i ==> (is_digit_byte(#[trigger] d@[j]) || d@[j] == 0x2D),
        decreases d.len() - i,
    {
        if !((48u8 <= d[i] && d[i] <= 57u8) || d[i] == 45u8) {
            proof {
                lemma_int_scan(d@, start as int, i as int);
            }
            return Err("invalid integer");
        }
        i = i + 1;
    }
    proof {
        lemma_int_scan(d@, start as int, i as int);
    }
    if i >= d.len() {
        return Err("unterminated integer");
    }
    let text = &d[start..i];
    assert(text@ =~= d@.subrange(start as int, i as int));
    match i64_from_text(text) {
        Some(n) => Ok((Value::Int(n), i + 1)),
        None => Err("invalid integer"),
    }
}

/// A byte string `<len>:<bytes>` starting at `pos` (the first digit).
fn parse_bytes(d: &[u8], pos: usize) -> (r: Result<(Value, usize), &'static str>)
    requires
        pos < d.len(),
        is_digit_byte(d@[pos as int]),
    ensures
        match r {
            Ok((v, p)) => sp_bytes(d@, pos as int) == Some((view_value(v), p as int)) && pos < p
                <= d.len(),
            Err(_) => sp_bytes(d@, pos as int) is None,
        },
{
    let mut i = pos;
    while i < d.len() && d[i] != 58u8
        invariant
            pos <= i <= d.len(),
            forall|j: int| pos <= j < i ==> is_digit_byte(#[trigger] d@[j]),
        decreases d.len() - i,
    {
        if !(48u8 <= d[i] && d[i] <= 57u8) {
            proof {
                lemma_digit_scan(d@, pos as int, i as int);
            }
            return Err("invalid length");
        }
        i = i + 1;
    }
    proof {
        lemma_digit_scan(d@, pos as int, i as int);
    }
    if i >= d.len() {
        return Err("unterminated length");
    }
    let colon = i;
    assert(colon > pos) by {
        assert(d@[pos as int] != 0x3A);
    }
    let text = &d[pos..colon];
    assert(text@ =~= d@.subrange(pos as int, colon as int));
    assert(all_digits(text@));
    proof {
        lemma_decimal_nonneg(text@);
    }
    let v = capped_decimal(text, 0x1_0000_0000_0000_0000);
    if v > usize::MAX as u128 {
        return Err("invalid length");
    }
    let len = v as usize;
    let after = colon + 1;
    if len > usize::MAX - after {
        return Err("length overflow");
    }
    let end = after + len;
    if end > d.len() {
        return Err("length exceeds input");
    }
    let bytes = vstd::slice::slice_to_vec(&d[after..end]);
    assert(bytes@ =~= d@.subrange(after as int, end as int));
    Ok((Value::Bytes(bytes), end))
}

/// A value starting at `pos`, with the position just after it.
fn parse_value(d: &[u8], pos: usize, depth: usize) -> (r: Result<(Value, usize), &'static str>)
    ensures
        match r {
            Ok((v, p)) => sp_value(d@, pos as int, depth as int) == Some((view_value(v), p as int)) && pos < p
                <= d.len(),
            Err(_) => sp_value(d@, pos as int, depth as int) is None,
        },
    decreases d.len() - pos, 1int,
{
    if pos >= d.len() {
        return Err("unexpected end of input");
    }
    let b = d[pos];
    if b == 105u8 {
        parse_int(d, pos)
    } else if b == 108u8 {
        if depth == 0 {
            return Err("nesting too deep");
        }
        parse_list(d, pos, depth - 1)
    } else if b == 100u8 {
        if depth == 0 {
            return Err("nesting too deep");
        }
        parse_dict(d, pos, depth - 1)
    } else if 48u8 <= b && b <= 57u8 {
        parse_bytes(d, pos)
    } else {
        Err("invalid value type")
    }
}

/// A list `l<items>e` starting at `pos` (the `l`).
fn parse_list(d: &[u8], pos: usize, depth: usize) -> (r: Result<(Value, usize), &'static str>)
    requires
        pos < d.len(),
    ensures
        match r {
            Ok((v, p)) => sp_list(d@, pos + 1, seq![], depth as int) == Some((view_value(v), p as int)) && pos
                < p <= d.len(),
            Err(_) => sp_list(d@, pos + 1, seq![], depth as int) is None,
        },
    decreases d.len() - pos, 0int,
{
    let mut q = pos + 1;
    let mut items: Vec<Value> = Vec::new();
    assert(view_values(items@) =~= Seq::<BValue>::empty());
    loop
        invariant
            pos < q <= d.len(),
            sp_list(d@, pos + 1, seq![], depth as int) == sp_list(d@, q as int, view_values(items@), depth as int),
        decreases d.len() - q,
    {
        if q >= d.len() {
            return Err("unterminated list");
        }
        if d[q] == 101u8 {
            return Ok((Value::List(items), q + 1));
        }
        let ghost acc = view_values(items@);
        let (v, p) = parse_value(d, q, depth)?;
        proof {
            lemma_view_values_push(items@, v);
        }
        items.push(v);
        q = p;
    }
}

/// A dictionary `d<key><value>...e` starting at `pos` (the `d`).
fn parse_dict(d: &[u8], pos: usize, depth: usize) -> (r: Result<(Value, usize), &'static str>)
    requires
        pos < d.len(),
    ensures
        match r {
            Ok((v, p)) => sp_dict(d@, pos + 1, seq![], depth as int) == Some((view_value(v), p as int)) && pos
                < p <= d.len(),
            Err(_) => sp_dict(d@, pos + 1, seq![], depth as int) is None,
        },
    decreases d.len() - pos, 0int,
{
    let mut q = pos + 1;
    let mut entries: Vec<(Vec<u8>, Value)> = Vec::new();
    assert(view_entries(entries@) =~= Seq::<(Seq<u8>, BValue)>::empty());
    loop
        invariant
            pos < q <= d.len(),
            sp_dict(d@, pos + 1, seq![], depth as int) == sp_dict(d@, q as int, view_entries(entries@), depth as int),
        decreases d.len() - q,
    {
        if q >= d.len() {
            return Err("unterminated dictionary");
        }
        if d[q] == 101u8 {
            return Ok((Value::Dict(entries), q + 1));
        }
        let (k, p1) = parse_value(d, q, depth)?;
        let key = match k {
            Value::Bytes(b) => b,
            _ => {
                return Err("non-bytes dictionary key");
            },
        };
        let (v, p2) = parse_value(d, p1, depth)?;
        proof {
            lemma_view_entries_push(entries@, (key, v));
        }
        entries.push((key, v));
        q = p2;
    }
}

/// Parse a complete bencode document. Fails on trailing data and on lists
/// and dictionaries nested deeper than [`MAX_DEPTH`].
pub fn parse(data: &[u8]) -> (r: Result<Value, &'static str>)
    ensures
        match r {
            Ok(v) => sp_parse(data@) == Some(view_value(v)),
            Err(_) => sp_parse(data@) is None,
        },
{
    let (value, pos) = parse_value(data, 0, MAX_DEPTH)?;
    if pos != data.len() {
        return Err("trailing data");
    }
    Ok(value)
}

} // verus!

verus! {

/// The value of the last entry with `key` (later duplicates overwrite
/// earlier ones).
pub open spec fn dict_get(e: Seq<(Seq<u8>, BValue)>, key: Seq<u8>) -> Option<BValue>
    decreases e.len(),
{
    if e.len() == 0 {
        None
    } else if e.last().0 == key {
        Some(e.last().1)
    } else {
        dict_get(e.drop_last(), key)
    }
}

pub open spec fn key_info() -> Seq<u8> {
    seq![105u8, 110u8, 102u8, 111u8]
}

pub open spec fn key_name() -> Seq<u8> {
    seq![110u8, 97u8, 109u8, 101u8]
}

pub open spec fn key_private() -> Seq<u8> {
    seq![112u8, 114u8, 105u8, 118u8, 97u8, 116u8, 101u8]
}

pub open spec fn key_length() -> Seq<u8> {
    seq![108u8, 101u8, 110u8, 103u8, 116u8, 104u8]
}

pub open spec fn key_files() -> Seq<u8> {
    seq![102u8, 105u8, 108u8, 101u8, 115u8]
}

pub open spec fn key_path() -> Seq<u8> {
    seq![112u8, 97u8, 116u8, 104u8]
}

/// The byte-string items of a path list, each read as lossy UTF-8.
pub open spec fn byte_parts(l: Seq<BValue>) -> Seq<Seq<char>>
    decreases l.len(),
{
    if l.len() == 0 {
        seq![]
    } else {
        let p = byte_parts(l.drop_last());
        match l.last() {
            BValue::Bytes(b) => p.push(utf8_lossy(b)),
            _ => p,
        }
    }
}

/// Path components joined with `/`.
pub open spec fn join_path(parts: Seq<Seq<char>>) -> Seq<char>
    decreases parts.len(),
{
    if parts.len() == 0 {
        seq![]
    } else if parts.len() == 1 {
        parts[0]
    } else {
        join_path(parts.drop_last()) + seq!['/'] + parts.last()
    }
}

/// One entry of a multi-file `files` list, when it is usable: a dictionary
/// with a non-negative `length` and a `path` list with at least one byte
/// string.
pub open spec fn file_entry(e: BValue) -> Option<(Seq<char>, int)> {
    match e {
        BValue::Dict(ed) => match dict_get(ed, key_length()) {
            Some(BValue::Int(n)) => if n < 0 {
                None
            } else {
                match dict_get(ed, key_path()) {
                    Some(BValue::List(pl)) => {
                        let parts = byte_parts(pl);
                        if parts.len() == 0 {
                            None
                        } else {
                            Some((join_path(parts), n))
                        }
                    },
                    _ => None,
                }
            },
            _ => None,
        },
        _ => None,
    }
}

/// The usable entries of a `files` list, in order.
pub open spec fn files_from(l: Seq<BValue>) -> Seq<(Seq<char>, int)>
    decreases l.len(),
{
    if l.len() == 0 {
        seq![]
    } else {
        let f = files_from(l.drop_last());
        match file_entry(l.last()) {
            Some(x) => f.push(x),
            None => f,
        }
    }
}

/// The model of extracted torrent metainfo.
pub struct TorrentMeta {
    pub name: Seq<char>,
    pub files: Seq<(Seq<char>, int)>,
    pub private: bool,
}

/// What the metainfo in `d` declares: `info.name` (default `untitled`), the
/// single `info.length` file or the usable `info.files` entries, and whether
/// `info.private` is 1. `None` for anything that is not a bencoded
/// dictionary with an `info` dictionary, or a negative single-file length.
pub open spec fn sp_torrent_info(d: Seq<u8>) -> Option<TorrentMeta> {
    match sp_parse(d) {
        Some(BValue::Dict(root)) => match dict_get(root, key_info()) {
            Some(BValue::Dict(info)) => {
                let name = match dict_get(info, key_name()) {
                    Some(BValue::Bytes(b)) => utf8_lossy(b),
                    _ => "untitled"@,
                };
                let private = match dict_get(info, key_private()) {
                    Some(BValue::Int(i)) => i == 1,
                    _ => false,
                };
                match dict_get(info, key_length()) {
                    Some(BValue::Int(n)) => if n < 0 {
                        None
                    } else {
                        Some(TorrentMeta { name, files: seq![(name, n)], private })
                    },
                    _ => match dict_get(info, key_files()) {
                        Some(BValue::List(l)) => Some(
                            TorrentMeta { name, files: files_from(l), private },
                        ),
                        _ => Some(TorrentMeta { name, files: seq![], private }),
                    },
                }
            },
            _ => None,
        },
        _ => None,
    }
}

/// Torrent metainfo as extracted by the reference engine.
#[derive(Debug, Clone)]
pub struct TorrentInfo {
    /// Torrent display name (`info.name`).
    pub name: String,
    /// Files as `(relative path, length in bytes)`.
    pub files: Vec<(String, u64)>,
    /// Whether the torrent declares itself private (`info.private == 1`).
    pub private: bool,
}

pub open spec fn files_view(v: Seq<(String, u64)>) -> Seq<(Seq<char>, int)> {
    Seq::new(v.len(), |i: int| (v[i].0@, v[i].1 as int))
}

pub open spec fn torrent_info_view(t: TorrentInfo) -> TorrentMeta {
    TorrentMeta { name: t.name@, files: files_view(t.files@), private: t.private }
}

impl Value {
    pub fn as_int(&self) -> (r: Option<i64>)
        ensures
            r == (match *self {
                Value::Int(i) => Some(i),
                _ => None,
            }),
    {
        match self {
            Value::Int(i) => Some(*i),
            _ => None,
        }
    }

    pub fn as_bytes(&self) -> (r: Option<&[u8]>)
        ensures
            match *self {
                Value::Bytes(b) => r matches Some(x) && x@ == b@,
                _ => r is None,
            },
    {
        match self {
            Value::Bytes(b) => Some(b.as_slice()),
            _ => None,
        }
    }

    pub fn as_list(&self) -> (r: Option<&[Value]>)
        ensures
            match *self {
                Value::List(l) => r matches Some(x) && x@ == l@,
                _ => r is None,
            },
    {
        match self {
            Value::List(l) => Some(l.as_slice()),
            _ => None,
        }
    }

    pub fn as_dict(&self) -> (r: Option<&Vec<(Vec<u8>, Value)>>)
        ensures
            match *self {
                Value::Dict(d) => r matches Some(x) && x@ == d@,
                _ => r is None,
            },
    {
        match self {
            Value::Dict(d) => Some(d),
            _ => None,
        }
    }
}

fn bytes_eq(a: &[u8], b: &[u8]) -> (e: bool)
    ensures
        e == (a@ == b@),
{
    if a.len() != b.len() {
        return false;
    }
    let mut i: usize = 0;
    while i < a.len()
        invariant
            a.len() == b.len(),
            i <= a.len(),
            forall|j: int| 0 <= j < i ==> a@[j] == b@[j],
        decreases a.len() - i,
    {
        if a[i] != b[i] {
            return false;
        }
        i = i + 1;
    }
    assert(a@ =~= b@);
    true
}

proof fn lemma_view_entries_take(s: Seq<(Vec<u8>, Value)>, j: int)
    requires
        0 < j <= s.len(),
    ensures
        view_entries(s.take(j)) == view_entries(s.take(j - 1)).push((s[j - 1].0@, view_value(s[j - 1].1))),
{
    assert(s.take(j).drop_last() =~= s.take(j - 1));
}

proof fn lemma_view_values_take(s: Seq<Value>, j: int)
    requires
        0 < j <= s.len(),
    ensures
        view_values(s.take(j)) == view_values(s.take(j - 1)).push(view_value(s[j - 1])),
{
    assert(s.take(j).drop_last() =~= s.take(j - 1));
}

/// The value of the last entry named `key`.
fn dict_lookup<'a>(d: &'a Vec<(Vec<u8>, Value)>, key: &[u8]) -> (r: Option<&'a Value>)
    ensures
        match r {
            Some(v) => dict_get(view_entries(d@), key@) == Some(view_value(*v)),
            None => dict_get(view_entries(d@), key@) is None,
        },
{
    let mut j = d.len();
    assert(d@.take(j as int) =~= d@);
    while j > 0
        invariant
            j <= d.len(),
            dict_get(view_entries(d@), key@) == dict_get(view_entries(d@.take(j as int)), key@),
        decreases j,
    {
        proof {
            lemma_view_entries_take(d@, j as int);
        }
        if bytes_eq(d[j - 1].0.as_slice(), key) {
            return Some(&d[j - 1].1);
        }
        proof {
            let x = view_entries(d@.take(j - 1));
            let e = (d@[j - 1].0@, view_value(d@[j - 1].1));
            assert(x.push(e).drop_last() =~= x);
        }
        j = j - 1;
    }
    assert(view_entries(d@.take(0)) =~= Seq::<(Seq<u8>, BValue)>::empty());
    None
}

fn key_bytes(k: u8) -> (v: Vec<u8>)
    ensures
        k == 0 ==> v@ == key_info(),
        k == 1 ==> v@ == key_name(),
        k == 2 ==> v@ == key_private(),
        k == 3 ==> v@ == key_length(),
        k == 4 ==> v@ == key_files(),
        k == 5 ==> v@ == key_path(),
{
    let v = if k == 0 {
        vec![105u8, 110u8, 102u8, 111u8]
    } else if k == 1 {
        vec![110u8, 97u8, 109u8, 101u8]
    } else if k == 2 {
        vec![112u8, 114u8, 105u8, 118u8, 97u8, 116u8, 101u8]
    } else if k == 3 {
        vec![108u8, 101u8, 110u8, 103u8, 116u8, 104u8]
    } else if k == 4 {
        vec![102u8, 105u8, 108u8, 101u8, 115u8]
    } else {
        vec![112u8, 97u8, 116u8, 104u8]
    };
    assert(k == 0 ==> v@ =~= key_info());
    assert(k == 1 ==> v@ =~= key_name());
    assert(k == 2 ==> v@ =~= key_private());
    assert(k == 3 ==> v@ =~= key_length());
    assert(k == 4 ==> v@ =~= key_files());
    assert(k == 5 ==> v@ =~= key_path());
    v
}

/// The usable file of one `files` entry.
fn file_of_entry(e: &Value) -> (r: Option<(String, u64)>)
    ensures
        match r {
            Some((p, n)) => file_entry(view_value(*e)) == Some((p@, n as int)),
            None => file_entry(view_value(*e)) is None,
        },
{
    let ed = match e.as_dict() {
        Some(ed) => ed,
        None => {
            return None;
        },
    };
    let length = match dict_lookup(ed, key_bytes(3).as_slice()) {
        Some(v) => match v.as_int() {
            Some(n) => n,
            None => {
                return None;
            },
        },
        None => {
            return None;
        },
    };
    if length < 0 {
        return None;
    }
    let path = match dict_lookup(ed, key_bytes(5).as_slice()) {
        Some(v) => match v.as_list() {
            Some(l) => l,
            None => {
                return None;
            },
        },
        None => {
            return None;
        },
    };
    let ghost pl = view_values(path@);
    let mut joined: Vec<char> = Vec::new();
    let mut count: usize = 0;
    let mut m: usize = 0;
    assert(view_values(path@.take(0)) =~= Seq::<BValue>::empty());
    while m < path.len()
        invariant
            m <= path.len(),
            count <= m,
            count == byte_parts(view_values(path@.take(m as int))).len(),
            joined@ == join_path(byte_parts(view_values(path@.take(m as int)))),
        decreases path.len() - m,
    {
        proof {
            lemma_view_values_take(path@, m + 1);
        }
        let ghost before = byte_parts(view_values(path@.take(m as int)));
        match path[m].as_bytes() {
            Some(b) => {
                let part = string_from_utf8_lossy(b);
                let pc = crate::text::chars_of(part.as_str());
                if count > 0 {
                    joined.push('/');
                }
                crate::text::push_all(&mut joined, pc.as_slice());
                proof {
                    let after = before.push(utf8_lossy(b@));
                    assert(after.drop_last() =~= before);
                    if count == 0 {
                        assert(joined@ =~= pc@);
                    } else {
                        assert(joined@ =~= join_path(before) + seq!['/'] + pc@);
                    }
                }
                proof {
                    let vv = view_values(path@.take(m + 1));
                    assert(vv.drop_last() =~= view_values(path@.take(m as int)));
                    assert(vv.last() == view_value(path@[m as int]));
                }
                count = count + 1;
            },
            None => {
                proof {
                    let vv = view_values(path@.take(m + 1));
                    assert(vv.drop_last() =~= view_values(path@.take(m as int)));
                    assert(vv.last() == view_value(path@[m as int]));
                }
            },
        }
        m = m + 1;
    }
    assert(path@.take(path.len() as int) =~= path@);
    if count == 0 {
        return None;
    }
    Some((crate::text::string_of(joined.as_slice()), length as u64))
}

} // verus!

verus! {

/// Parse `.torrent` bytes and extract the fields the backend cares about.
/// Returns `None` for anything that is not valid torrent metainfo.
pub fn torrent_info(data: &[u8]) -> (r: Option<TorrentInfo>)
    ensures
        match r {
            Some(t) => sp_torrent_info(data@) == Some(torrent_info_view(t)),
            None => sp_torrent_info(data@) is None,
        },
{
    let root = match parse(data) {
        Ok(v) => v,
        Err(_) => {
            return None;
        },
    };
    let rd = match root.as_dict() {
        Some(d) => d,
        None => {
            return None;
        },
    };
    let info = match dict_lookup(rd, key_bytes(0).as_slice()) {
        Some(v) => match v.as_dict() {
            Some(d) => d,
            None => {
                return None;
            },
        },
        None => {
            return None;
        },
    };
    let name: String = match dict_lookup(info, key_bytes(1).as_slice()) {
        Some(v) => match v.as_bytes() {
            Some(b) => string_from_utf8_lossy(b),
            None => String::from_str("untitled"),
        },
        None => String::from_str("untitled"),
    };
    proof {
        reveal_strlit("untitled");
    }
    let private = match dict_lookup(info, key_bytes(2).as_slice()) {
        Some(v) => match v.as_int() {
            Some(i) => i == 1,
            None => false,
        },
        None => false,
    };
    let single = match dict_lookup(info, key_bytes(3).as_slice()) {
        Some(v) => v.as_int(),
        None => None,
    };
    if let Some(length) = single {
        if length < 0 {
            return None;
        }
        let mut files: Vec<(String, u64)> = Vec::new();
        files.push((name.clone(), length as u64));
        let t = TorrentInfo { name, files, private };
        assert(files_view(t.files@) =~= seq![(t.name@, length as int)]);
        return Some(t);
    }
    let list = match dict_lookup(info, key_bytes(4).as_slice()) {
        Some(v) => v.as_list(),
        None => None,
    };
    let mut files: Vec<(String, u64)> = Vec::new();
    match list {
        Some(l) => {
            let mut k: usize = 0;
            assert(view_values(l@.take(0)) =~= Seq::<BValue>::empty());
            assert(files_view(files@) =~= Seq::<(Seq<char>, int)>::empty());
            while k < l.len()
                invariant
                    k <= l.len(),
                    files_view(files@) == files_from(view_values(l@.take(k as int))),
                decreases l.len() - k,
            {
                proof {
                    lemma_view_values_take(l@, k + 1);
                    let vv = view_values(l@.take(k + 1));
                    assert(vv.drop_last() =~= view_values(l@.take(k as int)));
                }
                let ghost f0 = files@;
                match file_of_entry(&l[k]) {
                    Some(f) => {
                        files.push(f);
                        assert(files_view(files@) =~= files_view(f0).push((f.0@, f.1 as int)));
                    },
                    None => {},
                }
                k = k + 1;
            }
            assert(l@.take(l.len() as int) =~= l@);
        },
        None => {},
    }
    let t = TorrentInfo { name, files, private };
    assert(list is None ==> files_view(t.files@) =~= Seq::<(Seq<char>, int)>::empty());
    Some(t)
}

} // verus!

verus! {

/// The metainfo reader refuses rather than fails: [`torrent_info`] has no
/// precondition and returns for every input, and it finds nothing unless
/// the input is exactly one complete bencode value, nested at most
/// [`MAX_DEPTH`] deep, whose root is a dictionary holding a dictionary
/// under `info`.
pub proof fn law_torrent_info_rejects(d: Seq<u8>)
    ensures
        sp_parse(d) is None ==> sp_torrent_info(d) is None,
        !(sp_parse(d) matches Some(BValue::Dict(root)) && dict_get(root, key_info()) matches Some(
            BValue::Dict(_),
        )) ==> sp_torrent_info(d) is None,
{
}

/// A file's relative path is its components with `/` between each two:
/// one component is the path itself, and cutting the list anywhere gives
/// the path of the first part, `/`, and the path of the rest. In particular
/// `[a, b]` gives exactly `a/b`, and the path is as long as its components
/// together plus one separator between each two.
pub proof fn law_join_path(parts: Seq<Seq<char>>, k: int, a: Seq<char>, b: Seq<char>)
    requires
        0 < k < parts.len(),
    ensures
        join_path(seq![a]) == a,
        join_path(seq![a, b]) == a + "/"@ + b,
        join_path(parts) == join_path(parts.take(k)) + "/"@ + join_path(parts.skip(k)),
        join_path(parts).len() == path_chars(parts) + parts.len() - 1,
    decreases parts.len(),
{
    reveal_strlit("/");
    assert("/"@ =~= seq!['/']);
    assert(seq![a, b].drop_last() =~= seq![a]);
    assert(join_path(seq![a]) == a);
    assert(seq![a, b].last() == b);
    assert(join_path(seq![a, b]) =~= a + "/"@ + b);
    lemma_join_split(parts, k);
    lemma_join_len(parts);
}

/// The number of characters of the components together.
pub open spec fn path_chars(parts: Seq<Seq<char>>) -> int
    decreases parts.len(),
{
    if parts.len() == 0 {
        0
    } else {
        path_chars(parts.drop_last()) + parts.last().len()
    }
}

proof fn lemma_join_len(parts: Seq<Seq<char>>)
    requires
        parts.len() >= 1,
    ensures
        join_path(parts).len() == path_chars(parts) + parts.len() - 1,
    decreases parts.len(),
{
    if parts.len() > 1 {
        lemma_join_len(parts.drop_last());
    } else {
        assert(parts.drop_last().len() == 0);
        assert(path_chars(parts.drop_last()) == 0);
        assert(parts.last() == parts[0]);
    }
}

proof fn lemma_join_split(parts: Seq<Seq<char>>, k: int)
    requires
        0 < k < parts.len(),
    ensures
        join_path(parts) == join_path(parts.take(k)) + seq!['/'] + join_path(parts.skip(k)),
    decreases parts.len(),
{
    reveal_strlit("/");
    let n = parts.len();
    if k == n - 1 {
        assert(parts.take(k) =~= parts.drop_last());
        assert(parts.skip(k) =~= seq![parts.last()]);
    } else {
        lemma_join_split(parts.drop_last(), k);
        assert(parts.drop_last().take(k) =~= parts.take(k));
        assert(parts.skip(k).drop_last() =~= parts.drop_last().skip(k));
        assert(parts.skip(k).last() == parts.last());
        assert(parts.skip(k).len() >= 2);
        assert(join_path(parts.skip(k)) == join_path(parts.skip(k).drop_last()) + seq!['/'] + parts.last());
        assert(join_path(parts) =~= join_path(parts.take(k)) + seq!['/'] + join_path(parts.skip(k)));
    }
}

} // verus!
