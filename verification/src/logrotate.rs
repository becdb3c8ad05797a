//! Line-counted rotation of the service log: `agpeer.log` is rotated after
//! a fixed number of newline-terminated records, keeping it and the
//! rotated files `agpeer.log.1` through `agpeer.log.19`.

use vstd::prelude::*;
use crate::debug::report::{LOG_FILE_RETENTION, LOG_LINES_PER_FILE};
use crate::text::{chars_of, decimal, decimal_chars, push_all, string_of};

verus! {

/// The number of newline bytes in a buffer.
pub open spec fn newline_bytes(b: Seq<u8>) -> int
    decreases b.len(),
{
    if b.len() == 0 {
        0
    } else {
        newline_bytes(b.drop_last()) + if b.last() == 10u8 {
            1int
        } else {
            0
        }
    }
}

proof fn lemma_newline_bytes_bound(b: Seq<u8>)
    ensures
        0 <= newline_bytes(b) <= b.len(),
    decreases b.len(),
{
    if b.len() > 0 {
        lemma_newline_bytes_bound(b.drop_last());
    }
}

/// The line count after writing `buf`, and whether the log must rotate
/// (the count reached the lines per file).
pub fn count_written(lines: usize, buf: &[u8]) -> (r: (usize, bool))
    requires
        lines + newline_bytes(buf@) <= usize::MAX,
    ensures
        r.0 == lines + newline_bytes(buf@),
        r.1 == (r.0 >= LOG_LINES_PER_FILE),
{
    let mut n: usize = 0;
    let mut i: usize = 0;
    while i < buf.len()
        invariant
            i <= buf@.len(),
            n == newline_bytes(buf@.take(i as int)),
            lines + newline_bytes(buf@) <= usize::MAX,
        decreases buf.len() - i,
    {
        assert(buf@.take(i + 1).drop_last() =~= buf@.take(i as int));
        proof {
            lemma_newline_bytes_bound(buf@.take(i as int));
            lemma_prefix_bytes(buf@, i + 1);
        }
        if buf[i] == 10u8 {
            n = n + 1;
        }
        i = i + 1;
    }
    assert(buf@.take(buf@.len() as int) =~= buf@);
    let total = lines + n;
    (total, total >= LOG_LINES_PER_FILE)
}

/// A prefix holds no more newlines than the whole.
proof fn lemma_prefix_bytes(b: Seq<u8>, n: int)
    requires
        0 <= n <= b.len(),
    ensures
        newline_bytes(b.take(n)) <= newline_bytes(b),
    decreases b.len() - n,
{
    if n < b.len() {
        assert(b.drop_last().take(n) =~= b.take(n));
        lemma_prefix_bytes(b.drop_last(), n);
    } else {
        assert(b.take(n) =~= b);
    }
}

/// The path of the rotated file with the given index.
pub open spec fn rotated_name(active: Seq<char>, index: nat) -> Seq<char> {
    active + "."@ + decimal(index)
}

/// `{active}.{index}`.
pub fn rotated_path(active: &str, index: usize) -> (r: String)
    ensures
        r@ == rotated_name(active@, index as nat),
{
    let mut t = chars_of(active);
    let d = chars_of(".");
    push_all(&mut t, d.as_slice());
    let n = decimal_chars(index as u64);
    push_all(&mut t, n.as_slice());
    string_of(t.as_slice())
}

/// One file operation of a rotation.
#[derive(Debug, Clone, Copy, PartialEq, Eq)]
pub enum RotateStep {
    /// Delete the rotated file with this index, if present.
    Remove(usize),
    /// Rename a rotated file to the next index.
    Shift(usize),
    /// Rename the active file to index 1.
    RetireActive,
}

/// The shifts of rotated files `1..=k` that exist, highest first.
pub open spec fn shifts(existing: Seq<bool>, k: int) -> Seq<RotateStep>
    decreases k,
{
    if k <= 0 {
        seq![]
    } else {
        (if existing[k] {
            seq![RotateStep::Shift(k as usize)]
        } else {
            seq![]
        }) + shifts(existing, k - 1)
    }
}

/// A rotation: drop the oldest retained file, shift every existing rotated
/// file up one index (highest first), then retire the active file to index
/// 1.
pub open spec fn rotation_spec(existing: Seq<bool>) -> Seq<RotateStep> {
    seq![RotateStep::Remove((LOG_FILE_RETENTION - 1) as usize)] + shifts(
        existing,
        LOG_FILE_RETENTION - 2,
    ) + seq![RotateStep::RetireActive]
}

/// The steps of a rotation, given which rotated files exist
/// (`existing[i]` for index `i`; index 0 is unused).
pub fn rotation_steps(existing: &Vec<bool>) -> (r: Vec<RotateStep>)
    requires
        existing@.len() >= LOG_FILE_RETENTION,
    ensures
        r@ == rotation_spec(existing@),
{
    let mut r: Vec<RotateStep> = Vec::new();
    r.push(RotateStep::Remove(LOG_FILE_RETENTION - 1));
    let mut k: usize = LOG_FILE_RETENTION - 2;
    while k > 0
        invariant
            k <= LOG_FILE_RETENTION - 2,
            existing@.len() >= LOG_FILE_RETENTION,
            r@ + shifts(existing@, k as int) == seq![RotateStep::Remove((LOG_FILE_RETENTION - 1) as usize)]
                + shifts(existing@, LOG_FILE_RETENTION - 2),
        decreases k,
    {
        let ghost before = r@;
        if existing[k] {
            r.push(RotateStep::Shift(k));
        }
        assert(before + shifts(existing@, k as int) =~= r@ + shifts(existing@, k - 1));
        k = k - 1;
    }
    r.push(RotateStep::RetireActive);
    assert(shifts(existing@, 0) =~= Seq::<RotateStep>::empty());
    r
}

/// The log files present after one step: index 0 is the active file.
pub open spec fn after_step(files: Set<int>, s: RotateStep) -> Set<int> {
    match s {
        RotateStep::Remove(i) => files.remove(i as int),
        RotateStep::Shift(i) => if files.contains(i as int) {
            files.remove(i as int).insert(i + 1)
        } else {
            files
        },
        RotateStep::RetireActive => if files.contains(0) {
            files.remove(0).insert(1)
        } else {
            files
        },
    }
}

/// The log files present after the steps.
pub open spec fn after_steps(files: Set<int>, steps: Seq<RotateStep>) -> Set<int>
    decreases steps.len(),
{
    if steps.len() == 0 {
        files
    } else {
        after_steps(after_step(files, steps[0]), steps.drop_first())
    }
}

proof fn lemma_after_one(files: Set<int>, s: RotateStep)
    ensures
        after_steps(files, seq![s]) == after_step(files, s),
{
    let one: Seq<RotateStep> = seq![s];
    assert(one.drop_first() =~= Seq::<RotateStep>::empty());
    assert(one[0] == s);
    assert(after_steps(after_step(files, s), Seq::<RotateStep>::empty()) == after_step(files, s));
}

proof fn lemma_after_steps_append(files: Set<int>, a: Seq<RotateStep>, b: Seq<RotateStep>)
    ensures
        after_steps(files, a + b) == after_steps(after_steps(files, a), b),
    decreases a.len(),
{
    if a.len() > 0 {
        assert((a + b).drop_first() =~= a.drop_first() + b);
        lemma_after_steps_append(after_step(files, a[0]), a.drop_first(), b);
    } else {
        assert(a + b =~= b);
    }
}

/// Shifting files `1..=k` adds files only within `1..=k+1`, and neither
/// adds nor drops file `0`.
proof fn lemma_shifts_bounded(files: Set<int>, existing: Seq<bool>, k: int)
    requires
        0 <= k < existing.len(),
        k <= LOG_FILE_RETENTION,
    ensures
        forall|x: int| #[trigger] after_steps(files, shifts(existing, k)).contains(x) ==> files.contains(x) || 1
            <= x <= k + 1,
        after_steps(files, shifts(existing, k)).contains(0) == files.contains(0),
    decreases k,
{
    if k > 0 {
        let head: Seq<RotateStep> = if existing[k] {
            seq![RotateStep::Shift(k as usize)]
        } else {
            seq![]
        };
        assert(shifts(existing, k) == head + shifts(existing, k - 1));
        lemma_after_steps_append(files, head, shifts(existing, k - 1));
        let f1 = after_steps(files, head);
        if existing[k] {
            lemma_after_one(files, RotateStep::Shift(k as usize));
        } else {
            assert(head =~= Seq::<RotateStep>::empty());
        }
        assert(forall|x: int| #[trigger] f1.contains(x) ==> files.contains(x) || x == k + 1);
        assert(f1.contains(0) == files.contains(0));
        lemma_shifts_bounded(f1, existing, k - 1);
    } else {
        assert(shifts(existing, k) =~= Seq::<RotateStep>::empty());
    }
}

/// Rotation keeps retention bounded: from the active file (index 0) and
/// rotated files within `agpeer.log.1` through `agpeer.log.19`, a rotation
/// leaves files only within `agpeer.log.1` through `agpeer.log.19`, the old
/// active file now `agpeer.log.1`; reopening the active file then makes at
/// most the retention count of files.
pub proof fn law_rotation_bounded(files: Set<int>, existing: Seq<bool>)
    requires
        existing.len() >= LOG_FILE_RETENTION,
        files.contains(0),
        forall|i: int| #[trigger] files.contains(i) ==> 0 <= i < LOG_FILE_RETENTION,
    ensures
        forall|i: int| #[trigger] after_steps(files, rotation_spec(existing)).contains(i) ==> 1 <= i
            < LOG_FILE_RETENTION,
        after_steps(files, rotation_spec(existing)).contains(1),
{
    let top = (LOG_FILE_RETENTION - 1) as int;
    let first: Seq<RotateStep> = seq![RotateStep::Remove(top as usize)];
    let mid = shifts(existing, top - 1);
    let last: Seq<RotateStep> = seq![RotateStep::RetireActive];
    assert(rotation_spec(existing) == first + mid + last);
    lemma_after_steps_append(files, first + mid, last);
    lemma_after_steps_append(files, first, mid);
    lemma_after_one(files, RotateStep::Remove(top as usize));
    let f1 = after_steps(files, first);
    assert(f1 == files.remove(top));
    lemma_shifts_bounded(f1, existing, top - 1);
    let f2 = after_steps(f1, mid);
    assert(f2.contains(0));
    assert forall|x: int| #[trigger] f2.contains(x) implies 0 <= x <= top by {
        assert(f1.contains(x) || 1 <= x <= top);
    }
    lemma_after_one(f2, RotateStep::RetireActive);
}

} // verus!
