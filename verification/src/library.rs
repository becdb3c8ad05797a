//! The listing of the organized media library: directories first, then by
//! path.

use vstd::prelude::*;

verus! {

/// A file or directory of the organized media library.
pub struct LibraryEntry {
    /// Path relative to the library root, such as
    /// `TV Shows/Show Name/Season 01/ep.mkv`.
    pub path: String,
    /// Absolute path on disk (for opening the folder in a file manager).
    pub absolute_path: String,
    pub size: Option<u64>,
    pub is_dir: bool,
}

/// `a` sorts before `b` as strings do: lexicographically by character
/// code (UTF-8 byte order is code point order).
pub open spec fn text_lt(a: Seq<char>, b: Seq<char>) -> bool
    decreases a.len(),
{
    if a.len() == 0 {
        b.len() > 0
    } else if b.len() == 0 {
        false
    } else if a[0] != b[0] {
        a[0] < b[0]
    } else {
        text_lt(a.drop_first(), b.drop_first())
    }
}

proof fn lemma_text_lt_trans(a: Seq<char>, b: Seq<char>, c: Seq<char>)
    requires
        text_lt(a, b),
        text_lt(b, c),
    ensures
        text_lt(a, c),
    decreases a.len(),
{
    if a.len() > 0 && b.len() > 0 && c.len() > 0 && a[0] == b[0] && b[0] == c[0] {
        lemma_text_lt_trans(a.drop_first(), b.drop_first(), c.drop_first());
    }
}

proof fn lemma_text_lt_total(a: Seq<char>, b: Seq<char>)
    ensures
        text_lt(a, b) || a == b || text_lt(b, a),
        !(text_lt(a, b) && text_lt(b, a)),
    decreases a.len(),
{
    if a.len() > 0 && b.len() > 0 {
        if a[0] == b[0] {
            lemma_text_lt_total(a.drop_first(), b.drop_first());
            if a.drop_first() == b.drop_first() {
                assert(a =~= seq![a[0]] + a.drop_first());
                assert(b =~= seq![b[0]] + b.drop_first());
            }
        }
    } else if a.len() == 0 && b.len() == 0 {
        assert(a =~= b);
    }
}

/// The listing order's key: directories before files, then by path.
pub open spec fn key_lt(a: LibraryEntry, b: LibraryEntry) -> bool {
    (a.is_dir && !b.is_dir) || (a.is_dir == b.is_dir && text_lt(a.path@, b.path@))
}

/// Entry `i` is listed before entry `j`: its key sorts first, or the keys
/// tie and it came first (the sort is stable).
pub open spec fn listed_first(es: Seq<LibraryEntry>, i: int, j: int) -> bool {
    key_lt(es[i], es[j]) || (!key_lt(es[j], es[i]) && i < j)
}

/// The indices `r` list each of the first `n` entries once, in listing
/// order.
pub open spec fn library_order_of(es: Seq<LibraryEntry>, r: Seq<usize>, n: int) -> bool {
    &&& r.len() == n
    &&& forall|i: int| 0 <= i < r.len() ==> #[trigger] r[i] < n
    &&& forall|k: int| 0 <= k < n ==> #[trigger] r.contains(k as usize)
    &&& forall|i: int, j: int| 0 <= i < j < r.len() ==> listed_first(es, #[trigger] r[i] as int, #[trigger] r[j] as int)
}

fn text_less(a: &str, b: &str) -> (r: bool)
    ensures
        r == text_lt(a@, b@),
{
    let ac = crate::text::chars_of(a);
    let bc = crate::text::chars_of(b);
    let mut i: usize = 0;
    assert(ac@.subrange(0, ac@.len() as int) =~= ac@);
    assert(bc@.subrange(0, bc@.len() as int) =~= bc@);
    while i < ac.len() && i < bc.len() && ac[i] == bc[i]
        invariant
            i <= ac@.len(),
            i <= bc@.len(),
            text_lt(ac@, bc@) == text_lt(ac@.subrange(i as int, ac@.len() as int), bc@.subrange(i as int, bc@.len() as int)),
        decreases ac.len() - i,
    {
        let ghost sa = ac@.subrange(i as int, ac@.len() as int);
        let ghost sb = bc@.subrange(i as int, bc@.len() as int);
        assert(sa.drop_first() =~= ac@.subrange(i + 1, ac@.len() as int));
        assert(sb.drop_first() =~= bc@.subrange(i + 1, bc@.len() as int));
        i = i + 1;
    }
    let ghost sa = ac@.subrange(i as int, ac@.len() as int);
    let ghost sb = bc@.subrange(i as int, bc@.len() as int);
    if i == ac.len() {
        i < bc.len()
    } else if i == bc.len() {
        false
    } else {
        assert(sa[0] == ac@[i as int] && sb[0] == bc@[i as int]);
        ac[i] < bc[i]
    }
}

fn entry_less(a: &LibraryEntry, b: &LibraryEntry) -> (r: bool)
    ensures
        r == key_lt(*a, *b),
{
    if a.is_dir != b.is_dir {
        a.is_dir
    } else {
        text_less(a.path.as_str(), b.path.as_str())
    }
}

proof fn lemma_key_after(x: LibraryEntry, p: LibraryEntry, q: LibraryEntry)
    requires
        key_lt(x, p),
        !key_lt(q, p),
    ensures
        key_lt(x, q),
{
    lemma_text_lt_total(p.path@, q.path@);
    lemma_text_lt_total(x.path@, p.path@);
    if x.is_dir == p.is_dir && p.is_dir == q.is_dir {
        if text_lt(p.path@, q.path@) {
            lemma_text_lt_trans(x.path@, p.path@, q.path@);
        }
    }
}

/// The order in which the library listing shows its entries (by index):
/// directories first, then by path, ties in their found order.
pub fn library_order(es: &Vec<LibraryEntry>) -> (r: Vec<usize>)
    ensures
        library_order_of(es@, r@, es@.len() as int),
{
    let mut r: Vec<usize> = Vec::new();
    let mut k: usize = 0;
    while k < es.len()
        invariant
            k <= es@.len(),
            library_order_of(es@, r@, k as int),
        decreases es.len() - k,
    {
        let mut pos: usize = 0;
        while pos < r.len() && !entry_less(&es[k], &es[r[pos]])
            invariant
                pos <= r@.len(),
                k < es@.len(),
                library_order_of(es@, r@, k as int),
                forall|i: int| 0 <= i < pos ==> !key_lt(es@[k as int], #[trigger] es@[r@[i] as int]),
            decreases r.len() - pos,
        {
            pos = pos + 1;
        }
        let ghost old_r = r@;
        proof {
            if pos < old_r.len() {
                assert forall|j: int| pos <= j < old_r.len() implies key_lt(
                    es@[k as int],
                    #[trigger] es@[old_r[j] as int],
                ) by {
                    if j > pos {
                        assert(listed_first(es@, old_r[pos as int] as int, old_r[j] as int));
                        if key_lt(es@[old_r[pos as int] as int], es@[old_r[j] as int]) {
                            lemma_text_lt_total(
                                es@[old_r[pos as int] as int].path@,
                                es@[old_r[j] as int].path@,
                            );
                        }
                        lemma_key_after(es@[k as int], es@[old_r[pos as int] as int], es@[old_r[j] as int]);
                    }
                }
            }
        }
        r.insert(pos, k);
        proof {
            let nr = r@;
            assert(nr == old_r.insert(pos as int, k));
            assert forall|i: int| 0 <= i < nr.len() implies #[trigger] nr[i] < k + 1 by {
                if i < pos {
                    assert(nr[i] == old_r[i]);
                } else if i > pos {
                    assert(nr[i] == old_r[i - 1]);
                }
            }
            assert forall|q: int| 0 <= q < k + 1 implies #[trigger] nr.contains(q as usize) by {
                if q == k {
                    assert(nr[pos as int] == k);
                } else {
                    assert(old_r.contains(q as usize));
                    let i0 = choose|i: int| 0 <= i < old_r.len() && old_r[i] == q as usize;
                    if i0 < pos {
                        assert(nr[i0] == q);
                    } else {
                        assert(nr[i0 + 1] == q);
                    }
                }
            }
            assert forall|i: int, j: int| 0 <= i < j < nr.len() implies listed_first(
                es@,
                #[trigger] nr[i] as int,
                #[trigger] nr[j] as int,
            ) by {
                if j < pos {
                    assert(nr[i] == old_r[i] && nr[j] == old_r[j]);
                    assert(listed_first(es@, old_r[i] as int, old_r[j] as int));
                } else if j == pos {
                    assert(nr[i] == old_r[i]);
                    assert(!key_lt(es@[k as int], es@[old_r[i] as int]));
                    assert(old_r[i] < k);
                } else if i < pos {
                    assert(nr[i] == old_r[i] && nr[j] == old_r[j - 1]);
                    assert(listed_first(es@, old_r[i] as int, old_r[j - 1] as int));
                } else if i == pos {
                    assert(nr[j] == old_r[j - 1]);
                    assert(key_lt(es@[k as int], es@[old_r[j - 1] as int]));
                } else {
                    assert(nr[i] == old_r[i - 1] && nr[j] == old_r[j - 1]);
                    assert(listed_first(es@, old_r[i - 1] as int, old_r[j - 1] as int));
                }
            }
        }
        k = k + 1;
    }
    r
}

} // verus!
