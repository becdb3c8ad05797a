//! Which entries of the log directory are agpeer log files, newest first.

use vstd::prelude::*;
use crate::text::{chars_of, starts_with};

verus! {

/// An entry of the log directory: its file name, whether it is a regular
/// file, and its modification time (nanoseconds from the Unix epoch,
/// negative before it; the epoch when unknown).
pub struct LogCandidate {
    pub name: String,
    pub is_file: bool,
    pub modified: i128,
}

/// An agpeer log file: a regular file whose name starts with `agpeer`.
pub open spec fn is_log(c: LogCandidate) -> bool {
    c.is_file && starts_with(c.name@, "agpeer"@)
}

/// Entry `a` is listed before entry `b`: it is newer, or as new and later
/// in the directory listing (the order a stable sort by time, reversed,
/// gives).
pub open spec fn listed_before(cs: Seq<LogCandidate>, a: int, b: int) -> bool {
    cs[a].modified > cs[b].modified || (cs[a].modified == cs[b].modified && a > b)
}

/// The indices `r` list exactly the log files among the first `n`
/// entries, each once, newest first.
pub open spec fn newest_first_of(cs: Seq<LogCandidate>, r: Seq<usize>, n: int) -> bool {
    &&& forall|i: int| 0 <= i < r.len() ==> #[trigger] r[i] < n && is_log(cs[r[i] as int])
    &&& forall|k: int| 0 <= k < n && is_log(#[trigger] cs[k]) ==> exists|i: int| 0 <= i < r.len() && r[i] == k
    &&& forall|i: int, j: int| 0 <= i < j < r.len() ==> listed_before(cs, #[trigger] r[i] as int, #[trigger] r[j] as int)
}

/// The log files of the directory listing, newest first (by index into
/// the listing).
pub fn log_files(cs: &Vec<LogCandidate>) -> (r: Vec<usize>)
    ensures
        newest_first_of(cs@, r@, cs@.len() as int),
{
    let mut r: Vec<usize> = Vec::new();
    let prefix = chars_of("agpeer");
    let mut k: usize = 0;
    while k < cs.len()
        invariant
            k <= cs@.len(),
            prefix@ == "agpeer"@,
            newest_first_of(cs@, r@, k as int),
        decreases cs.len() - k,
    {
        let c = &cs[k];
        let nc = chars_of(c.name.as_str());
        let log = c.is_file && crate::text::starts_with_chars(nc.as_slice(), prefix.as_slice());
        if log {
            let mut pos: usize = 0;
            while pos < r.len() && cs[r[pos]].modified > c.modified
                invariant
                    pos <= r@.len(),
                    k < cs@.len(),
                    *c == cs@[k as int],
                    newest_first_of(cs@, r@, k as int),
                    forall|i: int| 0 <= i < pos ==> cs@[#[trigger] r@[i] as int].modified > c.modified,
                decreases r.len() - pos,
            {
                pos = pos + 1;
            }
            let ghost old_r = r@;
            proof {
                if pos < old_r.len() {
                    assert forall|j: int| pos <= j < old_r.len() implies cs@[#[trigger] old_r[j] as int].modified
                        <= c.modified by {
                        if j > pos {
                            assert(listed_before(cs@, old_r[pos as int] as int, old_r[j] as int));
                        }
                    }
                }
            }
            r.insert(pos, k);
            proof {
                let nr = r@;
                assert(nr == old_r.insert(pos as int, k));
                assert forall|i: int| 0 <= i < nr.len() implies #[trigger] nr[i] < k + 1 && is_log(
                    cs@[nr[i] as int],
                ) by {
                    if i < pos {
                        assert(nr[i] == old_r[i]);
                    } else if i > pos {
                        assert(nr[i] == old_r[i - 1]);
                    }
                }
                assert forall|q: int| 0 <= q < k + 1 && is_log(#[trigger] cs@[q]) implies exists|i: int|
                    0 <= i < nr.len() && nr[i] == q by {
                    if q == k {
                        assert(nr[pos as int] == k);
                    } else {
                        let i0 = choose|i: int| 0 <= i < old_r.len() && old_r[i] == q;
                        if i0 < pos {
                            assert(nr[i0] == q);
                        } else {
                            assert(nr[i0 + 1] == q);
                        }
                    }
                }
                assert forall|i: int, j: int| 0 <= i < j < nr.len() implies listed_before(
                    cs@,
                    #[trigger] nr[i] as int,
                    #[trigger] nr[j] as int,
                ) by {
                    if j < pos {
                        assert(nr[i] == old_r[i] && nr[j] == old_r[j]);
                        assert(listed_before(cs@, old_r[i] as int, old_r[j] as int));
                    } else if j == pos {
                        assert(nr[i] == old_r[i]);
                        assert(cs@[old_r[i] as int].modified > c.modified);
                    } else if i < pos {
                        assert(nr[i] == old_r[i] && nr[j] == old_r[j - 1]);
                        assert(listed_before(cs@, old_r[i] as int, old_r[j - 1] as int));
                    } else if i == pos {
                        assert(nr[j] == old_r[j - 1]);
                        assert(cs@[old_r[j - 1] as int].modified <= c.modified);
                        assert(old_r[j - 1] < k);
                    } else {
                        assert(nr[i] == old_r[i - 1] && nr[j] == old_r[j - 1]);
                        assert(listed_before(cs@, old_r[i - 1] as int, old_r[j - 1] as int));
                    }
                }
            }
        } else {
            proof {
                assert forall|q: int| 0 <= q < k + 1 && is_log(#[trigger] cs@[q]) implies exists|i: int|
                    0 <= i < r@.len() && r@[i] == q by {
                    assert(q != k);
                }
            }
        }
        k = k + 1;
    }
    r
}

} // verus!
