//! The event bus's bounded history and the backend registry's summary.

use vstd::prelude::*;
use crate::common::Backend;
use crate::text::chars_of;

verus! {

/// The most events the history keeps.
pub const HISTORY_CAPACITY: usize = 256;

/// A bounded history of recent events, oldest first: once full, each new
/// event drops the oldest.
pub struct EventHistory<T> {
    items: Vec<T>,
}

impl<T> EventHistory<T> {
    #[verifier::type_invariant]
    spec fn inv(&self) -> bool {
        self.items@.len() <= HISTORY_CAPACITY
    }

    /// The events held, oldest first.
    pub closed spec fn view(&self) -> Seq<T> {
        self.items@
    }

    /// An empty history.
    pub fn new() -> (h: Self)
        ensures
            h.view() == Seq::<T>::empty(),
    {
        EventHistory { items: Vec::new() }
    }

    /// Appends an event, dropping the oldest beyond the capacity.
    pub fn push(&mut self, event: T)
        ensures
            final(self).view() == {
                let s = old(self).view().push(event);
                if s.len() > HISTORY_CAPACITY {
                    s.subrange(s.len() - HISTORY_CAPACITY, s.len() as int)
                } else {
                    s
                }
            },
            final(self).view().len() <= HISTORY_CAPACITY,
    {
        proof {
            use_type_invariant(&*self);
        }
        let mut items: Vec<T> = Vec::new();
        std::mem::swap(&mut items, &mut self.items);
        let ghost s = items@.push(event);
        items.push(event);
        if items.len() > HISTORY_CAPACITY {
            items.remove(0);
            assert(items@ =~= s.subrange(s.len() - HISTORY_CAPACITY, s.len() as int));
        }
        self.items = items;
    }

    /// The events held, oldest first.
    pub fn recent(&self) -> (r: &Vec<T>)
        ensures
            r@ == self.view(),
    {
        &self.items
    }
}

/// The history never holds more than its capacity, and the newest event is
/// always the one pushed last.
pub proof fn law_history_bounded<T>(before: Seq<T>, after: Seq<T>, e: T)
    requires
        before.len() <= HISTORY_CAPACITY,
        after == ({
            let s = before.push(e);
            if s.len() > HISTORY_CAPACITY {
                s.subrange(s.len() - HISTORY_CAPACITY, s.len() as int)
            } else {
                s
            }
        }),
    ensures
        after.len() <= HISTORY_CAPACITY,
        after.len() > 0 && after.last() == e,
        after.len() == if before.len() < HISTORY_CAPACITY { before.len() + 1 } else { HISTORY_CAPACITY as nat },
{
}

/// The backends in name order: hook, soulseek, torrent.
pub open spec fn backend_order() -> Seq<Backend> {
    seq![Backend::Hook, Backend::Soulseek, Backend::Torrent]
}

/// Every backend registered for transfers or searches, each once, sorted by
/// name.
pub open spec fn available_spec(transfer: Seq<Backend>, search: Seq<Backend>) -> Seq<Backend> {
    backend_order().filter(|b: Backend| transfer.contains(b) || search.contains(b))
}

pub(crate) fn has_backend(v: &Vec<Backend>, b: Backend) -> (r: bool)
    ensures
        r == v@.contains(b),
{
    let mut i: usize = 0;
    while i < v.len()
        invariant
            i <= v@.len(),
            forall|j: int| 0 <= j < i ==> v@[j] != b,
        decreases v.len() - i,
    {
        if v[i] == b {
            return true;
        }
        i = i + 1;
    }
    false
}

/// Union of every registered backend (transfer or search), sorted by name.
pub fn available_backends(transfer: &Vec<Backend>, search: &Vec<Backend>) -> (r: Vec<Backend>)
    ensures
        r@ == available_spec(transfer@, search@),
{
    let mut r: Vec<Backend> = Vec::new();
    if has_backend(transfer, Backend::Hook) || has_backend(search, Backend::Hook) {
        r.push(Backend::Hook);
    }
    if has_backend(transfer, Backend::Soulseek) || has_backend(search, Backend::Soulseek) {
        r.push(Backend::Soulseek);
    }
    if has_backend(transfer, Backend::Torrent) || has_backend(search, Backend::Torrent) {
        r.push(Backend::Torrent);
    }
    proof {
        let f = |b: Backend| transfer@.contains(b) || search@.contains(b);
        reveal_with_fuel(vstd::seq::Seq::filter, 4);
        assert(backend_order().drop_last().drop_last().drop_last() =~= Seq::<Backend>::empty());
        assert(backend_order().drop_last().drop_last() =~= seq![Backend::Hook]);
        assert(backend_order().drop_last() =~= seq![Backend::Hook, Backend::Soulseek]);
    }
    assert(r@ =~= available_spec(transfer@, search@));
    r
}

} // verus!

verus! {

/// The least time, in milliseconds, between two progress events of one
/// kind sent to a subscriber.
pub const PROGRESS_THROTTLE_MS: u64 = 1000;

/// A high-frequency progress event kind: one ending in `.progress`.
pub open spec fn is_progress_kind(kind: Seq<char>) -> bool {
    crate::text::ends_with(kind, ".progress"@)
}

/// The throttle after offering an event of `kind` at `now`, and whether
/// the event passes: other kinds always pass; a progress kind passes when
/// it never passed before or its last pass is at least the throttle
/// interval ago, and then records `now`.
pub open spec fn admitted(last: Map<Seq<char>, u64>, kind: Seq<char>, now: u64) -> (bool, Map<Seq<char>, u64>) {
    if !is_progress_kind(kind) {
        (true, last)
    } else if last.contains_key(kind) && (now as int) - (last[kind] as int) < PROGRESS_THROTTLE_MS {
        (false, last)
    } else {
        (true, last.insert(kind, now))
    }
}

/// The first recorded time of a kind.
pub open spec fn first_time(v: Seq<(String, u64)>, kind: Seq<char>) -> Option<u64>
    decreases v.len(),
{
    if v.len() == 0 {
        None
    } else {
        match first_time(v.drop_last(), kind) {
            Some(t) => Some(t),
            None => if v.last().0@ == kind {
                Some(v.last().1)
            } else {
                None
            },
        }
    }
}

/// The first position of a kind.
pub open spec fn first_pos(v: Seq<(String, u64)>, kind: Seq<char>) -> Option<int>
    decreases v.len(),
{
    if v.len() == 0 {
        None
    } else {
        match first_pos(v.drop_last(), kind) {
            Some(i) => Some(i),
            None => if v.last().0@ == kind {
                Some(v.len() - 1)
            } else {
                None
            },
        }
    }
}

proof fn lemma_first_pos(v: Seq<(String, u64)>, kind: Seq<char>)
    ensures
        first_pos(v, kind) matches Some(i) ==> 0 <= i < v.len() && v[i].0@ == kind && first_time(v, kind)
            == Some(v[i].1) && forall|j: int| 0 <= j < i ==> v[j].0@ != kind,
        first_pos(v, kind) is None ==> first_time(v, kind) is None && forall|j: int|
            0 <= j < v.len() ==> v[j].0@ != kind,
    decreases v.len(),
{
    if v.len() > 0 {
        let d = v.drop_last();
        lemma_first_pos(d, kind);
        assert(forall|j: int| 0 <= j < d.len() ==> d[j] == v[j]);
    }
}

/// The latest pass time of each kind recorded in the list.
pub open spec fn times_of(v: Seq<(String, u64)>) -> Map<Seq<char>, u64> {
    Map::new(|k: Seq<char>| first_time(v, k) is Some, |k: Seq<char>| first_time(v, k)->0)
}

proof fn lemma_times_of_change(v: Seq<(String, u64)>, w: Seq<(String, u64)>, e: (String, u64))
    requires
        forall|k: Seq<char>| #[trigger] first_time(w, k) == if k == e.0@ {
            Some(e.1)
        } else {
            first_time(v, k)
        },
    ensures
        times_of(w) == times_of(v).insert(e.0@, e.1),
{
    assert(times_of(w) =~= times_of(v).insert(e.0@, e.1)) by {
        assert forall|k: Seq<char>| #[trigger] times_of(w).contains_key(k) == times_of(v).insert(e.0@, e.1).contains_key(k) by {
            assert(first_time(w, k) == if k == e.0@ { Some(e.1) } else { first_time(v, k) });
        }
        assert forall|k: Seq<char>| times_of(w).contains_key(k) implies #[trigger] times_of(w)[k] == times_of(v).insert(e.0@, e.1)[k] by {
            assert(first_time(w, k) == if k == e.0@ { Some(e.1) } else { first_time(v, k) });
        }
    }
}

/// Updating the entry at a kind's first position changes only that kind.
proof fn lemma_first_time_set(v: Seq<(String, u64)>, i: int, e: (String, u64), k: Seq<char>)
    requires
        0 <= i < v.len(),
        first_pos(v, e.0@) == Some(i),
    ensures
        first_time(v.update(i, e), k) == if k == e.0@ {
            Some(e.1)
        } else {
            first_time(v, k)
        },
    decreases v.len(),
{
    let w = v.update(i, e);
    lemma_first_pos(v, e.0@);
    if i == v.len() - 1 {
        assert(w.drop_last() =~= v.drop_last());
        lemma_first_pos(v.drop_last(), e.0@);
        if k == e.0@ {
            lemma_first_pos(w.drop_last(), k);
            assert(first_pos(w.drop_last(), k) is None);
        }
    } else {
        assert(w.drop_last() =~= v.drop_last().update(i, e));
        assert(first_pos(v.drop_last(), e.0@) == Some(i));
        lemma_first_time_set(v.drop_last(), i, e, k);
    }
}

proof fn lemma_first_time_push(v: Seq<(String, u64)>, e: (String, u64), k: Seq<char>)
    requires
        first_time(v, e.0@) is None,
    ensures
        first_time(v.push(e), k) == if k == e.0@ {
            Some(e.1)
        } else {
            first_time(v, k)
        },
{
    assert(v.push(e).drop_last() =~= v);
}

/// The per-kind throttle of progress events sent to one subscriber.
pub struct ProgressThrottle {
    last: Vec<(String, u64)>,
}

impl ProgressThrottle {
    /// When each progress kind last passed.
    pub closed spec fn last_passed(&self) -> Map<Seq<char>, u64> {
        times_of(self.last@)
    }

    /// A throttle that has let nothing through yet.
    pub fn new() -> (t: Self)
        ensures
            t.last_passed() == Map::<Seq<char>, u64>::empty(),
    {
        let t = ProgressThrottle { last: Vec::new() };
        assert(t.last_passed() =~= Map::<Seq<char>, u64>::empty());
        t
    }

    /// Offers an event of `kind` at `now` (milliseconds): whether it
    /// passes.
    pub fn offer(&mut self, kind: &str, now: u64) -> (pass: bool)
        ensures
            (pass, final(self).last_passed()) == admitted(old(self).last_passed(), kind@, now),
    {
        let kc = chars_of(kind);
        let suffix = chars_of(".progress");
        if !crate::text::ends_with_chars(kc.as_slice(), suffix.as_slice()) {
            return true;
        }
        let ghost v0 = self.last@;
        let mut i: usize = 0;
        while i < self.last.len()
            invariant
                i <= self.last@.len(),
                self.last@ == v0,
                old(self).last@ == v0,
                is_progress_kind(kind@),
                kc@ == kind@,
                first_pos(v0.take(i as int), kind@) is None,
            decreases self.last.len() - i,
        {
            assert(v0.take(i + 1).drop_last() =~= v0.take(i as int));
            let ec = chars_of(self.last[i].0.as_str());
            if crate::text::chars_eq(ec.as_slice(), kc.as_slice()) {
                proof {
                    assert(first_pos(v0.take(i + 1), kind@) == Some(i as int));
                    lemma_pos_prefix(v0, i + 1, kind@);
                    lemma_first_pos(v0, kind@);
                }
                let t = self.last[i].1;
                assert(times_of(v0).contains_key(kind@) && times_of(v0)[kind@] == t);
                if now < t || now - t < PROGRESS_THROTTLE_MS {
                    return false;
                }
                let entry = (kind.to_string(), now);
                proof {
                    lemma_first_time_set(v0, i as int, entry, kind@);
                    assert forall|k: Seq<char>| true implies first_time(v0.update(i as int, entry), k) == if k
                        == kind@ {
                        Some(now)
                    } else {
                        first_time(v0, k)
                    } by {
                        lemma_first_time_set(v0, i as int, entry, k);
                    }
                }
                self.last.set(i, entry);
                proof {
                    assert(self.last@ == v0.update(i as int, entry));
                    lemma_times_of_change(v0, self.last@, entry);
                }
                return true;
            }
            i = i + 1;
        }
        proof {
            assert(v0.take(v0.len() as int) =~= v0);
            lemma_first_pos(v0, kind@);
        }
        let entry = (kind.to_string(), now);
        proof {
            assert forall|k: Seq<char>| true implies first_time(v0.push(entry), k) == if k == kind@ {
                Some(now)
            } else {
                first_time(v0, k)
            } by {
                lemma_first_time_push(v0, entry, k);
            }
        }
        self.last.push(entry);
        proof {
            assert(self.last@ == v0.push(entry));
            lemma_times_of_change(v0, self.last@, entry);
            assert(!times_of(v0).contains_key(kind@));
        }
        true
    }
}

/// A first position found in a prefix is the first position overall.
proof fn lemma_pos_prefix(v: Seq<(String, u64)>, n: int, kind: Seq<char>)
    requires
        0 <= n <= v.len(),
        first_pos(v.take(n), kind) is Some,
    ensures
        first_pos(v, kind) == first_pos(v.take(n), kind),
    decreases v.len() - n,
{
    if n < v.len() {
        assert(v.drop_last().take(n) =~= v.take(n));
        lemma_pos_prefix(v.drop_last(), n, kind);
    } else {
        assert(v.take(n) =~= v);
    }
}

/// Progress events of one kind are spaced: right after one passes, another
/// of the same kind within the throttle interval does not.
pub proof fn law_progress_spacing(last: Map<Seq<char>, u64>, kind: Seq<char>, t1: u64, t2: u64)
    requires
        is_progress_kind(kind),
        admitted(last, kind, t1).0,
        t1 <= t2,
        (t2 as int) < t1 + PROGRESS_THROTTLE_MS,
    ensures
        !admitted(admitted(last, kind, t1).1, kind, t2).0,
{
}

/// Every event that is not a progress event passes and leaves the
/// throttle as it was.
pub proof fn law_other_events_pass(last: Map<Seq<char>, u64>, kind: Seq<char>, now: u64)
    requires
        !is_progress_kind(kind),
    ensures
        admitted(last, kind, now) == (true, last),
{
}

} // verus!
