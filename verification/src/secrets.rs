//! Secret storage: an in-memory store of named secrets. The values are
//! never logged.

use vstd::prelude::*;
use crate::common::Error;

verus! {

/// A store of named secrets (Soulseek credentials, API keys).
pub trait SecretStore {
    fn get(&self, key: &str) -> Result<Option<String>, Error>;

    fn set(&mut self, key: &str, value: &str) -> Result<(), Error>;

    fn delete(&mut self, key: &str) -> Result<(), Error>;
}

/// Secrets held in memory, for tests and ephemeral runs.
pub struct MemorySecretStore {
    entries: Vec<(String, String)>,
}

/// The map the entries hold.
pub open spec fn entries_map(e: Seq<(String, String)>) -> Map<Seq<char>, Seq<char>>
    decreases e.len(),
{
    if e.len() == 0 {
        Map::empty()
    } else {
        entries_map(e.drop_last()).insert(e.last().0@, e.last().1@)
    }
}

/// No key is stored twice.
pub open spec fn distinct_keys(e: Seq<(String, String)>) -> bool {
    forall|a: int, b: int| 0 <= a < b < e.len() ==> #[trigger] e[a].0@ != #[trigger] e[b].0@
}

proof fn lemma_map_has(e: Seq<(String, String)>, k: Seq<char>)
    ensures
        entries_map(e).dom().contains(k) <==> exists|i: int| 0 <= i < e.len() && #[trigger] e[i].0@ == k,
    decreases e.len(),
{
    if e.len() > 0 {
        lemma_map_has(e.drop_last(), k);
        if entries_map(e).dom().contains(k) && e.last().0@ != k {
            let i = choose|i: int| 0 <= i < e.drop_last().len() && #[trigger] e.drop_last()[i].0@ == k;
            assert(e[i].0@ == k);
        }
        if exists|i: int| 0 <= i < e.len() && #[trigger] e[i].0@ == k {
            let i = choose|i: int| 0 <= i < e.len() && #[trigger] e[i].0@ == k;
            if i < e.len() - 1 {
                assert(e.drop_last()[i].0@ == k);
            }
        }
    }
}

proof fn lemma_map_at(e: Seq<(String, String)>, i: int)
    requires
        0 <= i < e.len(),
        distinct_keys(e),
    ensures
        entries_map(e).dom().contains(e[i].0@),
        entries_map(e)[e[i].0@] == e[i].1@,
    decreases e.len(),
{
    if i < e.len() - 1 {
        lemma_map_at(e.drop_last(), i);
        assert(e[i].0@ != e.last().0@);
    }
}

proof fn lemma_remove(e: Seq<(String, String)>, i: int)
    requires
        0 <= i < e.len(),
        distinct_keys(e),
    ensures
        entries_map(e.remove(i)) == entries_map(e).remove(e[i].0@),
        distinct_keys(e.remove(i)),
    decreases e.len(),
{
    let k = e[i].0@;
    assert forall|a: int, b: int| 0 <= a < b < e.remove(i).len() implies
        #[trigger] e.remove(i)[a].0@ != #[trigger] e.remove(i)[b].0@ by {
        let a0 = if a < i { a } else { a + 1 };
        let b0 = if b < i { b } else { b + 1 };
        assert(e.remove(i)[a] == e[a0]);
        assert(e.remove(i)[b] == e[b0]);
    }
    if i == e.len() - 1 {
        assert(e.remove(i) =~= e.drop_last());
        lemma_map_has(e.drop_last(), k);
        assert(entries_map(e.drop_last()) =~= entries_map(e).remove(k));
    } else {
        lemma_remove(e.drop_last(), i);
        assert(e.remove(i) =~= e.drop_last().remove(i).push(e.last()));
        assert(e.remove(i).drop_last() =~= e.drop_last().remove(i));
        assert(e.last().0@ != k);
        assert(entries_map(e.remove(i)) =~= entries_map(e).remove(k));
    }
}

fn find_key(e: &Vec<(String, String)>, key: &str) -> (r: Option<usize>)
    ensures
        match r {
            Some(i) => i < e@.len() && e@[i as int].0@ == key@,
            None => !entries_map(e@).dom().contains(key@),
        },
{
    let q = crate::text::chars_of(key);
    let mut i: usize = 0;
    while i < e.len()
        invariant
            i <= e@.len(),
            q@ == key@,
            forall|j: int| 0 <= j < i ==> e@[j].0@ != key@,
        decreases e.len() - i,
    {
        let k = crate::text::chars_of(e[i].0.as_str());
        if crate::text::chars_eq(k.as_slice(), q.as_slice()) {
            return Some(i);
        }
        i = i + 1;
    }
    proof {
        lemma_map_has(e@, key@);
    }
    None
}

impl MemorySecretStore {
    #[verifier::type_invariant]
    spec fn inv(&self) -> bool {
        distinct_keys(self.entries@)
    }

    /// The stored secrets.
    pub closed spec fn view(&self) -> Map<Seq<char>, Seq<char>> {
        entries_map(self.entries@)
    }

    /// An empty store.
    pub fn new() -> (s: Self)
        ensures
            s.view() == Map::<Seq<char>, Seq<char>>::empty(),
    {
        MemorySecretStore { entries: Vec::new() }
    }

    /// The secret stored under `key`, if any.
    pub fn get_secret(&self, key: &str) -> (r: Option<String>)
        ensures
            match r {
                Some(v) => self.view().dom().contains(key@) && self.view()[key@] == v@,
                None => !self.view().dom().contains(key@),
            },
    {
        proof {
            use_type_invariant(self);
        }
        match find_key(&self.entries, key) {
            Some(i) => {
                proof {
                    lemma_map_at(self.entries@, i as int);
                }
                Some(self.entries[i].1.clone())
            },
            None => None,
        }
    }

    /// Stores `value` under `key`, replacing any earlier value.
    pub fn set_secret(&mut self, key: &str, value: &str)
        ensures
            final(self).view() == old(self).view().insert(key@, value@),
    {
        proof {
            use_type_invariant(&*self);
        }
        let mut e: Vec<(String, String)> = Vec::new();
        std::mem::swap(&mut e, &mut self.entries);
        let ghost e0 = e@;
        match find_key(&e, key) {
            Some(i) => {
                proof {
                    lemma_remove(e0, i as int);
                }
                e.remove(i);
            },
            None => {},
        }
        let ghost e1 = e@;
        proof {
            lemma_map_has(e1, key@);
        }
        e.push((String::from_str(key), String::from_str(value)));
        proof {
            assert(e@.drop_last() =~= e1);
            assert forall|a: int, b: int| 0 <= a < b < e@.len() implies
                #[trigger] e@[a].0@ != #[trigger] e@[b].0@ by {
                if b == e@.len() - 1 {
                    assert(e1[a].0@ != key@);
                }
            }
            assert(entries_map(e@) =~= entries_map(e0).insert(key@, value@));
        }
        self.entries = e;
    }

    /// Removes any secret stored under `key`.
    pub fn delete_secret(&mut self, key: &str)
        ensures
            final(self).view() == old(self).view().remove(key@),
    {
        proof {
            use_type_invariant(&*self);
        }
        let mut e: Vec<(String, String)> = Vec::new();
        std::mem::swap(&mut e, &mut self.entries);
        let ghost e0 = e@;
        match find_key(&e, key) {
            Some(i) => {
                proof {
                    lemma_remove(e0, i as int);
                }
                e.remove(i);
            },
            None => {
                assert(entries_map(e0) =~= entries_map(e0).remove(key@));
            },
        }
        self.entries = e;
    }
}

impl SecretStore for MemorySecretStore {
    /// Never fails: the secret stored under `key`, if any.
    fn get(&self, key: &str) -> (r: Result<Option<String>, Error>)
        ensures
            match r {
                Ok(Some(v)) => self.view().dom().contains(key@) && self.view()[key@] == v@,
                Ok(None) => !self.view().dom().contains(key@),
                Err(_) => false,
            },
    {
        Ok(self.get_secret(key))
    }

    /// Never fails: stores `value` under `key`, replacing any earlier value.
    fn set(&mut self, key: &str, value: &str) -> (r: Result<(), Error>)
        ensures
            r is Ok,
            final(self).view() == old(self).view().insert(key@, value@),
    {
        self.set_secret(key, value);
        Ok(())
    }

    /// Never fails: removes any secret stored under `key`.
    fn delete(&mut self, key: &str) -> (r: Result<(), Error>)
        ensures
            r is Ok,
            final(self).view() == old(self).view().remove(key@),
    {
        self.delete_secret(key);
        Ok(())
    }
}

/// After [`MemorySecretStore::set_secret`] a read of the key gives back the
/// value written, and every other key reads as before.
pub proof fn law_read_after_write(
    before: MemorySecretStore,
    after: MemorySecretStore,
    k: Seq<char>,
    v: Seq<char>,
    other: Seq<char>,
)
    requires
        after.view() == before.view().insert(k, v),
        other != k,
    ensures
        after.view().dom().contains(k) && after.view()[k] == v,
        after.view().dom().contains(other) == before.view().dom().contains(other),
        before.view().dom().contains(other) ==> after.view()[other] == before.view()[other],
{
}

/// After [`MemorySecretStore::delete_secret`] the key reads as absent, and
/// every other key reads as before.
pub proof fn law_read_after_delete(
    before: MemorySecretStore,
    after: MemorySecretStore,
    k: Seq<char>,
    other: Seq<char>,
)
    requires
        after.view() == before.view().remove(k),
        other != k,
    ensures
        !after.view().dom().contains(k),
        after.view().dom().contains(other) == before.view().dom().contains(other),
        before.view().dom().contains(other) ==> after.view()[other] == before.view()[other],
{
}

/// One call on a store, by what it names: `Write` for a `set` of a key to
/// a value, `Remove` for a `delete` of a key.
pub enum SecretCall {
    Write(Seq<char>, Seq<char>),
    Remove(Seq<char>),
}

/// The stored secrets after one call, as `set_secret` and `delete_secret`
/// state it.
pub open spec fn call_effect(m: Map<Seq<char>, Seq<char>>, c: SecretCall) -> Map<Seq<char>, Seq<char>> {
    match c {
        SecretCall::Write(k, v) => m.insert(k, v),
        SecretCall::Remove(k) => m.remove(k),
    }
}

/// The key a call names.
pub open spec fn call_key(c: SecretCall) -> Seq<char> {
    match c {
        SecretCall::Write(k, _) => k,
        SecretCall::Remove(k) => k,
    }
}

/// The index of the last call that names `k`, or -1 when none does.
pub open spec fn last_call_on(calls: Seq<SecretCall>, k: Seq<char>) -> int
    decreases calls.len(),
{
    if calls.len() == 0 {
        -1
    } else if call_key(calls.last()) == k {
        calls.len() - 1
    } else {
        last_call_on(calls.drop_last(), k)
    }
}

/// Over any run of `set` and `delete` calls, whatever other keys they name,
/// a key reads as the value of the last `set` on it, reads as absent when
/// the last call on it was a `delete`, and reads as at the start when no
/// call named it.
pub proof fn law_last_call_wins(states: Seq<MemorySecretStore>, calls: Seq<SecretCall>, k: Seq<char>)
    requires
        states.len() == calls.len() + 1,
        forall|i: int| 0 <= i < calls.len() ==> states[i + 1].view() == call_effect(states[i].view(), #[trigger] calls[i]),
    ensures
        ({
            let j = last_call_on(calls, k);
            let start = states[0].view();
            let end = states.last().view();
            &&& -1 <= j < calls.len()
            &&& j >= 0 ==> call_key(calls[j]) == k
            &&& j >= 0 ==> (calls[j] matches SecretCall::Write(_, v) ==> end.dom().contains(k) && end[k] == v)
            &&& j >= 0 ==> (calls[j] is Remove ==> !end.dom().contains(k))
            &&& j == -1 ==> (end.dom().contains(k) == start.dom().contains(k))
            &&& j == -1 && start.dom().contains(k) ==> end[k] == start[k]
        }),
    decreases calls.len(),
{
    if calls.len() > 0 {
        let n = calls.len() - 1;
        let ps = states.drop_last();
        let pc = calls.drop_last();
        assert forall|i: int| 0 <= i < pc.len() implies ps[i + 1].view() == call_effect(ps[i].view(), #[trigger] pc[i]) by {
            assert(calls[i] == pc[i]);
        }
        law_last_call_wins(ps, pc, k);
        assert(states.last().view() == call_effect(states[n].view(), calls[n]));
        assert(ps.last() == states[n]);
    }
}

} // verus!
