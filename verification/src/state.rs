//! Shared application state: the registry of running backends, and the
//! settings whose change makes the Soulseek backend reconnect.

use vstd::prelude::*;
use crate::common::Backend;
use crate::text::{chars_of, eq_lit};

verus! {

/// Settings keys whose change requires the Soulseek backend to reconnect
/// (credentials, server address, or staging location).
pub open spec fn reload_key(k: Seq<char>) -> bool {
    ||| k == "soulseek.username"@
    ||| k == "soulseek.password"@
    ||| k == "soulseek.server_addr"@
    ||| k == "soulseek.listen_port"@
    ||| k == "soulseek.download_root"@
}

fn is_reload_key(k: &str) -> (b: bool)
    ensures
        b == reload_key(k@),
{
    let c = chars_of(k);
    eq_lit(c.as_slice(), "soulseek.username") || eq_lit(c.as_slice(), "soulseek.password") || eq_lit(
        c.as_slice(),
        "soulseek.server_addr",
    ) || eq_lit(c.as_slice(), "soulseek.listen_port") || eq_lit(c.as_slice(), "soulseek.download_root")
}

/// Whether a change of these settings keys requires the Soulseek backend to
/// reconnect: exactly when one of them is a reload key.
pub fn needs_backend_reload(changed_keys: &Vec<String>) -> (b: bool)
    ensures
        b == exists|i: int| 0 <= i < changed_keys@.len() && reload_key(#[trigger] changed_keys@[i]@),
{
    let mut i: usize = 0;
    while i < changed_keys.len()
        invariant
            i <= changed_keys@.len(),
            forall|j: int| 0 <= j < i ==> !reload_key(#[trigger] changed_keys@[j]@),
        decreases changed_keys.len() - i,
    {
        if is_reload_key(changed_keys[i].as_str()) {
            return true;
        }
        i = i + 1;
    }
    false
}

/// The position, at or after `i`, of the first entry registered under `b`,
/// or -1.
pub open spec fn key_pos_from<T>(e: Seq<(Backend, T)>, b: Backend, i: int) -> int
    decreases e.len() - i,
{
    if i < 0 || i >= e.len() {
        -1
    } else if e[i].0 == b {
        i
    } else {
        key_pos_from(e, b, i + 1)
    }
}

/// The position of the entry registered under `b`, or -1.
pub open spec fn key_pos<T>(e: Seq<(Backend, T)>, b: Backend) -> int {
    key_pos_from(e, b, 0)
}

/// What is registered under `b`.
pub open spec fn lookup<T>(e: Seq<(Backend, T)>, b: Backend) -> Option<T> {
    if key_pos(e, b) >= 0 {
        Some(e[key_pos(e, b)].1)
    } else {
        None
    }
}

/// The entries after registering `v` under `b`: it replaces what was
/// registered under `b`, or is added last.
pub open spec fn registered<T>(e: Seq<(Backend, T)>, b: Backend, v: T) -> Seq<(Backend, T)> {
    if key_pos(e, b) >= 0 {
        e.update(key_pos(e, b), (b, v))
    } else {
        e.push((b, v))
    }
}

proof fn lemma_key_pos<T>(e: Seq<(Backend, T)>, b: Backend, i: int)
    requires
        0 <= i,
    ensures
        key_pos_from(e, b, i) == -1 || (i <= key_pos_from(e, b, i) < e.len()),
        key_pos_from(e, b, i) >= 0 ==> e[key_pos_from(e, b, i)].0 == b,
        key_pos_from(e, b, i) >= 0 ==> forall|j: int| i <= j < key_pos_from(e, b, i) ==> #[trigger] e[j].0 != b,
        key_pos_from(e, b, i) < 0 ==> forall|j: int| i <= j < e.len() ==> #[trigger] e[j].0 != b,
    decreases e.len() - i,
{
    if i < e.len() && e[i].0 != b {
        lemma_key_pos(e, b, i + 1);
    }
}

proof fn lemma_key_pos_found<T>(e: Seq<(Backend, T)>, b: Backend, i: int, k: int)
    requires
        0 <= i <= k < e.len(),
        e[k].0 == b,
        forall|j: int| i <= j < k ==> #[trigger] e[j].0 != b,
    ensures
        key_pos_from(e, b, i) == k,
    decreases k - i,
{
    if i < k {
        lemma_key_pos_found(e, b, i + 1, k);
    }
}

proof fn lemma_key_pos_absent<T>(e: Seq<(Backend, T)>, b: Backend, i: int)
    requires
        0 <= i <= e.len(),
        forall|j: int| i <= j < e.len() ==> #[trigger] e[j].0 != b,
    ensures
        key_pos_from(e, b, i) == -1,
    decreases e.len() - i,
{
    if i < e.len() {
        lemma_key_pos_absent(e, b, i + 1);
    }
}

/// Entries with the same keys, position by position, find every key at the
/// same position.
proof fn lemma_same_keys<T>(e: Seq<(Backend, T)>, f: Seq<(Backend, T)>, c: Backend, i: int)
    requires
        0 <= i,
        e.len() == f.len(),
        forall|j: int| 0 <= j < e.len() ==> #[trigger] e[j].0 == f[j].0,
    ensures
        key_pos_from(e, c, i) == key_pos_from(f, c, i),
    decreases e.len() - i,
{
    if i < e.len() {
        assert(e[i].0 == f[i].0);
        lemma_same_keys(e, f, c, i + 1);
    }
}

/// Adding an entry last changes where a key is found only for a key that
/// was absent and is the added one.
proof fn lemma_push_key<T>(e: Seq<(Backend, T)>, p: (Backend, T), c: Backend, i: int)
    requires
        0 <= i <= e.len(),
    ensures
        key_pos_from(e.push(p), c, i) == if key_pos_from(e, c, i) >= 0 {
            key_pos_from(e, c, i)
        } else if p.0 == c {
            e.len() as int
        } else {
            -1
        },
    decreases e.len() - i,
{
    if i < e.len() {
        assert(e.push(p)[i] == e[i]);
        lemma_push_key(e, p, c, i + 1);
    } else {
        assert(e.push(p)[e.len() as int] == p);
        assert(key_pos_from(e.push(p), c, e.len() as int + 1) == -1);
        assert(key_pos_from(e, c, i) == -1);
    }
}

/// Registering is read back: after registering `v` under `b`, looking up `b`
/// gives `v`, and every other backend looks up as before.
pub proof fn law_lookup_after_register<T>(e: Seq<(Backend, T)>, b: Backend, v: T, other: Backend)
    ensures
        lookup(registered(e, b, v), b) == Some(v),
        other != b ==> lookup(registered(e, b, v), other) == lookup(e, other),
{
    let k = key_pos(e, b);
    let f = registered(e, b, v);
    lemma_key_pos(e, b, 0);
    lemma_key_pos(e, other, 0);
    if k >= 0 {
        assert forall|j: int| 0 <= j < e.len() implies #[trigger] e[j].0 == f[j].0 by {}
        lemma_same_keys(e, f, b, 0);
        lemma_same_keys(e, f, other, 0);
        if other != b && key_pos(e, other) >= 0 {
            assert(key_pos(e, other) != k);
        }
    } else {
        lemma_push_key(e, (b, v), b, 0);
        lemma_push_key(e, (b, v), other, 0);
    }
}

/// The running backends of one kind, each registered under its backend.
pub struct BackendRegistry<T> {
    entries: Vec<(Backend, T)>,
}

impl<T> BackendRegistry<T> {
    /// What is registered, in registration order.
    pub closed spec fn entries(&self) -> Seq<(Backend, T)> {
        self.entries@
    }

    /// A registry with nothing registered.
    pub fn new() -> (r: Self)
        ensures
            r.entries() == Seq::<(Backend, T)>::empty(),
    {
        BackendRegistry { entries: Vec::new() }
    }

    fn position(&self, b: Backend) -> (r: Option<usize>)
        ensures
            match r {
                Some(k) => k < self.entries().len() && k as int == key_pos(self.entries(), b),
                None => key_pos(self.entries(), b) < 0,
            },
    {
        let mut i: usize = 0;
        while i < self.entries.len()
            invariant
                i <= self.entries@.len(),
                forall|j: int| 0 <= j < i ==> #[trigger] self.entries@[j].0 != b,
            decreases self.entries.len() - i,
        {
            if self.entries[i].0 == b {
                proof {
                    lemma_key_pos_found(self.entries@, b, 0, i as int);
                }
                return Some(i);
            }
            i = i + 1;
        }
        proof {
            lemma_key_pos_absent(self.entries@, b, 0);
        }
        None
    }

    /// Registers `v` under `b`, replacing what was registered under it.
    pub fn register(&mut self, b: Backend, v: T)
        ensures
            final(self).entries() == registered(old(self).entries(), b, v),
    {
        match self.position(b) {
            Some(k) => {
                self.entries.set(k, (b, v));
            },
            None => {
                self.entries.push((b, v));
            },
        }
    }

    /// What is registered under `b`.
    pub fn get(&self, b: Backend) -> (r: Option<&T>)
        ensures
            match r {
                Some(x) => lookup(self.entries(), b) == Some(*x),
                None => lookup(self.entries(), b) is None,
            },
    {
        match self.position(b) {
            Some(k) => Some(&self.entries[k].1),
            None => None,
        }
    }

    /// Everything registered, in registration order.
    pub fn all(&self) -> (r: &Vec<(Backend, T)>)
        ensures
            r@ == self.entries(),
    {
        &self.entries
    }

    /// The backends registered, in registration order.
    pub fn backends(&self) -> (r: Vec<Backend>)
        ensures
            r@ == Seq::new(self.entries().len(), |i: int| self.entries()[i].0),
    {
        let mut r: Vec<Backend> = Vec::new();
        let mut i: usize = 0;
        while i < self.entries.len()
            invariant
                i <= self.entries@.len(),
                r@ == Seq::new(i as nat, |j: int| self.entries@[j].0),
            decreases self.entries.len() - i,
        {
            r.push(self.entries[i].0);
            assert(r@ =~= Seq::new((i + 1) as nat, |j: int| self.entries@[j].0));
            i = i + 1;
        }
        r
    }
}

} // verus!
