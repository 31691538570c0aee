//! The connection registry: the single source of truth mapping a caller-chosen
//! connection id to the database index that logical connection is assumed to be
//! on. The live client handle itself stays with the caller, keyed by the same
//! id; every command handler consults this registry before talking to a server.

use vstd::prelude::*;

verus! {

use crate::strutil::str_eq;

/// Caller-supplied description of one connection: a unique id, a display name,
/// the server address, optional credentials, and an optional database index
/// (absent means database 0).
pub struct RedisConnectionConfig {
    pub id: String,
    pub name: String,
    pub host: String,
    pub port: u16,
    pub username: Option<String>,
    pub password: Option<String>,
    pub db: Option<u8>,
}

/// The mutable record kept per registered connection: the database index this
/// logical connection currently believes it is on.
pub struct ConnectionState {
    pub current_db: u8,
}

/// The database index a config resolves to: the requested one, or 0 by default.
pub open spec fn spec_resolve_db(db: Option<u8>) -> u8 {
    match db {
        Some(d) => d,
        None => 0,
    }
}

/// The database index a config resolves to: the requested one, or 0 by default.
pub fn resolve_db(db: &Option<u8>) -> (r: u8)
    ensures
        r == spec_resolve_db(*db),
{
    match db {
        Some(d) => *d,
        None => 0,
    }
}

/// The tracked database of the first entry whose id matches, scanning from the
/// front; `None` when no entry matches.
pub open spec fn seq_lookup(s: Seq<(String, ConnectionState)>, id: Seq<char>) -> Option<u8>
    decreases s.len(),
{
    if s.len() == 0 {
        None
    } else if s[0].0@ == id {
        Some(s[0].1.current_db)
    } else {
        seq_lookup(s.drop_first(), id)
    }
}

proof fn lemma_lookup_first(s: Seq<(String, ConnectionState)>, id: Seq<char>, i: int)
    requires
        0 <= i < s.len(),
        s[i].0@ == id,
        forall|j: int| 0 <= j < i ==> (#[trigger] s[j]).0@ != id,
    ensures
        seq_lookup(s, id) == Some(s[i].1.current_db),
    decreases i,
{
    if i > 0 {
        lemma_lookup_first(s.drop_first(), id, i - 1);
    }
}

proof fn lemma_lookup_none(s: Seq<(String, ConnectionState)>, id: Seq<char>)
    requires
        forall|j: int| 0 <= j < s.len() ==> (#[trigger] s[j]).0@ != id,
    ensures
        seq_lookup(s, id) is None,
    decreases s.len(),
{
    if s.len() > 0 {
        lemma_lookup_none(s.drop_first(), id);
    }
}

proof fn lemma_lookup_push(s: Seq<(String, ConnectionState)>, e: (String, ConnectionState), k: Seq<char>)
    ensures
        seq_lookup(s.push(e), k) == (if seq_lookup(s, k) is Some {
            seq_lookup(s, k)
        } else if e.0@ == k {
            Some(e.1.current_db)
        } else {
            None
        }),
    decreases s.len(),
{
    if s.len() == 0 {
        assert(s.push(e)[0] == e);
        assert(s.push(e).len() == 1);
        assert(s.push(e).drop_first() =~= Seq::<(String, ConnectionState)>::empty());
        assert(seq_lookup(Seq::<(String, ConnectionState)>::empty(), k) is None);
    } else {
        assert(s.push(e)[0] == s[0]);
        assert(s.push(e).drop_first() =~= s.drop_first().push(e));
        lemma_lookup_push(s.drop_first(), e, k);
    }
}

proof fn lemma_lookup_update(
    s: Seq<(String, ConnectionState)>,
    i: int,
    e: (String, ConnectionState),
    k: Seq<char>,
)
    requires
        0 <= i < s.len(),
        e.0@ == s[i].0@,
        k != e.0@,
    ensures
        seq_lookup(s.update(i, e), k) == seq_lookup(s, k),
    decreases i,
{
    let t = s.update(i, e);
    assert(t.len() == s.len());
    if i == 0 {
        assert(t[0] == e);
        assert(t.drop_first() =~= s.drop_first());
    } else {
        assert(t[0] == s[0]);
        assert(t.drop_first() =~= s.drop_first().update(i - 1, e));
        if s[0].0@ != k {
            lemma_lookup_update(s.drop_first(), i - 1, e, k);
        }
    }
}

proof fn lemma_lookup_remove(s: Seq<(String, ConnectionState)>, i: int, k: Seq<char>)
    requires
        0 <= i < s.len(),
        forall|a: int, b: int|
            0 <= a < b < s.len() ==> (#[trigger] s[a]).0@ != (#[trigger] s[b]).0@,
    ensures
        s[i].0@ == k ==> seq_lookup(s.remove(i), k) is None,
        s[i].0@ != k ==> seq_lookup(s.remove(i), k) == seq_lookup(s, k),
    decreases i,
{
    let t = s.remove(i);
    s.remove_ensures(i);
    if i == 0 {
        assert(t =~= s.drop_first());
        if s[0].0@ == k {
            assert(forall|j: int| 0 <= j < t.len() ==> (#[trigger] t[j]).0@ != k);
            lemma_lookup_none(t, k);
        }
    } else {
        assert(t[0] == s[0]);
        assert(t.drop_first() =~= s.drop_first().remove(i - 1));
        assert(s.drop_first()[i - 1] == s[i]);
        if s[0].0@ == k {
            assert(s[i].0@ != k);
        } else {
            lemma_lookup_remove(s.drop_first(), i - 1, k);
        }
    }
}

/// The registry of live connections. An id is present exactly when a connect
/// for it succeeded and no disconnect has since removed it.
pub struct Registry {
    entries: Vec<(String, ConnectionState)>,
}

impl Registry {
    /// The entries as a sequence, for specification purposes.
    pub closed spec fn entries_seq(self) -> Seq<(String, ConnectionState)> {
        self.entries@
    }

    /// Well-formed: no two entries share an id.
    pub open spec fn wf(self) -> bool {
        forall|a: int, b: int|
            0 <= a < b < self.entries_seq().len() ==> (#[trigger] self.entries_seq()[a]).0@
                != (#[trigger] self.entries_seq()[b]).0@
    }

    /// The tracked database of the entry registered under `id`, if any.
    pub open spec fn spec_lookup(self, id: Seq<char>) -> Option<u8> {
        seq_lookup(self.entries_seq(), id)
    }

    /// Whether an entry is registered under `id`.
    pub open spec fn is_registered(self, id: Seq<char>) -> bool {
        self.spec_lookup(id) is Some
    }

    /// An empty registry: nothing is registered.
    pub fn new() -> (r: Registry)
        ensures
            r.wf(),
            forall|id: Seq<char>| !(#[trigger] r.is_registered(id)),
    {
        let r = Registry { entries: Vec::new() };
        proof {
            assert forall|id: Seq<char>| !(#[trigger] r.is_registered(id)) by {
                assert(seq_lookup(r.entries_seq(), id) is None);
            }
        }
        r
    }

    fn find_index(&self, id: &str) -> (r: Option<usize>)
        ensures
            r matches Some(i) ==> i < self.entries_seq().len()
                && self.entries_seq()[i as int].0@ == id@ && (forall|j: int|
                0 <= j < i ==> (#[trigger] self.entries_seq()[j]).0@ != id@),
            r is None ==> forall|j: int|
                0 <= j < self.entries_seq().len() ==> (#[trigger] self.entries_seq()[j]).0@ != id@,
    {
        let n = self.entries.len();
        let mut i: usize = 0;
        while i < n
            invariant
                0 <= i <= n,
                n == self.entries_seq().len(),
                forall|j: int| 0 <= j < i ==> (#[trigger] self.entries_seq()[j]).0@ != id@,
            decreases n - i,
        {
            if str_eq(self.entries[i].0.as_str(), id) {
                return Some(i);
            }
            i += 1;
        }
        None
    }

    /// Inserts or overwrites the entry for `id`, tracking database `db`.
    /// Afterwards `id` is registered on `db` and every other id is untouched.
    pub fn register(&mut self, id: String, db: u8)
        requires
            old(self).wf(),
        ensures
            final(self).wf(),
            final(self).spec_lookup(id@) == Some(db),
            forall|k: Seq<char>| k != id@ ==> final(self).spec_lookup(k) == old(self).spec_lookup(
                k,
            ),
    {
        let st = ConnectionState { current_db: db };
        let ghost s0 = self.entries@;
        match self.find_index(id.as_str()) {
            Some(i) => {
                self.entries[i] = (id, st);
                proof {
                    let e = self.entries@[i as int];
                    assert(self.entries@ =~= s0.update(i as int, e));
                    assert forall|a: int, b: int|
                        0 <= a < b < self.entries@.len() implies (#[trigger] self.entries@[a]).0@
                        != (#[trigger] self.entries@[b]).0@ by {
                        assert(s0[a].0@ != s0[b].0@);
                    }
                    lemma_lookup_first(self.entries@, e.0@, i as int);
                    assert forall|k: Seq<char>| k != e.0@ implies seq_lookup(self.entries@, k)
                        == seq_lookup(s0, k) by {
                        lemma_lookup_update(s0, i as int, e, k);
                    }
                }
            },
            None => {
                let ghost e = (id, st);
                self.entries.push((id, st));
                proof {
                    assert(self.entries@ =~= s0.push(e));
                    assert forall|a: int, b: int|
                        0 <= a < b < self.entries@.len() implies (#[trigger] self.entries@[a]).0@
                        != (#[trigger] self.entries@[b]).0@ by {
                        if b < s0.len() {
                            assert(s0[a].0@ != s0[b].0@);
                        } else {
                            assert(self.entries@[b] == e);
                            assert(self.entries@[a] == s0[a]);
                        }
                    }
                    lemma_lookup_none(s0, e.0@);
                    lemma_lookup_push(s0, e, e.0@);
                    assert forall|k: Seq<char>| k != e.0@ implies seq_lookup(self.entries@, k)
                        == seq_lookup(s0, k) by {
                        lemma_lookup_push(s0, e, k);
                    }
                }
            },
        }
    }

    /// Registers a connection as `Connect` commits it: under the config's id,
    /// tracking the requested database (0 when none was requested).
    pub fn register_connection(&mut self, config: &RedisConnectionConfig)
        requires
            old(self).wf(),
        ensures
            final(self).wf(),
            final(self).spec_lookup(config.id@) == Some(spec_resolve_db(config.db)),
            forall|k: Seq<char>| k != config.id@ ==> final(self).spec_lookup(k) == old(
                self,
            ).spec_lookup(k),
    {
        let db = resolve_db(&config.db);
        self.register(config.id.clone(), db);
    }

    /// Removes the entry for `id`. Returns whether one was registered; after
    /// the call `id` is not registered and every other id is untouched.
    pub fn remove(&mut self, id: &str) -> (found: bool)
        requires
            old(self).wf(),
        ensures
            final(self).wf(),
            found == old(self).is_registered(id@),
            !final(self).is_registered(id@),
            !found ==> *final(self) == *old(self),
            forall|k: Seq<char>| k != id@ ==> final(self).spec_lookup(k) == old(self).spec_lookup(
                k,
            ),
    {
        let ghost s0 = self.entries@;
        match self.find_index(id) {
            Some(i) => {
                proof {
                    lemma_lookup_first(s0, id@, i as int);
                }
                self.entries.remove(i);
                proof {
                    s0.remove_ensures(i as int);
                    assert(self.entries@ =~= s0.remove(i as int));
                    assert forall|a: int, b: int|
                        0 <= a < b < self.entries@.len() implies (#[trigger] self.entries@[a]).0@
                        != (#[trigger] self.entries@[b]).0@ by {
                        let a0 = if a < i as int { a } else { a + 1 };
                        let b0 = if b < i as int { b } else { b + 1 };
                        assert(self.entries@[a] == s0[a0]);
                        assert(self.entries@[b] == s0[b0]);
                        assert(s0[a0].0@ != s0[b0].0@);
                    }
                    lemma_lookup_remove(s0, i as int, id@);
                    assert forall|k: Seq<char>| k != id@ implies seq_lookup(self.entries@, k)
                        == seq_lookup(s0, k) by {
                        lemma_lookup_remove(s0, i as int, k);
                    }
                }
                true
            },
            None => {
                proof {
                    lemma_lookup_none(s0, id@);
                }
                false
            },
        }
    }

    /// The tracked database for `id`, or `None` when `id` is not registered.
    pub fn lookup(&self, id: &str) -> (r: Option<u8>)
        ensures
            r == self.spec_lookup(id@),
    {
        match self.find_index(id) {
            Some(i) => {
                proof {
                    lemma_lookup_first(self.entries@, id@, i as int);
                }
                Some(self.entries[i].1.current_db)
            },
            None => {
                proof {
                    lemma_lookup_none(self.entries@, id@);
                }
                None
            },
        }
    }

    /// Retargets the tracked database for `id` after a successful SELECT.
    /// Returns whether `id` was registered; when it was not, nothing changes.
    pub fn set_current_db(&mut self, id: &str, db: u8) -> (found: bool)
        requires
            old(self).wf(),
        ensures
            final(self).wf(),
            found == old(self).is_registered(id@),
            found ==> final(self).spec_lookup(id@) == Some(db),
            !found ==> *final(self) == *old(self),
            forall|k: Seq<char>| k != id@ ==> final(self).spec_lookup(k) == old(self).spec_lookup(
                k,
            ),
    {
        let ghost s0 = self.entries@;
        match self.find_index(id) {
            Some(i) => {
                proof {
                    lemma_lookup_first(s0, id@, i as int);
                }
                let key = self.entries[i].0.clone();
                self.entries[i] = (key, ConnectionState { current_db: db });
                proof {
                    let e = self.entries@[i as int];
                    assert(e.0@ == id@);
                    assert(self.entries@ =~= s0.update(i as int, e));
                    assert forall|a: int, b: int|
                        0 <= a < b < self.entries@.len() implies (#[trigger] self.entries@[a]).0@
                        != (#[trigger] self.entries@[b]).0@ by {
                        assert(s0[a].0@ != s0[b].0@);
                    }
                    lemma_lookup_first(self.entries@, id@, i as int);
                    assert forall|k: Seq<char>| k != id@ implies seq_lookup(self.entries@, k)
                        == seq_lookup(s0, k) by {
                        lemma_lookup_update(s0, i as int, e, k);
                    }
                }
                true
            },
            None => {
                proof {
                    lemma_lookup_none(s0, id@);
                }
                false
            },
        }
    }
}

} // verus!
