//! A specification-level model of one Redis database's keyspace and of what
//! each planned command does to it. The model exists to state and prove the
//! laws about the plans the handlers build — nothing executes it. Commands
//! that only read, and `SELECT` (the model describes a single database's
//! keyspace), leave the model unchanged.

use vstd::prelude::*;

verus! {

use crate::cmd::CmdModel;

/// The value a key holds, by Redis type. Hashes map fields to values, sorted
/// sets map members to their score text.
pub enum ValModel {
    VStr(Seq<char>),
    VHash(Map<Seq<char>, Seq<char>>),
    VList(Seq<Seq<char>>),
    VSet(Set<Seq<char>>),
    VZset(Map<Seq<char>, Seq<char>>),
}

/// One key's state: its value and its time to live in seconds, -1 meaning no
/// expiry (as the TTL command reports it).
pub struct StoreEntry {
    pub value: ValModel,
    pub ttl: int,
}

/// The keyspace of one database.
pub type StoreModel = Map<Seq<char>, StoreEntry>;

/// A map extended with a sequence of insertions, first pair first.
pub open spec fn map_with_pairs(
    base: Map<Seq<char>, Seq<char>>,
    pairs: Seq<(Seq<char>, Seq<char>)>,
) -> Map<Seq<char>, Seq<char>>
    decreases pairs.len(),
{
    if pairs.len() == 0 {
        base
    } else {
        map_with_pairs(base.insert(pairs[0].0, pairs[0].1), pairs.drop_first())
    }
}

/// A set extended with a sequence of members.
pub open spec fn set_with_members(base: Set<Seq<char>>, members: Seq<Seq<char>>) -> Set<Seq<char>>
    decreases members.len(),
{
    if members.len() == 0 {
        base
    } else {
        set_with_members(base.insert(members[0]), members.drop_first())
    }
}

/// A list with the first (up to) `n` occurrences of `v` removed.
pub open spec fn lrem_first(l: Seq<Seq<char>>, v: Seq<char>, n: int) -> Seq<Seq<char>>
    decreases l.len(),
{
    if l.len() == 0 || n <= 0 {
        l
    } else if l[0] == v {
        lrem_first(l.drop_first(), v, n - 1)
    } else {
        seq![l[0]] + lrem_first(l.drop_first(), v, n)
    }
}

/// A list with every occurrence of `v` removed.
pub open spec fn lrem_all(l: Seq<Seq<char>>, v: Seq<char>) -> Seq<Seq<char>>
    decreases l.len(),
{
    if l.len() == 0 {
        l
    } else if l[0] == v {
        lrem_all(l.drop_first(), v)
    } else {
        seq![l[0]] + lrem_all(l.drop_first(), v)
    }
}

/// LREM semantics: a positive count removes from the head, a negative one from
/// the tail, zero removes all occurrences.
pub open spec fn lrem_model(l: Seq<Seq<char>>, count: int, v: Seq<char>) -> Seq<Seq<char>> {
    if count > 0 {
        lrem_first(l, v, count)
    } else if count < 0 {
        lrem_first(l.reverse(), v, -count).reverse()
    } else {
        lrem_all(l, v)
    }
}

/// The hash value and time to live at `key`, when `key` holds a hash; a fresh
/// unexpiring hash otherwise.
pub open spec fn hash_base(st: StoreModel, key: Seq<char>) -> (Map<Seq<char>, Seq<char>>, int) {
    if st.contains_key(key) {
        match st[key].value {
            ValModel::VHash(h) => (h, st[key].ttl),
            _ => (Map::<Seq<char>, Seq<char>>::empty(), -1),
        }
    } else {
        (Map::<Seq<char>, Seq<char>>::empty(), -1)
    }
}

/// The list and time to live at `key`, when `key` holds a list; a fresh
/// unexpiring list otherwise.
pub open spec fn list_base(st: StoreModel, key: Seq<char>) -> (Seq<Seq<char>>, int) {
    if st.contains_key(key) {
        match st[key].value {
            ValModel::VList(l) => (l, st[key].ttl),
            _ => (Seq::<Seq<char>>::empty(), -1),
        }
    } else {
        (Seq::<Seq<char>>::empty(), -1)
    }
}

/// The set and time to live at `key`, when `key` holds a set; a fresh
/// unexpiring set otherwise.
pub open spec fn set_base(st: StoreModel, key: Seq<char>) -> (Set<Seq<char>>, int) {
    if st.contains_key(key) {
        match st[key].value {
            ValModel::VSet(s) => (s, st[key].ttl),
            _ => (Set::<Seq<char>>::empty(), -1),
        }
    } else {
        (Set::<Seq<char>>::empty(), -1)
    }
}

/// The sorted set and time to live at `key`, when `key` holds one; a fresh
/// unexpiring sorted set otherwise.
pub open spec fn zset_base(st: StoreModel, key: Seq<char>) -> (Map<Seq<char>, Seq<char>>, int) {
    if st.contains_key(key) {
        match st[key].value {
            ValModel::VZset(z) => (z, st[key].ttl),
            _ => (Map::<Seq<char>, Seq<char>>::empty(), -1),
        }
    } else {
        (Map::<Seq<char>, Seq<char>>::empty(), -1)
    }
}

/// What one command does to the keyspace. Reads, `SELECT`, and writes whose
/// preconditions fail on the server (an LSET out of range, a removal from a
/// key of another type) leave the model unchanged.
pub open spec fn apply_cmd(st: StoreModel, c: CmdModel) -> StoreModel {
    match c {
        CmdModel::SetValue { key, value } => st.insert(
            key,
            StoreEntry { value: ValModel::VStr(value), ttl: -1 },
        ),
        CmdModel::SetEx { key, ttl, value } => st.insert(
            key,
            StoreEntry { value: ValModel::VStr(value), ttl },
        ),
        CmdModel::Del { key } => st.remove(key),
        CmdModel::Expire { key, ttl } => if st.contains_key(key) {
            st.insert(key, StoreEntry { value: st[key].value, ttl })
        } else {
            st
        },
        CmdModel::Persist { key } => if st.contains_key(key) {
            st.insert(key, StoreEntry { value: st[key].value, ttl: -1 })
        } else {
            st
        },
        CmdModel::Rename { old_key, new_key } => if st.contains_key(old_key) {
            st.remove(old_key).insert(new_key, st[old_key])
        } else {
            st
        },
        CmdModel::HSet { key, pairs } => {
            let (h, ttl) = hash_base(st, key);
            st.insert(key, StoreEntry { value: ValModel::VHash(map_with_pairs(h, pairs)), ttl })
        },
        CmdModel::HDel { key, field } => {
            if st.contains_key(key) {
                match st[key].value {
                    ValModel::VHash(h) => st.insert(
                        key,
                        StoreEntry { value: ValModel::VHash(h.remove(field)), ttl: st[key].ttl },
                    ),
                    _ => st,
                }
            } else {
                st
            }
        },
        CmdModel::RPush { key, items } => {
            let (l, ttl) = list_base(st, key);
            st.insert(key, StoreEntry { value: ValModel::VList(l + items), ttl })
        },
        CmdModel::LSet { key, index, value } => {
            if st.contains_key(key) {
                match st[key].value {
                    ValModel::VList(l) => if 0 <= index < l.len() {
                        st.insert(
                            key,
                            StoreEntry {
                                value: ValModel::VList(l.update(index, value)),
                                ttl: st[key].ttl,
                            },
                        )
                    } else {
                        st
                    },
                    _ => st,
                }
            } else {
                st
            }
        },
        CmdModel::LRem { key, count, value } => {
            if st.contains_key(key) {
                match st[key].value {
                    ValModel::VList(l) => st.insert(
                        key,
                        StoreEntry {
                            value: ValModel::VList(lrem_model(l, count, value)),
                            ttl: st[key].ttl,
                        },
                    ),
                    _ => st,
                }
            } else {
                st
            }
        },
        CmdModel::SAdd { key, members } => {
            let (s, ttl) = set_base(st, key);
            st.insert(key, StoreEntry { value: ValModel::VSet(set_with_members(s, members)), ttl })
        },
        CmdModel::SRem { key, member } => {
            if st.contains_key(key) {
                match st[key].value {
                    ValModel::VSet(s) => st.insert(
                        key,
                        StoreEntry { value: ValModel::VSet(s.remove(member)), ttl: st[key].ttl },
                    ),
                    _ => st,
                }
            } else {
                st
            }
        },
        CmdModel::ZAdd { key, pairs } => {
            let (z, ttl) = zset_base(st, key);
            st.insert(key, StoreEntry { value: ValModel::VZset(map_with_pairs(z, pairs)), ttl })
        },
        CmdModel::ZRem { key, member } => {
            if st.contains_key(key) {
                match st[key].value {
                    ValModel::VZset(z) => st.insert(
                        key,
                        StoreEntry { value: ValModel::VZset(z.remove(member)), ttl: st[key].ttl },
                    ),
                    _ => st,
                }
            } else {
                st
            }
        },
        _ => st,
    }
}

/// The keyspace after a whole plan, first command first.
pub open spec fn apply_plan(st: StoreModel, plan: Seq<CmdModel>) -> StoreModel
    decreases plan.len(),
{
    if plan.len() == 0 {
        st
    } else {
        apply_plan(apply_cmd(st, plan[0]), plan.drop_first())
    }
}

/// What GET returns: the string at `key`, when `key` holds a string.
pub open spec fn model_get(st: StoreModel, key: Seq<char>) -> Option<Seq<char>> {
    if st.contains_key(key) {
        match st[key].value {
            ValModel::VStr(s) => Some(s),
            _ => None,
        }
    } else {
        None
    }
}

/// What TTL reports: the entry's time to live, or -2 when the key is absent.
pub open spec fn model_ttl(st: StoreModel, key: Seq<char>) -> int {
    if st.contains_key(key) {
        st[key].ttl
    } else {
        -2
    }
}

/// Applying a two-command plan is applying its commands in order.
pub proof fn lemma_apply_seq2(st: StoreModel, a: CmdModel, b: CmdModel)
    ensures
        apply_plan(st, seq![a, b]) == apply_cmd(apply_cmd(st, a), b),
{
    let p = seq![a, b];
    let q = p.drop_first();
    assert(q =~= seq![b]);
    assert(apply_plan(st, p) == apply_plan(apply_cmd(st, a), q));
    assert(apply_plan(apply_cmd(st, a), q) == apply_plan(apply_cmd(apply_cmd(st, a), b), q.drop_first()));
    assert(q.drop_first() =~= Seq::<CmdModel>::empty());
    assert(apply_plan(apply_cmd(apply_cmd(st, a), b), q.drop_first()) == apply_cmd(apply_cmd(st, a), b));
}

/// Applying a three-command plan is applying its commands in order.
pub proof fn lemma_apply_seq3(st: StoreModel, a: CmdModel, b: CmdModel, c: CmdModel)
    ensures
        apply_plan(st, seq![a, b, c]) == apply_cmd(apply_cmd(apply_cmd(st, a), b), c),
{
    let p = seq![a, b, c];
    let q = p.drop_first();
    assert(q =~= seq![b, c]);
    assert(apply_plan(st, p) == apply_plan(apply_cmd(st, a), q));
    lemma_apply_seq2(apply_cmd(st, a), b, c);
}

/// The database index selected after a plan runs, starting from `d0`: the
/// argument of the plan's last `SELECT`, or `d0` when it has none.
pub open spec fn selected_after(plan: Seq<CmdModel>, d0: int) -> int
    decreases plan.len(),
{
    if plan.len() == 0 {
        d0
    } else {
        let d1 = match plan[0] {
            CmdModel::Select { db } => db,
            _ => d0,
        };
        selected_after(plan.drop_first(), d1)
    }
}

} // verus!
