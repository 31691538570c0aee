//! The Redis commands this backend issues, as data. Handlers build command
//! sequences (plans); the caller executes them against a live server in order
//! and hands the plain reply values back. `CmdModel` is the specification-level
//! mirror that the store semantics and the laws speak about.

use vstd::prelude::*;

verus! {

use vstd::string::StringExecFns;
use crate::strutil::{u64_to_dec, i64_to_dec, spec_dec_str, spec_int_str};

/// One Redis command, carrying exactly the arguments the handlers use.
/// Sorted-set scores travel as their decimal text, which is how they are
/// written on the wire.
#[derive(Debug)]
#[allow(inconsistent_fields)]
pub enum RedisCmd {
    Select { db: u64 },
    ConfigGetDatabases,
    DbSize,
    Info,
    LastSave,
    Scan { cursor: u64, pattern: String, count: u64 },
    Keys { pattern: String },
    Exists { key: String },
    TypeOf { key: String },
    Ttl { key: String },
    Expire { key: String, ttl: i64 },
    Persist { key: String },
    Del { key: String },
    Rename { old_key: String, new_key: String },
    MemoryUsage { key: String },
    DebugObject { key: String },
    Get { key: String },
    SetValue { key: String, value: String },
    SetEx { key: String, ttl: i64, value: String },
    HGetAll { key: String },
    HSet { key: String, pairs: Vec<(String, String)> },
    HDel { key: String, field: String },
    LRangeAll { key: String },
    RPush { key: String, items: Vec<String> },
    LSet { key: String, index: u64, value: String },
    LRem { key: String, count: i64, value: String },
    LLen { key: String },
    SMembers { key: String },
    SAdd { key: String, members: Vec<String> },
    SRem { key: String, member: String },
    ZRangeAllWithScores { key: String },
    ZAdd { key: String, pairs: Vec<(String, String)> },
    ZRem { key: String, member: String },
}

/// Specification-level mirror of `RedisCmd`, over character sequences.
pub enum CmdModel {
    Select { db: int },
    ConfigGetDatabases,
    DbSize,
    Info,
    LastSave,
    Scan { cursor: int, pattern: Seq<char>, count: int },
    Keys { pattern: Seq<char> },
    Exists { key: Seq<char> },
    TypeOf { key: Seq<char> },
    Ttl { key: Seq<char> },
    Expire { key: Seq<char>, ttl: int },
    Persist { key: Seq<char> },
    Del { key: Seq<char> },
    Rename { old_key: Seq<char>, new_key: Seq<char> },
    MemoryUsage { key: Seq<char> },
    DebugObject { key: Seq<char> },
    Get { key: Seq<char> },
    SetValue { key: Seq<char>, value: Seq<char> },
    SetEx { key: Seq<char>, ttl: int, value: Seq<char> },
    HGetAll { key: Seq<char> },
    HSet { key: Seq<char>, pairs: Seq<(Seq<char>, Seq<char>)> },
    HDel { key: Seq<char>, field: Seq<char> },
    LRangeAll { key: Seq<char> },
    RPush { key: Seq<char>, items: Seq<Seq<char>> },
    LSet { key: Seq<char>, index: int, value: Seq<char> },
    LRem { key: Seq<char>, count: int, value: Seq<char> },
    LLen { key: Seq<char> },
    SMembers { key: Seq<char> },
    SAdd { key: Seq<char>, members: Seq<Seq<char>> },
    SRem { key: Seq<char>, member: Seq<char> },
    ZRangeAllWithScores { key: Seq<char> },
    ZAdd { key: Seq<char>, pairs: Seq<(Seq<char>, Seq<char>)> },
    ZRem { key: Seq<char>, member: Seq<char> },
}

/// Views of a sequence of string pairs.
pub open spec fn pairs_view(pairs: Seq<(String, String)>) -> Seq<(Seq<char>, Seq<char>)> {
    pairs.map_values(|p: (String, String)| (p.0@, p.1@))
}

/// Views of a sequence of strings.
pub open spec fn strings_view(items: Seq<String>) -> Seq<Seq<char>> {
    items.map_values(|s: String| s@)
}

impl View for RedisCmd {
    type V = CmdModel;

    open spec fn view(&self) -> CmdModel {
        match self {
            RedisCmd::Select { db } => CmdModel::Select { db: *db as int },
            RedisCmd::ConfigGetDatabases => CmdModel::ConfigGetDatabases,
            RedisCmd::DbSize => CmdModel::DbSize,
            RedisCmd::Info => CmdModel::Info,
            RedisCmd::LastSave => CmdModel::LastSave,
            RedisCmd::Scan { cursor, pattern, count } => CmdModel::Scan {
                cursor: *cursor as int,
                pattern: pattern@,
                count: *count as int,
            },
            RedisCmd::Keys { pattern } => CmdModel::Keys { pattern: pattern@ },
            RedisCmd::Exists { key } => CmdModel::Exists { key: key@ },
            RedisCmd::TypeOf { key } => CmdModel::TypeOf { key: key@ },
            RedisCmd::Ttl { key } => CmdModel::Ttl { key: key@ },
            RedisCmd::Expire { key, ttl } => CmdModel::Expire { key: key@, ttl: *ttl as int },
            RedisCmd::Persist { key } => CmdModel::Persist { key: key@ },
            RedisCmd::Del { key } => CmdModel::Del { key: key@ },
            RedisCmd::Rename { old_key, new_key } => CmdModel::Rename {
                old_key: old_key@,
                new_key: new_key@,
            },
            RedisCmd::MemoryUsage { key } => CmdModel::MemoryUsage { key: key@ },
            RedisCmd::DebugObject { key } => CmdModel::DebugObject { key: key@ },
            RedisCmd::Get { key } => CmdModel::Get { key: key@ },
            RedisCmd::SetValue { key, value } => CmdModel::SetValue { key: key@, value: value@ },
            RedisCmd::SetEx { key, ttl, value } => CmdModel::SetEx {
                key: key@,
                ttl: *ttl as int,
                value: value@,
            },
            RedisCmd::HGetAll { key } => CmdModel::HGetAll { key: key@ },
            RedisCmd::HSet { key, pairs } => CmdModel::HSet {
                key: key@,
                pairs: pairs_view(pairs@),
            },
            RedisCmd::HDel { key, field } => CmdModel::HDel { key: key@, field: field@ },
            RedisCmd::LRangeAll { key } => CmdModel::LRangeAll { key: key@ },
            RedisCmd::RPush { key, items } => CmdModel::RPush {
                key: key@,
                items: strings_view(items@),
            },
            RedisCmd::LSet { key, index, value } => CmdModel::LSet {
                key: key@,
                index: *index as int,
                value: value@,
            },
            RedisCmd::LRem { key, count, value } => CmdModel::LRem {
                key: key@,
                count: *count as int,
                value: value@,
            },
            RedisCmd::LLen { key } => CmdModel::LLen { key: key@ },
            RedisCmd::SMembers { key } => CmdModel::SMembers { key: key@ },
            RedisCmd::SAdd { key, members } => CmdModel::SAdd {
                key: key@,
                members: strings_view(members@),
            },
            RedisCmd::SRem { key, member } => CmdModel::SRem { key: key@, member: member@ },
            RedisCmd::ZRangeAllWithScores { key } => CmdModel::ZRangeAllWithScores { key: key@ },
            RedisCmd::ZAdd { key, pairs } => CmdModel::ZAdd {
                key: key@,
                pairs: pairs_view(pairs@),
            },
            RedisCmd::ZRem { key, member } => CmdModel::ZRem { key: key@, member: member@ },
        }
    }
}

/// The model of a whole plan: each command's model, in order.
pub open spec fn plan_view(plan: Seq<RedisCmd>) -> Seq<CmdModel> {
    plan.map_values(|c: RedisCmd| c@)
}

// ---------------------------------------------------------------------------
// Wire arguments
// ---------------------------------------------------------------------------

/// Field/value pairs flattened into argument order.
pub open spec fn spec_pairs_args(pairs: Seq<(Seq<char>, Seq<char>)>) -> Seq<Seq<char>>
    decreases pairs.len(),
{
    if pairs.len() == 0 {
        Seq::<Seq<char>>::empty()
    } else {
        seq![pairs[0].0, pairs[0].1] + spec_pairs_args(pairs.drop_first())
    }
}

/// Member/score pairs flattened into ZADD's argument order: score first.
pub open spec fn spec_zadd_args(pairs: Seq<(Seq<char>, Seq<char>)>) -> Seq<Seq<char>>
    decreases pairs.len(),
{
    if pairs.len() == 0 {
        Seq::<Seq<char>>::empty()
    } else {
        seq![pairs[0].1, pairs[0].0] + spec_zadd_args(pairs.drop_first())
    }
}

proof fn lemma_pairs_args_push(t: Seq<(Seq<char>, Seq<char>)>, x: (Seq<char>, Seq<char>))
    ensures
        spec_pairs_args(t.push(x)) =~= spec_pairs_args(t) + seq![x.0, x.1],
        spec_zadd_args(t.push(x)) =~= spec_zadd_args(t) + seq![x.1, x.0],
    decreases t.len(),
{
    if t.len() == 0 {
        assert(t =~= Seq::<(Seq<char>, Seq<char>)>::empty());
        assert(t.push(x)[0] == x);
        assert(t.push(x).drop_first() =~= Seq::<(Seq<char>, Seq<char>)>::empty());
        assert(spec_pairs_args(Seq::<(Seq<char>, Seq<char>)>::empty()) =~= Seq::<Seq<char>>::empty());
        assert(spec_zadd_args(Seq::<(Seq<char>, Seq<char>)>::empty()) =~= Seq::<Seq<char>>::empty());
        assert(spec_pairs_args(t.push(x)) =~= seq![x.0, x.1] + Seq::<Seq<char>>::empty());
        assert(spec_zadd_args(t.push(x)) =~= seq![x.1, x.0] + Seq::<Seq<char>>::empty());
    } else {
        assert(t.push(x)[0] == t[0]);
        assert(t.push(x).drop_first() =~= t.drop_first().push(x));
        lemma_pairs_args_push(t.drop_first(), x);
    }
}

/// The command's wire form: its name and arguments, each as text, exactly as
/// the transport sends them.
pub open spec fn spec_cmd_args(c: CmdModel) -> Seq<Seq<char>> {
    match c {
        CmdModel::Select { db } => seq!["SELECT"@, spec_dec_str(db as nat)],
        CmdModel::ConfigGetDatabases => seq!["CONFIG"@, "GET"@, "databases"@],
        CmdModel::DbSize => seq!["DBSIZE"@],
        CmdModel::Info => seq!["INFO"@],
        CmdModel::LastSave => seq!["LASTSAVE"@],
        CmdModel::Scan { cursor, pattern, count } => seq![
            "SCAN"@,
            spec_dec_str(cursor as nat),
            "MATCH"@,
            pattern,
            "COUNT"@,
            spec_dec_str(count as nat),
        ],
        CmdModel::Keys { pattern } => seq!["KEYS"@, pattern],
        CmdModel::Exists { key } => seq!["EXISTS"@, key],
        CmdModel::TypeOf { key } => seq!["TYPE"@, key],
        CmdModel::Ttl { key } => seq!["TTL"@, key],
        CmdModel::Expire { key, ttl } => seq!["EXPIRE"@, key, spec_int_str(ttl)],
        CmdModel::Persist { key } => seq!["PERSIST"@, key],
        CmdModel::Del { key } => seq!["DEL"@, key],
        CmdModel::Rename { old_key, new_key } => seq!["RENAME"@, old_key, new_key],
        CmdModel::MemoryUsage { key } => seq!["MEMORY"@, "USAGE"@, key],
        CmdModel::DebugObject { key } => seq!["DEBUG"@, "OBJECT"@, key],
        CmdModel::Get { key } => seq!["GET"@, key],
        CmdModel::SetValue { key, value } => seq!["SET"@, key, value],
        CmdModel::SetEx { key, ttl, value } => seq!["SETEX"@, key, spec_int_str(ttl), value],
        CmdModel::HGetAll { key } => seq!["HGETALL"@, key],
        CmdModel::HSet { key, pairs } => seq!["HSET"@, key] + spec_pairs_args(pairs),
        CmdModel::HDel { key, field } => seq!["HDEL"@, key, field],
        CmdModel::LRangeAll { key } => seq!["LRANGE"@, key, "0"@, "-1"@],
        CmdModel::RPush { key, items } => seq!["RPUSH"@, key] + items,
        CmdModel::LSet { key, index, value } => seq![
            "LSET"@,
            key,
            spec_dec_str(index as nat),
            value,
        ],
        CmdModel::LRem { key, count, value } => seq!["LREM"@, key, spec_int_str(count), value],
        CmdModel::LLen { key } => seq!["LLEN"@, key],
        CmdModel::SMembers { key } => seq!["SMEMBERS"@, key],
        CmdModel::SAdd { key, members } => seq!["SADD"@, key] + members,
        CmdModel::SRem { key, member } => seq!["SREM"@, key, member],
        CmdModel::ZRangeAllWithScores { key } => seq![
            "ZRANGE"@,
            key,
            "0"@,
            "-1"@,
            "WITHSCORES"@,
        ],
        CmdModel::ZAdd { key, pairs } => seq!["ZADD"@, key] + spec_zadd_args(pairs),
        CmdModel::ZRem { key, member } => seq!["ZREM"@, key, member],
    }
}

impl RedisCmd {
    /// The command's wire form: name first, then each argument as text.
    pub fn to_args(&self) -> (r: Vec<String>)
        ensures
            strings_view(r@) == spec_cmd_args(self@),
    {
        let mut r: Vec<String> = Vec::new();
        match self {
            RedisCmd::Select { db } => {
                r.push("SELECT".to_owned());
                r.push(u64_to_dec(*db));
            },
            RedisCmd::ConfigGetDatabases => {
                r.push("CONFIG".to_owned());
                r.push("GET".to_owned());
                r.push("databases".to_owned());
            },
            RedisCmd::DbSize => {
                r.push("DBSIZE".to_owned());
            },
            RedisCmd::Info => {
                r.push("INFO".to_owned());
            },
            RedisCmd::LastSave => {
                r.push("LASTSAVE".to_owned());
            },
            RedisCmd::Scan { cursor, pattern, count } => {
                r.push("SCAN".to_owned());
                r.push(u64_to_dec(*cursor));
                r.push("MATCH".to_owned());
                r.push(pattern.clone());
                r.push("COUNT".to_owned());
                r.push(u64_to_dec(*count));
            },
            RedisCmd::Keys { pattern } => {
                r.push("KEYS".to_owned());
                r.push(pattern.clone());
            },
            RedisCmd::Exists { key } => {
                r.push("EXISTS".to_owned());
                r.push(key.clone());
            },
            RedisCmd::TypeOf { key } => {
                r.push("TYPE".to_owned());
                r.push(key.clone());
            },
            RedisCmd::Ttl { key } => {
                r.push("TTL".to_owned());
                r.push(key.clone());
            },
            RedisCmd::Expire { key, ttl } => {
                r.push("EXPIRE".to_owned());
                r.push(key.clone());
                r.push(i64_to_dec(*ttl));
            },
            RedisCmd::Persist { key } => {
                r.push("PERSIST".to_owned());
                r.push(key.clone());
            },
            RedisCmd::Del { key } => {
                r.push("DEL".to_owned());
                r.push(key.clone());
            },
            RedisCmd::Rename { old_key, new_key } => {
                r.push("RENAME".to_owned());
                r.push(old_key.clone());
                r.push(new_key.clone());
            },
            RedisCmd::MemoryUsage { key } => {
                r.push("MEMORY".to_owned());
                r.push("USAGE".to_owned());
                r.push(key.clone());
            },
            RedisCmd::DebugObject { key } => {
                r.push("DEBUG".to_owned());
                r.push("OBJECT".to_owned());
                r.push(key.clone());
            },
            RedisCmd::Get { key } => {
                r.push("GET".to_owned());
                r.push(key.clone());
            },
            RedisCmd::SetValue { key, value } => {
                r.push("SET".to_owned());
                r.push(key.clone());
                r.push(value.clone());
            },
            RedisCmd::SetEx { key, ttl, value } => {
                r.push("SETEX".to_owned());
                r.push(key.clone());
                r.push(i64_to_dec(*ttl));
                r.push(value.clone());
            },
            RedisCmd::HGetAll { key } => {
                r.push("HGETALL".to_owned());
                r.push(key.clone());
            },
            RedisCmd::HSet { key, pairs } => {
                r.push("HSET".to_owned());
                r.push(key.clone());
                push_pair_args(&mut r, pairs, false);
            },
            RedisCmd::HDel { key, field } => {
                r.push("HDEL".to_owned());
                r.push(key.clone());
                r.push(field.clone());
            },
            RedisCmd::LRangeAll { key } => {
                r.push("LRANGE".to_owned());
                r.push(key.clone());
                r.push("0".to_owned());
                r.push("-1".to_owned());
            },
            RedisCmd::RPush { key, items } => {
                r.push("RPUSH".to_owned());
                r.push(key.clone());
                push_item_args(&mut r, items);
            },
            RedisCmd::LSet { key, index, value } => {
                r.push("LSET".to_owned());
                r.push(key.clone());
                r.push(u64_to_dec(*index));
                r.push(value.clone());
            },
            RedisCmd::LRem { key, count, value } => {
                r.push("LREM".to_owned());
                r.push(key.clone());
                r.push(i64_to_dec(*count));
                r.push(value.clone());
            },
            RedisCmd::LLen { key } => {
                r.push("LLEN".to_owned());
                r.push(key.clone());
            },
            RedisCmd::SMembers { key } => {
                r.push("SMEMBERS".to_owned());
                r.push(key.clone());
            },
            RedisCmd::SAdd { key, members } => {
                r.push("SADD".to_owned());
                r.push(key.clone());
                push_item_args(&mut r, members);
            },
            RedisCmd::SRem { key, member } => {
                r.push("SREM".to_owned());
                r.push(key.clone());
                r.push(member.clone());
            },
            RedisCmd::ZRangeAllWithScores { key } => {
                r.push("ZRANGE".to_owned());
                r.push(key.clone());
                r.push("0".to_owned());
                r.push("-1".to_owned());
                r.push("WITHSCORES".to_owned());
            },
            RedisCmd::ZAdd { key, pairs } => {
                r.push("ZADD".to_owned());
                r.push(key.clone());
                push_pair_args(&mut r, pairs, true);
            },
            RedisCmd::ZRem { key, member } => {
                r.push("ZREM".to_owned());
                r.push(key.clone());
                r.push(member.clone());
            },
        }
        proof {
            assert(strings_view(r@) =~~= spec_cmd_args(self@));
        }
        r
    }
}

/// Appends each pair's two strings, swapping them when `swap` (ZADD wants the
/// score first).
fn push_pair_args(r: &mut Vec<String>, pairs: &Vec<(String, String)>, swap: bool)
    ensures
        !swap ==> strings_view(final(r)@) == strings_view(old(r)@) + spec_pairs_args(
            pairs_view(pairs@),
        ),
        swap ==> strings_view(final(r)@) == strings_view(old(r)@) + spec_zadd_args(
            pairs_view(pairs@),
        ),
{
    let n = pairs.len();
    let mut i: usize = 0;
    while i < n
        invariant
            0 <= i <= n,
            n == pairs@.len(),
            !swap ==> strings_view(r@) == strings_view(old(r)@) + spec_pairs_args(
                pairs_view(pairs@.subrange(0, i as int)),
            ),
            swap ==> strings_view(r@) == strings_view(old(r)@) + spec_zadd_args(
                pairs_view(pairs@.subrange(0, i as int)),
            ),
        decreases n - i,
    {
        let ghost pre = pairs_view(pairs@.subrange(0, i as int));
        let ghost x = (pairs@[i as int].0@, pairs@[i as int].1@);
        let ghost rv0 = r@;
        if swap {
            r.push(pairs[i].1.clone());
            r.push(pairs[i].0.clone());
        } else {
            r.push(pairs[i].0.clone());
            r.push(pairs[i].1.clone());
        }
        proof {
            assert(pairs_view(pairs@.subrange(0, i as int + 1)) =~~= pre.push(x));
            lemma_pairs_args_push(pre, x);
            if swap {
                assert(strings_view(r@) =~~= strings_view(rv0).push(x.1).push(x.0));
                assert(strings_view(r@) =~~= strings_view(old(r)@) + spec_zadd_args(pre.push(x)));
            } else {
                assert(strings_view(r@) =~~= strings_view(rv0).push(x.0).push(x.1));
                assert(strings_view(r@) =~~= strings_view(old(r)@) + spec_pairs_args(pre.push(x)));
            }
        }
        i += 1;
    }
    proof {
        assert(pairs@.subrange(0, n as int) =~~= pairs@);
    }
}

/// Appends each item.
fn push_item_args(r: &mut Vec<String>, items: &Vec<String>)
    ensures
        strings_view(final(r)@) == strings_view(old(r)@) + strings_view(items@),
{
    let n = items.len();
    let mut i: usize = 0;
    while i < n
        invariant
            0 <= i <= n,
            n == items@.len(),
            strings_view(r@) == strings_view(old(r)@) + strings_view(
                items@.subrange(0, i as int),
            ),
        decreases n - i,
    {
        let ghost rv0 = r@;
        r.push(items[i].clone());
        proof {
            assert(strings_view(items@.subrange(0, i as int + 1)) =~~= strings_view(
                items@.subrange(0, i as int),
            ).push(items@[i as int]@));
            assert(strings_view(r@) =~~= strings_view(rv0).push(items@[i as int]@));
            assert(strings_view(r@) =~~= strings_view(old(r)@) + strings_view(
                items@.subrange(0, i as int + 1),
            ));
        }
        i += 1;
    }
    proof {
        assert(items@.subrange(0, n as int) =~~= items@);
    }
}

} // verus!
