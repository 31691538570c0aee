//! Database commands: how many databases the server has, per-database key
//! counts (with the select/restore dance around them), and switching the
//! tracked database of a connection.

use vstd::prelude::*;

verus! {

use vstd::string::StringExecFns;
use crate::cmd::{RedisCmd, CmdModel, plan_view};
use crate::connection::not_connected_error;
use crate::model::selected_after;
use crate::registry::Registry;
use crate::response::Response;
use crate::strutil::{parse_u64_digits, spec_parse_u64, spec_dec_str, u64_to_dec};

/// One database's key count, as the per-database summary reports it.
pub struct DbKeyCount {
    pub db_index: u8,
    pub key_count: u64,
}

/// The database count read from a CONFIG GET reply: the second element parsed
/// as a number, with 16 (the server default) when the reply is too short or
/// does not parse.
pub open spec fn spec_db_count(config: Seq<Seq<char>>) -> u64 {
    if config.len() >= 2 {
        match spec_parse_u64(config[1]) {
            Some(v) => v,
            None => 16,
        }
    } else {
        16
    }
}

/// The database count out of the `CONFIG GET databases` reply.
pub fn db_count_from_config(config: &Vec<String>) -> (r: u64)
    ensures
        r == spec_db_count(config.deep_view()),
{
    if config.len() >= 2 {
        proof {
            assert(config.deep_view()[1] == config@[1]@);
        }
        match parse_u64_digits(config[1].as_str()) {
            Some(v) => v,
            None => 16,
        }
    } else {
        16
    }
}

/// The plan for counting one database's keys: select it, take its size, and
/// select the tracked database back when it was a different one.
pub open spec fn spec_plan_db_key_count(original: int, db: int) -> Seq<CmdModel> {
    seq![CmdModel::Select { db }, CmdModel::DbSize] + if original != db {
        seq![CmdModel::Select { db: original }]
    } else {
        Seq::<CmdModel>::empty()
    }
}

/// Builds the plan for counting the keys of `db_index`; whatever was selected
/// before, the tracked database is selected after the plan ran.
pub fn plan_db_key_count(original_db: u8, db_index: u8) -> (r: Vec<RedisCmd>)
    ensures
        plan_view(r@) == spec_plan_db_key_count(original_db as int, db_index as int),
        selected_after(plan_view(r@), original_db as int) == original_db as int,
{
    let mut p: Vec<RedisCmd> = Vec::new();
    p.push(RedisCmd::Select { db: db_index as u64 });
    p.push(RedisCmd::DbSize);
    if original_db != db_index {
        p.push(RedisCmd::Select { db: original_db as u64 });
    }
    proof {
        assert(plan_view(p@) =~= spec_plan_db_key_count(original_db as int, db_index as int));
        let q = plan_view(p@);
        let q1 = q.drop_first();
        let q2 = q1.drop_first();
        assert(q[0] == (CmdModel::Select { db: db_index as int }));
        assert(q1[0] == CmdModel::DbSize);
        assert(selected_after(q, original_db as int) == selected_after(q1, db_index as int));
        assert(selected_after(q1, db_index as int) == selected_after(q2, db_index as int));
        if original_db != db_index {
            assert(q2 =~= seq![CmdModel::Select { db: original_db as int }]);
            assert(selected_after(q2, db_index as int) == selected_after(
                q2.drop_first(),
                original_db as int,
            ));
            assert(q2.drop_first() =~= Seq::<CmdModel>::empty());
            assert(selected_after(Seq::<CmdModel>::empty(), original_db as int)
                == original_db as int);
        } else {
            assert(q2 =~= Seq::<CmdModel>::empty());
            assert(selected_after(q2, db_index as int) == db_index as int);
        }
    }
    p
}

/// The per-database counts, indexed as asked: entry `i` reports database `i`
/// with the `i`-th count.
pub fn make_db_key_counts(counts: &Vec<u64>) -> (r: Vec<DbKeyCount>)
    requires
        counts@.len() <= 256,
    ensures
        r@.len() == counts@.len(),
        forall|i: int|
            0 <= i < r@.len() ==> (#[trigger] r@[i]).db_index as int == i && r@[i].key_count
                == counts@[i],
{
    let mut r: Vec<DbKeyCount> = Vec::new();
    let n = counts.len();
    let mut i: usize = 0;
    while i < n
        invariant
            0 <= i <= n,
            n == counts@.len(),
            n <= 256,
            r@.len() == i,
            forall|j: int|
                0 <= j < i ==> (#[trigger] r@[j]).db_index as int == j && r@[j].key_count
                    == counts@[j],
        decreases n - i,
    {
        r.push(DbKeyCount { db_index: i as u8, key_count: counts[i] });
        i += 1;
    }
    r
}

/// The straight-line plan of the all-databases key count: select and size each
/// database from 0 up.
pub open spec fn spec_all_counts_plan(db_count: int) -> Seq<CmdModel>
    decreases db_count,
{
    if db_count <= 0 {
        Seq::<CmdModel>::empty()
    } else {
        spec_all_counts_plan(db_count - 1) + seq![
            CmdModel::Select { db: db_count - 1 },
            CmdModel::DbSize,
        ]
    }
}

/// The trailing select that restores the tracked database, issued only when
/// that database is among those walked.
pub open spec fn spec_restore_tail(original: int, db_count: int) -> Seq<CmdModel> {
    if original < db_count {
        seq![CmdModel::Select { db: original }]
    } else {
        Seq::<CmdModel>::empty()
    }
}

/// Builds the whole all-databases plan: walk databases 0 up to `db_count`,
/// then restore the tracked selection when it was walked over.
pub fn plan_all_db_key_counts(db_count: u64, original_db: u8) -> (r: Vec<RedisCmd>)
    ensures
        plan_view(r@) == spec_all_counts_plan(db_count as int) + spec_restore_tail(
            original_db as int,
            db_count as int,
        ),
{
    let mut p: Vec<RedisCmd> = Vec::new();
    let mut i: u64 = 0;
    while i < db_count
        invariant
            0 <= i <= db_count,
            plan_view(p@) == spec_all_counts_plan(i as int),
        decreases db_count - i,
    {
        p.push(RedisCmd::Select { db: i });
        p.push(RedisCmd::DbSize);
        proof {
            assert(plan_view(p@) =~= spec_all_counts_plan(i as int) + seq![
                CmdModel::Select { db: i as int },
                CmdModel::DbSize,
            ]);
        }
        i += 1;
    }
    if (original_db as u64) < db_count {
        p.push(RedisCmd::Select { db: original_db as u64 });
    }
    proof {
        assert(plan_view(p@) =~= spec_all_counts_plan(db_count as int) + spec_restore_tail(
            original_db as int,
            db_count as int,
        ));
    }
    p
}

proof fn lemma_selected_after_append(p: Seq<CmdModel>, q: Seq<CmdModel>, d0: int)
    ensures
        selected_after(p + q, d0) == selected_after(q, selected_after(p, d0)),
    decreases p.len(),
{
    if p.len() == 0 {
        assert(p + q =~= q);
    } else {
        assert((p + q).drop_first() =~= p.drop_first() + q);
        assert((p + q)[0] == p[0]);
        let d1 = match p[0] {
            CmdModel::Select { db } => db,
            _ => d0,
        };
        lemma_selected_after_append(p.drop_first(), q, d1);
    }
}

/// Walking every database for its key count ends on the database the registry
/// tracks: when the tracked database is among those walked, the plan's last
/// select puts it back, whatever was selected to begin with.
pub proof fn lemma_all_db_key_counts_restores_selection(db_count: int, original: int, d0: int)
    requires
        0 <= original < db_count,
    ensures
        selected_after(
            spec_all_counts_plan(db_count) + spec_restore_tail(original, db_count),
            d0,
        ) == original,
{
    let tail = spec_restore_tail(original, db_count);
    lemma_selected_after_append(spec_all_counts_plan(db_count), tail, d0);
    assert(tail =~= seq![CmdModel::Select { db: original }]);
    let mid = selected_after(spec_all_counts_plan(db_count), d0);
    assert(selected_after(tail, mid) == selected_after(tail.drop_first(), original));
    assert(tail.drop_first() =~= Seq::<CmdModel>::empty());
    assert(selected_after(Seq::<CmdModel>::empty(), original) == original);
}

/// Switches the tracked database of `connection_id` after a successful SELECT:
/// on a registered id the registry now tracks `db_index` and the call succeeds
/// naming it; on an unregistered id nothing changes and the call reports that
/// the connection is missing. Other ids are untouched either way.
pub fn select_db_commit(registry: &mut Registry, connection_id: &str, db_index: u8) -> (r: Response<
    (),
>)
    requires
        old(registry).wf(),
    ensures
        final(registry).wf(),
        r.success == old(registry).is_registered(connection_id@),
        r.success ==> final(registry).spec_lookup(connection_id@) == Some(db_index) && r.message@
            == "成功切换到数据库 "@ + spec_dec_str(db_index as nat),
        !r.success ==> *final(registry) == *old(registry) && r.message@ == "Redis 未连接"@,
        forall|k: Seq<char>|
            k != connection_id@ ==> final(registry).spec_lookup(k) == old(registry).spec_lookup(k),
        r.data is None,
{
    if registry.set_current_db(connection_id, db_index) {
        let mut m = "成功切换到数据库 ".to_owned();
        let digits = u64_to_dec(db_index as u64);
        m.append(digits.as_str());
        Response::<()>::success_empty_with_message(m)
    } else {
        not_connected_error()
    }
}

} // verus!
