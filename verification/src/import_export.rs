//! Import and export of keys: the import plan with its overwrite guard, the
//! messages either outcome reports, the batch import's tally and joined error
//! report, and the laws about what an import does to the keyspace model.

use vstd::prelude::*;

verus! {

use vstd::string::StringExecFns;
use crate::cmd::{RedisCmd, CmdModel, plan_view};
use crate::keys::{
    KeyDetail, RedisValue, ValuePayload, payload_model, spec_supported_type, spec_value_matches,
    spec_expire_tail, lemma_type_literals_distinct,
};
use crate::model::{StoreModel, StoreEntry, apply_plan, lemma_apply_seq2, lemma_apply_seq3};
use crate::response::Response;
use crate::strutil::{u64_to_dec, spec_dec_str};

broadcast use vstd::string::group_string_axioms;

// ---------------------------------------------------------------------------
// Importing one key
// ---------------------------------------------------------------------------

/// Why one key could not be imported.
#[derive(Debug)]
pub enum ImportError {
    /// The key already exists and overwriting was not asked for.
    AlreadyExists,
    /// The type name is not one of the five supported ones.
    UnsupportedType,
    /// The payload is not of the named type.
    InvalidValue,
}

/// The plan importing one key issues: when the key exists and overwriting was
/// asked for, delete it first; then write the payload by type, a string via
/// SETEX (positive ttl) or SET, a collection by writing its elements and
/// appending the EXPIRE. Nothing when the key exists and overwriting was not
/// asked for, or when the type is unsupported or mismatches the payload.
pub open spec fn spec_plan_import(
    key: Seq<char>,
    key_type: Seq<char>,
    ttl: int,
    value: ValuePayload,
    exists: bool,
    overwrite: bool,
) -> Option<Seq<CmdModel>> {
    if exists && !overwrite {
        None
    } else if !spec_value_matches(key_type, value) {
        None
    } else {
        let del = if exists {
            seq![CmdModel::Del { key }]
        } else {
            Seq::<CmdModel>::empty()
        };
        match value {
            ValuePayload::PStr(s) => Some(
                del + if ttl > 0 {
                    seq![CmdModel::SetEx { key, ttl, value: s }]
                } else {
                    seq![CmdModel::SetValue { key, value: s }]
                },
            ),
            ValuePayload::PHash(pairs) => Some(
                del + seq![CmdModel::HSet { key, pairs }] + spec_expire_tail(key, ttl),
            ),
            ValuePayload::PList(items) => Some(
                del + seq![CmdModel::RPush { key, items }] + spec_expire_tail(key, ttl),
            ),
            ValuePayload::PSet(items) => Some(
                del + seq![CmdModel::SAdd { key, members: items }] + spec_expire_tail(key, ttl),
            ),
            ValuePayload::PZset(pairs) => Some(
                del + seq![CmdModel::ZAdd { key, pairs }] + spec_expire_tail(key, ttl),
            ),
            ValuePayload::PNone => None,
        }
    }
}

/// Builds the plan importing `detail`, given whether its key already exists on
/// the server. Fails exactly as `spec_plan_import` has no plan, telling the
/// three causes apart.
pub fn plan_import_key(detail: KeyDetail, exists: bool, overwrite: bool) -> (r: Result<
    Vec<RedisCmd>,
    ImportError,
>)
    ensures
        r matches Ok(p) ==> spec_plan_import(
            detail.key@,
            detail.key_type@,
            detail.ttl as int,
            detail.value@,
            exists,
            overwrite,
        ) == Some(plan_view(p@)),
        (r is Err) == (spec_plan_import(
            detail.key@,
            detail.key_type@,
            detail.ttl as int,
            detail.value@,
            exists,
            overwrite,
        ) is None),
        r matches Err(e) ==> (e is AlreadyExists <==> (exists && !overwrite)) && (e
            is UnsupportedType <==> (!(exists && !overwrite) && !spec_supported_type(
            detail.key_type@,
        ))),
{
    proof {
        lemma_type_literals_distinct();
    }
    if exists && !overwrite {
        return Err(ImportError::AlreadyExists);
    }
    let KeyDetail { key, key_type, ttl, size: _, create_time: _, value } = detail;
    let mut p: Vec<RedisCmd> = Vec::new();
    if exists {
        p.push(RedisCmd::Del { key: key.clone() });
    }
    if crate::strutil::str_eq(key_type.as_str(), "string") {
        match value {
            RedisValue::RStr(s) => {
                if ttl > 0 {
                    p.push(RedisCmd::SetEx { key, ttl, value: s });
                } else {
                    p.push(RedisCmd::SetValue { key, value: s });
                }
                proof {
                    assert(plan_view(p@) =~= spec_plan_import(
                        detail.key@,
                        detail.key_type@,
                        detail.ttl as int,
                        detail.value@,
                        exists,
                        overwrite,
                    )->Some_0);
                }
                Ok(p)
            },
            _ => Err(ImportError::InvalidValue),
        }
    } else if crate::strutil::str_eq(key_type.as_str(), "hash") {
        match value {
            RedisValue::RHash(pairs) => {
                p.push(RedisCmd::HSet { key: key.clone(), pairs });
                if ttl > 0 {
                    p.push(RedisCmd::Expire { key, ttl });
                }
                proof {
                    assert(plan_view(p@) =~= spec_plan_import(
                        detail.key@,
                        detail.key_type@,
                        detail.ttl as int,
                        detail.value@,
                        exists,
                        overwrite,
                    )->Some_0);
                }
                Ok(p)
            },
            _ => Err(ImportError::InvalidValue),
        }
    } else if crate::strutil::str_eq(key_type.as_str(), "list") {
        match value {
            RedisValue::RList(items) => {
                p.push(RedisCmd::RPush { key: key.clone(), items });
                if ttl > 0 {
                    p.push(RedisCmd::Expire { key, ttl });
                }
                proof {
                    assert(plan_view(p@) =~= spec_plan_import(
                        detail.key@,
                        detail.key_type@,
                        detail.ttl as int,
                        detail.value@,
                        exists,
                        overwrite,
                    )->Some_0);
                }
                Ok(p)
            },
            _ => Err(ImportError::InvalidValue),
        }
    } else if crate::strutil::str_eq(key_type.as_str(), "set") {
        match value {
            RedisValue::RSet(items) => {
                p.push(RedisCmd::SAdd { key: key.clone(), members: items });
                if ttl > 0 {
                    p.push(RedisCmd::Expire { key, ttl });
                }
                proof {
                    assert(plan_view(p@) =~= spec_plan_import(
                        detail.key@,
                        detail.key_type@,
                        detail.ttl as int,
                        detail.value@,
                        exists,
                        overwrite,
                    )->Some_0);
                }
                Ok(p)
            },
            _ => Err(ImportError::InvalidValue),
        }
    } else if crate::strutil::str_eq(key_type.as_str(), "zset") {
        match value {
            RedisValue::RZset(pairs) => {
                p.push(RedisCmd::ZAdd { key: key.clone(), pairs });
                if ttl > 0 {
                    p.push(RedisCmd::Expire { key, ttl });
                }
                proof {
                    assert(plan_view(p@) =~= spec_plan_import(
                        detail.key@,
                        detail.key_type@,
                        detail.ttl as int,
                        detail.value@,
                        exists,
                        overwrite,
                    )->Some_0);
                }
                Ok(p)
            },
            _ => Err(ImportError::InvalidValue),
        }
    } else {
        Err(ImportError::UnsupportedType)
    }
}

/// The message each import failure carries: the key already there, the type
/// unsupported, or the payload not a valid value of it.
pub fn import_error_message(e: &ImportError, key: &str, key_type: &str) -> (r: String)
    ensures
        e is AlreadyExists ==> r@ == "键 "@ + key@ + " 已存在，跳过导入"@,
        e is UnsupportedType ==> r@ == "不支持的类型: "@ + key_type@,
        e is InvalidValue ==> r@ == "无效的字符串值"@,
{
    match e {
        ImportError::AlreadyExists => {
            let mut m = "键 ".to_owned();
            m.append(key);
            m.append(" 已存在，跳过导入");
            m
        },
        ImportError::UnsupportedType => {
            let mut m = "不支持的类型: ".to_owned();
            m.append(key_type);
            m
        },
        ImportError::InvalidValue => "无效的字符串值".to_owned(),
    }
}

/// The success message importing one key reports.
pub fn import_key_success_response(key: &str) -> (r: Response<()>)
    ensures
        r.success,
        r.message@ == "成功导入键 "@ + key@,
        r.data is None,
{
    let mut m = "成功导入键 ".to_owned();
    m.append(key);
    Response::<()>::success_empty_with_message(m)
}

// ---------------------------------------------------------------------------
// Importing many keys: the tally
// ---------------------------------------------------------------------------

/// How many per-key outcomes succeeded.
pub open spec fn spec_count_ok(s: Seq<Result<(), String>>) -> nat
    decreases s.len(),
{
    if s.len() == 0 {
        0
    } else {
        (if s[0] is Ok {
            1nat
        } else {
            0
        }) + spec_count_ok(s.drop_first())
    }
}

/// How many per-key outcomes failed.
pub open spec fn spec_count_err(s: Seq<Result<(), String>>) -> nat
    decreases s.len(),
{
    if s.len() == 0 {
        0
    } else {
        (if s[0] is Err {
            1nat
        } else {
            0
        }) + spec_count_err(s.drop_first())
    }
}

/// The failure messages among the outcomes, in order.
pub open spec fn spec_errs(s: Seq<Result<(), String>>) -> Seq<Seq<char>>
    decreases s.len(),
{
    if s.len() == 0 {
        Seq::<Seq<char>>::empty()
    } else {
        (match s[0] {
            Result::Err(m) => seq![m@],
            Result::Ok(_) => Seq::<Seq<char>>::empty(),
        }) + spec_errs(s.drop_first())
    }
}

/// The pieces joined with a separator between neighbours.
pub open spec fn spec_join(xs: Seq<Seq<char>>, sep: Seq<char>) -> Seq<char>
    decreases xs.len(),
{
    if xs.len() == 0 {
        Seq::<char>::empty()
    } else if xs.len() == 1 {
        xs[0]
    } else {
        xs[0] + sep + spec_join(xs.drop_first(), sep)
    }
}

/// The batch import's message: all keys in when nothing failed, otherwise both
/// tallies and the error list, one failure per line.
pub open spec fn spec_import_keys_message(s: Seq<Result<(), String>>) -> Seq<char> {
    let sc = spec_count_ok(s);
    let ec = spec_count_err(s);
    if ec == 0 {
        "成功导入所有 "@ + spec_dec_str(sc) + " 个键"@
    } else {
        "导入完成: 成功 "@ + spec_dec_str(sc) + " 个, 失败 "@ + spec_dec_str(ec)
            + " 个\n错误列表:\n"@ + spec_join(spec_errs(s), "\n"@)
    }
}

proof fn lemma_tally_push(t: Seq<Result<(), String>>, x: Result<(), String>)
    ensures
        spec_count_ok(t.push(x)) == spec_count_ok(t) + (if x is Ok {
            1nat
        } else {
            0
        }),
        spec_count_err(t.push(x)) == spec_count_err(t) + (if x is Err {
            1nat
        } else {
            0
        }),
        spec_errs(t.push(x)) == spec_errs(t) + (match x {
            Result::Err(m) => seq![m@],
            Result::Ok(_) => Seq::<Seq<char>>::empty(),
        }),
    decreases t.len(),
{
    if t.len() == 0 {
        assert(t =~= Seq::<Result<(), String>>::empty());
        assert(t.push(x)[0] == x);
        assert(t.push(x).drop_first() =~= Seq::<Result<(), String>>::empty());
        assert(spec_count_ok(Seq::<Result<(), String>>::empty()) == 0);
        assert(spec_count_err(Seq::<Result<(), String>>::empty()) == 0);
        assert(spec_errs(Seq::<Result<(), String>>::empty()) =~= Seq::<Seq<char>>::empty());
        assert(spec_errs(t.push(x)) =~= spec_errs(t) + (match x {
            Result::Err(m) => seq![m@],
            Result::Ok(_) => Seq::<Seq<char>>::empty(),
        }));
    } else {
        assert(t.push(x)[0] == t[0]);
        assert(t.push(x).drop_first() =~= t.drop_first().push(x));
        lemma_tally_push(t.drop_first(), x);
        assert(spec_errs(t.push(x)) =~= spec_errs(t) + (match x {
            Result::Err(m) => seq![m@],
            Result::Ok(_) => Seq::<Seq<char>>::empty(),
        }));
    }
}

proof fn lemma_join_push(xs: Seq<Seq<char>>, x: Seq<char>, sep: Seq<char>)
    ensures
        spec_join(xs.push(x), sep) == if xs.len() == 0 {
            x
        } else {
            spec_join(xs, sep) + sep + x
        },
    decreases xs.len(),
{
    if xs.len() == 0 {
        assert(xs.push(x) =~= seq![x]);
    } else {
        assert(xs.push(x)[0] == xs[0]);
        assert(xs.push(x).drop_first() =~= xs.drop_first().push(x));
        lemma_join_push(xs.drop_first(), x, sep);
        if xs.len() == 1 {
            assert(xs.drop_first().len() == 0);
            assert(spec_join(xs.push(x), sep) == xs[0] + sep + x);
        } else {
            assert(spec_join(xs.push(x), sep) == xs[0] + sep + (spec_join(xs.drop_first(), sep)
                + sep + x));
            assert(xs[0] + sep + (spec_join(xs.drop_first(), sep) + sep + x) =~= (xs[0] + sep
                + spec_join(xs.drop_first(), sep)) + sep + x);
        }
    }
}

/// Tallies the per-key outcomes of a batch import into its one response:
/// success exactly when every key went in, and the message with the counts
/// and, on any failure, the joined error list.
pub fn import_keys_response(outcomes: &Vec<Result<(), String>>) -> (r: Response<()>)
    ensures
        r.success == (spec_count_err(outcomes@) == 0),
        r.message@ == spec_import_keys_message(outcomes@),
        r.data is None,
{
    let n = outcomes.len();
    let mut sc: u64 = 0;
    let mut ec: u64 = 0;
    let mut joined = String::new();
    let mut i: usize = 0;
    while i < n
        invariant
            0 <= i <= n,
            n == outcomes@.len(),
            sc as nat == spec_count_ok(outcomes@.subrange(0, i as int)),
            ec as nat == spec_count_err(outcomes@.subrange(0, i as int)),
            sc as int + ec as int == i as int,
            ec as nat == spec_errs(outcomes@.subrange(0, i as int)).len(),
            joined@ == spec_join(spec_errs(outcomes@.subrange(0, i as int)), "\n"@),
        decreases n - i,
    {
        let ghost pre = outcomes@.subrange(0, i as int);
        proof {
            assert(outcomes@.subrange(0, i as int + 1) =~= pre.push(outcomes@[i as int]));
            lemma_tally_push(pre, outcomes@[i as int]);
        }
        match &outcomes[i] {
            Result::Ok(_) => {
                sc += 1;
            },
            Result::Err(m) => {
                proof {
                    lemma_join_push(spec_errs(pre), m@, "\n"@);
                    assert(spec_errs(pre) + seq![m@] =~= spec_errs(pre).push(m@));
                }
                if ec > 0 {
                    joined.append("\n");
                }
                joined.append(m.as_str());
                ec += 1;
            },
        }
        i += 1;
    }
    proof {
        assert(outcomes@.subrange(0, n as int) =~= outcomes@);
    }
    if ec == 0 {
        let mut msg = "成功导入所有 ".to_owned();
        let sc_digits = u64_to_dec(sc);
        msg.append(sc_digits.as_str());
        msg.append(" 个键");
        Response::<()>::success_empty_with_message(msg)
    } else {
        let mut msg = "导入完成: 成功 ".to_owned();
        let sc_digits = u64_to_dec(sc);
        msg.append(sc_digits.as_str());
        msg.append(" 个, 失败 ");
        let ec_digits = u64_to_dec(ec);
        msg.append(ec_digits.as_str());
        msg.append(" 个\n错误列表:\n");
        msg.append(joined.as_str());
        Response::error(msg)
    }
}

// ---------------------------------------------------------------------------
// Laws
// ---------------------------------------------------------------------------

/// Importing over an existing key without overwriting yields no plan at all:
/// the import fails and, no command being issued, the existing value is
/// untouched.
pub proof fn lemma_import_existing_skips(
    key: Seq<char>,
    key_type: Seq<char>,
    ttl: int,
    value: ValuePayload,
)
    ensures
        spec_plan_import(key, key_type, ttl, value, true, false) is None,
{
}

/// Importing with overwrite replaces the key's contents including its time to
/// live: after the plan runs on any store, the key holds exactly the imported
/// payload, expiring in `ttl` seconds when that is positive and never
/// otherwise.
pub proof fn lemma_import_overwrite_replaces(
    st: StoreModel,
    key: Seq<char>,
    key_type: Seq<char>,
    ttl: int,
    value: ValuePayload,
)
    requires
        spec_value_matches(key_type, value),
    ensures
        spec_plan_import(key, key_type, ttl, value, true, true) matches Some(p) && {
            let st1 = apply_plan(st, p);
            st1.contains_key(key) && st1[key] == (StoreEntry {
                value: payload_model(value),
                ttl: if ttl > 0 {
                    ttl
                } else {
                    -1
                },
            })
        },
{
    let p = spec_plan_import(key, key_type, ttl, value, true, true)->Some_0;
    let del = CmdModel::Del { key };
    match value {
        ValuePayload::PStr(s) => {
            let w = if ttl > 0 {
                CmdModel::SetEx { key, ttl, value: s }
            } else {
                CmdModel::SetValue { key, value: s }
            };
            assert(p =~= seq![del, w]);
            lemma_apply_seq2(st, del, w);
        },
        ValuePayload::PHash(pairs) => {
            let w = CmdModel::HSet { key, pairs };
            if ttl > 0 {
                assert(p =~= seq![del, w, CmdModel::Expire { key, ttl }]);
                lemma_apply_seq3(st, del, w, CmdModel::Expire { key, ttl });
            } else {
                assert(p =~= seq![del, w]);
                lemma_apply_seq2(st, del, w);
            }
        },
        ValuePayload::PList(items) => {
            let w = CmdModel::RPush { key, items };
            if ttl > 0 {
                assert(p =~= seq![del, w, CmdModel::Expire { key, ttl }]);
                lemma_apply_seq3(st, del, w, CmdModel::Expire { key, ttl });
            } else {
                assert(p =~= seq![del, w]);
                lemma_apply_seq2(st, del, w);
            }
            assert(Seq::<Seq<char>>::empty() + items =~= items);
        },
        ValuePayload::PSet(items) => {
            let w = CmdModel::SAdd { key, members: items };
            if ttl > 0 {
                assert(p =~= seq![del, w, CmdModel::Expire { key, ttl }]);
                lemma_apply_seq3(st, del, w, CmdModel::Expire { key, ttl });
            } else {
                assert(p =~= seq![del, w]);
                lemma_apply_seq2(st, del, w);
            }
        },
        ValuePayload::PZset(pairs) => {
            let w = CmdModel::ZAdd { key, pairs };
            if ttl > 0 {
                assert(p =~= seq![del, w, CmdModel::Expire { key, ttl }]);
                lemma_apply_seq3(st, del, w, CmdModel::Expire { key, ttl });
            } else {
                assert(p =~= seq![del, w]);
                lemma_apply_seq2(st, del, w);
            }
        },
        ValuePayload::PNone => {
            assert(false);
        },
    }
}

} // verus!
