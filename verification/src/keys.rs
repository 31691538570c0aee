//! Key commands: the typed value payloads, the plan builders that turn handler
//! inputs into command sequences (with their validation), the interpreters
//! that turn command replies into the response envelope, and the laws about
//! what the plans do to the keyspace model.

use vstd::prelude::*;

verus! {

use vstd::string::StrSliceExecFns;
use vstd::string::StringExecFns;

broadcast use vstd::string::group_string_axioms;

use crate::cmd::{RedisCmd, CmdModel, plan_view, pairs_view, strings_view};
use crate::model::{
    StoreModel, StoreEntry, ValModel, apply_cmd, apply_plan, model_get, model_ttl, map_with_pairs,
    set_with_members,
};
use crate::response::Response;
use crate::strutil::{
    str_eq, str_starts_with, i64_to_dec, spec_int_str, spec_parse_u64, spec_field_after,
    spec_is_space, field_after, parse_u64_digits,
};

// ---------------------------------------------------------------------------
// Values and key details
// ---------------------------------------------------------------------------

/// A typed Redis value as the handlers carry it: hashes as field/value pairs,
/// sorted sets as member/score-text pairs, `RNone` for a key of an
/// unrecognized type.
pub enum RedisValue {
    RStr(String),
    RHash(Vec<(String, String)>),
    RList(Vec<String>),
    RSet(Vec<String>),
    RZset(Vec<(String, String)>),
    RNone,
}

/// Specification-level mirror of `RedisValue`.
pub enum ValuePayload {
    PStr(Seq<char>),
    PHash(Seq<(Seq<char>, Seq<char>)>),
    PList(Seq<Seq<char>>),
    PSet(Seq<Seq<char>>),
    PZset(Seq<(Seq<char>, Seq<char>)>),
    PNone,
}

impl View for RedisValue {
    type V = ValuePayload;

    open spec fn view(&self) -> ValuePayload {
        match self {
            RedisValue::RStr(s) => ValuePayload::PStr(s@),
            RedisValue::RHash(pairs) => ValuePayload::PHash(pairs_view(pairs@)),
            RedisValue::RList(items) => ValuePayload::PList(strings_view(items@)),
            RedisValue::RSet(items) => ValuePayload::PSet(strings_view(items@)),
            RedisValue::RZset(pairs) => ValuePayload::PZset(pairs_view(pairs@)),
            RedisValue::RNone => ValuePayload::PNone,
        }
    }
}

/// The keyspace value a freshly written payload leaves behind: pairs folded
/// into a map in order, members collected into a set.
pub open spec fn payload_model(value: ValuePayload) -> ValModel {
    match value {
        ValuePayload::PStr(s) => ValModel::VStr(s),
        ValuePayload::PHash(pairs) => ValModel::VHash(
            map_with_pairs(Map::<Seq<char>, Seq<char>>::empty(), pairs),
        ),
        ValuePayload::PList(items) => ValModel::VList(items),
        ValuePayload::PSet(items) => ValModel::VSet(
            set_with_members(Set::<Seq<char>>::empty(), items),
        ),
        ValuePayload::PZset(pairs) => ValModel::VZset(
            map_with_pairs(Map::<Seq<char>, Seq<char>>::empty(), pairs),
        ),
        ValuePayload::PNone => ValModel::VStr(Seq::<char>::empty()),
    }
}

/// A key's name and type, as the key listing reports them.
pub struct KeyInfo {
    pub key: String,
    pub key_type: String,
}

/// The export/import unit: key name, type, time to live, approximate size,
/// approximate creation time (RFC 3339 text), and the typed value.
pub struct KeyDetail {
    pub key: String,
    pub key_type: String,
    pub ttl: i64,
    pub size: u64,
    pub create_time: String,
    pub value: RedisValue,
}

/// A page of the key listing: the keys found and the running total.
pub struct KeysListData {
    pub keys: Vec<KeyInfo>,
    pub total: u64,
}

/// The Redis type names the handlers support.
pub open spec fn spec_supported_type(kt: Seq<char>) -> bool {
    kt == "string"@ || kt == "hash"@ || kt == "list"@ || kt == "set"@ || kt == "zset"@
}

/// Whether a payload is of the named type.
pub open spec fn spec_value_matches(kt: Seq<char>, value: ValuePayload) -> bool {
    (kt == "string"@ && value is PStr) || (kt == "hash"@ && value is PHash) || (kt == "list"@
        && value is PList) || (kt == "set"@ && value is PSet) || (kt == "zset"@ && value is PZset)
}

// ---------------------------------------------------------------------------
// Writing a key: the set_key plan
// ---------------------------------------------------------------------------

/// The five type names differ pairwise.
pub(crate) proof fn lemma_type_literals_distinct()
    ensures
        "string"@ != "hash"@,
        "string"@ != "list"@,
        "string"@ != "set"@,
        "string"@ != "zset"@,
        "hash"@ != "list"@,
        "hash"@ != "set"@,
        "hash"@ != "zset"@,
        "list"@ != "set"@,
        "list"@ != "zset"@,
        "set"@ != "zset"@,
{
    reveal_strlit("string");
    reveal_strlit("hash");
    reveal_strlit("list");
    reveal_strlit("set");
    reveal_strlit("zset");
    assert("string"@.len() == 6);
    assert("hash"@.len() == 4);
    assert("list"@.len() == 4);
    assert("set"@.len() == 3);
    assert("zset"@.len() == 4);
    assert("hash"@[0] == 'h');
    assert("list"@[0] == 'l');
    assert("zset"@[0] == 'z');
}

/// The trailing EXPIRE a freshly written collection gets when a positive time
/// to live was asked for.
pub open spec fn spec_expire_tail(key: Seq<char>, ttl: int) -> Seq<CmdModel> {
    if ttl > 0 {
        seq![CmdModel::Expire { key, ttl }]
    } else {
        Seq::<CmdModel>::empty()
    }
}

/// The plan `set_key` issues: select the tracked database, then write the
/// value by type — a string via SETEX (positive ttl) or SET, a collection by
/// deleting the old key, writing the elements, and appending the EXPIRE.
/// Nothing when the type is unsupported or the payload is of another type.
pub open spec fn spec_plan_set_key(
    db: int,
    key: Seq<char>,
    key_type: Seq<char>,
    value: ValuePayload,
    ttl: int,
) -> Option<Seq<CmdModel>> {
    let sel = CmdModel::Select { db };
    let del = CmdModel::Del { key };
    if !spec_value_matches(key_type, value) {
        None
    } else {
        match value {
            ValuePayload::PStr(s) => Some(
                seq![sel] + if ttl > 0 {
                    seq![CmdModel::SetEx { key, ttl, value: s }]
                } else {
                    seq![CmdModel::SetValue { key, value: s }]
                },
            ),
            ValuePayload::PHash(pairs) => Some(
                seq![sel, del, CmdModel::HSet { key, pairs }] + spec_expire_tail(key, ttl),
            ),
            ValuePayload::PList(items) => Some(
                seq![sel, del, CmdModel::RPush { key, items }] + spec_expire_tail(key, ttl),
            ),
            ValuePayload::PSet(items) => Some(
                seq![sel, del, CmdModel::SAdd { key, members: items }] + spec_expire_tail(key, ttl),
            ),
            ValuePayload::PZset(pairs) => Some(
                seq![sel, del, CmdModel::ZAdd { key, pairs }] + spec_expire_tail(key, ttl),
            ),
            ValuePayload::PNone => None,
        }
    }
}

/// Why a set_key or import plan could not be built.
#[derive(Debug)]
pub enum PlanError {
    /// The type name is not one of the five supported ones.
    UnsupportedType,
    /// The payload is not of the named type.
    ValueMismatch,
}

/// Builds the `set_key` plan for writing `value` under `key` on the tracked
/// database. Fails exactly when the type is unsupported or the payload
/// mismatches it.
pub fn plan_set_key(
    current_db: u8,
    key: &str,
    key_type: &str,
    value: RedisValue,
    ttl: i64,
) -> (r: Result<Vec<RedisCmd>, PlanError>)
    ensures
        r matches Ok(p) ==> spec_plan_set_key(
            current_db as int,
            key@,
            key_type@,
            value@,
            ttl as int,
        ) == Some(plan_view(p@)),
        r is Err ==> spec_plan_set_key(current_db as int, key@, key_type@, value@, ttl as int)
            is None,
        r matches Err(e) ==> (e is UnsupportedType <==> !spec_supported_type(key_type@)),
{
    proof {
        lemma_type_literals_distinct();
    }
    let sel = RedisCmd::Select { db: current_db as u64 };
    if str_eq(key_type, "string") {
        match value {
            RedisValue::RStr(s) => {
                let mut p: Vec<RedisCmd> = Vec::new();
                p.push(sel);
                if ttl > 0 {
                    p.push(RedisCmd::SetEx { key: key.to_owned(), ttl, value: s });
                } else {
                    p.push(RedisCmd::SetValue { key: key.to_owned(), value: s });
                }
                proof {
                    assert(plan_view(p@) =~= spec_plan_set_key(
                        current_db as int,
                        key@,
                        key_type@,
                        value@,
                        ttl as int,
                    )->Some_0);
                }
                Ok(p)
            },
            _ => Err(PlanError::ValueMismatch),
        }
    } else if str_eq(key_type, "hash") {
        match value {
            RedisValue::RHash(pairs) => {
                let mut p: Vec<RedisCmd> = Vec::new();
                p.push(sel);
                p.push(RedisCmd::Del { key: key.to_owned() });
                p.push(RedisCmd::HSet { key: key.to_owned(), pairs });
                if ttl > 0 {
                    p.push(RedisCmd::Expire { key: key.to_owned(), ttl });
                }
                proof {
                    assert(plan_view(p@) =~= spec_plan_set_key(
                        current_db as int,
                        key@,
                        key_type@,
                        value@,
                        ttl as int,
                    )->Some_0);
                }
                Ok(p)
            },
            _ => Err(PlanError::ValueMismatch),
        }
    } else if str_eq(key_type, "list") {
        match value {
            RedisValue::RList(items) => {
                let mut p: Vec<RedisCmd> = Vec::new();
                p.push(sel);
                p.push(RedisCmd::Del { key: key.to_owned() });
                p.push(RedisCmd::RPush { key: key.to_owned(), items });
                if ttl > 0 {
                    p.push(RedisCmd::Expire { key: key.to_owned(), ttl });
                }
                proof {
                    assert(plan_view(p@) =~= spec_plan_set_key(
                        current_db as int,
                        key@,
                        key_type@,
                        value@,
                        ttl as int,
                    )->Some_0);
                }
                Ok(p)
            },
            _ => Err(PlanError::ValueMismatch),
        }
    } else if str_eq(key_type, "set") {
        match value {
            RedisValue::RSet(items) => {
                let mut p: Vec<RedisCmd> = Vec::new();
                p.push(sel);
                p.push(RedisCmd::Del { key: key.to_owned() });
                p.push(RedisCmd::SAdd { key: key.to_owned(), members: items });
                if ttl > 0 {
                    p.push(RedisCmd::Expire { key: key.to_owned(), ttl });
                }
                proof {
                    assert(plan_view(p@) =~= spec_plan_set_key(
                        current_db as int,
                        key@,
                        key_type@,
                        value@,
                        ttl as int,
                    )->Some_0);
                }
                Ok(p)
            },
            _ => Err(PlanError::ValueMismatch),
        }
    } else if str_eq(key_type, "zset") {
        match value {
            RedisValue::RZset(pairs) => {
                let mut p: Vec<RedisCmd> = Vec::new();
                p.push(sel);
                p.push(RedisCmd::Del { key: key.to_owned() });
                p.push(RedisCmd::ZAdd { key: key.to_owned(), pairs });
                if ttl > 0 {
                    p.push(RedisCmd::Expire { key: key.to_owned(), ttl });
                }
                proof {
                    assert(plan_view(p@) =~= spec_plan_set_key(
                        current_db as int,
                        key@,
                        key_type@,
                        value@,
                        ttl as int,
                    )->Some_0);
                }
                Ok(p)
            },
            _ => Err(PlanError::ValueMismatch),
        }
    } else {
        Err(PlanError::UnsupportedType)
    }
}

/// The success message `set_key` reports.
pub fn set_key_success_response(key: &str, key_type: &str) -> (r: Response<()>)
    ensures
        r.success,
        r.message@ == "成功创建 "@ + key_type@ + " 类型的键 "@ + key@,
        r.data is None,
{
    let mut m = "成功创建 ".to_owned();
    m.append(key_type);
    m.append(" 类型的键 ");
    m.append(key);
    Response::<()>::success_empty_with_message(m)
}

/// The failure `set_key` reports for a type it does not support.
pub fn unsupported_type_error<T>(key_type: &str) -> (r: Response<T>)
    ensures
        !r.success,
        r.message@ == "不支持的类型: "@ + key_type@,
        r.data is None,
{
    let mut m = "不支持的类型: ".to_owned();
    m.append(key_type);
    Response::error(m)
}

// ---------------------------------------------------------------------------
// Reading a key
// ---------------------------------------------------------------------------

/// Interprets a GET reply: an absent value still succeeds, with an empty
/// string and a message saying the key's value is empty.
pub fn get_key_response(key: &str, reply: Option<String>) -> (r: Response<String>)
    ensures
        r.success,
        reply matches Some(v) ==> r.data == Some(v) && r.message@ == "成功获取 "@ + key@,
        reply is None ==> (r.data matches Some(e) && e@ == Seq::<char>::empty()) && r.message@
            == "键 "@ + key@ + " 存在但值为空"@,
{
    match reply {
        Some(v) => {
            let mut m = "成功获取 ".to_owned();
            m.append(key);
            Response::success_with_message(v, m)
        },
        None => {
            let mut m = "键 ".to_owned();
            m.append(key);
            m.append(" 存在但值为空");
            Response::success_with_message(String::new(), m)
        },
    }
}

/// The fetch command for a key's value, by type: `None` for an unrecognized
/// type, whose value stays empty.
pub fn plan_value_fetch(key_type: &str, key: &str) -> (r: Option<RedisCmd>)
    ensures
        key_type@ == "string"@ ==> (r matches Some(c) && c@ == (CmdModel::Get { key: key@ })),
        key_type@ == "hash"@ ==> (r matches Some(c) && c@ == (CmdModel::HGetAll { key: key@ })),
        key_type@ == "list"@ ==> (r matches Some(c) && c@ == (CmdModel::LRangeAll { key: key@ })),
        key_type@ == "set"@ ==> (r matches Some(c) && c@ == (CmdModel::SMembers { key: key@ })),
        key_type@ == "zset"@ ==> (r matches Some(c) && c@ == (CmdModel::ZRangeAllWithScores {
            key: key@,
        })),
        !spec_supported_type(key_type@) ==> r is None,
{
    proof {
        lemma_type_literals_distinct();
    }
    if str_eq(key_type, "string") {
        Some(RedisCmd::Get { key: key.to_owned() })
    } else if str_eq(key_type, "hash") {
        Some(RedisCmd::HGetAll { key: key.to_owned() })
    } else if str_eq(key_type, "list") {
        Some(RedisCmd::LRangeAll { key: key.to_owned() })
    } else if str_eq(key_type, "set") {
        Some(RedisCmd::SMembers { key: key.to_owned() })
    } else if str_eq(key_type, "zset") {
        Some(RedisCmd::ZRangeAllWithScores { key: key.to_owned() })
    } else {
        None
    }
}

// ---------------------------------------------------------------------------
// Key listing
// ---------------------------------------------------------------------------

/// How many keys one SCAN batch asks the server to examine.
pub const SCAN_BATCH: u64 = 500;

/// One SCAN step over `pattern` from `cursor`, with the fixed batch size.
pub fn plan_scan(cursor: u64, pattern: &str) -> (r: RedisCmd)
    ensures
        r@ == (CmdModel::Scan { cursor: cursor as int, pattern: pattern@, count: SCAN_BATCH as int }),
{
    RedisCmd::Scan { cursor, pattern: pattern.to_owned(), count: SCAN_BATCH }
}

/// Pairs one SCAN batch's key names with their types, appending a `KeyInfo`
/// per position both lists have; a missing type drops the key, as the batch
/// pairing does.
pub fn extend_keys_with_types(acc: &mut Vec<KeyInfo>, keys: Vec<String>, types: &Vec<String>)
    ensures
        final(acc)@.len() == old(acc)@.len() + (if keys@.len() <= types@.len() {
            keys@.len() as int
        } else {
            types@.len() as int
        }),
        forall|i: int| 0 <= i < old(acc)@.len() ==> final(acc)@[i] == old(acc)@[i],
        forall|j: int|
            old(acc)@.len() <= j < final(acc)@.len() ==> (#[trigger] final(acc)@[j]).key == keys@[
                j - old(acc)@.len()
            ] && final(acc)@[j].key_type == types@[j - old(acc)@.len()],
{
    let m = if keys.len() <= types.len() {
        keys.len()
    } else {
        types.len()
    };
    let mut i: usize = 0;
    while i < m
        invariant
            0 <= i <= m,
            m <= keys@.len(),
            m <= types@.len(),
            acc@.len() == old(acc)@.len() + i,
            forall|k: int| 0 <= k < old(acc)@.len() ==> acc@[k] == old(acc)@[k],
            forall|j: int|
                old(acc)@.len() <= j < acc@.len() ==> (#[trigger] acc@[j]).key == keys@[
                    j - old(acc)@.len()
                ] && acc@[j].key_type == types@[j - old(acc)@.len()],
        decreases m - i,
    {
        acc.push(KeyInfo { key: keys[i].clone(), key_type: types[i].clone() });
        i += 1;
    }
}

// ---------------------------------------------------------------------------
// Time to live
// ---------------------------------------------------------------------------

/// The command `set_key_ttl` issues: EXPIRE for a positive time to live,
/// PERSIST otherwise.
pub fn plan_set_key_ttl(key: &str, ttl: i64) -> (r: RedisCmd)
    ensures
        ttl > 0 ==> r@ == (CmdModel::Expire { key: key@, ttl: ttl as int }),
        ttl <= 0 ==> r@ == (CmdModel::Persist { key: key@ }),
{
    if ttl > 0 {
        RedisCmd::Expire { key: key.to_owned(), ttl }
    } else {
        RedisCmd::Persist { key: key.to_owned() }
    }
}

/// Interprets the EXPIRE or PERSIST reply: 1 means the key was touched,
/// anything else fails with the wording of the operation attempted.
pub fn set_key_ttl_response(ttl: i64, result: i64) -> (r: Response<()>)
    ensures
        r.success == (result == 1),
        r.success ==> r.message@ == "操作成功"@,
        !r.success && ttl > 0 ==> r.message@ == "设置TTL失败"@,
        !r.success && ttl <= 0 ==> r.message@ == "移除 TTL 失败"@,
        r.data is None,
{
    if result == 1 {
        Response::<()>::success_empty()
    } else if ttl > 0 {
        Response::error("设置TTL失败".to_owned())
    } else {
        Response::error("移除 TTL 失败".to_owned())
    }
}

// ---------------------------------------------------------------------------
// Key size
// ---------------------------------------------------------------------------

/// The value of one whitespace-separated token for the serialized length: the
/// number between the token's first colon and its second (or end), provided
/// the token starts with `serializedlength:` and the number parses.
pub open spec fn spec_token_length(tok: Seq<char>) -> Option<u64> {
    if "serializedlength:"@.is_prefix_of(tok) {
        match spec_field_after(tok, ':') {
            Some(f) => spec_parse_u64(f),
            None => None,
        }
    } else {
        None
    }
}

/// Index of the first whitespace character of `s`, or its length.
pub open spec fn spec_find_space(s: Seq<char>) -> int
    decreases s.len(),
{
    if s.len() == 0 {
        0
    } else if spec_is_space(s[0]) {
        0
    } else {
        1 + spec_find_space(s.drop_first())
    }
}

proof fn lemma_find_space(s: Seq<char>)
    ensures
        0 <= spec_find_space(s) <= s.len(),
        spec_find_space(s) < s.len() ==> spec_is_space(s[spec_find_space(s)]),
        forall|k: int| 0 <= k < spec_find_space(s) ==> !spec_is_space(s[k]),
    decreases s.len(),
{
    if s.len() > 0 && !spec_is_space(s[0]) {
        lemma_find_space(s.drop_first());
        assert forall|k: int| 0 <= k < spec_find_space(s) implies !spec_is_space(s[k]) by {
            if k > 0 {
                assert(s.drop_first()[k - 1] == s[k]);
            }
        }
    }
}

/// The serialized length read out of a DEBUG OBJECT reply: the value of the
/// first whitespace-separated token that yields one.
pub open spec fn spec_serialized_length(s: Seq<char>) -> Option<u64>
    decreases s.len(),
    via spec_serialized_length_decreases
{
    if s.len() == 0 {
        None
    } else if spec_is_space(s[0]) {
        spec_serialized_length(s.drop_first())
    } else {
        let n = spec_find_space(s);
        match spec_token_length(s.subrange(0, n)) {
            Some(v) => Some(v),
            None => if n >= s.len() {
                None
            } else {
                spec_serialized_length(s.subrange(n, s.len() as int))
            },
        }
    }
}

#[via_fn]
proof fn spec_serialized_length_decreases(s: Seq<char>) {
    if s.len() > 0 && !spec_is_space(s[0]) {
        lemma_find_space(s);
        assert(spec_find_space(s) >= 1);
    }
}

fn find_space_str(s: &str) -> (r: usize)
    ensures
        r as int == spec_find_space(s@),
{
    let len = s.unicode_len();
    let mut i: usize = 0;
    while i < len
        invariant
            0 <= i <= len,
            len == s@.len(),
            forall|k: int| 0 <= k < i ==> !spec_is_space(s@[k]),
        decreases len - i,
    {
        let c = s.get_char(i);
        if c == ' ' || c == '\t' || c == '\n' || c == '\r' || c == '\u{b}' || c == '\u{c}' {
            proof {
                lemma_find_space(s@);
            }
            return i;
        }
        i += 1;
    }
    proof {
        lemma_find_space(s@);
    }
    len
}

/// Reads the serialized length out of a DEBUG OBJECT reply.
pub fn parse_serialized_length(debug_info: &str) -> (r: Option<u64>)
    ensures
        r == spec_serialized_length(debug_info@),
    decreases debug_info@.len(),
{
    let len = debug_info.unicode_len();
    if len == 0 {
        return None;
    }
    let c = debug_info.get_char(0);
    if c == ' ' || c == '\t' || c == '\n' || c == '\r' || c == '\u{b}' || c == '\u{c}' {
        let rest = debug_info.substring_char(1, len);
        proof {
            assert(rest@ =~= debug_info@.drop_first());
        }
        return parse_serialized_length(rest);
    }
    let n = find_space_str(debug_info);
    proof {
        lemma_find_space(debug_info@);
    }
    let tok = debug_info.substring_char(0, n);
    if str_starts_with(tok, "serializedlength:") {
        match field_after(tok, ':') {
            Some(f) => {
                match parse_u64_digits(f) {
                    Some(v) => {
                        return Some(v);
                    },
                    None => {},
                }
            },
            None => {},
        }
    }
    proof {
        assert(spec_token_length(debug_info@.subrange(0, n as int)) is None);
    }
    if n >= len {
        return None;
    }
    let rest = debug_info.substring_char(n, len);
    proof {
        assert(rest@ =~= debug_info@.subrange(n as int, debug_info@.len() as int));
    }
    parse_serialized_length(rest)
}

/// The size of a key from a DEBUG OBJECT reply, or the failure `get_key_size`
/// reports when the reply holds no readable length.
pub fn debug_object_size(debug_info: &str) -> (r: Result<u64, String>)
    ensures
        r matches Ok(v) ==> spec_serialized_length(debug_info@) == Some(v),
        r matches Err(m) ==> spec_serialized_length(debug_info@) is None && m@
            == "无法解析键大小"@,
{
    match parse_serialized_length(debug_info) {
        Some(v) => Ok(v),
        None => Err("无法解析键大小".to_owned()),
    }
}

// ---------------------------------------------------------------------------
// Deleting and renaming
// ---------------------------------------------------------------------------

/// Interprets a DEL reply: success when anything was deleted, otherwise the
/// key did not exist.
pub fn delete_key_response(deleted: i64) -> (r: Response<()>)
    ensures
        r.success == (deleted > 0),
        r.success ==> r.message@ == "操作成功"@,
        !r.success ==> r.message@ == "键不存在"@,
        r.data is None,
{
    if deleted > 0 {
        Response::<()>::success_empty()
    } else {
        Response::error("键不存在".to_owned())
    }
}

/// The success message a rename reports.
pub fn rename_key_response(old_key: &str, new_key: &str) -> (r: Response<()>)
    ensures
        r.success,
        r.message@ == "成功重命名 "@ + old_key@ + " 为 "@ + new_key@,
        r.data is None,
{
    let mut m = "成功重命名 ".to_owned();
    m.append(old_key);
    m.append(" 为 ");
    m.append(new_key);
    Response::<()>::success_empty_with_message(m)
}

// ---------------------------------------------------------------------------
// Hash fields
// ---------------------------------------------------------------------------

/// The success message updating one hash field reports (HSET succeeds whether
/// the field was new or replaced).
pub fn update_hash_field_response(key: &str, field: &str) -> (r: Response<()>)
    ensures
        r.success,
        r.message@ == "成功更新 "@ + key@ + " 的字段 "@ + field@,
        r.data is None,
{
    let mut m = "成功更新 ".to_owned();
    m.append(key);
    m.append(" 的字段 ");
    m.append(field);
    Response::<()>::success_empty_with_message(m)
}

/// Interprets an HDEL reply: success when the field was there.
pub fn delete_hash_field_response(key: &str, field: &str, removed: i64) -> (r: Response<()>)
    ensures
        r.success == (removed > 0),
        r.success ==> r.message@ == "成功删除 "@ + key@ + " 的字段 "@ + field@,
        !r.success ==> r.message@ == "字段 "@ + field@ + " 不存在"@,
        r.data is None,
{
    if removed > 0 {
        let mut m = "成功删除 ".to_owned();
        m.append(key);
        m.append(" 的字段 ");
        m.append(field);
        Response::<()>::success_empty_with_message(m)
    } else {
        let mut m = "字段 ".to_owned();
        m.append(field);
        m.append(" 不存在");
        Response::error(m)
    }
}

// ---------------------------------------------------------------------------
// List items
// ---------------------------------------------------------------------------

/// The in-range position `index` denotes in a list of length `len`: negative
/// indexes count from the tail; `None` when out of range either way.
pub open spec fn spec_resolve_index(len: int, index: int) -> Option<int> {
    if index >= len || index < -len {
        None
    } else if index < 0 {
        Some(len + index)
    } else {
        Some(index)
    }
}

/// Builds the LSET for updating one list item, validating `index` against the
/// list length first: an index at or past the length (or before `-len`) is
/// out of range and reports it, naming both.
pub fn plan_update_list_item(key: &str, index: i64, value: String, llen: i64) -> (r: Result<
    RedisCmd,
    String,
>)
    requires
        llen >= 0,
    ensures
        r matches Ok(c) ==> spec_resolve_index(llen as int, index as int) matches Some(eff) && c@
            == (CmdModel::LSet { key: key@, index: eff, value: value@ }),
        (r is Err) == (spec_resolve_index(llen as int, index as int) is None),
        r matches Err(m) ==> m@ == "索引 "@ + spec_int_str(index as int)
            + " 超出范围，列表长度为 "@ + spec_int_str(llen as int),
{
    if index >= llen || (index < 0 && llen + index < 0) {
        let mut m = "索引 ".to_owned();
        let index_digits = i64_to_dec(index);
        m.append(index_digits.as_str());
        m.append(" 超出范围，列表长度为 ");
        let len_digits = i64_to_dec(llen);
        m.append(len_digits.as_str());
        Err(m)
    } else {
        let eff: i64 = if index < 0 {
            llen + index
        } else {
            index
        };
        Ok(RedisCmd::LSet { key: key.to_owned(), index: eff as u64, value })
    }
}

/// The success message updating one list item reports, naming the index as it
/// was asked for.
pub fn update_list_item_response(key: &str, index: i64) -> (r: Response<()>)
    ensures
        r.success,
        r.message@ == "成功更新 "@ + key@ + " 的索引 "@ + spec_int_str(index as int),
        r.data is None,
{
    let mut m = "成功更新 ".to_owned();
    m.append(key);
    m.append(" 的索引 ");
    let index_digits = i64_to_dec(index);
    m.append(index_digits.as_str());
    Response::<()>::success_empty_with_message(m)
}

/// Interprets an LREM reply: success says how many elements went, zero means
/// nothing matched.
pub fn delete_list_item_response(removed: i64) -> (r: Response<()>)
    ensures
        r.success == (removed > 0),
        removed > 0 ==> r.message@ == "成功删除 "@ + spec_int_str(removed as int) + " 个元素"@,
        !r.success ==> r.message@ == "未找到匹配的元素"@,
        r.data is None,
{
    if removed > 0 {
        let mut m = "成功删除 ".to_owned();
        let count_digits = i64_to_dec(removed);
        m.append(count_digits.as_str());
        m.append(" 个元素");
        Response::<()>::success_empty_with_message(m)
    } else {
        Response::error("未找到匹配的元素".to_owned())
    }
}

/// The success message appending to a list reports, with the new length.
pub fn append_list_item_response(key: &str, new_len: i64) -> (r: Response<()>)
    ensures
        r.success,
        r.message@ == "成功在列表 "@ + key@ + " 末尾添加元素，新长度: "@ + spec_int_str(
            new_len as int,
        ),
        r.data is None,
{
    let mut m = "成功在列表 ".to_owned();
    m.append(key);
    m.append(" 末尾添加元素，新长度: ");
    let len_digits = i64_to_dec(new_len);
    m.append(len_digits.as_str());
    Response::<()>::success_empty_with_message(m)
}

// ---------------------------------------------------------------------------
// Set and sorted-set items
// ---------------------------------------------------------------------------

/// Interprets an SADD reply: zero additions means the element was already
/// there.
pub fn add_set_item_response(key: &str, added: i64) -> (r: Response<()>)
    ensures
        r.success == (added > 0),
        r.success ==> r.message@ == "成功添加元素到集合 "@ + key@,
        !r.success ==> r.message@ == "元素已存在"@,
        r.data is None,
{
    if added > 0 {
        let mut m = "成功添加元素到集合 ".to_owned();
        m.append(key);
        Response::<()>::success_empty_with_message(m)
    } else {
        Response::error("元素已存在".to_owned())
    }
}

/// Interprets an SREM reply: zero removals means the element was not there.
pub fn delete_set_item_response(key: &str, removed: i64) -> (r: Response<()>)
    ensures
        r.success == (removed > 0),
        r.success ==> r.message@ == "成功从集合 "@ + key@ + " 删除元素"@,
        !r.success ==> r.message@ == "元素不存在"@,
        r.data is None,
{
    if removed > 0 {
        let mut m = "成功从集合 ".to_owned();
        m.append(key);
        m.append(" 删除元素");
        Response::<()>::success_empty_with_message(m)
    } else {
        Response::error("元素不存在".to_owned())
    }
}

/// Interprets a ZADD reply: zero additions means the member already existed
/// (its score may still have moved).
pub fn add_zset_item_response(key: &str, added: i64) -> (r: Response<()>)
    ensures
        r.success == (added > 0),
        r.success ==> r.message@ == "成功添加元素到有序集合 "@ + key@,
        !r.success ==> r.message@ == "元素已存在"@,
        r.data is None,
{
    if added > 0 {
        let mut m = "成功添加元素到有序集合 ".to_owned();
        m.append(key);
        Response::<()>::success_empty_with_message(m)
    } else {
        Response::error("元素已存在".to_owned())
    }
}

/// Interprets a ZREM reply: zero removals means the member was not there.
pub fn delete_zset_item_response(key: &str, removed: i64) -> (r: Response<()>)
    ensures
        r.success == (removed > 0),
        r.success ==> r.message@ == "成功从有序集合 "@ + key@ + " 删除元素"@,
        !r.success ==> r.message@ == "元素不存在"@,
        r.data is None,
{
    if removed > 0 {
        let mut m = "成功从有序集合 ".to_owned();
        m.append(key);
        m.append(" 删除元素");
        Response::<()>::success_empty_with_message(m)
    } else {
        Response::error("元素不存在".to_owned())
    }
}

// ---------------------------------------------------------------------------
// Laws
// ---------------------------------------------------------------------------

/// Writing a string key then reading it gives the value back: on any store,
/// the set_key plan for a string leaves GET returning exactly that string.
/// With a positive time to live the entry carries it; otherwise the entry
/// does not expire.
pub proof fn lemma_set_key_string_round_trip(
    st: StoreModel,
    db: int,
    key: Seq<char>,
    v: Seq<char>,
    ttl: int,
)
    ensures
        spec_plan_set_key(db, key, "string"@, ValuePayload::PStr(v), ttl) matches Some(p) && {
            let st1 = apply_plan(st, p);
            model_get(st1, key) == Some(v) && (ttl > 0 ==> model_ttl(st1, key) == ttl) && (ttl <= 0
                ==> model_ttl(st1, key) == -1)
        },
{
    let sel = CmdModel::Select { db };
    let w = if ttl > 0 {
        CmdModel::SetEx { key, ttl, value: v }
    } else {
        CmdModel::SetValue { key, value: v }
    };
    let p = spec_plan_set_key(db, key, "string"@, ValuePayload::PStr(v), ttl)->Some_0;
    assert(p =~= seq![sel, w]);
    let q = p.drop_first();
    assert(q =~= seq![w]);
    let st1 = apply_cmd(st, sel);
    let st2 = apply_cmd(st1, w);
    assert(apply_plan(st, p) == apply_plan(st1, q));
    assert(apply_plan(st1, q) == apply_plan(st2, q.drop_first()));
    assert(q.drop_first() =~= Seq::<CmdModel>::empty());
    assert(apply_plan(st2, q.drop_first()) == st2);
}

/// Updating a list at index -1 touches exactly the last element: the resolved
/// position is the final one, and the LSET at it rewrites the list to the same
/// list with its last element replaced. An index equal to the list's length
/// (or more, or before `-len`) resolves to nothing, which is the range error.
pub proof fn lemma_update_list_item_boundaries(
    st: StoreModel,
    key: Seq<char>,
    l: Seq<Seq<char>>,
    v: Seq<char>,
)
    requires
        st.contains_key(key),
        st[key].value == ValModel::VList(l),
        l.len() > 0,
    ensures
        spec_resolve_index(l.len() as int, -1) == Some(l.len() - 1),
        apply_cmd(st, CmdModel::LSet { key, index: l.len() - 1, value: v }) == st.insert(
            key,
            StoreEntry { value: ValModel::VList(l.update(l.len() - 1, v)), ttl: st[key].ttl },
        ),
        forall|n: int| n >= 0 ==> spec_resolve_index(n, n) is None,
{
}

} // verus!

