//! Parsing of the server's INFO text: finding a keyed line, extracting the
//! value after the colon, and the derived metrics (hit rate, total keys,
//! persistence and replication status) that make up the server summary.

use vstd::prelude::*;

verus! {

use vstd::string::StrSliceExecFns;
use vstd::string::StringExecFns;
use crate::strutil::{
    spec_find_char, spec_field_after, spec_trim, spec_parse_u64, lemma_find_char, find_char_str,
    field_after, trim_str, parse_u64_digits, str_starts_with, str_eq,
};

// ---------------------------------------------------------------------------
// Lines and fields
// ---------------------------------------------------------------------------

/// A line with one trailing carriage return removed, as line splitting does.
pub open spec fn spec_strip_cr(l: Seq<char>) -> Seq<char> {
    if l.len() > 0 && l.last() == '\r' {
        l.drop_last()
    } else {
        l
    }
}

/// The first line of `s` (split on newlines, carriage returns stripped) that
/// starts with `key`; `None` when no line does.
pub open spec fn spec_find_line(s: Seq<char>, key: Seq<char>) -> Option<Seq<char>>
    decreases s.len(),
    via spec_find_line_decreases
{
    if s.len() == 0 {
        None
    } else {
        let n = spec_find_char(s, '\n');
        let line = spec_strip_cr(s.subrange(0, n));
        if key.is_prefix_of(line) {
            Some(line)
        } else if n >= s.len() {
            None
        } else {
            spec_find_line(s.subrange(n + 1, s.len() as int), key)
        }
    }
}

#[via_fn]
proof fn spec_find_line_decreases(s: Seq<char>, key: Seq<char>) {
    lemma_find_char(s, '\n');
}

/// The first piece of `s` (split on `sep`) that starts with `prefix`; `None`
/// when no piece does.
pub open spec fn spec_find_part(s: Seq<char>, prefix: Seq<char>, sep: char) -> Option<Seq<char>>
    decreases s.len(),
    via spec_find_part_decreases
{
    let n = spec_find_char(s, sep);
    let part = s.subrange(0, n);
    if prefix.is_prefix_of(part) {
        Some(part)
    } else if n >= s.len() {
        None
    } else {
        spec_find_part(s.subrange(n + 1, s.len() as int), prefix, sep)
    }
}

#[via_fn]
proof fn spec_find_part_decreases(s: Seq<char>, prefix: Seq<char>, sep: char) {
    lemma_find_char(s, sep);
}

/// The trimmed text between the first and second colon of the first line
/// starting with `key`; `None` when no such line or no colon exists.
pub open spec fn spec_info_field(s: Seq<char>, key: Seq<char>) -> Option<Seq<char>> {
    match spec_find_line(s, key) {
        None => None,
        Some(line) => match spec_field_after(line, ':') {
            None => None,
            Some(f) => Some(spec_trim(f)),
        },
    }
}

/// The field for `key` parsed as an unsigned decimal; `None` when the field is
/// missing or is not a number that fits.
pub open spec fn spec_info_value(s: Seq<char>, key: Seq<char>) -> Option<u64> {
    match spec_info_field(s, key) {
        None => None,
        Some(f) => spec_parse_u64(f),
    }
}

/// A missing value read as zero.
pub open spec fn spec_opt_or_zero(v: Option<u64>) -> u64 {
    match v {
        Some(x) => x,
        None => 0,
    }
}

/// The first line of `info` that starts with `key`, carriage return stripped.
pub fn find_info_line<'a>(info: &'a str, key: &str) -> (r: Option<&'a str>)
    ensures
        (r is Some) == (spec_find_line(info@, key@) is Some),
        r matches Some(l) ==> spec_find_line(info@, key@) == Some(l@),
    decreases info@.len(),
{
    let len = info.unicode_len();
    if len == 0 {
        return None;
    }
    let n = find_char_str(info, '\n');
    proof {
        lemma_find_char(info@, '\n');
    }
    let mut e = n;
    if e > 0 && info.get_char(e - 1) == '\r' {
        e = e - 1;
    }
    let line = info.substring_char(0, e);
    proof {
        assert(line@ =~= spec_strip_cr(info@.subrange(0, n as int)));
    }
    if str_starts_with(line, key) {
        return Some(line);
    }
    if n >= len {
        return None;
    }
    let rest = info.substring_char(n + 1, len);
    proof {
        assert(rest@ =~= info@.subrange(n as int + 1, info@.len() as int));
    }
    find_info_line(rest, key)
}

/// The first `sep`-separated piece of `s` that starts with `prefix`.
pub fn find_part<'a>(s: &'a str, prefix: &str, sep: char) -> (r: Option<&'a str>)
    ensures
        (r is Some) == (spec_find_part(s@, prefix@, sep) is Some),
        r matches Some(p) ==> spec_find_part(s@, prefix@, sep) == Some(p@),
    decreases s@.len(),
{
    let len = s.unicode_len();
    let n = find_char_str(s, sep);
    proof {
        lemma_find_char(s@, sep);
    }
    let part = s.substring_char(0, n);
    if str_starts_with(part, prefix) {
        return Some(part);
    }
    if n >= len {
        return None;
    }
    let rest = s.substring_char(n + 1, len);
    proof {
        assert(rest@ =~= s@.subrange(n as int + 1, s@.len() as int));
    }
    find_part(rest, prefix, sep)
}

/// The trimmed string value of the INFO field for `key`.
pub fn parse_info_string(info: &str, key: &str) -> (r: Option<String>)
    ensures
        (r is Some) == (spec_info_field(info@, key@) is Some),
        r matches Some(v) ==> spec_info_field(info@, key@) == Some(v@),
{
    match find_info_line(info, key) {
        None => None,
        Some(line) => match field_after(line, ':') {
            None => None,
            Some(f) => Some(trim_str(f).to_owned()),
        },
    }
}

/// The INFO field for `key` parsed as an unsigned decimal.
pub fn parse_info_value(info: &str, key: &str) -> (r: Option<u64>)
    ensures
        r == spec_info_value(info@, key@),
{
    match find_info_line(info, key) {
        None => None,
        Some(line) => match field_after(line, ':') {
            None => None,
            Some(f) => parse_u64_digits(trim_str(f)),
        },
    }
}

// ---------------------------------------------------------------------------
// Derived metrics
// ---------------------------------------------------------------------------

/// Cache hit rate as a whole percentage, rounding half up: with `h` hits and
/// `m` misses, the nearest integer to `100 h / (h + m)`; 0 when there was no
/// traffic.
pub open spec fn spec_hit_rate(s: Seq<char>) -> int {
    let h = spec_opt_or_zero(spec_info_value(s, "keyspace_hits"@)) as int;
    let m = spec_opt_or_zero(spec_info_value(s, "keyspace_misses"@)) as int;
    if h + m > 0 {
        (200 * h + (h + m)) / (2 * (h + m))
    } else {
        0
    }
}

/// Cache hit rate as a rounded whole percentage (0 to 100), 0 with no traffic.
pub fn calculate_hit_rate(info: &str) -> (r: u64)
    ensures
        r as int == spec_hit_rate(info@),
        r <= 100,
{
    let h = opt_or_zero(parse_info_value(info, "keyspace_hits"));
    let m = opt_or_zero(parse_info_value(info, "keyspace_misses"));
    let total: u128 = h as u128 + m as u128;
    if total > 0 {
        let rate = (200 * (h as u128) + total) / (2 * total);
        proof {
            assert((200 * (h as int) + (h + m)) / (2 * ((h as int) + (m as int))) <= 100)
                by (nonlinear_arith)
                requires
                    h as int + m as int > 0,
            ;
        }
        rate as u64
    } else {
        0
    }
}

fn opt_or_zero(v: Option<u64>) -> (r: u64)
    ensures
        r == spec_opt_or_zero(v),
{
    match v {
        Some(x) => x,
        None => 0,
    }
}

/// The `keys=` count of one keyspace line: in the text after the line's
/// colon, the number after `keys=` in the first comma-separated piece that
/// starts with `keys=`.
pub open spec fn spec_keys_count(line: Seq<char>) -> Option<u64> {
    match spec_field_after(line, ':') {
        None => None,
        Some(rest) => match spec_find_part(rest, "keys="@, ',') {
            None => None,
            Some(part) => match spec_field_after(part, '=') {
                None => None,
                Some(f) => spec_parse_u64(f),
            },
        },
    }
}

/// Sum of the `keys=` counts over all lines that start with `db`; lines whose
/// count cannot be read contribute nothing.
pub open spec fn spec_total_keys(s: Seq<char>) -> nat
    decreases s.len(),
    via spec_total_keys_decreases
{
    if s.len() == 0 {
        0
    } else {
        let n = spec_find_char(s, '\n');
        let line = spec_strip_cr(s.subrange(0, n));
        let v: nat = if "db"@.is_prefix_of(line) {
            match spec_keys_count(line) {
                Some(k) => k as nat,
                None => 0,
            }
        } else {
            0
        };
        v + if n >= s.len() {
            0
        } else {
            spec_total_keys(s.subrange(n + 1, s.len() as int))
        }
    }
}

#[via_fn]
proof fn spec_total_keys_decreases(s: Seq<char>) {
    lemma_find_char(s, '\n');
}

fn keys_count(line: &str) -> (r: Option<u64>)
    ensures
        r == spec_keys_count(line@),
{
    match field_after(line, ':') {
        None => None,
        Some(rest) => match find_part(rest, "keys=", ',') {
            None => None,
            Some(part) => match field_after(part, '=') {
                None => None,
                Some(f) => parse_u64_digits(f),
            },
        },
    }
}

/// Total keys across all `db` keyspace lines, saturating at `u64::MAX`.
pub fn calculate_total_keys(info: &str) -> (r: u64)
    ensures
        r as nat == (if spec_total_keys(info@) <= u64::MAX {
            spec_total_keys(info@)
        } else {
            u64::MAX as nat
        }),
    decreases info@.len(),
{
    let len = info.unicode_len();
    if len == 0 {
        return 0;
    }
    let n = find_char_str(info, '\n');
    proof {
        lemma_find_char(info@, '\n');
    }
    let mut e = n;
    if e > 0 && info.get_char(e - 1) == '\r' {
        e = e - 1;
    }
    let line = info.substring_char(0, e);
    proof {
        assert(line@ =~= spec_strip_cr(info@.subrange(0, n as int)));
    }
    let v: u64 = if str_starts_with(line, "db") {
        match keys_count(line) {
            Some(k) => k,
            None => 0,
        }
    } else {
        0
    };
    let rest_total: u64 = if n < len {
        let rest = info.substring_char(n + 1, len);
        proof {
            assert(rest@ =~= info@.subrange(n as int + 1, info@.len() as int));
        }
        calculate_total_keys(rest)
    } else {
        0
    };
    v.saturating_add(rest_total)
}

/// Whether the INFO field for `key` reads exactly as the number 1.
pub open spec fn spec_flag_one(s: Seq<char>, key: Seq<char>) -> bool {
    spec_info_value(s, key) == Some(1u64)
}

/// Persistence summary: which of RDB and AOF the flag fields report active.
pub open spec fn spec_persistence(s: Seq<char>) -> Seq<char> {
    let rdb = spec_flag_one(s, "rdb_bgsave_in_progress"@);
    let aof = spec_flag_one(s, "aof_enabled"@);
    if rdb && aof {
        "RDB+AOF"@
    } else if rdb {
        "RDB"@
    } else if aof {
        "AOF"@
    } else {
        "None"@
    }
}

/// Persistence summary, as `spec_persistence` selects it.
pub fn get_persistence_status(info: &str) -> (r: String)
    ensures
        r@ == spec_persistence(info@),
{
    let rdb = match parse_info_value(info, "rdb_bgsave_in_progress") {
        Some(v) => v == 1,
        None => false,
    };
    let aof = match parse_info_value(info, "aof_enabled") {
        Some(v) => v == 1,
        None => false,
    };
    if rdb && aof {
        "RDB+AOF".to_owned()
    } else if rdb {
        "RDB".to_owned()
    } else if aof {
        "AOF".to_owned()
    } else {
        "None".to_owned()
    }
}

/// The INFO field for `key`, or the empty string when it is missing.
pub open spec fn spec_field_or_empty(s: Seq<char>, key: Seq<char>) -> Seq<char> {
    match spec_info_field(s, key) {
        Some(f) => f,
        None => Seq::<char>::empty(),
    }
}

/// Replication summary derived from the role and the link status: a master, a
/// slave whose link to its master is up or not, or an unknown role.
pub open spec fn spec_replication(s: Seq<char>) -> Seq<char> {
    let role = spec_field_or_empty(s, "role"@);
    let link = spec_field_or_empty(s, "master_link_status"@);
    if role == "master"@ {
        "主节点"@
    } else if role == "slave"@ {
        if link == "up"@ {
            "从节点 (已连接)"@
        } else {
            "从节点 (未连接)"@
        }
    } else {
        "未知"@
    }
}

/// Replication summary, as `spec_replication` selects it.
pub fn get_replication_status(info: &str) -> (r: String)
    ensures
        r@ == spec_replication(info@),
{
    proof {
        reveal_strlit("master");
        reveal_strlit("slave");
        reveal_strlit("up");
    }
    let role_opt = parse_info_string(info, "role");
    let link_opt = parse_info_string(info, "master_link_status");
    let is_master = match &role_opt {
        Some(r) => str_eq(r.as_str(), "master"),
        None => false,
    };
    let is_slave = match &role_opt {
        Some(r) => str_eq(r.as_str(), "slave"),
        None => false,
    };
    let link_up = match &link_opt {
        Some(l) => str_eq(l.as_str(), "up"),
        None => false,
    };
    proof {
        assert(Seq::<char>::empty().len() == 0);
        assert(is_master == (spec_field_or_empty(info@, "role"@) == "master"@));
        assert(is_slave == (spec_field_or_empty(info@, "role"@) == "slave"@));
        assert(link_up == (spec_field_or_empty(info@, "master_link_status"@) == "up"@));
    }
    if is_master {
        "主节点".to_owned()
    } else if is_slave {
        if link_up {
            "从节点 (已连接)".to_owned()
        } else {
            "从节点 (未连接)".to_owned()
        }
    } else {
        "未知".to_owned()
    }
}

// ---------------------------------------------------------------------------
// The server summary
// ---------------------------------------------------------------------------

/// Flat server metrics parsed from the INFO text. Numeric fields read missing
/// values as zero; `hit_rate` is a rounded whole percentage; `used_cpu` and
/// `mem_fragmentation_ratio` carry the field's raw text (the INFO format
/// reports them with a fractional part), defaulting to "0" when absent.
pub struct RedisServerInfo {
    pub memory_usage: u64,
    pub maxmemory: u64,
    pub connections: u64,
    pub hit_rate: u64,
    pub uptime: u64,
    pub total_keys: u64,
    pub ops_per_sec: u64,
    pub used_cpu: String,
    pub role: String,
    pub version: String,
    pub persistence: String,
    pub clients_blocked: u64,
    pub keys_evicted: u64,
    pub keys_expired: u64,
    pub replication_status: String,
    pub mem_fragmentation_ratio: String,
    pub aof_size: u64,
    pub rdb_last_save: u64,
    pub connected_slaves: u64,
}

/// A string field that falls back to a fixed default when missing.
pub open spec fn spec_field_or(s: Seq<char>, key: Seq<char>, dflt: Seq<char>) -> Seq<char> {
    match spec_info_field(s, key) {
        Some(f) => f,
        None => dflt,
    }
}

fn field_or(info: &str, key: &str, dflt: &str) -> (r: String)
    ensures
        r@ == spec_field_or(info@, key@, dflt@),
{
    match parse_info_string(info, key) {
        Some(v) => v,
        None => dflt.to_owned(),
    }
}

/// Builds the server summary from the INFO text, field by field.
pub fn get_redis_server_info(info: &str) -> (r: RedisServerInfo)
    ensures
        r.memory_usage == spec_opt_or_zero(spec_info_value(info@, "used_memory"@)),
        r.maxmemory == spec_opt_or_zero(spec_info_value(info@, "maxmemory"@)),
        r.connections == spec_opt_or_zero(spec_info_value(info@, "connected_clients"@)),
        r.hit_rate as int == spec_hit_rate(info@),
        r.uptime == spec_opt_or_zero(spec_info_value(info@, "uptime_in_seconds"@)),
        r.total_keys as nat == (if spec_total_keys(info@) <= u64::MAX {
            spec_total_keys(info@)
        } else {
            u64::MAX as nat
        }),
        r.ops_per_sec == spec_opt_or_zero(spec_info_value(info@, "instantaneous_ops_per_sec"@)),
        r.used_cpu@ == spec_field_or(info@, "used_cpu_sys"@, "0"@),
        r.role@ == spec_field_or(info@, "role"@, "unknown"@),
        r.version@ == spec_field_or(info@, "redis_version"@, "unknown"@),
        r.persistence@ == spec_persistence(info@),
        r.clients_blocked == spec_opt_or_zero(spec_info_value(info@, "blocked_clients"@)),
        r.keys_evicted == spec_opt_or_zero(spec_info_value(info@, "evicted_keys"@)),
        r.keys_expired == spec_opt_or_zero(spec_info_value(info@, "expired_keys"@)),
        r.replication_status@ == spec_replication(info@),
        r.mem_fragmentation_ratio@ == spec_field_or(info@, "mem_fragmentation_ratio"@, "0"@),
        r.aof_size == spec_opt_or_zero(spec_info_value(info@, "aof_current_size"@)),
        r.rdb_last_save == spec_opt_or_zero(spec_info_value(info@, "rdb_last_save_time"@)),
        r.connected_slaves == spec_opt_or_zero(spec_info_value(info@, "connected_slaves"@)),
{
    RedisServerInfo {
        memory_usage: opt_or_zero(parse_info_value(info, "used_memory")),
        maxmemory: opt_or_zero(parse_info_value(info, "maxmemory")),
        connections: opt_or_zero(parse_info_value(info, "connected_clients")),
        hit_rate: calculate_hit_rate(info),
        uptime: opt_or_zero(parse_info_value(info, "uptime_in_seconds")),
        total_keys: calculate_total_keys(info),
        ops_per_sec: opt_or_zero(parse_info_value(info, "instantaneous_ops_per_sec")),
        used_cpu: field_or(info, "used_cpu_sys", "0"),
        role: field_or(info, "role", "unknown"),
        version: field_or(info, "redis_version", "unknown"),
        persistence: get_persistence_status(info),
        clients_blocked: opt_or_zero(parse_info_value(info, "blocked_clients")),
        keys_evicted: opt_or_zero(parse_info_value(info, "evicted_keys")),
        keys_expired: opt_or_zero(parse_info_value(info, "expired_keys")),
        replication_status: get_replication_status(info),
        mem_fragmentation_ratio: field_or(info, "mem_fragmentation_ratio", "0"),
        aof_size: opt_or_zero(parse_info_value(info, "aof_current_size")),
        rdb_last_save: opt_or_zero(parse_info_value(info, "rdb_last_save_time")),
        connected_slaves: opt_or_zero(parse_info_value(info, "connected_slaves")),
    }
}

} // verus!
