use redisdesk::cmd::RedisCmd;
use redisdesk::keys::{
    add_set_item_response, add_zset_item_response, debug_object_size, delete_hash_field_response,
    delete_key_response, delete_list_item_response, delete_set_item_response,
    delete_zset_item_response, extend_keys_with_types, get_key_response, parse_serialized_length,
    plan_scan, plan_set_key, plan_set_key_ttl, plan_update_list_item, plan_value_fetch,
    rename_key_response, set_key_success_response, set_key_ttl_response,
    unsupported_type_error, update_hash_field_response, update_list_item_response, KeyInfo,
    PlanError, RedisValue,
};
use redisdesk::response::Response;

fn args_of(cmds: &[RedisCmd]) -> Vec<Vec<String>> {
    cmds.iter().map(|c| c.to_args()).collect()
}

fn sv(parts: &[&str]) -> Vec<String> {
    parts.iter().map(|p| p.to_string()).collect()
}

#[test]
fn set_key_string_without_ttl_plans_select_then_set() {
    let plan = plan_set_key(3, "k", "string", RedisValue::RStr("v".to_string()), 0).unwrap();
    assert_eq!(args_of(&plan), vec![sv(&["SELECT", "3"]), sv(&["SET", "k", "v"])]);
}

#[test]
fn set_key_string_with_ttl_plans_setex() {
    let plan = plan_set_key(0, "k", "string", RedisValue::RStr("v".to_string()), 60).unwrap();
    assert_eq!(args_of(&plan), vec![sv(&["SELECT", "0"]), sv(&["SETEX", "k", "60", "v"])]);
}

#[test]
fn set_key_hash_deletes_then_writes_then_expires() {
    let pairs = vec![
        ("f1".to_string(), "v1".to_string()),
        ("f2".to_string(), "v2".to_string()),
    ];
    let plan = plan_set_key(1, "h", "hash", RedisValue::RHash(pairs), 9).unwrap();
    assert_eq!(
        args_of(&plan),
        vec![
            sv(&["SELECT", "1"]),
            sv(&["DEL", "h"]),
            sv(&["HSET", "h", "f1", "v1", "f2", "v2"]),
            sv(&["EXPIRE", "h", "9"]),
        ]
    );
}

#[test]
fn set_key_list_and_set_and_zset_plans() {
    let plan = plan_set_key(0, "l", "list", RedisValue::RList(sv(&["a", "b"])), 0).unwrap();
    assert_eq!(
        args_of(&plan),
        vec![sv(&["SELECT", "0"]), sv(&["DEL", "l"]), sv(&["RPUSH", "l", "a", "b"])]
    );

    let plan = plan_set_key(0, "s", "set", RedisValue::RSet(sv(&["x"])), 0).unwrap();
    assert_eq!(
        args_of(&plan),
        vec![sv(&["SELECT", "0"]), sv(&["DEL", "s"]), sv(&["SADD", "s", "x"])]
    );

    let pairs = vec![("m".to_string(), "1.5".to_string())];
    let plan = plan_set_key(0, "z", "zset", RedisValue::RZset(pairs), 0).unwrap();
    assert_eq!(
        args_of(&plan),
        vec![sv(&["SELECT", "0"]), sv(&["DEL", "z"]), sv(&["ZADD", "z", "1.5", "m"])]
    );
}

#[test]
fn set_key_rejects_unsupported_type_and_mismatch() {
    match plan_set_key(0, "k", "stream", RedisValue::RStr("v".to_string()), 0) {
        Err(PlanError::UnsupportedType) => {},
        _ => panic!("expected an unsupported-type failure"),
    }
    match plan_set_key(0, "k", "hash", RedisValue::RStr("v".to_string()), 0) {
        Err(PlanError::ValueMismatch) => {},
        _ => panic!("expected a value-mismatch failure"),
    }
    let r: Response<()> = unsupported_type_error("stream");
    assert!(!r.success);
    assert_eq!(r.message, "不支持的类型: stream");
}

#[test]
fn set_key_success_message_names_type_and_key() {
    let r = set_key_success_response("k", "hash");
    assert!(r.success);
    assert_eq!(r.message, "成功创建 hash 类型的键 k");
}

#[test]
fn get_key_reply_messages() {
    let r = get_key_response("k", Some("v".to_string()));
    assert!(r.success);
    assert_eq!(r.data, Some("v".to_string()));
    assert_eq!(r.message, "成功获取 k");

    let r = get_key_response("k", None);
    assert!(r.success);
    assert_eq!(r.data, Some(String::new()));
    assert_eq!(r.message, "键 k 存在但值为空");
}

#[test]
fn value_fetch_command_by_type() {
    assert_eq!(plan_value_fetch("string", "k").unwrap().to_args(), sv(&["GET", "k"]));
    assert_eq!(plan_value_fetch("hash", "k").unwrap().to_args(), sv(&["HGETALL", "k"]));
    assert_eq!(
        plan_value_fetch("list", "k").unwrap().to_args(),
        sv(&["LRANGE", "k", "0", "-1"])
    );
    assert_eq!(plan_value_fetch("set", "k").unwrap().to_args(), sv(&["SMEMBERS", "k"]));
    assert_eq!(
        plan_value_fetch("zset", "k").unwrap().to_args(),
        sv(&["ZRANGE", "k", "0", "-1", "WITHSCORES"])
    );
    assert!(plan_value_fetch("stream", "k").is_none());
}

#[test]
fn scan_step_uses_the_fixed_batch() {
    assert_eq!(
        plan_scan(42, "user:*").to_args(),
        sv(&["SCAN", "42", "MATCH", "user:*", "COUNT", "500"])
    );
}

#[test]
fn keys_pair_up_with_their_types() {
    let mut acc = Vec::new();
    extend_keys_with_types(&mut acc, sv(&["a", "b", "c"]), &sv(&["string", "hash"]));
    assert_eq!(acc.len(), 2);
    assert_eq!(acc[0].key, "a");
    assert_eq!(acc[0].key_type, "string");
    assert_eq!(acc[1].key, "b");
    assert_eq!(acc[1].key_type, "hash");
    extend_keys_with_types(&mut acc, sv(&["d"]), &sv(&["list", "set"]));
    assert_eq!(acc.len(), 3);
    assert_eq!(acc[2].key, "d");
    assert_eq!(acc[2].key_type, "list");
    let _ = KeyInfo { key: "x".to_string(), key_type: "string".to_string() };
}

#[test]
fn ttl_command_choice_and_replies() {
    assert_eq!(plan_set_key_ttl("k", 10).to_args(), sv(&["EXPIRE", "k", "10"]));
    assert_eq!(plan_set_key_ttl("k", 0).to_args(), sv(&["PERSIST", "k"]));
    assert!(set_key_ttl_response(10, 1).success);
    let r = set_key_ttl_response(10, 0);
    assert!(!r.success);
    assert_eq!(r.message, "设置TTL失败");
    let r = set_key_ttl_response(0, 0);
    assert!(!r.success);
    assert_eq!(r.message, "移除 TTL 失败");
}

#[test]
fn serialized_length_comes_from_the_debug_reply() {
    let reply = "Value at:0x7f9 refcount:1 encoding:embstr serializedlength:57 lru:123 lru_seconds_idle:9";
    assert_eq!(parse_serialized_length(reply), Some(57));
    assert_eq!(parse_serialized_length("no such token here"), None);
    assert_eq!(parse_serialized_length(""), None);
    assert_eq!(debug_object_size(reply), Ok(57));
    assert_eq!(debug_object_size("garbage"), Err("无法解析键大小".to_string()));
}

#[test]
fn delete_key_reply() {
    assert!(delete_key_response(1).success);
    let r = delete_key_response(0);
    assert!(!r.success);
    assert_eq!(r.message, "键不存在");
}

#[test]
fn rename_and_hash_field_messages() {
    assert_eq!(rename_key_response("a", "b").message, "成功重命名 a 为 b");
    assert_eq!(update_hash_field_response("k", "f").message, "成功更新 k 的字段 f");
    let r = delete_hash_field_response("k", "f", 1);
    assert!(r.success);
    assert_eq!(r.message, "成功删除 k 的字段 f");
    let r = delete_hash_field_response("k", "f", 0);
    assert!(!r.success);
    assert_eq!(r.message, "字段 f 不存在");
}

#[test]
fn list_index_at_length_is_a_range_error() {
    let r = plan_update_list_item("k", 3, "v".to_string(), 3);
    assert_eq!(r.unwrap_err(), "索引 3 超出范围，列表长度为 3");
    let r = plan_update_list_item("k", -4, "v".to_string(), 3);
    assert_eq!(r.unwrap_err(), "索引 -4 超出范围，列表长度为 3");
}

#[test]
fn list_index_minus_one_updates_the_last_element() {
    let cmd = plan_update_list_item("k", -1, "v".to_string(), 3).unwrap();
    assert_eq!(cmd.to_args(), sv(&["LSET", "k", "2", "v"]));
    let cmd = plan_update_list_item("k", 0, "v".to_string(), 3).unwrap();
    assert_eq!(cmd.to_args(), sv(&["LSET", "k", "0", "v"]));
    assert_eq!(update_list_item_response("k", -1).message, "成功更新 k 的索引 -1");
}

#[test]
fn list_item_removal_reply() {
    let r = delete_list_item_response(2);
    assert!(r.success);
    assert_eq!(r.message, "成功删除 2 个元素");
    let r = delete_list_item_response(0);
    assert!(!r.success);
    assert_eq!(r.message, "未找到匹配的元素");
}

#[test]
fn set_and_zset_item_replies() {
    assert_eq!(add_set_item_response("k", 1).message, "成功添加元素到集合 k");
    assert_eq!(add_set_item_response("k", 0).message, "元素已存在");
    assert_eq!(delete_set_item_response("k", 1).message, "成功从集合 k 删除元素");
    assert_eq!(delete_set_item_response("k", 0).message, "元素不存在");
    assert_eq!(add_zset_item_response("k", 1).message, "成功添加元素到有序集合 k");
    assert_eq!(add_zset_item_response("k", 0).message, "元素已存在");
    assert_eq!(delete_zset_item_response("k", 1).message, "成功从有序集合 k 删除元素");
    assert_eq!(delete_zset_item_response("k", 0).message, "元素不存在");
}

#[test]
fn negative_counts_format_with_a_minus_sign() {
    let cmd = RedisCmd::LRem { key: "k".to_string(), count: -2, value: "v".to_string() };
    assert_eq!(cmd.to_args(), sv(&["LREM", "k", "-2", "v"]));
    let cmd = RedisCmd::LRem { key: "k".to_string(), count: i64::MIN, value: "v".to_string() };
    assert_eq!(cmd.to_args(), sv(&["LREM", "k", "-9223372036854775808", "v"]));
    let cmd = RedisCmd::Expire { key: "k".to_string(), ttl: i64::MAX };
    assert_eq!(cmd.to_args(), sv(&["EXPIRE", "k", "9223372036854775807"]));
}
