use redisdesk::cmd::RedisCmd;
use redisdesk::import_export::{
    import_error_message, import_key_success_response, import_keys_response, plan_import_key,
    ImportError,
};
use redisdesk::keys::{KeyDetail, RedisValue};

fn args_of(cmds: &[RedisCmd]) -> Vec<Vec<String>> {
    cmds.iter().map(|c| c.to_args()).collect()
}

fn sv(parts: &[&str]) -> Vec<String> {
    parts.iter().map(|p| p.to_string()).collect()
}

fn detail(key: &str, key_type: &str, ttl: i64, value: RedisValue) -> KeyDetail {
    KeyDetail {
        key: key.to_string(),
        key_type: key_type.to_string(),
        ttl,
        size: 0,
        create_time: "1970-01-01T00:00:00+00:00".to_string(),
        value,
    }
}

#[test]
fn import_existing_without_overwrite_is_refused() {
    let d = detail("k", "string", 0, RedisValue::RStr("v".to_string()));
    match plan_import_key(d, true, false) {
        Err(ImportError::AlreadyExists) => {},
        _ => panic!("expected the already-exists failure"),
    }
    assert_eq!(
        import_error_message(&ImportError::AlreadyExists, "k", "string"),
        "键 k 已存在，跳过导入"
    );
}

#[test]
fn import_with_overwrite_deletes_then_rewrites() {
    let d = detail("k", "string", 0, RedisValue::RStr("v".to_string()));
    let plan = plan_import_key(d, true, true).unwrap();
    assert_eq!(args_of(&plan), vec![sv(&["DEL", "k"]), sv(&["SET", "k", "v"])]);

    let d = detail("k", "string", 30, RedisValue::RStr("v".to_string()));
    let plan = plan_import_key(d, true, true).unwrap();
    assert_eq!(args_of(&plan), vec![sv(&["DEL", "k"]), sv(&["SETEX", "k", "30", "v"])]);
}

#[test]
fn import_fresh_key_skips_the_delete() {
    let d = detail("k", "list", 0, RedisValue::RList(sv(&["a", "b"])));
    let plan = plan_import_key(d, false, false).unwrap();
    assert_eq!(args_of(&plan), vec![sv(&["RPUSH", "k", "a", "b"])]);
}

#[test]
fn import_collections_carry_their_ttl() {
    let pairs = vec![("f".to_string(), "v".to_string())];
    let d = detail("h", "hash", 12, RedisValue::RHash(pairs));
    let plan = plan_import_key(d, false, true).unwrap();
    assert_eq!(
        args_of(&plan),
        vec![sv(&["HSET", "h", "f", "v"]), sv(&["EXPIRE", "h", "12"])]
    );

    let pairs = vec![("m".to_string(), "2.5".to_string())];
    let d = detail("z", "zset", 0, RedisValue::RZset(pairs));
    let plan = plan_import_key(d, false, false).unwrap();
    assert_eq!(args_of(&plan), vec![sv(&["ZADD", "z", "2.5", "m"])]);

    let d = detail("s", "set", 7, RedisValue::RSet(sv(&["x", "y"])));
    let plan = plan_import_key(d, false, false).unwrap();
    assert_eq!(
        args_of(&plan),
        vec![sv(&["SADD", "s", "x", "y"]), sv(&["EXPIRE", "s", "7"])]
    );
}

#[test]
fn import_rejects_bad_types_and_payloads() {
    let d = detail("k", "stream", 0, RedisValue::RStr("v".to_string()));
    match plan_import_key(d, false, false) {
        Err(ImportError::UnsupportedType) => {},
        _ => panic!("expected the unsupported-type failure"),
    }
    assert_eq!(
        import_error_message(&ImportError::UnsupportedType, "k", "stream"),
        "不支持的类型: stream"
    );

    let d = detail("k", "string", 0, RedisValue::RList(sv(&["a"])));
    match plan_import_key(d, false, false) {
        Err(ImportError::InvalidValue) => {},
        _ => panic!("expected the invalid-value failure"),
    }
    assert_eq!(
        import_error_message(&ImportError::InvalidValue, "k", "string"),
        "无效的字符串值"
    );
}

#[test]
fn import_success_message_names_the_key() {
    let r = import_key_success_response("k");
    assert!(r.success);
    assert_eq!(r.message, "成功导入键 k");
}

#[test]
fn batch_import_all_successes() {
    let outcomes: Vec<Result<(), String>> = vec![Ok(()), Ok(())];
    let r = import_keys_response(&outcomes);
    assert!(r.success);
    assert_eq!(r.message, "成功导入所有 2 个键");
}

#[test]
fn batch_import_with_failures_lists_them() {
    let outcomes: Vec<Result<(), String>> = vec![
        Ok(()),
        Err("first failure".to_string()),
        Err("second failure".to_string()),
    ];
    let r = import_keys_response(&outcomes);
    assert!(!r.success);
    assert_eq!(
        r.message,
        "导入完成: 成功 1 个, 失败 2 个\n错误列表:\nfirst failure\nsecond failure"
    );
}

#[test]
fn batch_import_of_nothing_succeeds_with_zero() {
    let outcomes: Vec<Result<(), String>> = vec![];
    let r = import_keys_response(&outcomes);
    assert!(r.success);
    assert_eq!(r.message, "成功导入所有 0 个键");
}
