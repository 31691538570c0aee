use redisdesk::info::{
    calculate_hit_rate, calculate_total_keys, get_persistence_status, get_redis_server_info,
    get_replication_status, parse_info_string, parse_info_value,
};

const SAMPLE: &str = "# Server\r\nredis_version:7.2.4\r\nuptime_in_seconds:3600\r\n# Clients\r\nconnected_clients:3\r\nblocked_clients:1\r\n# Memory\r\nused_memory:1048576\r\nmaxmemory:2097152\r\nmem_fragmentation_ratio:1.08\r\n# Stats\r\ninstantaneous_ops_per_sec:42\r\nkeyspace_hits:90\r\nkeyspace_misses:10\r\nevicted_keys:2\r\nexpired_keys:5\r\n# CPU\r\nused_cpu_sys:12.5\r\n# Persistence\r\nrdb_bgsave_in_progress:1\r\naof_enabled:0\r\naof_current_size:777\r\nrdb_last_save_time:1700000000\r\n# Replication\r\nrole:master\r\nconnected_slaves:2\r\n# Keyspace\r\ndb0:keys=5,expires=0,avg_ttl=0\r\ndb1:keys=7,expires=1,avg_ttl=0\r\n";

#[test]
fn parse_info_value_reads_the_number_after_the_colon() {
    assert_eq!(parse_info_value(SAMPLE, "used_memory"), Some(1048576));
    assert_eq!(parse_info_value(SAMPLE, "connected_clients"), Some(3));
    assert_eq!(parse_info_value(SAMPLE, "rdb_last_save_time"), Some(1700000000));
}

#[test]
fn parse_info_value_missing_key_is_none() {
    assert_eq!(parse_info_value(SAMPLE, "no_such_field"), None);
}

#[test]
fn parse_info_value_rejects_non_numeric_and_overflow() {
    assert_eq!(parse_info_value("x:abc\r\n", "x"), None);
    assert_eq!(parse_info_value("x:99999999999999999999999\r\n", "x"), None);
    assert_eq!(parse_info_value("x:18446744073709551615\r\n", "x"), Some(u64::MAX));
}

#[test]
fn parse_info_value_trims_padding_around_the_number() {
    assert_eq!(parse_info_value("x:  42 \r\n", "x"), Some(42));
}

#[test]
fn parse_info_value_takes_the_first_matching_line() {
    assert_eq!(parse_info_value("used_memory:7\r\nused_memory_rss:9\r\n", "used_memory"), Some(7));
    assert_eq!(parse_info_value("used_memory_rss:9\r\nused_memory:7\r\n", "used_memory"), Some(9));
}

#[test]
fn parse_info_string_trims_the_value() {
    assert_eq!(parse_info_string(SAMPLE, "role"), Some("master".to_string()));
    assert_eq!(parse_info_string("k:  padded \r\n", "k"), Some("padded".to_string()));
    assert_eq!(parse_info_string(SAMPLE, "absent"), None);
}

#[test]
fn parse_info_string_takes_text_between_first_and_second_colon() {
    assert_eq!(parse_info_string("k:a:b\n", "k"), Some("a".to_string()));
    assert_eq!(parse_info_string("nocolon\n", "nocolon"), None);
}

#[test]
fn hit_rate_is_the_rounded_percentage() {
    assert_eq!(calculate_hit_rate(SAMPLE), 90);
    assert_eq!(calculate_hit_rate("keyspace_hits:1\r\nkeyspace_misses:2\r\n"), 33);
    assert_eq!(calculate_hit_rate("keyspace_hits:2\r\nkeyspace_misses:1\r\n"), 67);
    assert_eq!(calculate_hit_rate("keyspace_hits:1\r\nkeyspace_misses:1\r\n"), 50);
}

#[test]
fn hit_rate_without_traffic_is_zero() {
    assert_eq!(calculate_hit_rate(""), 0);
    assert_eq!(calculate_hit_rate("keyspace_hits:0\r\nkeyspace_misses:0\r\n"), 0);
}

#[test]
fn total_keys_sums_the_db_lines() {
    assert_eq!(calculate_total_keys(SAMPLE), 12);
    assert_eq!(calculate_total_keys(""), 0);
    assert_eq!(calculate_total_keys("db0:keys=3,expires=0\r\nother:keys=9\r\n"), 3);
    assert_eq!(calculate_total_keys("db0:expires=0\r\n"), 0);
}

#[test]
fn persistence_status_reflects_both_flags() {
    assert_eq!(get_persistence_status(SAMPLE), "RDB");
    assert_eq!(
        get_persistence_status("rdb_bgsave_in_progress:1\r\naof_enabled:1\r\n"),
        "RDB+AOF"
    );
    assert_eq!(get_persistence_status("aof_enabled:1\r\n"), "AOF");
    assert_eq!(get_persistence_status(""), "None");
}

#[test]
fn replication_status_by_role_and_link() {
    assert_eq!(get_replication_status(SAMPLE), "主节点");
    assert_eq!(
        get_replication_status("role:slave\r\nmaster_link_status:up\r\n"),
        "从节点 (已连接)"
    );
    assert_eq!(
        get_replication_status("role:slave\r\nmaster_link_status:down\r\n"),
        "从节点 (未连接)"
    );
    assert_eq!(get_replication_status(""), "未知");
}

#[test]
fn server_info_collects_every_field() {
    let info = get_redis_server_info(SAMPLE);
    assert_eq!(info.memory_usage, 1048576);
    assert_eq!(info.maxmemory, 2097152);
    assert_eq!(info.connections, 3);
    assert_eq!(info.hit_rate, 90);
    assert_eq!(info.uptime, 3600);
    assert_eq!(info.total_keys, 12);
    assert_eq!(info.ops_per_sec, 42);
    assert_eq!(info.used_cpu, "12.5");
    assert_eq!(info.role, "master");
    assert_eq!(info.version, "7.2.4");
    assert_eq!(info.persistence, "RDB");
    assert_eq!(info.clients_blocked, 1);
    assert_eq!(info.keys_evicted, 2);
    assert_eq!(info.keys_expired, 5);
    assert_eq!(info.replication_status, "主节点");
    assert_eq!(info.mem_fragmentation_ratio, "1.08");
    assert_eq!(info.aof_size, 777);
    assert_eq!(info.rdb_last_save, 1700000000);
    assert_eq!(info.connected_slaves, 2);
}

#[test]
fn server_info_defaults_on_empty_text() {
    let info = get_redis_server_info("");
    assert_eq!(info.memory_usage, 0);
    assert_eq!(info.hit_rate, 0);
    assert_eq!(info.total_keys, 0);
    assert_eq!(info.used_cpu, "0");
    assert_eq!(info.role, "unknown");
    assert_eq!(info.version, "unknown");
    assert_eq!(info.persistence, "None");
    assert_eq!(info.replication_status, "未知");
    assert_eq!(info.mem_fragmentation_ratio, "0");
}
