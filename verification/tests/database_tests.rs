use redisdesk::database::{
    db_count_from_config, make_db_key_counts, plan_all_db_key_counts, plan_db_key_count,
    select_db_commit,
};
use redisdesk::cmd::RedisCmd;
use redisdesk::connection::connect_commit;
use redisdesk::registry::{Registry, RedisConnectionConfig};

fn args_of(cmds: &[RedisCmd]) -> Vec<Vec<String>> {
    cmds.iter().map(|c| c.to_args()).collect()
}

fn sv(parts: &[&str]) -> Vec<String> {
    parts.iter().map(|p| p.to_string()).collect()
}

#[test]
fn db_count_reads_the_second_config_entry() {
    assert_eq!(db_count_from_config(&sv(&["databases", "32"])), 32);
    assert_eq!(db_count_from_config(&sv(&["databases", "16"])), 16);
}

#[test]
fn db_count_defaults_to_sixteen() {
    assert_eq!(db_count_from_config(&sv(&[])), 16);
    assert_eq!(db_count_from_config(&sv(&["databases"])), 16);
    assert_eq!(db_count_from_config(&sv(&["databases", "many"])), 16);
}

#[test]
fn one_db_key_count_selects_sizes_and_restores() {
    let plan = plan_db_key_count(0, 2);
    assert_eq!(
        args_of(&plan),
        vec![sv(&["SELECT", "2"]), sv(&["DBSIZE"]), sv(&["SELECT", "0"])]
    );
    let plan = plan_db_key_count(2, 2);
    assert_eq!(args_of(&plan), vec![sv(&["SELECT", "2"]), sv(&["DBSIZE"])]);
}

#[test]
fn all_db_key_counts_cover_each_database_and_restore() {
    let plan = plan_all_db_key_counts(3, 1);
    assert_eq!(
        args_of(&plan),
        vec![
            sv(&["SELECT", "0"]),
            sv(&["DBSIZE"]),
            sv(&["SELECT", "1"]),
            sv(&["DBSIZE"]),
            sv(&["SELECT", "2"]),
            sv(&["DBSIZE"]),
            sv(&["SELECT", "1"]),
        ]
    );
    // A tracked database beyond the walked range is not re-selected.
    let plan = plan_all_db_key_counts(2, 5);
    assert_eq!(
        args_of(&plan),
        vec![
            sv(&["SELECT", "0"]),
            sv(&["DBSIZE"]),
            sv(&["SELECT", "1"]),
            sv(&["DBSIZE"]),
        ]
    );
}

#[test]
fn counts_come_back_indexed_zero_up() {
    let counts = vec![3u64, 1, 4];
    let out = make_db_key_counts(&counts);
    assert_eq!(out.len(), 3);
    for (i, entry) in out.iter().enumerate() {
        assert_eq!(entry.db_index as usize, i);
        assert_eq!(entry.key_count, counts[i]);
    }
}

#[test]
fn counting_all_databases_leaves_the_tracked_db_unchanged() {
    let mut reg = Registry::new();
    let cfg = RedisConnectionConfig {
        id: "c".to_string(),
        name: "c".to_string(),
        host: "h".to_string(),
        port: 6379,
        username: None,
        password: None,
        db: Some(1),
    };
    connect_commit(&mut reg, &cfg);
    let current = reg.lookup("c").unwrap();
    let _plan = plan_all_db_key_counts(16, current);
    let _summary = make_db_key_counts(&vec![0u64; 16]);
    assert_eq!(reg.lookup("c"), Some(1));
}

#[test]
fn select_db_updates_the_tracked_database() {
    let mut reg = Registry::new();
    let cfg = RedisConnectionConfig {
        id: "c".to_string(),
        name: "c".to_string(),
        host: "h".to_string(),
        port: 6379,
        username: None,
        password: None,
        db: None,
    };
    connect_commit(&mut reg, &cfg);
    let r = select_db_commit(&mut reg, "c", 4);
    assert!(r.success);
    assert_eq!(r.message, "成功切换到数据库 4");
    assert_eq!(reg.lookup("c"), Some(4));

    let r = select_db_commit(&mut reg, "nope", 1);
    assert!(!r.success);
    assert_eq!(r.message, "Redis 未连接");
}
