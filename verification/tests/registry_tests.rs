use redisdesk::connection::{build_redis_url, connect_commit, disconnect_redis, not_connected_error};
use redisdesk::registry::{Registry, RedisConnectionConfig};
use redisdesk::response::Response;

fn config(id: &str, db: Option<u8>) -> RedisConnectionConfig {
    RedisConnectionConfig {
        id: id.to_string(),
        name: format!("{} name", id),
        host: "localhost".to_string(),
        port: 6379,
        username: None,
        password: None,
        db,
    }
}

#[test]
fn connect_then_lookup_returns_requested_db() {
    let mut reg = Registry::new();
    let r = connect_commit(&mut reg, &config("a", Some(5)));
    assert!(r.success);
    assert_eq!(r.message, "成功连接到 a name");
    assert_eq!(reg.lookup("a"), Some(5));
}

#[test]
fn connect_defaults_to_db_zero() {
    let mut reg = Registry::new();
    connect_commit(&mut reg, &config("a", None));
    assert_eq!(reg.lookup("a"), Some(0));
}

#[test]
fn connect_overwrites_existing_entry() {
    let mut reg = Registry::new();
    connect_commit(&mut reg, &config("a", Some(1)));
    connect_commit(&mut reg, &config("b", Some(2)));
    connect_commit(&mut reg, &config("a", Some(7)));
    assert_eq!(reg.lookup("a"), Some(7));
    assert_eq!(reg.lookup("b"), Some(2));
}

#[test]
fn disconnect_unregistered_id_is_not_found() {
    let mut reg = Registry::new();
    let r = disconnect_redis(&mut reg, "missing");
    assert!(!r.success);
    assert_eq!(r.message, "连接不存在");
}

#[test]
fn disconnect_registered_id_removes_it() {
    let mut reg = Registry::new();
    connect_commit(&mut reg, &config("a", Some(3)));
    connect_commit(&mut reg, &config("b", Some(4)));
    let r = disconnect_redis(&mut reg, "a");
    assert!(r.success);
    assert_eq!(r.message, "连接已断开");
    assert_eq!(reg.lookup("a"), None);
    assert_eq!(reg.lookup("b"), Some(4));
}

#[test]
fn set_current_db_updates_only_that_id() {
    let mut reg = Registry::new();
    connect_commit(&mut reg, &config("a", Some(0)));
    connect_commit(&mut reg, &config("b", Some(0)));
    assert!(reg.set_current_db("a", 9));
    assert_eq!(reg.lookup("a"), Some(9));
    assert_eq!(reg.lookup("b"), Some(0));
    assert!(!reg.set_current_db("c", 1));
    assert_eq!(reg.lookup("c"), None);
}

#[test]
fn url_with_username_and_password() {
    let mut c = config("a", Some(2));
    c.username = Some("user".to_string());
    c.password = Some("pw".to_string());
    c.host = "redis.example".to_string();
    c.port = 6380;
    assert_eq!(build_redis_url(&c), "redis://user:pw@redis.example:6380/2");
}

#[test]
fn url_with_password_only() {
    let mut c = config("a", None);
    c.password = Some("secret".to_string());
    assert_eq!(build_redis_url(&c), "redis://:secret@localhost:6379/0");
}

#[test]
fn url_without_credentials() {
    let c = config("a", None);
    assert_eq!(build_redis_url(&c), "redis://localhost:6379/0");
}

#[test]
fn url_ignores_username_without_password() {
    let mut c = config("a", Some(1));
    c.username = Some("user".to_string());
    assert_eq!(build_redis_url(&c), "redis://localhost:6379/1");
}

#[test]
fn response_constructors_fill_the_envelope() {
    let r = Response::success(42u64);
    assert!(r.success);
    assert_eq!(r.message, "操作成功");
    assert_eq!(r.data, Some(42));

    let r = Response::success_with_message(1u8, "done".to_string());
    assert!(r.success);
    assert_eq!(r.message, "done");
    assert_eq!(r.data, Some(1));

    let r = Response::<()>::success_empty();
    assert!(r.success);
    assert_eq!(r.message, "操作成功");
    assert!(r.data.is_none());

    let r = Response::<()>::success_empty_with_message("hi".to_string());
    assert!(r.success);
    assert_eq!(r.message, "hi");

    let r: Response<u64> = Response::error("bad".to_string());
    assert!(!r.success);
    assert_eq!(r.message, "bad");
    assert!(r.data.is_none());

    let r: Response<String> = not_connected_error();
    assert!(!r.success);
    assert_eq!(r.message, "Redis 未连接");
}
