//! Connect and disconnect: building the connection URL from a config, with the
//! credential precedence the address format demands, and committing or removing
//! registry entries. The liveness probe itself is network work and stays with
//! the caller; it must succeed (including the initial database select) before
//! `connect_commit` is called.

use vstd::prelude::*;

verus! {

use vstd::string::StringExecFns;
use crate::registry::{Registry, RedisConnectionConfig, spec_resolve_db, resolve_db};
use crate::response::Response;
use crate::strutil::{spec_dec_str, u64_to_dec};

/// The credential part of a connection URL: `user:password@` when both are
/// given, `:password@` when only a password is given, empty otherwise (a
/// username without a password is ignored).
pub open spec fn spec_auth_part(username: Option<String>, password: Option<String>) -> Seq<char> {
    match (username, password) {
        (Some(u), Some(p)) => u@ + ":"@ + p@ + "@"@,
        (None, Some(p)) => ":"@ + p@ + "@"@,
        _ => Seq::<char>::empty(),
    }
}

/// The full connection URL for a config:
/// `redis://[auth]host:port/db`, with the database defaulting to 0.
pub open spec fn spec_redis_url(c: RedisConnectionConfig) -> Seq<char> {
    "redis://"@ + spec_auth_part(c.username, c.password) + c.host@ + ":"@ + spec_dec_str(
        c.port as nat,
    ) + "/"@ + spec_dec_str(spec_resolve_db(c.db) as nat)
}

/// Builds the connection URL for `config`, exactly as `spec_redis_url` lays it
/// out.
pub fn build_redis_url(config: &RedisConnectionConfig) -> (r: String)
    ensures
        r@ == spec_redis_url(*config),
{
    let mut url = "redis://".to_owned();
    match (&config.username, &config.password) {
        (Some(u), Some(p)) => {
            url.append(u.as_str());
            url.append(":");
            url.append(p.as_str());
            url.append("@");
        },
        (None, Some(p)) => {
            url.append(":");
            url.append(p.as_str());
            url.append("@");
        },
        _ => {},
    }
    url.append(config.host.as_str());
    url.append(":");
    let port_digits = u64_to_dec(config.port as u64);
    url.append(port_digits.as_str());
    url.append("/");
    let db_digits = u64_to_dec(resolve_db(&config.db) as u64);
    url.append(db_digits.as_str());
    proof {
        assert(url@ =~= spec_redis_url(*config));
    }
    url
}

/// The failure response every handler returns when the connection id is not
/// registered.
pub fn not_connected_error<T>() -> (r: Response<T>)
    ensures
        !r.success,
        r.message@ == "Redis 未连接"@,
        r.data is None,
{
    Response::error("Redis 未连接".to_owned())
}

/// Commits a successful connect: registers the config's id on its requested
/// database (0 by default) and reports success naming the connection. Call
/// only after the liveness probe and the initial database select succeeded;
/// on a failed probe nothing is committed and the registry stays as it was.
pub fn connect_commit(registry: &mut Registry, config: &RedisConnectionConfig) -> (r: Response<()>)
    requires
        old(registry).wf(),
    ensures
        final(registry).wf(),
        final(registry).spec_lookup(config.id@) == Some(spec_resolve_db(config.db)),
        forall|k: Seq<char>|
            k != config.id@ ==> final(registry).spec_lookup(k) == old(registry).spec_lookup(k),
        r.success,
        r.message@ == "成功连接到 "@ + config.name@,
        r.data is None,
{
    registry.register_connection(config);
    let mut message = "成功连接到 ".to_owned();
    message.append(config.name.as_str());
    Response::<()>::success_empty_with_message(message)
}

/// Disconnect: removes the registry entry for `connection_id`. On a registered
/// id the entry is removed and the call succeeds; on an unregistered id the
/// registry is untouched and the call reports that no such connection exists.
/// Either way the id is not registered afterwards and no other id changes.
pub fn disconnect_redis(registry: &mut Registry, connection_id: &str) -> (r: Response<()>)
    requires
        old(registry).wf(),
    ensures
        final(registry).wf(),
        !final(registry).is_registered(connection_id@),
        forall|k: Seq<char>|
            k != connection_id@ ==> final(registry).spec_lookup(k) == old(registry).spec_lookup(k),
        r.success == old(registry).is_registered(connection_id@),
        r.success ==> r.message@ == "连接已断开"@,
        !r.success ==> r.message@ == "连接不存在"@ && *final(registry) == *old(registry),
        r.data is None,
{
    if registry.remove(connection_id) {
        Response::<()>::success_empty_with_message("连接已断开".to_owned())
    } else {
        Response::error("连接不存在".to_owned())
    }
}

} // verus!
