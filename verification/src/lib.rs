//! Verified core of a Redis desktop backend: the connection registry with its
//! per-connection database tracking, the builders that turn handler inputs into
//! Redis command sequences, the interpreters that turn command replies into the
//! uniform response envelope, and the parser for the server's INFO text.
//!
//! Network transport is not part of this crate: callers execute the planned
//! commands against a live server and hand the plain reply values back.

pub mod cmd;
pub mod connection;
pub mod database;
pub mod import_export;
pub mod info;
pub mod keys;
pub mod model;
pub mod registry;
pub mod response;
pub mod strutil;
pub mod timefmt;
