//! Verified core of a small networking playground: a binary record format, the
//! encoding and buffering of Redis protocol frames, a key-value command handler and
//! the decisions taken by hand-written futures and service middleware.

pub mod bytes_util;
pub mod data;
pub mod resp;
pub mod frame_path;
pub mod connection;
pub mod kv;
pub mod tasks;
pub mod middleware;
pub mod client;
