//! A small key-value store with durable snapshotting and a version
//! denylist that decides client compatibility.
//!
//! The library holds the verified core: the in-memory store, the snapshot
//! codec, the version denylist, and the request handlers. Transport, command
//! line handling and file access live outside it and hand the library plain
//! values.

pub mod codec;
pub mod denylist;
pub mod handlers;
pub mod split;
pub mod store;
