//! A small sharded record store: per-shard repositories queried by example,
//! shard-scoped identifiers, and a dispatcher that gathers the answers of
//! every shard into one ordered list.

pub mod rid;
pub mod model;
pub mod repository;
pub mod shard;
pub mod dispatcher;
pub mod relation;
