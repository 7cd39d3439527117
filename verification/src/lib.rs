//! The state-keeping and decision logic of a Discord gateway dispatcher:
//! cache keys, the bookkeeping of the state cache, shard distribution over
//! clusters, expiry of cached entries, shard statuses and the routing of
//! gateway events and commands.
pub mod decimal;
pub mod constants;
pub mod utils;
pub mod cache;
pub mod cluster;
pub mod models;
pub mod status;
pub mod update;
pub mod merge;
pub mod handler;
pub mod player;
pub mod config;
