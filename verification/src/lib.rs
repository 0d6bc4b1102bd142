//! Verified core of the `ad-nope` DNS sinkhole: blocklist matching,
//! blocklist parsing, pause state, statistics, query-log rendering and the
//! per-request decisions of the DNS handler.

pub mod api;
pub mod config;
pub mod db;
pub mod engine;
pub mod init;
pub mod logger;
pub mod resolver;
pub mod server;
pub mod stats;
pub mod text;
