//! HTTP latency probing against CDN edges: decision logic for acceptance of
//! probe responses (status rule and edge-location matching) and accounting of
//! timed samples. Network I/O is left to the embedding application; every
//! decision and accumulation step here carries a verified contract.

pub mod colo;
pub mod config;
pub mod ping;
pub mod probe;
pub mod text;
