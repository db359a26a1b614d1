//! Serving core of a poll platform: a time-sharded ranking cache and the
//! batching layer that funnels requests towards it.

pub mod cache;
pub mod cache_view;
pub mod index_map;
pub mod leaderboard;
pub mod pending;
pub mod period;
pub mod poll_store;
pub mod polls;
pub mod promise;
pub mod rankings;
pub mod server;
pub mod tally;
pub mod types;
pub mod vote_count;
