//! Time-series collection and aggregation for a game leaderboard: what to
//! discover, what to snapshot per poll, and how the recorded facts are
//! windowed, downsampled and ranked.

pub mod api;
pub mod assignments;
pub mod construction;
pub mod db;
pub mod epochs;
pub mod history;
pub mod leaderboard_collector;
pub mod leaderboard_config;
pub mod leaderboard_model;
pub mod lists;
pub mod model;
pub mod numbers;
pub mod pagination;
pub mod queries;
pub mod ranking;
pub mod reqwest_helpers;
pub mod server;
pub mod snapshot;
pub mod text;
pub mod tick;
pub mod time;
