//! Verified core of the RuneScape Grand Exchange gateway.
pub mod text;
pub mod price;
pub mod types;
pub mod config;
pub mod cache;
pub mod errors;
pub mod ge;
pub mod retry;
pub mod ui;
pub mod metrics;
pub mod rate_limit;
