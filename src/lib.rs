//! Usage ingestion, aggregation and forecasting engine for metered APIs.
//!
//! Token counts become costs under per-key pricing, usage is summarised over
//! time windows, daily cost series are turned into short-horizon forecasts,
//! and events fan out to live subscribers through a bounded broadcast hub.
//! Money is held in whole cents, prices in micro-dollars per 1000 tokens,
//! times in seconds since the Unix epoch and identifiers as 128-bit values.
pub mod api_types;
pub mod clock;
pub mod errors;
pub mod forecast;
pub mod helpers;
pub mod hub;
pub mod jobs;
pub mod models;
pub mod prediction_service;
pub mod stats;
pub mod store;
pub mod usage_service;
