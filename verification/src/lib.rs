//! Normalised market-data ingestion: order books kept in step with an exchange's
//! delta stream, the reconnecting consumer that drives them, and the enrichment
//! of on-chain intent orders.
//!
//! Prices and quantities are fixed-point integers in the smallest unit the venue
//! quotes, so that two levels match exactly when their prices are equal.

pub mod binance;
pub mod consumer;
pub mod dex;
pub mod error;
pub mod event;
pub mod execution;
pub mod fill;
pub mod fixed;
pub mod flat_files;
pub mod orderbook;
pub mod subscription;
pub mod subscription_map;
pub mod text;
pub mod transformer;
pub mod updater;
