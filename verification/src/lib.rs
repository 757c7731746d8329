//! Air-quality decision engine: canonical readings, per-user alert
//! thresholds with cooldown, and forecast accuracy scoring.
//!
//! All quantities are integers. Pollutant levels and thresholds are whole
//! canonical units (µg/m³, or index points for the overall index), instants
//! and durations are whole seconds, and ratios are millionths.

pub mod alert_manager;
pub mod pollutant;
pub mod ratio;
pub mod reading;
pub mod data_fetcher;
pub mod data_processor;
pub mod normalizer;
pub mod database;
pub mod evaluator;
pub mod scorer;
