//! Backend core for a mailbox-occupancy monitor.
//!
//! A sensor node periodically reports distance, temperature and voltage
//! readings in a compact binary telemetry format. This library decodes such
//! payloads into typed measurements, tracks the most recent readings, and
//! classifies distance changes against a hysteresis threshold as
//! "became full" / "became empty" transitions.

pub mod config;
pub mod dispatch;
pub mod envelope;
pub mod lpp;
pub mod message;
pub mod tracker;
