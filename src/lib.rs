//! Telemetry sampling with tiered source fallback, a liveness registry for
//! datagram clients, and the datagram command protocol.
//!
//! Fixed-point units: percentages are in tenths of a percent; temperatures,
//! power scores and fan speeds are in thousandths.

pub mod metrics;
pub mod monitor;
pub mod protocol;
pub mod registry;
pub mod text;
