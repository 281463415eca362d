//! Hardware telemetry state: per-channel time series with running statistics,
//! the monitors that feed them, and time-indexed lookup over exported series.

pub mod clock;
pub mod hardware;
pub mod hardware_detection;
pub mod ieee;
pub mod interpolation;
pub mod laws;
pub mod logger;
pub mod model;
pub mod monitors;
pub mod rounding;
pub mod sensors;
pub mod text;
