//! Acquisition engine for one-wire temperature sensors.

pub mod config;
pub mod decimal;
pub mod error;
pub mod model;
pub mod processing;
pub mod state;
pub mod text;
pub mod w1;
