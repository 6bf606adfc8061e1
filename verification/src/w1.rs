//! One-wire devices.

pub mod device;
pub mod thermometer;
