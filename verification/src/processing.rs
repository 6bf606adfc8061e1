//! What runs beside the display: the readers that keep the store up to date.

pub mod temperature;
