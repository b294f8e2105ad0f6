//! The BMP280 barometric pressure / temperature sensor.

pub mod calibration;
pub mod compensation;
pub mod measurement;
pub mod driver;
pub mod config;
pub mod reader;
