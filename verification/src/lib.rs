//! Verified core of a collection of small robotics and sensor programs:
//! servo pulse planning, the BMP280 barometer driver and its compensation
//! formulas, environment settings, and telemetry link bookkeeping.

pub mod bmp280;
pub mod servo;
pub mod settings;
pub mod telemetry;
pub mod i2c_scan;
