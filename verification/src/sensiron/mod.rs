//! Sensirion sensors on the I2C bus: command encoding and response decoding.
pub mod generic;
pub mod sen5x;
pub mod sht4x;
pub mod sts4x;
