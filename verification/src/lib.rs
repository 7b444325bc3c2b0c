//! Control logic for an S9-class ASIC hash board: the chip register codec and
//! PLL table, the registry that matches returned nonces to in-flight work, and
//! the thermal and fan safety monitor, with the configuration, the client
//! descriptors and the sensor and I2C helpers that they need.
//!
//! Temperatures are fixed-point numbers and instants are counted in
//! nanoseconds, so that all decisions are made on integers; hardware access,
//! timers and channels belong to the caller. The one thing taken on trust is
//! what the URL parser makes of a string.

pub mod bm1387;
pub mod client;
pub mod config;
pub mod error;
pub mod fan;
pub mod i2c;
pub mod monitor;
pub mod registry;
pub mod sensor;
pub mod text;
pub mod work;
