//! Greenhouse automation core: a DHT22 one-wire protocol decoder, GPIO pin and
//! switch registries, a retrying sensor-poll scheduler, and a hysteresis-based
//! automation loop, all with verified contracts.

pub mod config;
pub mod dht22;
pub mod error;
pub mod sensor;
pub mod sensor_manager;
