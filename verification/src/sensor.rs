//! Sensor measurement types, sensor errors, and the GPIO data-pin capability.

use vstd::prelude::*;

verus! {

/// Temperature in tenths of a degree celsius (`123` means 12.3 degrees C).
///
/// The DHT22 protocol reports temperature with one decimal of precision, so
/// tenths represent every reportable value exactly.
#[derive(Debug, Clone, Copy, PartialEq, Eq, Structural)]
pub struct TemperatureCelsius(pub i32);

/// Relative humidity in tenths of a percent (`456` means 45.6% RH).
#[derive(Debug, Clone, Copy, PartialEq, Eq, Structural)]
pub struct Humidity(pub u16);

/// Potential kinds of errors that can be encountered reading from the DHT sensor.
#[derive(Debug, Clone, Copy, PartialEq, Eq, Hash, Structural)]
pub enum SensorErrorKind {
    Initialization,
    ReadTimeout,
}

/// Error initializing or reading the DHT22 sensor via a GPIO pin.
#[derive(Debug)]
pub enum SensorError {
    /// The decoded temperature lies outside the plausible range; carries the
    /// rejected value.
    ValueBounds(TemperatureCelsius),
    /// The checksum byte does not match: expected (the byte read), computed.
    CheckSum(u8, u8),
    /// A failure of the given kind with a static description.
    KindMsg(SensorErrorKind, &'static str),
    /// A failure of the given kind with a description and an underlying cause.
    KindMsgCause(SensorErrorKind, &'static str, String),
}

/// The direction a GPIO pin is configured for.
#[derive(Debug, Clone, Copy, PartialEq, Eq, Structural)]
pub enum PinMode {
    Input,
    Output,
}

/// Capability over a single GPIO line: read the level, drive it, switch its
/// direction, and pause between protocol phases.
///
/// One production adapter wraps the hardware pin; a deterministic in-memory
/// adapter scripted with a level sequence serves the tests. The level an input
/// pin reads comes from the outside world, so these methods promise nothing
/// about their results.
pub trait DataPin {
    /// True when the line reads low.
    fn is_low(&self) -> bool;

    /// True when the line reads high.
    fn is_high(&self) -> bool;

    /// The BCM GPIO number of the line.
    fn pin(&self) -> u8;

    /// Drive the line high (output mode).
    fn set_high(&mut self);

    /// Drive the line low (output mode).
    fn set_low(&mut self);

    /// Switch the line between input and output.
    fn set_mode(&mut self, mode: PinMode);

    /// Pause for the given number of microseconds between protocol phases.
    fn sleep_micros(&mut self, micros: u64);
}

} // verus!
