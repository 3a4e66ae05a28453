//! Tests of the DHT22 protocol decoder: pulse capture, bit thresholding, byte
//! packing, checksum validation, decoding and the plausibility bounds.

use std::cell::Cell;

use gha::dht22::{check_value_bounds, DHT22Sensor, Pulses, Reading};
use gha::sensor::{DataPin, Humidity, PinMode, SensorError, TemperatureCelsius};

/// A deterministic in-memory pin driven by a scripted sequence of line levels
/// (`true` = high). Every level query consumes one sample, mirroring one
/// busy-poll iteration of the decoder.
struct ScriptedPin {
    samples: Vec<bool>,
    pos: Cell<usize>,
}

impl ScriptedPin {
    fn new(samples: Vec<bool>) -> ScriptedPin {
        ScriptedPin { samples, pos: Cell::new(0) }
    }

    fn next_sample(&self) -> bool {
        let p = self.pos.get();
        self.pos.set(p + 1);
        if p < self.samples.len() {
            self.samples[p]
        } else {
            false
        }
    }
}

impl DataPin for ScriptedPin {
    fn is_low(&self) -> bool {
        !self.next_sample()
    }

    fn is_high(&self) -> bool {
        self.next_sample()
    }

    fn pin(&self) -> u8 {
        4
    }

    fn set_high(&mut self) {}

    fn set_low(&mut self) {}

    fn set_mode(&mut self, _mode: PinMode) {}

    fn sleep_micros(&mut self, _micros: u64) {}
}

/// Build the level stream that makes the decoder count exactly `lows[i]` low
/// cycles and `highs[i]` high cycles for each of the 41 pulse pairs. Each
/// phase change costs one sample of the next phase, which the runs below
/// compensate for.
fn build_stream(lows: &[u32; 41], highs: &[u32; 41]) -> Vec<bool> {
    let mut v = Vec::new();
    for _ in 0..lows[0] {
        v.push(false);
    }
    for i in 0..41 {
        for _ in 0..(highs[i] + 1) {
            v.push(true);
        }
        if i < 40 {
            for _ in 0..(lows[i + 1] + 1) {
                v.push(false);
            }
        } else {
            v.push(false);
        }
    }
    v
}

/// Level stream for a reading whose five data bytes are as given: all lows 50
/// cycles, a 1 bit is a 100-cycle high, a 0 bit a 20-cycle high.
fn stream_for_bytes(bytes: [u8; 5]) -> Vec<bool> {
    let lows = [50u32; 41];
    let mut highs = [20u32; 41];
    for bit in 0..40 {
        let byte = bytes[bit / 8];
        let mask = 0x80u8 >> (bit % 8);
        if byte & mask != 0 {
            highs[bit + 1] = 100;
        }
    }
    build_stream(&lows, &highs)
}

#[test]
fn test_loop_count_thing() {
    let mut b: u8 = 0;
    b <<= 1;
    b <<= 1;
    b |= 1;
    b <<= 1;
    b |= 1;
    b <<= 1;
    b |= 1;
    b <<= 1;
    b <<= 1;
    b |= 1;
    b <<= 1;
    b <<= 1;
    let x = f64::from(b);

    println!("x: {}", x);

    let tmp = (((234 as u16) + (134 as u16)) & 0xFF) as u8;
    println!("tmp: {}", tmp);
}

#[test]
fn test_read_positive_temperature() {
    // humidity 0x028C = 65.2%, temperature 0x015F = 35.1 C, checksum 0xEE.
    let pin = ScriptedPin::new(stream_for_bytes([0x02, 0x8C, 0x01, 0x5F, 0xEE]));
    let mut sensor = DHT22Sensor::from_pin(pin);
    match sensor.read() {
        Ok((temp, hum)) => {
            assert_eq!(temp, TemperatureCelsius(351));
            assert_eq!(hum, Humidity(652));
        }
        Err(e) => panic!("read failed: {:?}", e),
    }
}

#[test]
fn test_read_negative_temperature() {
    // byte 2 top bit set: temperature is the negated magnitude.
    // 0x02 + 0x8C + 0x81 + 0x5F = 0x16E, checksum 0x6E.
    let pin = ScriptedPin::new(stream_for_bytes([0x02, 0x8C, 0x81, 0x5F, 0x6E]));
    let mut sensor = DHT22Sensor::from_pin(pin);
    let (temp, hum) = sensor.read().unwrap();
    assert_eq!(temp, TemperatureCelsius(-351));
    assert_eq!(hum, Humidity(652));
}

#[test]
fn test_read_checksum_error() {
    // checksum byte off by one: 1 + 2 + 3 + 4 = 10, byte 4 claims 9.
    let pin = ScriptedPin::new(stream_for_bytes([1, 2, 3, 4, 9]));
    let mut sensor = DHT22Sensor::from_pin(pin);
    match sensor.read() {
        Err(SensorError::CheckSum(expected, computed)) => {
            assert_eq!(expected, 9);
            assert_eq!(computed, 10);
        }
        other => panic!("expected checksum error, got {:?}", other),
    }
}

#[test]
fn test_read_timeout() {
    // the line never leaves the low state: the 32000-cycle cap trips.
    let pin = ScriptedPin::new(vec![false; 40000]);
    let mut sensor = DHT22Sensor::from_pin(pin);
    match sensor.read() {
        Err(SensorError::KindMsg(kind, _)) => {
            assert_eq!(kind, gha::sensor::SensorErrorKind::ReadTimeout);
        }
        other => panic!("expected read timeout, got {:?}", other),
    }
}

#[test]
fn test_read_value_bounds() {
    // 80.1 C (0x0321) decodes but is rejected; checksum 0x03 + 0x21 = 0x24.
    let pin = ScriptedPin::new(stream_for_bytes([0x00, 0x00, 0x03, 0x21, 0x24]));
    let mut sensor = DHT22Sensor::from_pin(pin);
    match sensor.read() {
        Err(SensorError::ValueBounds(t)) => assert_eq!(t, TemperatureCelsius(801)),
        other => panic!("expected value bounds error, got {:?}", other),
    }
}

#[test]
fn test_check_value_bounds_limits() {
    // +-80.0 C accepted, +-80.1 C rejected.
    assert!(check_value_bounds(TemperatureCelsius(800), Humidity(500)).is_ok());
    assert!(check_value_bounds(TemperatureCelsius(-800), Humidity(500)).is_ok());
    match check_value_bounds(TemperatureCelsius(801), Humidity(500)) {
        Err(SensorError::ValueBounds(t)) => assert_eq!(t, TemperatureCelsius(801)),
        other => panic!("expected value bounds error, got {:?}", other),
    }
    match check_value_bounds(TemperatureCelsius(-801), Humidity(500)) {
        Err(SensorError::ValueBounds(t)) => assert_eq!(t, TemperatureCelsius(-801)),
        other => panic!("expected value bounds error, got {:?}", other),
    }
}

#[test]
fn test_checksum_bytes_accepts_valid_sum() {
    assert!(Reading::checksum_bytes(&[0x02, 0x8C, 0x01, 0x5F, 0xEE]).is_ok());
    // the sum wraps modulo 256: 200 + 200 + 200 + 200 = 800, low byte 0x20.
    assert!(Reading::checksum_bytes(&[200, 200, 200, 200, 0x20]).is_ok());
    assert!(Reading::checksum_bytes(&[0, 0, 0, 0, 0]).is_ok());
}

#[test]
fn test_checksum_bytes_reports_expected_and_computed() {
    match Reading::checksum_bytes(&[200, 200, 200, 200, 0x21]) {
        Err(SensorError::CheckSum(expected, computed)) => {
            assert_eq!(expected, 0x21);
            assert_eq!(computed, 0x20);
        }
        other => panic!("expected checksum error, got {:?}", other),
    }
}

#[test]
fn test_from_bytes_decodes_documented_formula() {
    // humidity = (byte0 * 256 + byte1) tenths, temperature likewise from
    // bytes 2 and 3, for every checksum-valid byte vector.
    let reading = Reading::from_bytes([0x01, 0x90, 0x00, 0xFA, 0x8B]).unwrap();
    let (temp, hum) = reading.decode();
    assert_eq!(hum, Humidity(0x0190));
    assert_eq!(temp, TemperatureCelsius(0x00FA));

    let bad = Reading::from_bytes([0x01, 0x90, 0x00, 0xFA, 0x8C]);
    match bad {
        Err(SensorError::CheckSum(expected, computed)) => {
            assert_eq!(expected, 0x8C);
            assert_eq!(computed, 0x8B);
        }
        other => panic!("expected checksum error, got {:?}", other),
    }
}

#[test]
fn test_round_trip_measurements() {
    let cases = [
        (0i32, 0u16),
        (351, 652),
        (-351, 652),
        (800, 1000),
        (-800, 1),
        (32767, 65535),
        (-32767, 12345),
    ];
    for (t, h) in cases {
        let reading = Reading::from_measurements(TemperatureCelsius(t), Humidity(h));
        let (temp, hum) = reading.decode();
        assert_eq!(temp, TemperatureCelsius(t));
        assert_eq!(hum, Humidity(h));
    }
}

#[test]
fn test_bit_threshold_boundary() {
    // all valid lows are 50, so the threshold is exactly 50: a high count
    // equal to the threshold decodes to 1, one cycle less decodes to 0, and
    // one above to 1.
    let mut counts = [0u32; 82];
    for i in 1..41 {
        counts[2 * i] = 50;
        counts[2 * i + 1] = 20;
    }
    // bit 0 at the threshold, bit 1 just below, bit 2 just above:
    // byte 0 = 0b1010_0000 = 0xA0.
    counts[3] = 50;
    counts[5] = 49;
    counts[7] = 51;
    // checksum byte: 0xA0 = 0b1010_0000, bits 32 and 34.
    counts[2 * 33 + 1] = 100;
    counts[2 * 35 + 1] = 100;
    let pulses = Pulses::from_counts(counts);
    let reading = Reading::from_pulses(&pulses).unwrap();
    let (temp, hum) = reading.decode();
    assert_eq!(hum, Humidity(0xA0 * 256));
    assert_eq!(temp, TemperatureCelsius(0));
}

#[test]
fn test_pulses_low_high_skip_first_pair() {
    let mut counts = [0u32; 82];
    for i in 0..82 {
        counts[i] = i as u32;
    }
    let pulses = Pulses::from_counts(counts);
    let lows = pulses.low();
    let highs = pulses.high();
    assert_eq!(lows.len(), 40);
    assert_eq!(highs.len(), 40);
    for j in 0..40 {
        assert_eq!(lows[j], (2 + 2 * j) as u32);
        assert_eq!(highs[j], (3 + 2 * j) as u32);
    }
}

#[test]
fn test_from_data_pin_counts_match_script() {
    let mut lows = [50u32; 41];
    let mut highs = [20u32; 41];
    lows[5] = 75;
    highs[7] = 123;
    let pin = ScriptedPin::new(build_stream(&lows, &highs));
    let pulses = Pulses::from_data_pin(&pin).unwrap();
    let got_lows = pulses.low();
    let got_highs = pulses.high();
    // low()/high() skip the first pair, so script index j + 1 lines up with
    // vector index j.
    for j in 0..40 {
        assert_eq!(got_lows[j], lows[j + 1]);
        assert_eq!(got_highs[j], highs[j + 1]);
    }
}
