//! DHT22 one-wire protocol decoder: raw pulse cycle counts to validated bytes
//! to temperature and humidity.

use vstd::prelude::*;

use crate::sensor::{DataPin, Humidity, PinMode, SensorError, SensorErrorKind, TemperatureCelsius};

verus! {

/// Hard cap on the cycles spent waiting for one pulse phase; reaching it means
/// the pin failed to transition in time and the read must be retried.
pub const DHT_MAX_COUNT: u32 = 32000;

/// Number of low/high pulse pairs captured per read; the first pair is an
/// artifact of the pin's initial state and carries no data.
pub const DHT_PULSES: usize = 41;

/// Number of data bytes in one sensor reading, checksum included.
pub const DATA_SIZE: usize = 5;

/// Sum of a sequence of cycle counts.
pub open spec fn sum_counts(s: Seq<u32>) -> int
    decreases s.len(),
{
    if s.len() == 0 {
        0
    } else {
        sum_counts(s.drop_last()) + s.last()
    }
}

/// The bit threshold: average of the 40 valid low-phase cycle counts.
pub open spec fn pulse_threshold(lows: Seq<u32>) -> int {
    sum_counts(lows) / 40
}

/// The bit a high-phase cycle count decodes to: 1 when the count reaches the
/// threshold (a count equal to the threshold decodes to 1), else 0.
pub open spec fn pulse_bit(count: u32, threshold: int) -> int {
    if count >= threshold {
        1
    } else {
        0
    }
}

/// Two to the power `n`.
pub open spec fn two_pow(n: nat) -> nat
    decreases n,
{
    if n == 0 {
        1
    } else {
        2 * two_pow((n - 1) as nat)
    }
}

/// The value of the `n` bits decoded from `highs[start .. start + n]`, most
/// significant bit first.
pub open spec fn packed_bits(highs: Seq<u32>, threshold: int, start: int, n: nat) -> int
    decreases n,
{
    if n == 0 {
        0
    } else {
        packed_bits(highs, threshold, start, (n - 1) as nat) * 2 + pulse_bit(
            highs[start + n - 1],
            threshold,
        )
    }
}

/// The value of data byte `b`, packed from high-phase counts `8b .. 8b + 8`.
pub open spec fn packed_byte(highs: Seq<u32>, threshold: int, b: int) -> int {
    packed_bits(highs, threshold, 8 * b, 8)
}

pub proof fn lemma_two_pow_pos(n: nat)
    ensures
        two_pow(n) >= 1,
    decreases n,
{
    if n > 0 {
        lemma_two_pow_pos((n - 1) as nat);
    }
}

pub proof fn lemma_two_pow_monotone(a: nat, b: nat)
    requires
        a <= b,
    ensures
        two_pow(a) <= two_pow(b),
    decreases b,
{
    if a < b {
        lemma_two_pow_monotone(a, (b - 1) as nat);
        lemma_two_pow_pos((b - 1) as nat);
    }
}

/// Packed bit strings are bounded by the bit width.
pub proof fn lemma_packed_bits_bound(highs: Seq<u32>, threshold: int, start: int, n: nat)
    ensures
        0 <= packed_bits(highs, threshold, start, n) < two_pow(n),
    decreases n,
{
    if n > 0 {
        lemma_packed_bits_bound(highs, threshold, start, (n - 1) as nat);
    }
}

/// Bit decoding is monotone in the high-phase cycle count: counts above the
/// threshold give 1, counts below give 0, and a count exactly at the threshold
/// gives 1.
pub proof fn lemma_bit_threshold_monotonic(count: u32, threshold: int)
    ensures
        count > threshold ==> pulse_bit(count, threshold) == 1,
        count < threshold ==> pulse_bit(count, threshold) == 0,
        count == threshold ==> pulse_bit(count, threshold) == 1,
{
}

/// Cycle counts of how long the sensor data pin spent in the low and high
/// states, for 41 low/high transitions (82 counts, low and high interleaved).
///
/// The counts decode to 40 bits of information; the first low/high pair is
/// discarded.
#[derive(Debug)]
pub struct Pulses {
    counts: [u32; 82],
}

/// The 40 valid low-phase counts: every second count, the first pair skipped.
pub open spec fn low_counts(counts: Seq<u32>) -> Seq<u32> {
    Seq::new(40, |j: int| counts[2 + 2 * j])
}

/// The 40 valid high-phase counts: every second count, the first pair skipped.
pub open spec fn high_counts(counts: Seq<u32>) -> Seq<u32> {
    Seq::new(40, |j: int| counts[3 + 2 * j])
}

impl Pulses {
    /// The raw cycle counts, low and high interleaved.
    pub closed spec fn spec_counts(&self) -> Seq<u32> {
        self.counts@
    }

    /// Wrap already-measured cycle counts.
    pub fn from_counts(counts: [u32; 82]) -> (r: Pulses)
        ensures
            r.spec_counts() == counts@,
    {
        Pulses { counts }
    }

    /// Count the number of cycles the given pin spends in the low and high
    /// states for 41 low/high transitions.
    ///
    /// An error is returned if the pin did not transition in time; the read
    /// has to be retried in that case.
    ///
    /// This method assumes the pin has already been prepared for reading by
    /// sending an initial high-low-high transition with timings corresponding
    /// to the DHT22 datasheet.
    pub fn from_data_pin<P: DataPin>(pin: &P) -> (r: Result<Pulses, SensorError>)
        ensures
            r matches Ok(pulses) ==> forall|j: int|
                0 <= j < 82 ==> pulses.spec_counts()[j] < DHT_MAX_COUNT,
            r matches Err(e) ==> e matches SensorError::KindMsg(SensorErrorKind::ReadTimeout, _),
    {
        let mut counts: [u32; 82] = [0; 82];
        let mut i: usize = 0;
        while i < 82
            invariant
                i <= 82,
                i % 2 == 0,
                counts@.len() == 82,
                forall|j: int| 0 <= j < i ==> counts@[j] < DHT_MAX_COUNT,
            decreases 82 - i,
        {
            let mut low: u32 = 0;
            while pin.is_low()
                invariant
                    low < DHT_MAX_COUNT,
                decreases DHT_MAX_COUNT - low,
            {
                low = low + 1;
                if low >= DHT_MAX_COUNT {
                    return Err(
                        SensorError::KindMsg(
                            SensorErrorKind::ReadTimeout,
                            "timeout waiting for low pulse capture",
                        ),
                    );
                }
            }
            counts[i] = low;

            let mut high: u32 = 0;
            while pin.is_high()
                invariant
                    high < DHT_MAX_COUNT,
                decreases DHT_MAX_COUNT - high,
            {
                high = high + 1;
                if high >= DHT_MAX_COUNT {
                    return Err(
                        SensorError::KindMsg(
                            SensorErrorKind::ReadTimeout,
                            "timeout waiting for high pulse capture",
                        ),
                    );
                }
            }
            counts[i + 1] = high;

            i = i + 2;
        }
        Ok(Pulses { counts })
    }

    /// The 40 valid cycle counts for the pin in the low state.
    ///
    /// The first low/high pair is skipped: the pin starts in the low state
    /// when reading data, so the first count is an artifact.
    pub fn low(&self) -> (r: Vec<u32>)
        ensures
            r@ == low_counts(self.spec_counts()),
    {
        let mut v: Vec<u32> = Vec::new();
        let mut i: usize = 2;
        while i < 82
            invariant
                2 <= i <= 83,
                i % 2 == 0,
                v@.len() == (i - 2) / 2,
                forall|j: int| 0 <= j < v@.len() ==> v@[j] == self.spec_counts()[2 + 2 * j],
            decreases 82 - i,
        {
            v.push(self.counts[i]);
            i = i + 2;
        }
        proof {
            assert(v@ =~= low_counts(self.spec_counts()));
        }
        v
    }

    /// The 40 valid cycle counts for the pin in the high state.
    ///
    /// The first low/high pair is skipped, as for the low counts.
    pub fn high(&self) -> (r: Vec<u32>)
        ensures
            r@ == high_counts(self.spec_counts()),
    {
        let mut v: Vec<u32> = Vec::new();
        let mut i: usize = 3;
        while i < 82
            invariant
                3 <= i <= 83,
                i % 2 == 1,
                v@.len() == (i - 3) / 2,
                forall|j: int| 0 <= j < v@.len() ==> v@[j] == self.spec_counts()[3 + 2 * j],
            decreases 83 - i,
        {
            v.push(self.counts[i]);
            i = i + 2;
        }
        proof {
            assert(v@ =~= high_counts(self.spec_counts()));
        }
        v
    }
}

/// The checksum owed by a valid reading: the sum of the first four data bytes
/// modulo 256.
pub open spec fn spec_checksum(b0: u8, b1: u8, b2: u8, b3: u8) -> int {
    (b0 + b1 + b2 + b3) % 256
}

/// The humidity a reading's bytes encode, in tenths of a percent: the first
/// two bytes as a big-endian 16-bit value.
pub open spec fn spec_humidity(bytes: Seq<u8>) -> int {
    bytes[0] * 256 + bytes[1]
}

/// The temperature a reading's bytes encode, in tenths of a degree celsius:
/// bytes 2 and 3 as a big-endian 15-bit magnitude, negated when the top bit of
/// byte 2 is set.
pub open spec fn spec_temperature(bytes: Seq<u8>) -> int {
    let mag = (bytes[2] % 128) * 256 + bytes[3];
    if bytes[2] >= 128 {
        -mag
    } else {
        mag
    }
}

/// Bytes read from a sensor, computed from high/low pulse cycle counts.
///
/// The bytes make up humidity data, temperature data, and a checksum that is
/// validated on construction, so a `Reading` always converts to a temperature
/// and humidity.
#[derive(Debug)]
pub struct Reading {
    bytes: [u8; 5],
}

impl Reading {
    /// The five data bytes: humidity hi/lo, temperature hi/lo, checksum.
    pub closed spec fn spec_bytes(&self) -> Seq<u8> {
        self.bytes@
    }

    /// Validate the checksum byte: the last byte must equal the sum of the
    /// first four modulo 256; on mismatch, the error carries the expected
    /// (read) and computed values.
    pub fn checksum_bytes(bytes: &[u8; 5]) -> (r: Result<(), SensorError>)
        ensures
            r is Ok <==> bytes@[4] == spec_checksum(bytes@[0], bytes@[1], bytes@[2], bytes@[3]),
            r is Err ==> r == Err::<(), SensorError>(
                SensorError::CheckSum(
                    bytes@[4],
                    spec_checksum(bytes@[0], bytes@[1], bytes@[2], bytes@[3]) as u8,
                ),
            ),
    {
        let expected = bytes[4];
        let sum: u16 = bytes[0] as u16 + bytes[1] as u16 + bytes[2] as u16 + bytes[3] as u16;
        let computed: u8 = (sum & 0xFF) as u8;
        proof {
            assert(sum & 0xFF == sum % 256) by (bit_vector);
        }
        if computed != expected {
            Err(SensorError::CheckSum(expected, computed))
        } else {
            Ok(())
        }
    }

    /// Wrap five already-read bytes, validating the checksum.
    pub fn from_bytes(bytes: [u8; 5]) -> (r: Result<Reading, SensorError>)
        ensures
            r is Ok <==> bytes@[4] == spec_checksum(bytes@[0], bytes@[1], bytes@[2], bytes@[3]),
            r matches Ok(reading) ==> reading.spec_bytes() == bytes@,
            r is Err ==> r == Err::<Reading, SensorError>(
                SensorError::CheckSum(
                    bytes@[4],
                    spec_checksum(bytes@[0], bytes@[1], bytes@[2], bytes@[3]) as u8,
                ),
            ),
    {
        match Self::checksum_bytes(&bytes) {
            Ok(()) => Ok(Reading { bytes }),
            Err(e) => Err(e),
        }
    }

    /// Decode pulse cycle counts into the five data bytes.
    ///
    /// The threshold is the average of the 40 valid low-phase counts; each
    /// high-phase count at or above it decodes to a 1 bit, below it to a 0
    /// bit; bits pack into bytes most significant bit first. The checksum is
    /// then validated.
    pub fn from_pulses(pulses: &Pulses) -> (r: Result<Reading, SensorError>)
        ensures
            ({
                let counts = pulses.spec_counts();
                let t = pulse_threshold(low_counts(counts));
                let highs = high_counts(counts);
                let d0 = packed_byte(highs, t, 0);
                let d1 = packed_byte(highs, t, 1);
                let d2 = packed_byte(highs, t, 2);
                let d3 = packed_byte(highs, t, 3);
                let d4 = packed_byte(highs, t, 4);
                let chk = (d0 + d1 + d2 + d3) % 256;
                &&& r is Ok <==> d4 == chk
                &&& (r matches Ok(reading) ==> {
                    &&& reading.spec_bytes().len() == 5
                    &&& forall|x: int|
                        0 <= x < 5 ==> reading.spec_bytes()[x] == packed_byte(highs, t, x)
                })
                &&& (r matches Err(e) ==> e == SensorError::CheckSum(d4 as u8, chk as u8))
            }),
    {
        let lows = pulses.low();
        let highs = pulses.high();

        let mut sum: u64 = 0;
        let mut k: usize = 0;
        while k < 40
            invariant
                k <= 40,
                lows@.len() == 40,
                sum == sum_counts(lows@.take(k as int)),
                sum <= k * 0xFFFF_FFFFu64,
            decreases 40 - k,
        {
            proof {
                assert(lows@.take(k as int + 1).drop_last() =~= lows@.take(k as int));
            }
            sum = sum + lows[k] as u64;
            k = k + 1;
        }
        proof {
            assert(lows@.take(40) =~= lows@);
        }
        let threshold: u64 = sum / 40;

        let mut bytes: [u8; 5] = [0; 5];
        let mut b: usize = 0;
        while b < 5
            invariant
                b <= 5,
                highs@.len() == 40,
                bytes@.len() == 5,
                forall|x: int| 0 <= x < b ==> bytes@[x] == packed_byte(highs@, threshold as int, x),
            decreases 5 - b,
        {
            let v = compute_byte(&highs, threshold, b);
            bytes[b] = v;
            b = b + 1;
        }

        proof {
            assert(lows@ == low_counts(pulses.spec_counts()));
            assert(highs@ == high_counts(pulses.spec_counts()));
            reveal_with_fuel(two_pow, 10);
            lemma_packed_bits_bound(highs@, threshold as int, 32, 8);
        }
        match Self::checksum_bytes(&bytes) {
            Ok(()) => Ok(Reading { bytes }),
            Err(e) => Err(e),
        }
    }

    /// Convert a reading into temperature and humidity measurements.
    ///
    /// This conversion always succeeds because the checksum enforced during
    /// creation of a `Reading` ensures the bytes read from the sensor are
    /// valid.
    pub fn decode(&self) -> (r: (TemperatureCelsius, Humidity))
        ensures
            r.0.0 == spec_temperature(self.spec_bytes()),
            r.1.0 == spec_humidity(self.spec_bytes()),
    {
        let humidity_raw: u16 = (self.bytes[0] as u16) * 256 + (self.bytes[1] as u16);
        let b2 = self.bytes[2];
        let masked: u8 = b2 & 0x7f;
        proof {
            assert(b2 & 0x7f == b2 % 128) by (bit_vector);
            assert((b2 & 0x80 != 0) <==> b2 >= 128) by (bit_vector);
        }
        let temp_raw: u16 = (masked as u16) * 256 + (self.bytes[3] as u16);
        let mut temp: i32 = temp_raw as i32;
        if b2 & 0x80 != 0 {
            temp = -temp;
        }
        (TemperatureCelsius(temp), Humidity(humidity_raw))
    }

    /// Encode a temperature and humidity into the DHT22 byte layout, checksum
    /// included; decoding the result recovers both values exactly.
    pub fn from_measurements(temp: TemperatureCelsius, humidity: Humidity) -> (r: Reading)
        requires
            -32767 <= temp.0 <= 32767,
        ensures
            spec_temperature(r.spec_bytes()) == temp.0,
            spec_humidity(r.spec_bytes()) == humidity.0,
            r.spec_bytes()[4] == spec_checksum(
                r.spec_bytes()[0],
                r.spec_bytes()[1],
                r.spec_bytes()[2],
                r.spec_bytes()[3],
            ),
    {
        let b0: u8 = (humidity.0 / 256) as u8;
        let b1: u8 = (humidity.0 % 256) as u8;
        let neg = temp.0 < 0;
        let mag: u16 = if neg {
            (-temp.0) as u16
        } else {
            temp.0 as u16
        };
        let hi: u8 = (mag / 256) as u8;
        let b2: u8 = if neg {
            hi | 0x80
        } else {
            hi
        };
        let b3: u8 = (mag % 256) as u8;
        proof {
            assert(hi <= 127 ==> ((hi | 0x80) % 128 == hi && (hi | 0x80) >= 128)) by (bit_vector);
        }
        let sum: u16 = b0 as u16 + b1 as u16 + b2 as u16 + b3 as u16;
        let b4: u8 = (sum % 256) as u8;
        let mut bytes: [u8; 5] = [0; 5];
        bytes[0] = b0;
        bytes[1] = b1;
        bytes[2] = b2;
        bytes[3] = b3;
        bytes[4] = b4;
        Reading { bytes }
    }
}

/// Compute data byte `b` from the 40 high-phase counts: bits at or above the
/// threshold are 1, packed most significant bit first.
fn compute_byte(highs: &Vec<u32>, threshold: u64, b: usize) -> (r: u8)
    requires
        highs@.len() == 40,
        b < 5,
    ensures
        r == packed_byte(highs@, threshold as int, b as int),
{
    let mut cur: u8 = 0;
    let mut j: usize = 0;
    while j < 8
        invariant
            j <= 8,
            b < 5,
            highs@.len() == 40,
            cur as int == packed_bits(highs@, threshold as int, 8 * (b as int), j as nat),
            (cur as nat) < two_pow(j as nat),
        decreases 8 - j,
    {
        proof {
            lemma_two_pow_monotone(j as nat, 7);
            reveal_with_fuel(two_pow, 10);
        }
        let v = highs[8 * b + j];
        cur = cur * 2;
        if (v as u64) >= threshold {
            cur = cur + 1;
        }
        j = j + 1;
    }
    cur
}

/// Reject decoded temperatures outside the plausible [-80 C, 80 C] range.
pub fn check_value_bounds(temp: TemperatureCelsius, humidity: Humidity) -> (r: Result<
    (TemperatureCelsius, Humidity),
    SensorError,
>)
    ensures
        -800 <= temp.0 <= 800 ==> r == Ok::<(TemperatureCelsius, Humidity), SensorError>(
            (temp, humidity),
        ),
        !(-800 <= temp.0 <= 800) ==> r == Err::<(TemperatureCelsius, Humidity), SensorError>(
            SensorError::ValueBounds(temp),
        ),
{
    if temp.0 > 800 || temp.0 < -800 {
        Err(SensorError::ValueBounds(temp))
    } else {
        Ok((temp, humidity))
    }
}

/// Read temperature in degrees celsius and relative humidity from a DHT22
/// sensor over a GPIO data line.
pub struct DHT22Sensor<P: DataPin> {
    pin: P,
}

impl<P: DataPin> DHT22Sensor<P> {
    /// Wrap a data pin.
    pub fn from_pin(pin: P) -> DHT22Sensor<P> {
        DHT22Sensor { pin }
    }

    /// Send the wake sequence from the DHT22 datasheet: high to wake the
    /// sensor from low-power mode, low for long enough that the sensor
    /// detects the start of the read, then high briefly before listening.
    fn prepare_for_read(&mut self) {
        self.pin.set_mode(PinMode::Output);
        self.pin.set_high();
        self.pin.sleep_micros(10000);
        self.pin.set_low();
        self.pin.sleep_micros(20000);
        self.pin.set_high();
        self.pin.sleep_micros(30);
        self.pin.set_mode(PinMode::Input);
    }

    /// Read temperature and humidity from the sensor, or return an error with
    /// details about what caused the read to fail; every error is retryable.
    pub fn read(&mut self) -> (r: Result<(TemperatureCelsius, Humidity), SensorError>)
        ensures
            r matches Ok(m) ==> -800 <= m.0.0 <= 800,
            r matches Err(e) ==> (e matches SensorError::KindMsg(SensorErrorKind::ReadTimeout, _)
                || e is CheckSum || e is ValueBounds),
    {
        self.prepare_for_read();
        let pulses = match Pulses::from_data_pin(&self.pin) {
            Ok(p) => p,
            Err(e) => { return Err(e); },
        };
        let data = match Reading::from_pulses(&pulses) {
            Ok(d) => d,
            Err(e) => { return Err(e); },
        };
        let (temp, hum) = data.decode();
        check_value_bounds(temp, hum)
    }
}

} // verus!
