//! Sensor management: per-sensor gauges, the polling task cycle with retry
//! backoff and board power-cycling, the switch and output-pin registries, and
//! the hysteresis automation decisions.

use vstd::prelude::*;

use crate::config::{DhtConfig, GHAConfig, SwitchDevice};
use crate::error::{GHAError, PinError};
use crate::sensor::{DataPin, Humidity, SensorError, TemperatureCelsius};

verus! {

/// The calibration offset to apply: the configured value, or 0.
pub open spec fn spec_offset(o: Option<i32>) -> int {
    match o {
        Some(v) => v as int,
        None => 0,
    }
}

/// The temperature a gauge records for a raw reading: the reading plus the
/// sensor's configured offset, in tenths of a degree celsius.
pub open spec fn spec_adjusted_temp_c(config: DhtConfig, t: TemperatureCelsius) -> int {
    t.0 + spec_offset(config.temp_offset)
}

/// Tenths of a degree celsius converted to fiftieths of a degree fahrenheit:
/// `f = c * 9/5 + 32` scaled so the result is exact in integers.
pub open spec fn spec_temp_f_fiftieths(temp_c_tenths: int) -> int {
    9 * temp_c_tenths + 1600
}

/// The humidity a gauge records for a raw reading: the reading plus the
/// sensor's configured offset, in tenths of a percent.
pub open spec fn spec_adjusted_humidity(config: DhtConfig, h: Humidity) -> int {
    h.0 + spec_offset(config.humidity_offset)
}

/// Latest validated measurements of one sensor, offsets applied.
///
/// Temperatures are held in tenths of a degree celsius and in fiftieths of a
/// degree fahrenheit (both exact for every reportable reading), humidity in
/// tenths of a percent. `initialized` is false until the first good reading.
#[derive(Debug, Clone)]
pub struct DhtGauge {
    pub config: DhtConfig,
    pub initialized: bool,
    pub temp_c_tenths: i64,
    pub temp_f_fiftieths: i64,
    pub humidity_tenths: i64,
}

impl DhtGauge {
    /// A fresh gauge for one configured sensor: uninitialized, all values zero.
    pub fn new(config: DhtConfig) -> (r: DhtGauge)
        ensures
            r.config == config,
            r.initialized == false,
            r.temp_c_tenths == 0,
            r.temp_f_fiftieths == 0,
            r.humidity_tenths == 0,
    {
        DhtGauge { config, initialized: false, temp_c_tenths: 0, temp_f_fiftieths: 0, humidity_tenths: 0 }
    }

    /// Record a validated reading: apply the per-sensor offsets and update all
    /// three values as one unit. Only validated readings reach this method, so
    /// a failed read never overwrites the previous good values.
    pub fn set_good_values(&mut self, temp_c: TemperatureCelsius, humidity: Humidity)
        ensures
            final(self).config == old(self).config,
            final(self).initialized == old(self).initialized,
            final(self).temp_c_tenths == spec_adjusted_temp_c(old(self).config, temp_c),
            final(self).temp_f_fiftieths == spec_temp_f_fiftieths(
                spec_adjusted_temp_c(old(self).config, temp_c),
            ),
            final(self).humidity_tenths == spec_adjusted_humidity(old(self).config, humidity),
    {
        let t_off: i64 = match self.config.temp_offset {
            Some(v) => v as i64,
            None => 0,
        };
        let tc: i64 = temp_c.0 as i64 + t_off;
        let tf: i64 = 9 * tc + 1600;
        let h_off: i64 = match self.config.humidity_offset {
            Some(v) => v as i64,
            None => 0,
        };
        let hu: i64 = humidity.0 as i64 + h_off;
        self.temp_c_tenths = tc;
        self.temp_f_fiftieths = tf;
        self.humidity_tenths = hu;
    }
}

/// The polling task of one sensor; created once at startup and cycled
/// enqueue, dequeue, process, re-enqueue for the process lifetime.
#[derive(Debug, Clone)]
pub struct DhtReadingTask {
    /// The GPIO pin of the polled sensor.
    pub sensor_pin: u32,
    /// Consecutive failed reads since the last good one.
    pub retries: i32,
    /// When the last good reading was taken, in milliseconds; 0 means never.
    pub last_good_reading: u64,
    /// How long without a good reading before the board is power-cycled,
    /// in milliseconds.
    pub max_bad_reading_duration: i32,
}

impl DhtReadingTask {
    /// Counters never go negative.
    pub open spec fn wf(&self) -> bool {
        &&& 0 <= self.retries
        &&& 0 <= self.max_bad_reading_duration
    }

    /// A fresh task: no retries, no good reading yet, one minute staleness
    /// allowance.
    pub fn new(sensor_pin: u32) -> (r: DhtReadingTask)
        ensures
            r.sensor_pin == sensor_pin,
            r.retries == 0,
            r.last_good_reading == 0,
            r.max_bad_reading_duration == 60 * 1000,
            r.wf(),
    {
        DhtReadingTask { sensor_pin, retries: 0, last_good_reading: 0, max_bad_reading_duration: 60 * 1000 }
    }
}

/// What one pass over a task observed: the sensor board was off, the sensor's
/// pin could not be opened, or a read was attempted with the given outcome.
#[derive(Debug)]
pub enum ReadCycleEvent {
    BoardOff,
    PinUnavailable,
    Read(Result<(TemperatureCelsius, Humidity), SensorError>),
}

/// What the worker must do after one pass: power-cycle the sensor board, and
/// re-enqueue the task after the given delay.
#[derive(Debug, Clone, Copy, PartialEq, Eq, Structural)]
pub struct CycleAction {
    pub power_cycle: bool,
    pub requeue_delay_millis: u64,
}

/// Whether the pass's read cycle failed: the pin could not be opened, or the
/// read itself returned an error.
pub open spec fn spec_cycle_failed(event: ReadCycleEvent) -> bool {
    match event {
        ReadCycleEvent::BoardOff => false,
        ReadCycleEvent::PinUnavailable => true,
        ReadCycleEvent::Read(outcome) => outcome is Err,
    }
}

/// Whether a sensor's readings have gone stale: a good reading was ever taken,
/// and it is longer ago than the allowed duration.
pub open spec fn spec_reading_stale(last_good: u64, max_dur: i32, now: u64) -> bool {
    last_good > 0 && now > last_good + max_dur
}

/// Process one pass over a sensor task.
///
/// When the board is off the read is skipped and the task is requeued
/// unchanged after 3s; nothing else happens. Otherwise a read cycle ran (or
/// failed to start because the pin could not be opened, which counts as a
/// failed cycle): a success resets the retry counter, marks the gauge
/// initialized, records the offset-adjusted values and stamps the time; a
/// failure only increments the retry counter and leaves the gauge untouched.
/// The board is power-cycled exactly when the readings were already stale
/// going into this pass, independent of this pass's own outcome, and the task
/// is requeued after 3s while it is retrying, else after 10s. As long as the
/// clock moves forward, `last_good_reading` never decreases.
pub fn plan_task_cycle(
    task: &mut DhtReadingTask,
    gauge: &mut DhtGauge,
    event: ReadCycleEvent,
    now_millis: u64,
) -> (r: CycleAction)
    requires
        old(task).wf(),
        old(task).retries < i32::MAX,
    ensures
        final(task).wf(),
        final(task).sensor_pin == old(task).sensor_pin,
        final(task).max_bad_reading_duration == old(task).max_bad_reading_duration,
        now_millis >= old(task).last_good_reading ==> final(task).last_good_reading >= old(
            task,
        ).last_good_reading,
        event is BoardOff ==> *final(task) == *old(task) && *final(gauge) == *old(gauge)
            && r == (CycleAction { power_cycle: false, requeue_delay_millis: 3000 }),
        !(event is BoardOff) ==> {
            &&& (event matches ReadCycleEvent::Read(outcome) ==> outcome matches Ok(m) ==> {
                &&& final(task).retries == 0
                &&& final(task).last_good_reading == now_millis
                &&& final(gauge).config == old(gauge).config
                &&& final(gauge).initialized == true
                &&& final(gauge).temp_c_tenths == spec_adjusted_temp_c(old(gauge).config, m.0)
                &&& final(gauge).temp_f_fiftieths == spec_temp_f_fiftieths(
                    spec_adjusted_temp_c(old(gauge).config, m.0),
                )
                &&& final(gauge).humidity_tenths == spec_adjusted_humidity(old(gauge).config, m.1)
            })
            &&& (spec_cycle_failed(event) ==> final(task).retries == old(task).retries + 1
                && final(task).last_good_reading == old(task).last_good_reading
                && *final(gauge) == *old(gauge))
            &&& r.power_cycle == spec_reading_stale(
                old(task).last_good_reading,
                old(task).max_bad_reading_duration,
                now_millis,
            )
            &&& r.requeue_delay_millis == (if final(task).retries > 0 { 3000u64 } else { 10000u64 })
        },
{
    match event {
        ReadCycleEvent::BoardOff => CycleAction { power_cycle: false, requeue_delay_millis: 3000 },
        other => {
            let stale = task.last_good_reading > 0 && now_millis > task.last_good_reading
                && now_millis - task.last_good_reading > task.max_bad_reading_duration as u64;
            match other {
                ReadCycleEvent::Read(Ok((temp, hum))) => {
                    task.retries = 0;
                    gauge.initialized = true;
                    gauge.set_good_values(temp, hum);
                    task.last_good_reading = now_millis;
                },
                _ => {
                    task.retries = task.retries + 1;
                },
            }
            let delay: u64 = if task.retries > 0 { 3000 } else { 10000 };
            CycleAction { power_cycle: stale, requeue_delay_millis: delay }
        },
    }
}

/// Whether the fan side of the hysteresis calls for heat handling, over the
/// sum of the two inside temperatures in fiftieths of a degree fahrenheit
/// (so `sum > 9000` means the average exceeds 90 F): the fan runs when the
/// average exceeds 90 F, keeps running until the average drops to 85 F, and
/// inside the 85-90 band the current state latches.
pub open spec fn spec_fan_hot(fan_on: bool, sum_tf_fiftieths: int) -> bool {
    (fan_on || sum_tf_fiftieths > 9000) && sum_tf_fiftieths > 8500
}

/// Whether the heater side of the hysteresis calls for cold handling, over
/// the same scaled sum: the heater runs when the average is at or below 50 F,
/// keeps running until the average reaches 60 F, and inside the 50-60 band
/// the current state latches.
pub open spec fn spec_heater_cold(heater_on: bool, sum_tf_fiftieths: int) -> bool {
    (heater_on || sum_tf_fiftieths <= 5000) && sum_tf_fiftieths < 6000
}

/// Decide whether the fans should run, from the current fan state and the two
/// inside temperatures in fiftieths of a degree fahrenheit.
pub fn fan_control_decision(is_fan_on: bool, upper_tf_fiftieths: i64, lower_tf_fiftieths: i64) -> (r:
    bool)
    ensures
        r == spec_fan_hot(is_fan_on, upper_tf_fiftieths + lower_tf_fiftieths),
{
    let sum: i128 = upper_tf_fiftieths as i128 + lower_tf_fiftieths as i128;
    let mut is_hot = is_fan_on || sum > 9000;
    if sum <= 8500 {
        is_hot = false;
    }
    is_hot
}

/// Decide whether the heater should run, from the current heater state and
/// the two inside temperatures in fiftieths of a degree fahrenheit.
pub fn heater_control_decision(
    is_heater_on: bool,
    upper_tf_fiftieths: i64,
    lower_tf_fiftieths: i64,
) -> (r: bool)
    ensures
        r == spec_heater_cold(is_heater_on, upper_tf_fiftieths + lower_tf_fiftieths),
{
    let sum: i128 = upper_tf_fiftieths as i128 + lower_tf_fiftieths as i128;
    let mut is_cold = is_heater_on || sum <= 5000;
    if sum >= 6000 {
        is_cold = false;
    }
    is_cold
}

/// The fan hysteresis over the 85/90 F thresholds: at or below an average of
/// 85 F the fan is off, above 90 F it is on, and inside the band the current
/// state is the deciding vote.
pub proof fn lemma_fan_hysteresis(fan_on: bool, sum_tf_fiftieths: int)
    ensures
        sum_tf_fiftieths <= 8500 ==> !spec_fan_hot(fan_on, sum_tf_fiftieths),
        sum_tf_fiftieths > 9000 ==> spec_fan_hot(fan_on, sum_tf_fiftieths),
        8500 < sum_tf_fiftieths <= 9000 ==> spec_fan_hot(fan_on, sum_tf_fiftieths) == fan_on,
{
}

/// The heater hysteresis over the 50/60 F thresholds: at or below an average
/// of 50 F the heater is on, at or above 60 F it is off, and inside the band
/// the current state is the deciding vote.
pub proof fn lemma_heater_hysteresis(heater_on: bool, sum_tf_fiftieths: int)
    ensures
        sum_tf_fiftieths <= 5000 ==> spec_heater_cold(heater_on, sum_tf_fiftieths),
        sum_tf_fiftieths >= 6000 ==> !spec_heater_cold(heater_on, sum_tf_fiftieths),
        5000 < sum_tf_fiftieths < 6000 ==> spec_heater_cold(heater_on, sum_tf_fiftieths)
            == heater_on,
{
}

/// Relies on str's PartialEq: two string slices are equal exactly when their
/// character sequences are.
#[verifier::external_body]
fn str_eq(a: &str, b: &str) -> (r: bool)
    ensures
        r == (a@ == b@),
{
    a == b
}

/// Automation intent and last known physical level of one switch, tracked
/// independently of the pin itself.
#[derive(Debug, Clone, PartialEq)]
pub struct SwitchState {
    pub name: String,
    pub pin_num: u32,
    pub is_auto: bool,
    pub override_auto: bool,
    pub pin_state: Option<u32>,
}

/// An exact duplicate of a switch state.
fn copy_switch_state(s: &SwitchState) -> (r: SwitchState)
    ensures
        r == *s,
{
    SwitchState {
        name: s.name.clone(),
        pin_num: s.pin_num,
        is_auto: s.is_auto,
        override_auto: s.override_auto,
        pin_state: s.pin_state,
    }
}

/// Whether some entry carries the given pin number.
pub open spec fn spec_has_pin_switch(s: Seq<SwitchState>, pin: u32) -> bool {
    exists|i: int| 0 <= i < s.len() && s[i].pin_num == pin
}

/// The state a switch starts in for its configured device: automation intent
/// from the config (defaulting to manual), no override, level unknown.
pub open spec fn spec_initial_state(d: SwitchDevice, st: SwitchState) -> bool {
    &&& st.name@ == d.name@
    &&& st.pin_num == d.gpio_pin
    &&& st.is_auto == (match d.auto {
        Some(a) => a,
        None => false,
    })
    &&& st.override_auto == false
    &&& st.pin_state is None
}

/// Whether the state is the initial state of the last given device on its
/// pin; a pin configured twice keeps the later device's intent.
pub open spec fn spec_state_from_last_device(devices: Seq<SwitchDevice>, st: SwitchState) -> bool {
    exists|k: int|
        {
            &&& 0 <= k < devices.len()
            &&& #[trigger] spec_initial_state(devices[k], st)
            &&& (forall|j: int|
                k < j < devices.len() ==> (#[trigger] devices[j]).gpio_pin != st.pin_num)
        }
}

/// The same switch state with the override flag replaced.
pub open spec fn spec_with_override(st: SwitchState, value: bool) -> SwitchState {
    SwitchState { override_auto: value, ..st }
}

/// The same switch state with the mirrored physical level replaced.
pub open spec fn spec_with_pin_state(st: SwitchState, value: u32) -> SwitchState {
    SwitchState { pin_state: Some(value), ..st }
}

/// Registry of per-switch automation intent, one entry per configured switch,
/// kept ordered by increasing pin number.
#[derive(Debug, Clone)]
pub struct SwitchManager {
    switches: Vec<SwitchState>,
}

impl SwitchManager {
    /// The tracked states, ordered by increasing pin number.
    pub closed spec fn spec_switches(&self) -> Seq<SwitchState> {
        self.switches@
    }

    /// Entries are strictly ordered by pin number, so each pin occurs once.
    pub open spec fn wf(&self) -> bool {
        forall|i: int, j: int|
            0 <= i < j < self.spec_switches().len() ==> self.spec_switches()[i].pin_num
                < self.spec_switches()[j].pin_num
    }

    /// Insert a state at its pin's position, replacing any entry already
    /// registered for that pin.
    fn insert_state(&mut self, st: SwitchState)
        requires
            old(self).wf(),
        ensures
            final(self).wf(),
            exists|i: int|
                0 <= i < final(self).spec_switches().len() && final(self).spec_switches()[i] == st,
            forall|i: int|
                0 <= i < final(self).spec_switches().len() ==> final(self).spec_switches()[i] == st
                    || exists|j: int|
                    0 <= j < old(self).spec_switches().len() && old(self).spec_switches()[j]
                        == final(self).spec_switches()[i],
            forall|p: u32|
                spec_has_pin_switch(old(self).spec_switches(), p) || p == st.pin_num
                    ==> spec_has_pin_switch(final(self).spec_switches(), p),
            forall|i: int|
                0 <= i < final(self).spec_switches().len()
                    && (#[trigger] final(self).spec_switches()[i]).pin_num == st.pin_num
                    ==> final(self).spec_switches()[i] == st,
    {
        let ghost old_seq = self.switches@;
        let mut idx: usize = 0;
        while idx < self.switches.len() && self.switches[idx].pin_num < st.pin_num
            invariant
                idx <= self.switches@.len(),
                self.switches@ == old_seq,
                forall|j: int| 0 <= j < idx ==> self.switches@[j].pin_num < st.pin_num,
            decreases self.switches@.len() - idx,
        {
            idx = idx + 1;
        }
        if idx < self.switches.len() && self.switches[idx].pin_num == st.pin_num {
            self.switches[idx] = st;
            proof {
                let s = self.switches@;
                assert(s == old_seq.update(idx as int, st));
                assert forall|i: int, j: int|
                    0 <= i < j < s.len() implies s[i].pin_num < s[j].pin_num by {
                    assert(old_seq[i].pin_num < old_seq[j].pin_num);
                }
                assert(s[idx as int] == st);
                assert forall|i: int|
                    0 <= i < s.len() implies s[i] == st || exists|j: int|
                    0 <= j < old_seq.len() && old_seq[j] == s[i] by {
                    if i != idx {
                        assert(old_seq[i] == s[i]);
                    }
                }
                assert forall|p: u32|
                    spec_has_pin_switch(old_seq, p) || p == st.pin_num implies spec_has_pin_switch(
                    s,
                    p,
                ) by {
                    if p == st.pin_num {
                        assert(s[idx as int].pin_num == p);
                    } else if spec_has_pin_switch(old_seq, p) {
                        let j = choose|j: int| 0 <= j < old_seq.len() && old_seq[j].pin_num == p;
                        assert(j != idx);
                        assert(s[j] == old_seq[j]);
                    }
                }
                assert forall|i: int|
                    0 <= i < s.len() && (#[trigger] s[i]).pin_num == st.pin_num implies s[i]
                    == st by {
                    if i != idx {
                        assert(s[i] == old_seq[i]);
                        if i < idx {
                            assert(old_seq[i].pin_num < old_seq[idx as int].pin_num);
                        } else {
                            assert(old_seq[idx as int].pin_num < old_seq[i].pin_num);
                        }
                    }
                }
            }
        } else {
            self.switches.insert(idx, st);
            proof {
                let s = self.switches@;
                assert(s == old_seq.insert(idx as int, st));
                assert forall|i: int, j: int|
                    0 <= i < j < s.len() implies s[i].pin_num < s[j].pin_num by {
                    if j < idx {
                        assert(s[i] == old_seq[i] && s[j] == old_seq[j]);
                    } else if j == idx {
                        assert(s[i] == old_seq[i]);
                    } else if i < idx {
                        assert(s[i] == old_seq[i] && s[j] == old_seq[j - 1]);
                        if idx < old_seq.len() {
                            assert(st.pin_num < old_seq[idx as int].pin_num);
                        }
                    } else if i == idx {
                        assert(s[j] == old_seq[j - 1]);
                        assert(st.pin_num < old_seq[idx as int].pin_num);
                    } else {
                        assert(s[i] == old_seq[i - 1] && s[j] == old_seq[j - 1]);
                    }
                }
                assert(s[idx as int] == st);
                assert forall|i: int|
                    0 <= i < s.len() implies s[i] == st || exists|j: int|
                    0 <= j < old_seq.len() && old_seq[j] == s[i] by {
                    if i < idx {
                        assert(old_seq[i] == s[i]);
                    } else if i > idx {
                        assert(old_seq[i - 1] == s[i]);
                    }
                }
                assert forall|p: u32|
                    spec_has_pin_switch(old_seq, p) || p == st.pin_num implies spec_has_pin_switch(
                    s,
                    p,
                ) by {
                    if p == st.pin_num {
                        assert(s[idx as int].pin_num == p);
                    } else if spec_has_pin_switch(old_seq, p) {
                        let j = choose|j: int| 0 <= j < old_seq.len() && old_seq[j].pin_num == p;
                        if j < idx {
                            assert(s[j] == old_seq[j]);
                        } else {
                            assert(s[j + 1] == old_seq[j]);
                        }
                    }
                }
                assert forall|i: int|
                    0 <= i < s.len() && (#[trigger] s[i]).pin_num == st.pin_num implies s[i]
                    == st by {
                    if i < idx {
                        assert(s[i] == old_seq[i]);
                        assert(old_seq[i].pin_num < st.pin_num);
                    } else if i > idx {
                        assert(s[i] == old_seq[i - 1]);
                        assert(!(old_seq[idx as int].pin_num < st.pin_num));
                        assert(old_seq[idx as int].pin_num != st.pin_num);
                        if i - 1 > idx {
                            assert(old_seq[idx as int].pin_num < old_seq[i - 1].pin_num);
                        }
                    }
                }
            }
        }
    }

    /// Build the registry from the configured switch devices: one entry per
    /// pin, automation intent taken from the config, no override, level
    /// unknown. A pin configured twice keeps the later device's intent.
    pub fn new(switch_devices: &Vec<SwitchDevice>) -> (r: SwitchManager)
        ensures
            r.wf(),
            forall|i: int|
                0 <= i < r.spec_switches().len() ==> spec_state_from_last_device(
                    switch_devices@,
                    r.spec_switches()[i],
                ),
            forall|k: int|
                0 <= k < switch_devices@.len() ==> spec_has_pin_switch(
                    r.spec_switches(),
                    switch_devices@[k].gpio_pin,
                ),
    {
        let devices = switch_devices;
        let ghost all = devices@;
        let mut m = SwitchManager { switches: Vec::new() };
        let mut i: usize = 0;
        while i < devices.len()
            invariant
                i <= all.len(),
                all == devices@,
                m.wf(),
                forall|x: int|
                    0 <= x < m.spec_switches().len() ==> spec_state_from_last_device(
                        all.take(i as int),
                        m.spec_switches()[x],
                    ),
                forall|k: int|
                    0 <= k < i ==> spec_has_pin_switch(m.spec_switches(), all[k].gpio_pin),
            decreases all.len() - i,
        {
            let device = &devices[i];
            let auto = match device.auto {
                None => false,
                Some(a) => a,
            };
            let st = SwitchState {
                name: device.name.clone(),
                pin_num: device.gpio_pin,
                is_auto: auto,
                override_auto: false,
                pin_state: None,
            };
            let ghost pre = m.spec_switches();
            proof {
                assert(spec_initial_state(all[i as int], st));
            }
            m.insert_state(st);
            proof {
                let cur = m.spec_switches();
                let prefix = all.take(i as int);
                let prefix1 = all.take(i as int + 1);
                assert(prefix1[i as int] == all[i as int]);
                assert forall|x: int|
                    0 <= x < cur.len() implies spec_state_from_last_device(
                    prefix1,
                    cur[x],
                ) by {
                    if cur[x] == st {
                        assert(spec_initial_state(prefix1[i as int], st));
                        assert(spec_state_from_last_device(prefix1, cur[x]));
                    } else {
                        // preserved from before this device; its pin differs
                        // from the inserted one, so the device stays the last
                        // on that pin.
                        assert(cur[x].pin_num != st.pin_num);
                        let jold = choose|j: int| 0 <= j < pre.len() && pre[j] == cur[x];
                        assert(spec_state_from_last_device(prefix, cur[x]));
                        let k = choose|k: int|
                            {
                                &&& 0 <= k < prefix.len()
                                &&& #[trigger] spec_initial_state(prefix[k], cur[x])
                                &&& (forall|j: int|
                                    k < j < prefix.len() ==> (#[trigger] prefix[j]).gpio_pin
                                        != cur[x].pin_num)
                            };
                        assert(prefix1[k] == prefix[k]);
                        assert(spec_initial_state(prefix1[k], cur[x]));
                        assert forall|j: int|
                            k < j < prefix1.len() implies (#[trigger] prefix1[j]).gpio_pin
                            != cur[x].pin_num by {
                            if j < i {
                                assert(prefix1[j] == prefix[j]);
                            } else {
                                assert(prefix1[j] == all[i as int]);
                            }
                        }
                        assert(spec_state_from_last_device(prefix1, cur[x]));
                    }
                }
            }
            i = i + 1;
        }
        proof {
            assert(all.take(all.len() as int) =~= all);
        }
        m
    }

    /// How many switches are registered.
    pub fn switch_count(&self) -> (r: usize)
        ensures
            r == self.spec_switches().len(),
    {
        self.switches.len()
    }

    /// The pin number of the entry at the given position.
    pub fn pin_at(&self, i: usize) -> (r: u32)
        requires
            i < self.spec_switches().len(),
        ensures
            r == self.spec_switches()[i as int].pin_num,
    {
        self.switches[i].pin_num
    }

    /// The tracked state at the given position.
    pub fn state_at(&self, i: usize) -> (r: &SwitchState)
        requires
            i < self.spec_switches().len(),
        ensures
            *r == self.spec_switches()[i as int],
    {
        &self.switches[i]
    }

    /// Set or clear the manual override of the switch on the given pin,
    /// returning the updated state, or `InvalidPin` for an unregistered pin.
    pub fn update_override_auto(&mut self, pin_num: u32, value: bool) -> (r: Result<
        SwitchState,
        PinError,
    >)
        requires
            old(self).wf(),
        ensures
            final(self).wf(),
            r is Ok <==> spec_has_pin_switch(old(self).spec_switches(), pin_num),
            r is Err ==> *final(self) == *old(self) && r == Err::<SwitchState, PinError>(
                PinError::InvalidPin(pin_num),
            ),
            r matches Ok(st) ==> exists|i: int|
                {
                    &&& 0 <= i < old(self).spec_switches().len()
                    &&& old(self).spec_switches()[i].pin_num == pin_num
                    &&& st == spec_with_override(old(self).spec_switches()[i], value)
                    &&& final(self).spec_switches() == old(self).spec_switches().update(i, st)
                },
    {
        let ghost old_seq = self.switches@;
        let mut idx: usize = 0;
        while idx < self.switches.len() && self.switches[idx].pin_num != pin_num
            invariant
                idx <= self.switches@.len(),
                self.switches@ == old_seq,
                forall|j: int| 0 <= j < idx ==> self.switches@[j].pin_num != pin_num,
            decreases self.switches@.len() - idx,
        {
            idx = idx + 1;
        }
        if idx < self.switches.len() {
            let cur = &self.switches[idx];
            let updated = SwitchState {
                name: cur.name.clone(),
                pin_num: cur.pin_num,
                is_auto: cur.is_auto,
                override_auto: value,
                pin_state: cur.pin_state,
            };
            let ret = copy_switch_state(&updated);
            self.switches[idx] = updated;
            proof {
                assert forall|i: int, j: int|
                    0 <= i < j < self.switches@.len() implies self.switches@[i].pin_num
                    < self.switches@[j].pin_num by {
                    assert(old_seq[i].pin_num < old_seq[j].pin_num);
                }
            }
            Ok(ret)
        } else {
            Err(PinError::InvalidPin(pin_num))
        }
    }

    /// Record the last known physical level of the switch on the given pin,
    /// returning the updated state, or `InvalidPin` for an unregistered pin.
    /// This mirror must be refreshed explicitly after a toggle; it is not
    /// automatic.
    pub fn update_pin_state(&mut self, pin_num: u32, value: u32) -> (r: Result<
        SwitchState,
        PinError,
    >)
        requires
            old(self).wf(),
        ensures
            final(self).wf(),
            r is Ok <==> spec_has_pin_switch(old(self).spec_switches(), pin_num),
            r is Err ==> *final(self) == *old(self) && r == Err::<SwitchState, PinError>(
                PinError::InvalidPin(pin_num),
            ),
            r matches Ok(st) ==> exists|i: int|
                {
                    &&& 0 <= i < old(self).spec_switches().len()
                    &&& old(self).spec_switches()[i].pin_num == pin_num
                    &&& st == spec_with_pin_state(old(self).spec_switches()[i], value)
                    &&& final(self).spec_switches() == old(self).spec_switches().update(i, st)
                },
    {
        let ghost old_seq = self.switches@;
        let mut idx: usize = 0;
        while idx < self.switches.len() && self.switches[idx].pin_num != pin_num
            invariant
                idx <= self.switches@.len(),
                self.switches@ == old_seq,
                forall|j: int| 0 <= j < idx ==> self.switches@[j].pin_num != pin_num,
            decreases self.switches@.len() - idx,
        {
            idx = idx + 1;
        }
        if idx < self.switches.len() {
            let cur = &self.switches[idx];
            let updated = SwitchState {
                name: cur.name.clone(),
                pin_num: cur.pin_num,
                is_auto: cur.is_auto,
                override_auto: cur.override_auto,
                pin_state: Some(value),
            };
            let ret = copy_switch_state(&updated);
            self.switches[idx] = updated;
            proof {
                assert forall|i: int, j: int|
                    0 <= i < j < self.switches@.len() implies self.switches@[i].pin_num
                    < self.switches@[j].pin_num by {
                    assert(old_seq[i].pin_num < old_seq[j].pin_num);
                }
            }
            Ok(ret)
        } else {
            Err(PinError::InvalidPin(pin_num))
        }
    }

    /// A snapshot of every tracked switch state, ordered by increasing pin
    /// number.
    pub fn switches_state(&self) -> (r: Result<SwitchesState, GHAError>)
        ensures
            r matches Ok(ss) && ss.spec_switches() == self.spec_switches(),
    {
        let mut switches: Vec<SwitchState> = Vec::new();
        let mut i: usize = 0;
        while i < self.switches.len()
            invariant
                i <= self.switches@.len(),
                switches@.len() == i,
                forall|j: int| 0 <= j < i ==> switches@[j] == self.switches@[j],
            decreases self.switches@.len() - i,
        {
            let copy = copy_switch_state(&self.switches[i]);
            switches.push(copy);
            i = i + 1;
        }
        proof {
            assert(switches@ =~= self.spec_switches());
        }
        Ok(SwitchesState { switches })
    }
}

/// An ordered snapshot of every switch's tracked state.
#[derive(Debug, Clone, PartialEq)]
pub struct SwitchesState {
    switches: Vec<SwitchState>,
}

impl SwitchesState {
    /// The snapshot entries, in the registry's pin order.
    pub closed spec fn spec_switches(&self) -> Seq<SwitchState> {
        self.switches@
    }

    /// How many states the snapshot holds.
    pub fn len(&self) -> (r: usize)
        ensures
            r == self.spec_switches().len(),
    {
        self.switches.len()
    }

    /// The state at the given position.
    pub fn get(&self, i: usize) -> (r: &SwitchState)
        requires
            i < self.spec_switches().len(),
        ensures
            *r == self.spec_switches()[i as int],
    {
        &self.switches[i]
    }

    /// The first state with the given name, or `None` when no switch carries
    /// it.
    pub fn by_name(&self, name: &str) -> (r: Option<SwitchState>)
        ensures
            match r {
                Some(st) => exists|i: int|
                    {
                        &&& 0 <= i < self.spec_switches().len()
                        &&& self.spec_switches()[i].name@ == name@
                        &&& (forall|j: int|
                            0 <= j < i ==> self.spec_switches()[j].name@ != name@)
                        &&& st == self.spec_switches()[i]
                    },
                None => forall|i: int|
                    0 <= i < self.spec_switches().len() ==> self.spec_switches()[i].name@ != name@,
            },
    {
        let mut i: usize = 0;
        while i < self.switches.len()
            invariant
                i <= self.switches@.len(),
                forall|j: int| 0 <= j < i ==> self.switches@[j].name@ != name@,
            decreases self.switches@.len() - i,
        {
            if str_eq(self.switches[i].name.as_str(), name) {
                return Some(copy_switch_state(&self.switches[i]));
            }
            i = i + 1;
        }
        None
    }
}

/// Whether some registered output entry carries the given pin number.
pub open spec fn spec_has_output_pin<P: DataPin>(pins: Seq<(u32, P)>, pin: u32) -> bool {
    exists|i: int| 0 <= i < pins.len() && pins[i].0 == pin
}

/// Registry owning every output-configured GPIO line, one opened handle per
/// pin, ordered by increasing pin number. All state changes go through this
/// one table, which serializes them.
pub struct OutputPinState<P: DataPin> {
    pins: Vec<(u32, P)>,
}

impl<P: DataPin> OutputPinState<P> {
    /// The registered entries: pin number and opened handle, ordered by pin.
    pub closed spec fn spec_pins(&self) -> Seq<(u32, P)> {
        self.pins@
    }

    /// Entries are strictly ordered by pin number, so each pin occurs once.
    pub open spec fn wf(&self) -> bool {
        forall|i: int, j: int|
            0 <= i < j < self.spec_pins().len() ==> self.spec_pins()[i].0 < self.spec_pins()[j].0
    }

    /// Register one opened handle under its pin number, replacing any handle
    /// already registered for that pin.
    fn insert_pin(&mut self, pin_num: u32, pin: P)
        requires
            old(self).wf(),
        ensures
            final(self).wf(),
            forall|p: u32|
                spec_has_output_pin(final(self).spec_pins(), p) <==> (spec_has_output_pin(
                    old(self).spec_pins(),
                    p,
                ) || p == pin_num),
    {
        let ghost old_seq = self.pins@;
        let mut idx: usize = 0;
        while idx < self.pins.len() && self.pins[idx].0 < pin_num
            invariant
                idx <= self.pins@.len(),
                self.pins@ == old_seq,
                forall|j: int| 0 <= j < idx ==> self.pins@[j].0 < pin_num,
            decreases self.pins@.len() - idx,
        {
            idx = idx + 1;
        }
        proof {
            assert forall|a: int, b: int|
                0 <= a < b < old_seq.len() implies (#[trigger] old_seq[a]).0 < (
            #[trigger] old_seq[b]).0 by {
                assert(old(self).spec_pins()[a].0 < old(self).spec_pins()[b].0);
                assert(old_seq[a] == old(self).spec_pins()[a]);
                assert(old_seq[b] == old(self).spec_pins()[b]);
            }
        }
        let ghost entry = (pin_num, pin);
        if idx < self.pins.len() && self.pins[idx].0 == pin_num {
            self.pins[idx] = (pin_num, pin);
            proof {
                let s = self.pins@;
                assert(s == old_seq.update(idx as int, entry));
                assert forall|i: int, j: int| 0 <= i < j < s.len() implies s[i].0 < s[j].0 by {
                    assert(old_seq[i].0 < old_seq[j].0);
                }
                assert forall|p: u32|
                    spec_has_output_pin(s, p) <==> (spec_has_output_pin(old_seq, p) || p
                        == pin_num) by {
                    if p == pin_num {
                        assert(s[idx as int].0 == p);
                    }
                    if spec_has_output_pin(old_seq, p) && p != pin_num {
                        let j = choose|j: int| 0 <= j < old_seq.len() && (#[trigger] old_seq[j]).0 == p;
                        assert(s[j] == old_seq[j]);
                    }
                    if spec_has_output_pin(s, p) && p != pin_num {
                        let i = choose|i: int| 0 <= i < s.len() && (#[trigger] s[i]).0 == p;
                        assert(old_seq[i] == s[i]);
                    }
                }
            }
        } else {
            self.pins.insert(idx, (pin_num, pin));
            proof {
                let s = self.pins@;
                assert(s == old_seq.insert(idx as int, entry));
                assert forall|i: int, j: int| 0 <= i < j < s.len() implies s[i].0 < s[j].0 by {
                    if j < idx {
                        assert(s[i] == old_seq[i] && s[j] == old_seq[j]);
                    } else if j == idx {
                        assert(s[i] == old_seq[i]);
                    } else if i < idx {
                        assert(s[i] == old_seq[i] && s[j] == old_seq[j - 1]);
                        if idx < old_seq.len() {
                            assert(entry.0 < old_seq[idx as int].0);
                        }
                    } else if i == idx {
                        assert(s[j] == old_seq[j - 1]);
                        assert(entry.0 < old_seq[idx as int].0);
                    } else {
                        assert(s[i] == old_seq[i - 1] && s[j] == old_seq[j - 1]);
                    }
                }
                assert forall|p: u32|
                    spec_has_output_pin(s, p) <==> (spec_has_output_pin(old_seq, p) || p
                        == pin_num) by {
                    if p == pin_num {
                        assert(s[idx as int].0 == p);
                    }
                    if spec_has_output_pin(old_seq, p) && p != pin_num {
                        let j = choose|j: int| 0 <= j < old_seq.len() && (#[trigger] old_seq[j]).0 == p;
                        if j < idx {
                            assert(s[j] == old_seq[j]);
                        } else {
                            assert(s[j + 1] == old_seq[j]);
                        }
                    }
                    if spec_has_output_pin(s, p) && p != pin_num {
                        let i = choose|i: int| 0 <= i < s.len() && (#[trigger] s[i]).0 == p;
                        if i < idx {
                            assert(old_seq[i] == s[i]);
                        } else {
                            assert(old_seq[i - 1] == s[i]);
                        }
                    }
                }
            }
        }
    }

    /// Build the registry from already-opened output handles, one entry per
    /// pin. A pin handed in twice keeps the later handle.
    pub fn new(pins: Vec<(u32, P)>) -> (r: OutputPinState<P>)
        ensures
            r.wf(),
            forall|p: u32|
                spec_has_output_pin(r.spec_pins(), p) <==> spec_has_output_pin(pins@, p),
    {
        let ghost input = pins@;
        let mut state = OutputPinState { pins: Vec::new() };
        let mut pins = pins;
        let total = pins.len();
        let ghost n = total as int;
        let mut i: usize = 0;
        proof {
            assert forall|p: u32|
                spec_has_output_pin(state.spec_pins(), p) <==> spec_has_output_pin(
                    input.take(0),
                    p,
                ) by {}
        }
        while pins.len() > 0
            invariant
                state.wf(),
                n == input.len(),
                n <= usize::MAX,
                i == n - pins@.len(),
                0 <= i <= n,
                pins@ == input.skip(i as int),
                forall|p: u32|
                    spec_has_output_pin(state.spec_pins(), p) <==> spec_has_output_pin(
                        input.take(i as int),
                        p,
                    ),
            decreases pins@.len(),
        {
            let ghost before = pins@;
            let (pin_num, pin) = pins.remove(0);
            let ghost entry = (pin_num, pin);
            proof {
                assert(before.len() > 0);
                assert(input.skip(i as int)[0] == input[i as int]);
                assert(before[0] == input[i as int]);
                assert(entry == input[i as int]);
                assert(pins@ =~= input.skip(i as int + 1));
            }
            state.insert_pin(pin_num, pin);
            proof {
                assert forall|p: u32|
                    spec_has_output_pin(state.spec_pins(), p) <==> spec_has_output_pin(
                        input.take(i as int + 1),
                        p,
                    ) by {
                    if spec_has_output_pin(input.take(i as int + 1), p) {
                        let k = choose|k: int|
                            0 <= k < i + 1 && (#[trigger] input.take(i as int + 1)[k]).0 == p;
                        if k < i {
                            assert(input.take(i as int)[k].0 == p);
                        } else {
                            assert(input[i as int].0 == p);
                        }
                    }
                    if spec_has_output_pin(input.take(i as int), p) {
                        let k = choose|k: int|
                            0 <= k < i && (#[trigger] input.take(i as int)[k]).0 == p;
                        assert(input.take(i as int + 1)[k].0 == p);
                    }
                    if p == pin_num {
                        assert(input.take(i as int + 1)[i as int].0 == p);
                    }
                }
            }
            i = i + 1;
        }
        proof {
            assert(input.take(n as int) =~= input);
        }
        state
    }

    /// Drive the registered pin to the given level (0 or 1) and return
    /// whether it reads high afterwards; an unregistered pin fails
    /// `InvalidPin`, a level other than 0 or 1 fails `InvalidPinValue`.
    pub fn set_pin_state(&mut self, pin_num: u32, val: u32) -> (r: Result<bool, PinError>)
        requires
            old(self).wf(),
        ensures
            final(self).wf(),
            final(self).spec_pins().len() == old(self).spec_pins().len(),
            forall|i: int|
                0 <= i < final(self).spec_pins().len() ==> final(self).spec_pins()[i].0 == old(
                    self,
                ).spec_pins()[i].0,
            forall|i: int|
                0 <= i < old(self).spec_pins().len() && (#[trigger] old(
                    self,
                ).spec_pins()[i]).0 != pin_num ==> final(self).spec_pins()[i] == old(
                    self,
                ).spec_pins()[i],
            forall|p: u32|
                spec_has_output_pin(final(self).spec_pins(), p) <==> spec_has_output_pin(
                    old(self).spec_pins(),
                    p,
                ),
            r is Ok <==> (spec_has_output_pin(old(self).spec_pins(), pin_num) && val <= 1),
            !spec_has_output_pin(old(self).spec_pins(), pin_num) ==> r == Err::<bool, PinError>(
                PinError::InvalidPin(pin_num),
            ) && *final(self) == *old(self),
            spec_has_output_pin(old(self).spec_pins(), pin_num) && val > 1 ==> r == Err::<
                bool,
                PinError,
            >(PinError::InvalidPinValue { pin: pin_num, val }) && *final(self) == *old(self),
    {
        let ghost old_seq = self.pins@;
        let mut idx: usize = 0;
        while idx < self.pins.len() && self.pins[idx].0 != pin_num
            invariant
                idx <= self.pins@.len(),
                self.pins@ == old_seq,
                forall|j: int| 0 <= j < idx ==> self.pins@[j].0 != pin_num,
            decreases self.pins@.len() - idx,
        {
            idx = idx + 1;
        }
        proof {
            assert forall|a: int, b: int|
                0 <= a < b < old_seq.len() implies (#[trigger] old_seq[a]).0 < (
            #[trigger] old_seq[b]).0 by {
                assert(old(self).spec_pins()[a].0 < old(self).spec_pins()[b].0);
                assert(old_seq[a] == old(self).spec_pins()[a]);
                assert(old_seq[b] == old(self).spec_pins()[b]);
            }
        }
        if idx < self.pins.len() {
            if val > 1 {
                Err(PinError::InvalidPinValue { pin: pin_num, val })
            } else {
                let is_high = val == 1;
                let (num, mut pin) = self.pins.remove(idx);
                if is_high {
                    pin.set_high();
                } else {
                    pin.set_low();
                }
                let level = pin.is_high();
                let ghost entry = (num, pin);
                self.pins.insert(idx, (num, pin));
                proof {
                    let s = self.pins@;
                    assert(s =~= old_seq.update(idx as int, entry));
                    assert(entry.0 == old_seq[idx as int].0);
                    assert forall|i: int, j: int| 0 <= i < j < s.len() implies s[i].0 < s[j].0 by {
                        assert(old_seq[i].0 < old_seq[j].0);
                    }
                    assert forall|p: u32|
                        spec_has_output_pin(s, p) <==> spec_has_output_pin(old_seq, p) by {
                        if spec_has_output_pin(s, p) {
                            let a = choose|a: int| 0 <= a < s.len() && (#[trigger] s[a]).0 == p;
                            assert(old_seq[a].0 == p);
                        }
                        if spec_has_output_pin(old_seq, p) {
                            let a = choose|a: int|
                                0 <= a < old_seq.len() && (#[trigger] old_seq[a]).0 == p;
                            assert(s[a].0 == p);
                        }
                    }
                }
                Ok(level)
            }
        } else {
            Err(PinError::InvalidPin(pin_num))
        }
    }

    /// Whether the registered pin currently reads high; an unregistered pin
    /// fails `InvalidPin`.
    pub fn is_pin_high(&self, pin_num: u32) -> (r: Result<bool, PinError>)
        ensures
            r is Ok <==> spec_has_output_pin(self.spec_pins(), pin_num),
            r is Err ==> r == Err::<bool, PinError>(PinError::InvalidPin(pin_num)),
    {
        let mut idx: usize = 0;
        while idx < self.pins.len() && self.pins[idx].0 != pin_num
            invariant
                idx <= self.pins@.len(),
                forall|j: int| 0 <= j < idx ==> self.pins@[j].0 != pin_num,
            decreases self.pins@.len() - idx,
        {
            idx = idx + 1;
        }
        if idx < self.pins.len() {
            Ok(self.pins[idx].1.is_high())
        } else {
            Err(PinError::InvalidPin(pin_num))
        }
    }

    /// Drive the registered pin high; convenience wrapper over
    /// `set_pin_state`.
    pub fn pin_on(&mut self, pin_num: u32) -> (r: Result<bool, GHAError>)
        requires
            old(self).wf(),
        ensures
            final(self).wf(),
            final(self).spec_pins().len() == old(self).spec_pins().len(),
            forall|i: int|
                0 <= i < final(self).spec_pins().len() ==> final(self).spec_pins()[i].0 == old(
                    self,
                ).spec_pins()[i].0,
            forall|i: int|
                0 <= i < old(self).spec_pins().len() && (#[trigger] old(
                    self,
                ).spec_pins()[i]).0 != pin_num ==> final(self).spec_pins()[i] == old(
                    self,
                ).spec_pins()[i],
            forall|p: u32|
                spec_has_output_pin(final(self).spec_pins(), p) <==> spec_has_output_pin(
                    old(self).spec_pins(),
                    p,
                ),
            r is Ok <==> spec_has_output_pin(old(self).spec_pins(), pin_num),
    {
        match self.set_pin_state(pin_num, 1) {
            Ok(b) => Ok(b),
            Err(e) => Err(GHAError::from_pin_error(e)),
        }
    }

    /// Drive the registered pin low; convenience wrapper over
    /// `set_pin_state`.
    pub fn pin_off(&mut self, pin_num: u32) -> (r: Result<bool, GHAError>)
        requires
            old(self).wf(),
        ensures
            final(self).wf(),
            final(self).spec_pins().len() == old(self).spec_pins().len(),
            forall|i: int|
                0 <= i < final(self).spec_pins().len() ==> final(self).spec_pins()[i].0 == old(
                    self,
                ).spec_pins()[i].0,
            forall|i: int|
                0 <= i < old(self).spec_pins().len() && (#[trigger] old(
                    self,
                ).spec_pins()[i]).0 != pin_num ==> final(self).spec_pins()[i] == old(
                    self,
                ).spec_pins()[i],
            forall|p: u32|
                spec_has_output_pin(final(self).spec_pins(), p) <==> spec_has_output_pin(
                    old(self).spec_pins(),
                    p,
                ),
            r is Ok <==> spec_has_output_pin(old(self).spec_pins(), pin_num),
    {
        match self.set_pin_state(pin_num, 0) {
            Ok(b) => Ok(b),
            Err(e) => Err(GHAError::from_pin_error(e)),
        }
    }
}

/// An exact duplicate of a sensor configuration.
fn copy_dht_config(c: &DhtConfig) -> (r: DhtConfig)
    ensures
        r == *c,
{
    DhtConfig {
        gpio_pin: c.gpio_pin,
        name: c.name.clone(),
        temp_offset: c.temp_offset,
        humidity_offset: c.humidity_offset,
    }
}

/// An exact duplicate of a switch device configuration.
fn copy_switch_device(d: &SwitchDevice) -> (r: SwitchDevice)
    ensures
        r == *d,
{
    SwitchDevice { gpio_pin: d.gpio_pin, name: d.name.clone(), auto: d.auto }
}

/// The configured switch devices, or empty when none are configured.
pub open spec fn spec_devices(config: GHAConfig) -> Seq<SwitchDevice> {
    match config.switch_devices {
        Some(d) => d@,
        None => Seq::empty(),
    }
}

/// `i` is the position of the first switch state carrying `name`.
pub open spec fn spec_first_named_switch(s: Seq<SwitchState>, name: Seq<char>, i: int) -> bool {
    &&& 0 <= i < s.len()
    &&& s[i].name@ == name
    &&& forall|j: int| 0 <= j < i ==> s[j].name@ != name
}

/// `k` is the position of the first configured device carrying `name`.
pub open spec fn spec_first_named_device(d: Seq<SwitchDevice>, name: Seq<char>, k: int) -> bool {
    &&& 0 <= k < d.len()
    &&& d[k].name@ == name
    &&& forall|j: int| 0 <= j < k ==> d[j].name@ != name
}

/// `i` is the position of the first gauge whose sensor carries `name`.
pub open spec fn spec_first_named_gauge(g: Seq<DhtGauge>, name: Seq<char>, i: int) -> bool {
    &&& 0 <= i < g.len()
    &&& g[i].config.name@ == name
    &&& forall|j: int| 0 <= j < i ==> g[j].config.name@ != name
}

/// `i` is the position of the first gauge whose sensor sits on `pin`.
pub open spec fn spec_first_gauge_by_pin(g: Seq<DhtGauge>, pin: u32, i: int) -> bool {
    &&& 0 <= i < g.len()
    &&& g[i].config.gpio_pin == pin
    &&& forall|j: int| 0 <= j < i ==> g[j].config.gpio_pin != pin
}

/// Whether automation may drive a switch: it is configured automatic and not
/// manually overridden.
pub open spec fn spec_auto_allowed(st: SwitchState) -> bool {
    st.is_auto && !st.override_auto
}

/// Owns the per-sensor gauges, the switch registry and the output-pin
/// registry, and carries the configuration snapshot they were built from.
pub struct SensorManager<P: DataPin> {
    config: GHAConfig,
    output_pin_state: OutputPinState<P>,
    switch_manager: SwitchManager,
    sensor_gauges: Vec<DhtGauge>,
}

impl<P: DataPin> SensorManager<P> {
    /// The configuration snapshot.
    pub closed spec fn spec_config(&self) -> GHAConfig {
        self.config
    }

    /// The per-sensor gauges, in configuration order.
    pub closed spec fn spec_sensor_gauges(&self) -> Seq<DhtGauge> {
        self.sensor_gauges@
    }

    /// The tracked switch states, ordered by pin number.
    pub closed spec fn spec_switches(&self) -> Seq<SwitchState> {
        self.switch_manager.spec_switches()
    }

    /// Whether the given pin is registered as an output pin.
    pub closed spec fn spec_has_output(&self, pin: u32) -> bool {
        spec_has_output_pin(self.output_pin_state.spec_pins(), pin)
    }

    /// Both registries are ordered by pin number.
    pub closed spec fn wf(&self) -> bool {
        &&& self.output_pin_state.wf()
        &&& self.switch_manager.wf()
    }

    /// The GPIO pins of the configured switch devices, in configuration
    /// order.
    pub fn output_pins(gha_config: &GHAConfig) -> (r: Vec<u32>)
        requires
            gha_config.switch_devices is Some,
        ensures
            r@.len() == spec_devices(*gha_config).len(),
            forall|i: int| 0 <= i < r@.len() ==> r@[i] == spec_devices(*gha_config)[i].gpio_pin,
    {
        let devices = match &gha_config.switch_devices {
            Some(d) => d,
            None => unreached(),
        };
        let mut pins: Vec<u32> = Vec::with_capacity(devices.len());
        let mut i: usize = 0;
        while i < devices.len()
            invariant
                i <= devices@.len(),
                pins@.len() == i,
                forall|j: int| 0 <= j < i ==> pins@[j] == devices@[j].gpio_pin,
            decreases devices@.len() - i,
        {
            pins.push(devices[i].gpio_pin);
            i = i + 1;
        }
        pins
    }

    /// One fresh gauge per configured sensor, in configuration order.
    pub fn create_dht_gauges(dht_configs: &Vec<DhtConfig>) -> (r: Vec<DhtGauge>)
        ensures
            r@.len() == dht_configs@.len(),
            forall|i: int|
                0 <= i < r@.len() ==> {
                    &&& (#[trigger] r@[i]).config == dht_configs@[i]
                    &&& r@[i].initialized == false
                    &&& r@[i].temp_c_tenths == 0
                    &&& r@[i].temp_f_fiftieths == 0
                    &&& r@[i].humidity_tenths == 0
                },
    {
        let mut gauges: Vec<DhtGauge> = Vec::with_capacity(dht_configs.len());
        let mut i: usize = 0;
        while i < dht_configs.len()
            invariant
                i <= dht_configs@.len(),
                gauges@.len() == i,
                forall|j: int|
                    0 <= j < i ==> {
                        &&& (#[trigger] gauges@[j]).config == dht_configs@[j]
                        &&& gauges@[j].initialized == false
                        &&& gauges@[j].temp_c_tenths == 0
                        &&& gauges@[j].temp_f_fiftieths == 0
                        &&& gauges@[j].humidity_tenths == 0
                    },
            decreases dht_configs@.len() - i,
        {
            let config = copy_dht_config(&dht_configs[i]);
            gauges.push(DhtGauge::new(config));
            i = i + 1;
        }
        gauges
    }

    /// Build the manager from a configuration snapshot and the output pin
    /// handles that could be opened: gauges for every configured sensor,
    /// switch states for every configured device, and the output registry over
    /// the handles.
    pub fn new(gha_config: GHAConfig, opened_pins: Vec<(u32, P)>) -> (r: SensorManager<P>)
        requires
            gha_config.switch_devices is Some,
        ensures
            r.wf(),
            r.spec_config() == gha_config,
            r.spec_sensor_gauges().len() == gha_config.dht_configs@.len(),
            forall|i: int|
                0 <= i < r.spec_sensor_gauges().len() ==> {
                    &&& (#[trigger] r.spec_sensor_gauges()[i]).config
                        == gha_config.dht_configs@[i]
                    &&& r.spec_sensor_gauges()[i].initialized == false
                },
            forall|i: int|
                0 <= i < r.spec_switches().len() ==> spec_state_from_last_device(
                    spec_devices(gha_config),
                    r.spec_switches()[i],
                ),
            forall|k: int|
                0 <= k < spec_devices(gha_config).len() ==> spec_has_pin_switch(
                    r.spec_switches(),
                    spec_devices(gha_config)[k].gpio_pin,
                ),
            forall|p: u32| r.spec_has_output(p) <==> spec_has_output_pin(opened_pins@, p),
    {
        let sensor_gauges = Self::create_dht_gauges(&gha_config.dht_configs);
        let switch_manager = match &gha_config.switch_devices {
            Some(devices) => SwitchManager::new(devices),
            None => unreached(),
        };
        let output_pin_state = OutputPinState::new(opened_pins);
        SensorManager { config: gha_config, output_pin_state, switch_manager, sensor_gauges }
    }

    /// The configuration snapshot.
    pub fn config(&self) -> (r: &GHAConfig)
        ensures
            *r == self.spec_config(),
    {
        &self.config
    }

    /// The per-sensor gauges, as exposed to the metrics sink and the
    /// automation loop.
    pub fn current_gauges(&self) -> (r: &Vec<DhtGauge>)
        ensures
            r@ == self.spec_sensor_gauges(),
    {
        &self.sensor_gauges
    }

    /// The configured listen host.
    pub fn listen_host(&self) -> (r: String)
        requires
            self.spec_config().listen_host is Some,
        ensures
            self.spec_config().listen_host matches Some(h) && r@ == h@,
    {
        match &self.config.listen_host {
            Some(h) => h.clone(),
            None => unreached(),
        }
    }

    /// The configured listen port.
    pub fn listen_port(&self) -> (r: u16)
        requires
            self.spec_config().listen_port is Some,
        ensures
            self.spec_config().listen_port == Some(r),
    {
        match self.config.listen_port {
            Some(p) => p,
            None => unreached(),
        }
    }

    /// The configured sensor-board power pin, or an error when none is
    /// configured.
    pub fn dht_board_pin(&self) -> (r: Result<u32, GHAError>)
        ensures
            r is Ok <==> self.spec_config().dht_board_pin is Some,
            r matches Ok(pin) ==> self.spec_config().dht_board_pin == Some(pin),
            r matches Err(e) ==> e.spec_details() == "dht_board_pin not set"@,
    {
        match self.config.dht_board_pin {
            Some(pin) => Ok(pin),
            None => Err(GHAError::from_string("dht_board_pin not set".to_owned())),
        }
    }

    /// Power the sensor board on; fails when no board pin is configured or
    /// the pin is not registered.
    pub fn dht_sensor_board_on(&mut self) -> (r: Result<bool, GHAError>)
        requires
            old(self).wf(),
        ensures
            final(self).wf(),
            final(self).spec_config() == old(self).spec_config(),
            final(self).spec_sensor_gauges() == old(self).spec_sensor_gauges(),
            final(self).spec_switches() == old(self).spec_switches(),
            forall|p: u32| final(self).spec_has_output(p) == old(self).spec_has_output(p),
            r is Ok <==> (old(self).spec_config().dht_board_pin matches Some(pin) && old(
                self,
            ).spec_has_output(pin)),
    {
        let pin = match self.dht_board_pin() {
            Ok(pin) => pin,
            Err(e) => { return Err(e); },
        };
        self.output_pin_state.pin_on(pin)
    }

    /// Power the sensor board off; fails when no board pin is configured or
    /// the pin is not registered.
    pub fn dht_sensor_board_off(&mut self) -> (r: Result<bool, GHAError>)
        requires
            old(self).wf(),
        ensures
            final(self).wf(),
            final(self).spec_config() == old(self).spec_config(),
            final(self).spec_sensor_gauges() == old(self).spec_sensor_gauges(),
            final(self).spec_switches() == old(self).spec_switches(),
            forall|p: u32| final(self).spec_has_output(p) == old(self).spec_has_output(p),
            r is Ok <==> (old(self).spec_config().dht_board_pin matches Some(pin) && old(
                self,
            ).spec_has_output(pin)),
    {
        let pin = match self.dht_board_pin() {
            Ok(pin) => pin,
            Err(e) => { return Err(e); },
        };
        self.output_pin_state.pin_off(pin)
    }

    /// Whether the sensor-board power pin currently reads high; fails when no
    /// board pin is configured or the pin is not registered.
    pub fn is_dht_sensor_board_on(&self) -> (r: Result<bool, GHAError>)
        ensures
            r is Ok <==> (self.spec_config().dht_board_pin matches Some(pin)
                && self.spec_has_output(pin)),
    {
        let pin = match self.dht_board_pin() {
            Ok(pin) => pin,
            Err(e) => { return Err(e); },
        };
        match self.output_pin_state.is_pin_high(pin) {
            Ok(b) => Ok(b),
            Err(e) => Err(GHAError::from_pin_error(e)),
        }
    }

    /// The gauge of the sensor on the given pin; the pin must belong to a
    /// configured sensor.
    pub fn dht_gauge_by_pin_num(&self, pin_num: u32) -> (r: &DhtGauge)
        requires
            exists|i: int|
                0 <= i < self.spec_sensor_gauges().len()
                    && (#[trigger] self.spec_sensor_gauges()[i]).config.gpio_pin == pin_num,
        ensures
            exists|i: int|
                spec_first_gauge_by_pin(self.spec_sensor_gauges(), pin_num, i) && *r
                    == self.spec_sensor_gauges()[i],
    {
        let mut i: usize = 0;
        while i < self.sensor_gauges.len()
            invariant
                i <= self.sensor_gauges@.len(),
                forall|j: int| 0 <= j < i ==> self.sensor_gauges@[j].config.gpio_pin != pin_num,
            decreases self.sensor_gauges@.len() - i,
        {
            if self.sensor_gauges[i].config.gpio_pin == pin_num {
                proof {
                    assert(spec_first_gauge_by_pin(self.spec_sensor_gauges(), pin_num, i as int));
                }
                return &self.sensor_gauges[i];
            }
            i = i + 1;
        }
        unreached()
    }

    /// The gauge of the sensor with the given name; the name must belong to a
    /// configured sensor.
    pub fn dht_gauge_by_name(&self, name: &str) -> (r: &DhtGauge)
        requires
            exists|i: int|
                0 <= i < self.spec_sensor_gauges().len()
                    && (#[trigger] self.spec_sensor_gauges()[i]).config.name@ == name@,
        ensures
            exists|i: int|
                spec_first_named_gauge(self.spec_sensor_gauges(), name@, i) && *r
                    == self.spec_sensor_gauges()[i],
    {
        let mut i: usize = 0;
        while i < self.sensor_gauges.len()
            invariant
                i <= self.sensor_gauges@.len(),
                forall|j: int| 0 <= j < i ==> self.sensor_gauges@[j].config.name@ != name@,
            decreases self.sensor_gauges@.len() - i,
        {
            if str_eq(self.sensor_gauges[i].config.name.as_str(), name) {
                proof {
                    assert(spec_first_named_gauge(self.spec_sensor_gauges(), name@, i as int));
                }
                return &self.sensor_gauges[i];
            }
            i = i + 1;
        }
        unreached()
    }
}

impl<P: DataPin> SensorManager<P> {
    /// Refresh the switch registry's mirror of each switch's physical level
    /// by reading every switch's output pin. Every switch pin must be
    /// registered as an output pin.
    pub fn update_pin_state_gauges(&mut self)
        requires
            old(self).wf(),
            forall|i: int|
                0 <= i < old(self).spec_switches().len() ==> old(self).spec_has_output(
                    (#[trigger] old(self).spec_switches()[i]).pin_num,
                ),
        ensures
            final(self).wf(),
            final(self).spec_config() == old(self).spec_config(),
            final(self).spec_sensor_gauges() == old(self).spec_sensor_gauges(),
            forall|p: u32| final(self).spec_has_output(p) == old(self).spec_has_output(p),
            final(self).spec_switches().len() == old(self).spec_switches().len(),
            forall|i: int|
                0 <= i < final(self).spec_switches().len() ==> {
                    let n = #[trigger] final(self).spec_switches()[i];
                    let o = old(self).spec_switches()[i];
                    &&& n.name@ == o.name@
                    &&& n.pin_num == o.pin_num
                    &&& n.is_auto == o.is_auto
                    &&& n.override_auto == o.override_auto
                    &&& (n.pin_state == Some(0u32) || n.pin_state == Some(1u32))
                },
    {
        let count = self.switch_manager.switch_count();
        let mut i: usize = 0;
        while i < count
            invariant
                i <= count,
                self.switch_manager.wf(),
                self.config == old(self).config,
                self.sensor_gauges@ == old(self).sensor_gauges@,
                self.output_pin_state == old(self).output_pin_state,
                count == self.switch_manager.spec_switches().len(),
                self.switch_manager.spec_switches().len() == old(self).spec_switches().len(),
                forall|j: int|
                    i <= j < count ==> (#[trigger] self.switch_manager.spec_switches()[j]) == old(
                        self,
                    ).spec_switches()[j],
                forall|j: int|
                    0 <= j < i ==> {
                        let n = #[trigger] self.switch_manager.spec_switches()[j];
                        let o = old(self).spec_switches()[j];
                        &&& n.name@ == o.name@
                        &&& n.pin_num == o.pin_num
                        &&& n.is_auto == o.is_auto
                        &&& n.override_auto == o.override_auto
                        &&& (n.pin_state == Some(0u32) || n.pin_state == Some(1u32))
                    },
                forall|j: int|
                    0 <= j < count ==> spec_has_output_pin(
                        self.output_pin_state.spec_pins(),
                        (#[trigger] self.switch_manager.spec_switches()[j]).pin_num,
                    ),
            decreases count - i,
        {
            let ghost pre = self.switch_manager.spec_switches();
            let pin = self.switch_manager.pin_at(i);
            let high = match self.output_pin_state.is_pin_high(pin) {
                Ok(b) => b,
                Err(_) => unreached(),
            };
            let level: u32 = if high {
                1
            } else {
                0
            };
            let res = self.switch_manager.update_pin_state(pin, level);
            proof {
                assert(spec_has_pin_switch(pre, pin));
                assert(res is Ok);
                let idx = choose|idx: int|
                    {
                        &&& 0 <= idx < pre.len()
                        &&& (#[trigger] pre[idx]).pin_num == pin
                        &&& self.switch_manager.spec_switches() == pre.update(
                            idx,
                            spec_with_pin_state(pre[idx], level),
                        )
                    };
                if idx != i {
                    if idx < i {
                        assert(pre[idx].pin_num < pre[i as int].pin_num);
                    } else {
                        assert(pre[i as int].pin_num < pre[idx].pin_num);
                    }
                    assert(false);
                }
            }
            i = i + 1;
        }
    }

    /// Whether the named switch's mirrored level is on; the name must belong
    /// to a tracked switch.
    pub fn is_switch_on(&self, name: &str) -> (r: Result<bool, GHAError>)
        requires
            exists|i: int|
                0 <= i < self.spec_switches().len() && (#[trigger] self.spec_switches()[i]).name@
                    == name@,
        ensures
            r is Ok,
            r matches Ok(b) ==> exists|i: int|
                spec_first_named_switch(self.spec_switches(), name@, i) && b == (
                self.spec_switches()[i].pin_state == Some(1u32)),
    {
        let count = self.switch_manager.switch_count();
        let mut i: usize = 0;
        while i < count
            invariant
                i <= count,
                count == self.spec_switches().len(),
                forall|j: int| 0 <= j < i ==> self.spec_switches()[j].name@ != name@,
            decreases count - i,
        {
            let st = self.switch_manager.state_at(i);
            if str_eq(st.name.as_str(), name) {
                let b = match st.pin_state {
                    Some(v) => v == 1,
                    None => false,
                };
                proof {
                    assert(spec_first_named_switch(self.spec_switches(), name@, i as int));
                }
                return Ok(b);
            }
            i = i + 1;
        }
        unreached()
    }

    /// The configured device carrying the given name; the name must belong to
    /// a configured device.
    pub fn switch_device_by_name(&self, name: &str) -> (r: Result<SwitchDevice, GHAError>)
        requires
            self.spec_config().switch_devices is Some,
            exists|k: int|
                0 <= k < spec_devices(self.spec_config()).len() && (#[trigger] spec_devices(
                    self.spec_config(),
                )[k]).name@ == name@,
        ensures
            r is Ok,
            r matches Ok(d) ==> exists|k: int|
                spec_first_named_device(spec_devices(self.spec_config()), name@, k) && d
                    == spec_devices(self.spec_config())[k],
    {
        let devices = match &self.config.switch_devices {
            Some(d) => d,
            None => unreached(),
        };
        let mut k: usize = 0;
        while k < devices.len()
            invariant
                k <= devices@.len(),
                devices@ == spec_devices(self.spec_config()),
                forall|j: int| 0 <= j < k ==> devices@[j].name@ != name@,
            decreases devices@.len() - k,
        {
            if str_eq(devices[k].name.as_str(), name) {
                proof {
                    assert(spec_first_named_device(
                        spec_devices(self.spec_config()),
                        name@,
                        k as int,
                    ));
                }
                return Ok(copy_switch_device(&devices[k]));
            }
            k = k + 1;
        }
        unreached()
    }

    /// Turn the named switch's pin on, bypassing the automation intent.
    pub fn switch_on(&mut self, name: &str) -> (r: Result<(), GHAError>)
        requires
            old(self).wf(),
            old(self).spec_config().switch_devices is Some,
            exists|k: int|
                0 <= k < spec_devices(old(self).spec_config()).len() && (#[trigger] spec_devices(
                    old(self).spec_config(),
                )[k]).name@ == name@,
        ensures
            final(self).wf(),
            final(self).spec_config() == old(self).spec_config(),
            final(self).spec_sensor_gauges() == old(self).spec_sensor_gauges(),
            final(self).spec_switches() == old(self).spec_switches(),
            forall|p: u32| final(self).spec_has_output(p) == old(self).spec_has_output(p),
            forall|k: int|
                spec_first_named_device(spec_devices(old(self).spec_config()), name@, k) ==> (r
                    is Ok <==> old(self).spec_has_output(
                    spec_devices(old(self).spec_config())[k].gpio_pin,
                )),
    {
        let device = match self.switch_device_by_name(name) {
            Ok(d) => d,
            Err(_) => unreached(),
        };
        proof {
            let devs = spec_devices(old(self).spec_config());
            let k0 = choose|k0: int|
                spec_first_named_device(devs, name@, k0) && device == devs[k0];
            assert forall|k: int| spec_first_named_device(devs, name@, k) implies k == k0 by {
                if k < k0 {
                    assert(devs[k].name@ == name@);
                } else if k > k0 {
                    assert(devs[k0].name@ == name@);
                }
            }
        }
        match self.output_pin_state.pin_on(device.gpio_pin) {
            Ok(_) => Ok(()),
            Err(e) => Err(e),
        }
    }

    /// Turn the named switch's pin off, bypassing the automation intent.
    pub fn switch_off(&mut self, name: &str) -> (r: Result<(), GHAError>)
        requires
            old(self).wf(),
            old(self).spec_config().switch_devices is Some,
            exists|k: int|
                0 <= k < spec_devices(old(self).spec_config()).len() && (#[trigger] spec_devices(
                    old(self).spec_config(),
                )[k]).name@ == name@,
        ensures
            final(self).wf(),
            final(self).spec_config() == old(self).spec_config(),
            final(self).spec_sensor_gauges() == old(self).spec_sensor_gauges(),
            final(self).spec_switches() == old(self).spec_switches(),
            forall|p: u32| final(self).spec_has_output(p) == old(self).spec_has_output(p),
            forall|k: int|
                spec_first_named_device(spec_devices(old(self).spec_config()), name@, k) ==> (r
                    is Ok <==> old(self).spec_has_output(
                    spec_devices(old(self).spec_config())[k].gpio_pin,
                )),
    {
        let device = match self.switch_device_by_name(name) {
            Ok(d) => d,
            Err(_) => unreached(),
        };
        proof {
            let devs = spec_devices(old(self).spec_config());
            let k0 = choose|k0: int|
                spec_first_named_device(devs, name@, k0) && device == devs[k0];
            assert forall|k: int| spec_first_named_device(devs, name@, k) implies k == k0 by {
                if k < k0 {
                    assert(devs[k].name@ == name@);
                } else if k > k0 {
                    assert(devs[k0].name@ == name@);
                }
            }
        }
        match self.output_pin_state.pin_off(device.gpio_pin) {
            Ok(_) => Ok(()),
            Err(e) => Err(e),
        }
    }

    /// Drive a registered output pin to the given level; the boundary
    /// operation behind the pin-update endpoint.
    pub fn set_output_pin(&mut self, pin_num: u32, val: u32) -> (r: Result<bool, PinError>)
        requires
            old(self).wf(),
        ensures
            final(self).wf(),
            final(self).spec_config() == old(self).spec_config(),
            final(self).spec_sensor_gauges() == old(self).spec_sensor_gauges(),
            final(self).spec_switches() == old(self).spec_switches(),
            forall|p: u32| final(self).spec_has_output(p) == old(self).spec_has_output(p),
            r is Ok <==> (old(self).spec_has_output(pin_num) && val <= 1),
            !old(self).spec_has_output(pin_num) ==> r == Err::<bool, PinError>(
                PinError::InvalidPin(pin_num),
            ),
            old(self).spec_has_output(pin_num) && val > 1 ==> r == Err::<bool, PinError>(
                PinError::InvalidPinValue { pin: pin_num, val },
            ),
    {
        self.output_pin_state.set_pin_state(pin_num, val)
    }

    /// Set or clear a switch's manual override; the boundary operation behind
    /// the override endpoint.
    pub fn set_switch_override(&mut self, pin_num: u32, value: bool) -> (r: Result<
        SwitchState,
        PinError,
    >)
        requires
            old(self).wf(),
        ensures
            final(self).wf(),
            final(self).spec_config() == old(self).spec_config(),
            final(self).spec_sensor_gauges() == old(self).spec_sensor_gauges(),
            forall|p: u32| final(self).spec_has_output(p) == old(self).spec_has_output(p),
            r is Ok <==> spec_has_pin_switch(old(self).spec_switches(), pin_num),
            r is Err ==> final(self).spec_switches() == old(self).spec_switches() && r == Err::<
                SwitchState,
                PinError,
            >(PinError::InvalidPin(pin_num)),
            r matches Ok(st) ==> exists|i: int|
                {
                    &&& 0 <= i < old(self).spec_switches().len()
                    &&& old(self).spec_switches()[i].pin_num == pin_num
                    &&& st == spec_with_override(old(self).spec_switches()[i], value)
                    &&& final(self).spec_switches() == old(self).spec_switches().update(i, st)
                },
    {
        let res = self.switch_manager.update_override_auto(pin_num, value);
        proof {
            if res is Ok {
                let st = res->Ok_0;
                let pre = old(self).spec_switches();
                let i = choose|i: int|
                    {
                        &&& 0 <= i < pre.len()
                        &&& (#[trigger] pre[i]).pin_num == pin_num
                        &&& st == spec_with_override(pre[i], value)
                        &&& self.spec_switches() == pre.update(i, st)
                    };
                assert(0 <= i < pre.len() && pre[i].pin_num == pin_num && st
                    == spec_with_override(pre[i], value) && self.spec_switches() == pre.update(
                    i,
                    st,
                ));
            }
        }
        res
    }

    /// An ordered snapshot of every switch's tracked state; the boundary
    /// operation behind the switch-listing endpoint.
    pub fn list_switch_states(&self) -> (r: Result<SwitchesState, GHAError>)
        ensures
            r matches Ok(ss) && ss.spec_switches() == self.spec_switches(),
    {
        self.switch_manager.switches_state()
    }

    /// Whether every configured sensor has reported at least one validated
    /// reading.
    pub fn all_sensors_initialized(&self) -> (r: Result<bool, GHAError>)
        ensures
            r matches Ok(b) && b == (forall|i: int|
                0 <= i < self.spec_sensor_gauges().len() ==> (
                #[trigger] self.spec_sensor_gauges()[i]).initialized),
    {
        let mut i: usize = 0;
        while i < self.sensor_gauges.len()
            invariant
                i <= self.sensor_gauges@.len(),
                forall|j: int| 0 <= j < i ==> (#[trigger] self.sensor_gauges@[j]).initialized,
            decreases self.sensor_gauges@.len() - i,
        {
            if !self.sensor_gauges[i].initialized {
                return Ok(false);
            }
            i = i + 1;
        }
        Ok(true)
    }

    /// Whether the given pin is registered in the output registry.
    pub fn has_output_pin(&self, pin_num: u32) -> (r: bool)
        ensures
            r == self.spec_has_output(pin_num),
    {
        match self.output_pin_state.is_pin_high(pin_num) {
            Ok(_) => true,
            Err(_) => false,
        }
    }

    /// How many sensor gauges are configured.
    pub fn sensor_gauge_count(&self) -> (r: Result<usize, GHAError>)
        ensures
            r matches Ok(n) && n == self.spec_sensor_gauges().len(),
    {
        Ok(self.sensor_gauges.len())
    }
}

impl<P: DataPin> SensorManager<P> {
    /// Turn the named switch on if automation may drive it: when the switch
    /// is configured automatic and not manually overridden. Otherwise the
    /// call is a no-op.
    pub fn auto_switch_on(&mut self, name: &str) -> (r: Result<(), GHAError>)
        requires
            old(self).wf(),
            exists|i: int|
                0 <= i < old(self).spec_switches().len() && (#[trigger] old(
                    self,
                ).spec_switches()[i]).name@ == name@,
            forall|i: int|
                spec_first_named_switch(old(self).spec_switches(), name@, i) && spec_auto_allowed(
                    old(self).spec_switches()[i],
                ) ==> (old(self).spec_config().switch_devices is Some && exists|k: int|
                    0 <= k < spec_devices(old(self).spec_config()).len() && (#[trigger] spec_devices(
                        old(self).spec_config(),
                    )[k]).name@ == name@),
        ensures
            final(self).wf(),
            final(self).spec_config() == old(self).spec_config(),
            final(self).spec_sensor_gauges() == old(self).spec_sensor_gauges(),
            final(self).spec_switches() == old(self).spec_switches(),
            forall|p: u32| final(self).spec_has_output(p) == old(self).spec_has_output(p),
            forall|i: int|
                spec_first_named_switch(old(self).spec_switches(), name@, i) && !spec_auto_allowed(
                    old(self).spec_switches()[i],
                ) ==> r is Ok,
            forall|i: int, k: int|
                spec_first_named_switch(old(self).spec_switches(), name@, i) && spec_auto_allowed(
                    old(self).spec_switches()[i],
                ) && spec_first_named_device(spec_devices(old(self).spec_config()), name@, k) ==> (
                r is Ok <==> old(self).spec_has_output(
                    spec_devices(old(self).spec_config())[k].gpio_pin,
                )),
    {
        let snapshot = match self.switch_manager.switches_state() {
            Ok(ss) => ss,
            Err(_) => unreached(),
        };
        let st = match snapshot.by_name(name) {
            Some(st) => st,
            None => unreached(),
        };
        proof {
            let i0 = choose|i0: int|
                {
                    &&& 0 <= i0 < snapshot.spec_switches().len()
                    &&& (#[trigger] snapshot.spec_switches()[i0]).name@ == name@
                    &&& (forall|j: int|
                        0 <= j < i0 ==> snapshot.spec_switches()[j].name@ != name@)
                    &&& st == snapshot.spec_switches()[i0]
                };
            assert(spec_first_named_switch(old(self).spec_switches(), name@, i0));
            assert forall|i: int|
                spec_first_named_switch(old(self).spec_switches(), name@, i) implies i == i0 by {
                if i < i0 {
                    assert(old(self).spec_switches()[i].name@ == name@);
                } else if i > i0 {
                    assert(old(self).spec_switches()[i0].name@ == name@);
                }
            }
        }
        if st.is_auto && !st.override_auto {
            self.switch_on(name)
        } else {
            Ok(())
        }
    }

    /// Turn the named switch off if automation may drive it: when the switch
    /// is configured automatic and not manually overridden. Otherwise the
    /// call is a no-op.
    pub fn auto_switch_off(&mut self, name: &str) -> (r: Result<(), GHAError>)
        requires
            old(self).wf(),
            exists|i: int|
                0 <= i < old(self).spec_switches().len() && (#[trigger] old(
                    self,
                ).spec_switches()[i]).name@ == name@,
            forall|i: int|
                spec_first_named_switch(old(self).spec_switches(), name@, i) && spec_auto_allowed(
                    old(self).spec_switches()[i],
                ) ==> (old(self).spec_config().switch_devices is Some && exists|k: int|
                    0 <= k < spec_devices(old(self).spec_config()).len() && (#[trigger] spec_devices(
                        old(self).spec_config(),
                    )[k]).name@ == name@),
        ensures
            final(self).wf(),
            final(self).spec_config() == old(self).spec_config(),
            final(self).spec_sensor_gauges() == old(self).spec_sensor_gauges(),
            final(self).spec_switches() == old(self).spec_switches(),
            forall|p: u32| final(self).spec_has_output(p) == old(self).spec_has_output(p),
            forall|i: int|
                spec_first_named_switch(old(self).spec_switches(), name@, i) && !spec_auto_allowed(
                    old(self).spec_switches()[i],
                ) ==> r is Ok,
            forall|i: int, k: int|
                spec_first_named_switch(old(self).spec_switches(), name@, i) && spec_auto_allowed(
                    old(self).spec_switches()[i],
                ) && spec_first_named_device(spec_devices(old(self).spec_config()), name@, k) ==> (
                r is Ok <==> old(self).spec_has_output(
                    spec_devices(old(self).spec_config())[k].gpio_pin,
                )),
    {
        let snapshot = match self.switch_manager.switches_state() {
            Ok(ss) => ss,
            Err(_) => unreached(),
        };
        let st = match snapshot.by_name(name) {
            Some(st) => st,
            None => unreached(),
        };
        proof {
            let i0 = choose|i0: int|
                {
                    &&& 0 <= i0 < snapshot.spec_switches().len()
                    &&& (#[trigger] snapshot.spec_switches()[i0]).name@ == name@
                    &&& (forall|j: int|
                        0 <= j < i0 ==> snapshot.spec_switches()[j].name@ != name@)
                    &&& st == snapshot.spec_switches()[i0]
                };
            assert(spec_first_named_switch(old(self).spec_switches(), name@, i0));
            assert forall|i: int|
                spec_first_named_switch(old(self).spec_switches(), name@, i) implies i == i0 by {
                if i < i0 {
                    assert(old(self).spec_switches()[i].name@ == name@);
                } else if i > i0 {
                    assert(old(self).spec_switches()[i0].name@ == name@);
                }
            }
        }
        if st.is_auto && !st.override_auto {
            self.switch_off(name)
        } else {
            Ok(())
        }
    }
}

/// A sequence with some state carrying `name` has a first such state.
proof fn lemma_first_named_switch_exists(s: Seq<SwitchState>, name: Seq<char>, k: int)
    requires
        0 <= k < s.len(),
        s[k].name@ == name,
    ensures
        exists|i: int| spec_first_named_switch(s, name, i),
    decreases k,
{
    if forall|j: int| 0 <= j < k ==> (#[trigger] s[j]).name@ != name {
        assert(spec_first_named_switch(s, name, k));
    } else {
        let j = choose|j: int| 0 <= j < k && (#[trigger] s[j]).name@ == name;
        lemma_first_named_switch_exists(s, name, j);
    }
}

/// A sequence with some device carrying `name` has a first such device.
proof fn lemma_first_named_device_exists(d: Seq<SwitchDevice>, name: Seq<char>, k: int)
    requires
        0 <= k < d.len(),
        d[k].name@ == name,
    ensures
        exists|i: int| spec_first_named_device(d, name, i),
    decreases k,
{
    if forall|j: int| 0 <= j < k ==> (#[trigger] d[j]).name@ != name {
        assert(spec_first_named_device(d, name, k));
    } else {
        let j = choose|j: int| 0 <= j < k && (#[trigger] d[j]).name@ == name;
        lemma_first_named_device_exists(d, name, j);
    }
}

/// Automation can drive the named switch without a registry error: whenever
/// the first switch carrying the name is automatic and not overridden, the
/// first configured device carrying the name has its pin registered.
/// (Vacuously true when the switch is manual or overridden: the drive is then
/// a no-op.)
impl<P: DataPin> SensorManager<P> {
    pub open spec fn spec_auto_drive_ok(&self, name: Seq<char>) -> bool {
        forall|i: int, k: int|
            spec_first_named_switch(self.spec_switches(), name, i) && spec_auto_allowed(
                self.spec_switches()[i],
            ) && spec_first_named_device(spec_devices(self.spec_config()), name, k)
                ==> self.spec_has_output(spec_devices(self.spec_config())[k].gpio_pin)
    }
}

/// `spec_auto_drive_ok` depends only on the switches' names and intents, the
/// configured devices and the registered pins, so it transfers between two
/// manager states that agree on those.
proof fn lemma_drive_ok_transfer<P: DataPin>(a: SensorManager<P>, b: SensorManager<P>, name: Seq<
    char,
>)
    requires
        a.spec_config() == b.spec_config(),
        a.spec_switches().len() == b.spec_switches().len(),
        forall|i: int|
            0 <= i < a.spec_switches().len() ==> {
                let x = #[trigger] a.spec_switches()[i];
                let y = b.spec_switches()[i];
                &&& x.name@ == y.name@
                &&& x.is_auto == y.is_auto
                &&& x.override_auto == y.override_auto
            },
        forall|p: u32| a.spec_has_output(p) == b.spec_has_output(p),
    ensures
        a.spec_auto_drive_ok(name) == b.spec_auto_drive_ok(name),
{
    let devs = spec_devices(a.spec_config());
    if a.spec_auto_drive_ok(name) {
        assert forall|i: int, k: int|
            spec_first_named_switch(b.spec_switches(), name, i) && spec_auto_allowed(
                b.spec_switches()[i],
            ) && spec_first_named_device(devs, name, k) implies b.spec_has_output(
            devs[k].gpio_pin,
        ) by {
            assert forall|j: int| 0 <= j < i implies (#[trigger] a.spec_switches()[j]).name@
                != name by {
                assert(b.spec_switches()[j].name@ != name);
            }
            assert(spec_first_named_switch(a.spec_switches(), name, i));
            assert(spec_auto_allowed(a.spec_switches()[i]));
            assert(a.spec_has_output(devs[k].gpio_pin));
        }
    }
    if b.spec_auto_drive_ok(name) {
        assert forall|i: int, k: int|
            spec_first_named_switch(a.spec_switches(), name, i) && spec_auto_allowed(
                a.spec_switches()[i],
            ) && spec_first_named_device(devs, name, k) implies a.spec_has_output(
            devs[k].gpio_pin,
        ) by {
            assert forall|j: int| 0 <= j < i implies (#[trigger] b.spec_switches()[j]).name@
                != name by {
                assert(a.spec_switches()[j].name@ != name);
            }
            assert(spec_first_named_switch(b.spec_switches(), name, i));
            assert(spec_auto_allowed(b.spec_switches()[i]));
            assert(b.spec_has_output(devs[k].gpio_pin));
        }
    }
}

/// What one automation pass decided: whether the fans and the heater should
/// run.
#[derive(Debug, Clone, Copy, PartialEq, Eq, Structural)]
pub struct ControlCommands {
    pub fan_on: bool,
    pub heater_on: bool,
}

impl<P: DataPin> SensorManager<P> {
    /// Drive the named switch on or off through the automation rules; the
    /// result is `Ok` exactly when automation could act without a registry
    /// error (including the no-op case of a manual or overridden switch).
    fn auto_switch_set(&mut self, name: &str, on: bool) -> (r: Result<(), GHAError>)
        requires
            old(self).wf(),
            exists|i: int|
                0 <= i < old(self).spec_switches().len() && (#[trigger] old(
                    self,
                ).spec_switches()[i]).name@ == name@,
            forall|i: int|
                spec_first_named_switch(old(self).spec_switches(), name@, i) && spec_auto_allowed(
                    old(self).spec_switches()[i],
                ) ==> (old(self).spec_config().switch_devices is Some && exists|k: int|
                    0 <= k < spec_devices(old(self).spec_config()).len() && (#[trigger] spec_devices(
                        old(self).spec_config(),
                    )[k]).name@ == name@),
        ensures
            final(self).wf(),
            final(self).spec_config() == old(self).spec_config(),
            final(self).spec_sensor_gauges() == old(self).spec_sensor_gauges(),
            final(self).spec_switches() == old(self).spec_switches(),
            forall|p: u32| final(self).spec_has_output(p) == old(self).spec_has_output(p),
            r is Ok <==> old(self).spec_auto_drive_ok(name@),
    {
        let result = if on {
            self.auto_switch_on(name)
        } else {
            self.auto_switch_off(name)
        };
        proof {
            let sw = old(self).spec_switches();
            let named = choose|i: int|
                0 <= i < sw.len() && (#[trigger] sw[i]).name@ == name@;
            lemma_first_named_switch_exists(sw, name@, named);
            let i1 = choose|i: int| spec_first_named_switch(sw, name@, i);
            assert forall|i: int| spec_first_named_switch(sw, name@, i) implies i == i1 by {
                if i < i1 {
                    assert(sw[i].name@ == name@);
                } else if i > i1 {
                    assert(sw[i1].name@ == name@);
                }
            }
            if !spec_auto_allowed(sw[i1]) {
                assert(result is Ok);
                assert forall|i: int, k: int|
                    spec_first_named_switch(sw, name@, i) && spec_auto_allowed(sw[i])
                        && spec_first_named_device(
                        spec_devices(old(self).spec_config()),
                        name@,
                        k,
                    ) implies old(self).spec_has_output(
                    spec_devices(old(self).spec_config())[k].gpio_pin,
                ) by {
                    assert(i == i1);
                }
                assert(old(self).spec_auto_drive_ok(name@));
            } else {
                let devs = spec_devices(old(self).spec_config());
                let dev_named = choose|k: int|
                    0 <= k < devs.len() && (#[trigger] devs[k]).name@ == name@;
                lemma_first_named_device_exists(devs, name@, dev_named);
                let k1 = choose|k: int| spec_first_named_device(devs, name@, k);
                assert forall|k: int| spec_first_named_device(devs, name@, k) implies k
                    == k1 by {
                    if k < k1 {
                        assert(devs[k].name@ == name@);
                    } else if k > k1 {
                        assert(devs[k1].name@ == name@);
                    }
                }
                assert(result is Ok <==> old(self).spec_has_output(devs[k1].gpio_pin));
                if old(self).spec_has_output(devs[k1].gpio_pin) {
                    assert forall|i: int, k: int|
                        spec_first_named_switch(sw, name@, i) && spec_auto_allowed(sw[i])
                            && spec_first_named_device(devs, name@, k) implies old(
                        self,
                    ).spec_has_output(devs[k].gpio_pin) by {
                        assert(i == i1 && k == k1);
                    }
                    assert(old(self).spec_auto_drive_ok(name@));
                } else {
                    assert(!old(self).spec_auto_drive_ok(name@)) by {
                        if old(self).spec_auto_drive_ok(name@) {
                            assert(spec_first_named_switch(sw, name@, i1));
                            assert(spec_first_named_device(devs, name@, k1));
                            assert(old(self).spec_has_output(devs[k1].gpio_pin));
                        }
                    }
                }
            }
        }
        result
    }

    /// One pass of the automation loop: refresh the switch-level mirror from
    /// the output pins, average the two inside temperatures, decide fan and
    /// heater by hysteresis, and drive the switches that automation may
    /// drive. Returns the decisions taken; the pass succeeds exactly when
    /// each drive that automation attempts finds its device's pin registered.
    pub fn monitor_cycle(&mut self) -> (r: Result<ControlCommands, GHAError>)
        requires
            old(self).wf(),
            forall|i: int|
                0 <= i < old(self).spec_switches().len() ==> old(self).spec_has_output(
                    (#[trigger] old(self).spec_switches()[i]).pin_num,
                ),
            exists|i: int|
                0 <= i < old(self).spec_switches().len() && (#[trigger] old(
                    self,
                ).spec_switches()[i]).name@ == "fan"@,
            exists|i: int|
                0 <= i < old(self).spec_switches().len() && (#[trigger] old(
                    self,
                ).spec_switches()[i]).name@ == "case_fan"@,
            exists|i: int|
                0 <= i < old(self).spec_switches().len() && (#[trigger] old(
                    self,
                ).spec_switches()[i]).name@ == "heater"@,
            exists|i: int|
                0 <= i < old(self).spec_sensor_gauges().len() && (#[trigger] old(
                    self,
                ).spec_sensor_gauges()[i]).config.name@ == "inside_upper"@,
            exists|i: int|
                0 <= i < old(self).spec_sensor_gauges().len() && (#[trigger] old(
                    self,
                ).spec_sensor_gauges()[i]).config.name@ == "inside_lower"@,
            forall|i: int|
                (spec_first_named_switch(old(self).spec_switches(), "fan"@, i)
                    && spec_auto_allowed(old(self).spec_switches()[i])) ==> (old(
                    self,
                ).spec_config().switch_devices is Some && exists|k: int|
                    0 <= k < spec_devices(old(self).spec_config()).len() && (#[trigger] spec_devices(
                        old(self).spec_config(),
                    )[k]).name@ == "fan"@),
            forall|i: int|
                (spec_first_named_switch(old(self).spec_switches(), "case_fan"@, i)
                    && spec_auto_allowed(old(self).spec_switches()[i])) ==> (old(
                    self,
                ).spec_config().switch_devices is Some && exists|k: int|
                    0 <= k < spec_devices(old(self).spec_config()).len() && (#[trigger] spec_devices(
                        old(self).spec_config(),
                    )[k]).name@ == "case_fan"@),
            forall|i: int|
                (spec_first_named_switch(old(self).spec_switches(), "heater"@, i)
                    && spec_auto_allowed(old(self).spec_switches()[i])) ==> (old(
                    self,
                ).spec_config().switch_devices is Some && exists|k: int|
                    0 <= k < spec_devices(old(self).spec_config()).len() && (#[trigger] spec_devices(
                        old(self).spec_config(),
                    )[k]).name@ == "heater"@),
        ensures
            final(self).wf(),
            final(self).spec_config() == old(self).spec_config(),
            final(self).spec_sensor_gauges() == old(self).spec_sensor_gauges(),
            forall|p: u32| final(self).spec_has_output(p) == old(self).spec_has_output(p),
            final(self).spec_switches().len() == old(self).spec_switches().len(),
            forall|i: int|
                0 <= i < final(self).spec_switches().len() ==> {
                    let n = #[trigger] final(self).spec_switches()[i];
                    let o = old(self).spec_switches()[i];
                    &&& n.name@ == o.name@
                    &&& n.pin_num == o.pin_num
                    &&& n.is_auto == o.is_auto
                    &&& n.override_auto == o.override_auto
                    &&& (n.pin_state == Some(0u32) || n.pin_state == Some(1u32))
                },
            r is Ok <==> (old(self).spec_auto_drive_ok("fan"@) && old(self).spec_auto_drive_ok(
                "case_fan"@,
            ) && old(self).spec_auto_drive_ok("heater"@)),
            r matches Ok(cmds) ==> exists|iu: int, il: int, fi: int, hi: int|
                {
                    &&& spec_first_named_gauge(
                        old(self).spec_sensor_gauges(),
                        "inside_upper"@,
                        iu,
                    )
                    &&& spec_first_named_gauge(
                        old(self).spec_sensor_gauges(),
                        "inside_lower"@,
                        il,
                    )
                    &&& spec_first_named_switch(final(self).spec_switches(), "fan"@, fi)
                    &&& spec_first_named_switch(final(self).spec_switches(), "heater"@, hi)
                    &&& cmds.fan_on == spec_fan_hot(
                        final(self).spec_switches()[fi].pin_state == Some(1u32),
                        old(self).spec_sensor_gauges()[iu].temp_f_fiftieths + old(
                            self,
                        ).spec_sensor_gauges()[il].temp_f_fiftieths,
                    )
                    &&& cmds.heater_on == spec_heater_cold(
                        final(self).spec_switches()[hi].pin_state == Some(1u32),
                        old(self).spec_sensor_gauges()[iu].temp_f_fiftieths + old(
                            self,
                        ).spec_sensor_gauges()[il].temp_f_fiftieths,
                    )
                },
    {
        let ghost s0 = old(self).spec_switches();
        self.update_pin_state_gauges();
        let ghost s1 = self.spec_switches();
        proof {
            assert forall|name: Seq<char>, i: int|
                spec_first_named_switch(s0, name, i) implies spec_first_named_switch(
                s1,
                name,
                i,
            ) by {
                assert(s1[i].name@ == s0[i].name@);
                assert forall|j: int| 0 <= j < i implies s1[j].name@ != name by {
                    assert(s1[j].name@ == s0[j].name@);
                }
            }
            assert forall|name: Seq<char>, i: int|
                spec_first_named_switch(s1, name, i) implies spec_first_named_switch(
                s0,
                name,
                i,
            ) by {
                assert(s1[i].name@ == s0[i].name@);
                assert forall|j: int| 0 <= j < i implies s0[j].name@ != name by {
                    assert(s1[j].name@ == s0[j].name@);
                }
            }
            let f0 = choose|i: int| 0 <= i < s0.len() && (#[trigger] s0[i]).name@ == "fan"@;
            assert(s1[f0].name@ == "fan"@);
            let c0 = choose|i: int| 0 <= i < s0.len() && (#[trigger] s0[i]).name@ == "case_fan"@;
            assert(s1[c0].name@ == "case_fan"@);
            let h0 = choose|i: int| 0 <= i < s0.len() && (#[trigger] s0[i]).name@ == "heater"@;
            assert(s1[h0].name@ == "heater"@);
        }
        let is_fan_on = match self.is_switch_on("fan") {
            Ok(b) => b,
            Err(_) => unreached(),
        };
        let upper = self.dht_gauge_by_name("inside_upper").temp_f_fiftieths;
        let lower = self.dht_gauge_by_name("inside_lower").temp_f_fiftieths;
        let is_hot = fan_control_decision(is_fan_on, upper, lower);
        let ghost m1 = *self;
        let fan_result = self.auto_switch_set("fan", is_hot);
        proof {
            lemma_drive_ok_transfer(m1, *old(self), "fan"@);
        }
        match fan_result {
            Ok(()) => (),
            Err(e) => { return Err(e); },
        }
        let ghost m2 = *self;
        let case_fan_result = self.auto_switch_set("case_fan", is_hot);
        proof {
            lemma_drive_ok_transfer(m2, *old(self), "case_fan"@);
        }
        match case_fan_result {
            Ok(()) => (),
            Err(e) => { return Err(e); },
        }
        let is_heat_on = match self.is_switch_on("heater") {
            Ok(b) => b,
            Err(_) => unreached(),
        };
        let is_cold = heater_control_decision(is_heat_on, upper, lower);
        let ghost m3 = *self;
        let heater_result = self.auto_switch_set("heater", is_cold);
        proof {
            lemma_drive_ok_transfer(m3, *old(self), "heater"@);
        }
        match heater_result {
            Ok(()) => (),
            Err(e) => { return Err(e); },
        }
        proof {
            let gauges = old(self).spec_sensor_gauges();
            let iu = choose|iu: int|
                spec_first_named_gauge(gauges, "inside_upper"@, iu) && upper == gauges[iu].temp_f_fiftieths;
            let il = choose|il: int|
                spec_first_named_gauge(gauges, "inside_lower"@, il) && lower == gauges[il].temp_f_fiftieths;
            let fi = choose|fi: int|
                spec_first_named_switch(s1, "fan"@, fi) && is_fan_on == (s1[fi].pin_state == Some(
                    1u32,
                ));
            let hi = choose|hi: int|
                spec_first_named_switch(s1, "heater"@, hi) && is_heat_on == (s1[hi].pin_state
                    == Some(1u32));
            assert(self.spec_switches() == s1);
            assert(spec_first_named_gauge(gauges, "inside_upper"@, iu));
            assert(spec_first_named_gauge(gauges, "inside_lower"@, il));
            assert(spec_first_named_switch(self.spec_switches(), "fan"@, fi));
            assert(spec_first_named_switch(self.spec_switches(), "heater"@, hi));
            assert(is_hot == spec_fan_hot(
                self.spec_switches()[fi].pin_state == Some(1u32),
                gauges[iu].temp_f_fiftieths + gauges[il].temp_f_fiftieths,
            ));
            assert(is_cold == spec_heater_cold(
                self.spec_switches()[hi].pin_state == Some(1u32),
                gauges[iu].temp_f_fiftieths + gauges[il].temp_f_fiftieths,
            ));
        }
        Ok(ControlCommands { fan_on: is_hot, heater_on: is_cold })
    }
}

/// An exact duplicate of a gauge.
fn copy_dht_gauge(g: &DhtGauge) -> (r: DhtGauge)
    ensures
        r == *g,
{
    DhtGauge {
        config: copy_dht_config(&g.config),
        initialized: g.initialized,
        temp_c_tenths: g.temp_c_tenths,
        temp_f_fiftieths: g.temp_f_fiftieths,
        humidity_tenths: g.humidity_tenths,
    }
}

/// The gauge after recording a validated reading: initialized, with the
/// offset-adjusted values.
pub open spec fn spec_gauge_with_reading(g: DhtGauge, m: (TemperatureCelsius, Humidity)) -> DhtGauge {
    DhtGauge {
        initialized: true,
        temp_c_tenths: spec_adjusted_temp_c(g.config, m.0) as i64,
        temp_f_fiftieths: spec_temp_f_fiftieths(spec_adjusted_temp_c(g.config, m.0)) as i64,
        humidity_tenths: spec_adjusted_humidity(g.config, m.1) as i64,
        ..g
    }
}

impl<P: DataPin> SensorManager<P> {
    /// Process one pass over a sensor task against the gauge of the matching
    /// sensor, as `plan_task_cycle` does; the pin must belong to a
    /// configured sensor.
    pub fn apply_task_cycle(
        &mut self,
        task: &mut DhtReadingTask,
        event: ReadCycleEvent,
        now_millis: u64,
    ) -> (r: CycleAction)
        requires
            old(task).wf(),
            old(task).retries < i32::MAX,
            exists|i: int|
                0 <= i < old(self).spec_sensor_gauges().len() && (#[trigger] old(
                    self,
                ).spec_sensor_gauges()[i]).config.gpio_pin == old(task).sensor_pin,
        ensures
            final(task).wf(),
            final(task).sensor_pin == old(task).sensor_pin,
            final(task).max_bad_reading_duration == old(task).max_bad_reading_duration,
            final(self).spec_config() == old(self).spec_config(),
            final(self).spec_switches() == old(self).spec_switches(),
            forall|p: u32| final(self).spec_has_output(p) == old(self).spec_has_output(p),
            old(self).wf() ==> final(self).wf(),
            event is BoardOff ==> *final(task) == *old(task) && final(self).spec_sensor_gauges()
                == old(self).spec_sensor_gauges() && r == (CycleAction {
                power_cycle: false,
                requeue_delay_millis: 3000,
            }),
            !(event is BoardOff) ==> exists|i: int|
                {
                    &&& spec_first_gauge_by_pin(
                        old(self).spec_sensor_gauges(),
                        old(task).sensor_pin,
                        i,
                    )
                    &&& (event matches ReadCycleEvent::Read(outcome) ==> outcome matches Ok(m)
                        ==> {
                        &&& final(self).spec_sensor_gauges() == old(
                            self,
                        ).spec_sensor_gauges().update(
                            i,
                            spec_gauge_with_reading(old(self).spec_sensor_gauges()[i], m),
                        )
                        &&& final(task).retries == 0
                        &&& final(task).last_good_reading == now_millis
                    })
                    &&& (spec_cycle_failed(event) ==> final(self).spec_sensor_gauges() == old(
                        self,
                    ).spec_sensor_gauges() && final(task).retries == old(task).retries + 1
                        && final(task).last_good_reading == old(task).last_good_reading)
                    &&& r.power_cycle == spec_reading_stale(
                        old(task).last_good_reading,
                        old(task).max_bad_reading_duration,
                        now_millis,
                    )
                    &&& r.requeue_delay_millis == (if final(task).retries > 0 {
                        3000u64
                    } else {
                        10000u64
                    })
                },
    {
        let pin_num = task.sensor_pin;
        let mut i: usize = 0;
        while i < self.sensor_gauges.len()
            invariant
                i <= self.sensor_gauges@.len(),
                *self == *old(self),
                *task == *old(task),
                task.wf(),
                task.retries < i32::MAX,
                pin_num == task.sensor_pin,
                forall|j: int| 0 <= j < i ==> self.sensor_gauges@[j].config.gpio_pin != pin_num,
            decreases self.sensor_gauges@.len() - i,
        {
            if self.sensor_gauges[i].config.gpio_pin == pin_num {
                proof {
                    assert(spec_first_gauge_by_pin(
                        self.spec_sensor_gauges(),
                        pin_num,
                        i as int,
                    ));
                }
                let mut gauge = copy_dht_gauge(&self.sensor_gauges[i]);
                let ghost g0 = gauge;
                let ghost ev = event;
                let action = plan_task_cycle(task, &mut gauge, event, now_millis);
                proof {
                    match ev {
                        ReadCycleEvent::Read(Ok(m)) => {
                            assert(gauge == spec_gauge_with_reading(g0, m));
                        },
                        _ => {},
                    }
                }
                self.sensor_gauges[i] = gauge;
                proof {
                    if ev is BoardOff || spec_cycle_failed(ev) {
                        assert(self.sensor_gauges@ =~= old(self).spec_sensor_gauges());
                    }
                }
                return action;
            }
            i = i + 1;
        }
        unreached()
    }
}

} // verus!
