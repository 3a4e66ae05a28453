//! Tests of the sensor task cycle (retry backoff, staleness power-cycling)
//! and of the hysteresis control decisions.

use gha::config::DhtConfig;
use gha::sensor::{Humidity, SensorError, TemperatureCelsius};
use gha::sensor_manager::{
    fan_control_decision, heater_control_decision, plan_task_cycle, DhtGauge, DhtReadingTask,
    ReadCycleEvent,
};

fn test_config(pin: u32, temp_offset: Option<i32>, humidity_offset: Option<i32>) -> DhtConfig {
    DhtConfig { gpio_pin: pin, name: "inside_upper".to_string(), temp_offset, humidity_offset }
}

#[test]
fn test_retry_then_success_delays() {
    // a task failing once has retries 1 and is requeued at 3s; the next
    // success resets retries to 0 and requeues at 10s.
    let mut task = DhtReadingTask::new(4);
    let mut gauge = DhtGauge::new(test_config(4, None, None));

    let failure = ReadCycleEvent::Read(Err(SensorError::CheckSum(1, 2)));
    let a1 = plan_task_cycle(&mut task, &mut gauge, failure, 100_000);
    assert_eq!(task.retries, 1);
    assert_eq!(a1.requeue_delay_millis, 3000);
    assert!(!a1.power_cycle);
    assert!(!gauge.initialized);

    let success = ReadCycleEvent::Read(Ok((TemperatureCelsius(234), Humidity(500))));
    let a2 = plan_task_cycle(&mut task, &mut gauge, success, 110_000);
    assert_eq!(task.retries, 0);
    assert_eq!(task.last_good_reading, 110_000);
    assert_eq!(a2.requeue_delay_millis, 10_000);
    assert!(!a2.power_cycle);
    assert!(gauge.initialized);
}

#[test]
fn test_failed_read_keeps_gauge_values() {
    let mut task = DhtReadingTask::new(4);
    let mut gauge = DhtGauge::new(test_config(4, None, None));
    let success = ReadCycleEvent::Read(Ok((TemperatureCelsius(234), Humidity(500))));
    plan_task_cycle(&mut task, &mut gauge, success, 100_000);
    assert_eq!(gauge.temp_c_tenths, 234);

    let failure = ReadCycleEvent::Read(Err(SensorError::CheckSum(1, 2)));
    plan_task_cycle(&mut task, &mut gauge, failure, 110_000);
    assert_eq!(gauge.temp_c_tenths, 234);
    assert_eq!(gauge.humidity_tenths, 500);
    assert!(gauge.initialized);
    assert_eq!(task.last_good_reading, 100_000);
}

#[test]
fn test_stale_reading_power_cycles_regardless_of_outcome() {
    // last good reading 61s ago with a 60s allowance: the cycle orders a
    // power cycle whether this read failed or succeeded.
    let now: u64 = 200_000;
    let mut task = DhtReadingTask::new(4);
    task.last_good_reading = now - 61_000;
    let mut gauge = DhtGauge::new(test_config(4, None, None));
    let failure = ReadCycleEvent::Read(Err(SensorError::CheckSum(1, 2)));
    let a = plan_task_cycle(&mut task, &mut gauge, failure, now);
    assert!(a.power_cycle);

    let mut task2 = DhtReadingTask::new(4);
    task2.last_good_reading = now - 61_000;
    let success = ReadCycleEvent::Read(Ok((TemperatureCelsius(1), Humidity(1))));
    let a2 = plan_task_cycle(&mut task2, &mut gauge, success, now);
    assert!(a2.power_cycle);

    // exactly at the allowance no cycle is ordered.
    let mut task3 = DhtReadingTask::new(4);
    task3.last_good_reading = now - 60_000;
    let failure = ReadCycleEvent::Read(Err(SensorError::CheckSum(1, 2)));
    let a3 = plan_task_cycle(&mut task3, &mut gauge, failure, now);
    assert!(!a3.power_cycle);

    // a task that never had a good reading is never stale.
    let mut task4 = DhtReadingTask::new(4);
    let failure = ReadCycleEvent::Read(Err(SensorError::CheckSum(1, 2)));
    let a4 = plan_task_cycle(&mut task4, &mut gauge, failure, now);
    assert!(!a4.power_cycle);
}

#[test]
fn test_board_off_skips_read_and_retries_at_3s() {
    let mut task = DhtReadingTask::new(4);
    task.retries = 2;
    let mut gauge = DhtGauge::new(test_config(4, None, None));
    let a = plan_task_cycle(&mut task, &mut gauge, ReadCycleEvent::BoardOff, 100_000);
    assert_eq!(task.retries, 2);
    assert!(!a.power_cycle);
    assert_eq!(a.requeue_delay_millis, 3000);
}

#[test]
fn test_pin_unavailable_counts_as_failed_cycle() {
    // a pin that cannot be opened fails the cycle: the retry counter
    // increments, the gauge is untouched, and the task retries at 3s.
    let mut task = DhtReadingTask::new(4);
    let mut gauge = DhtGauge::new(test_config(4, None, None));
    let a = plan_task_cycle(&mut task, &mut gauge, ReadCycleEvent::PinUnavailable, 100_000);
    assert_eq!(task.retries, 1);
    assert!(!a.power_cycle);
    assert_eq!(a.requeue_delay_millis, 3000);
    assert!(!gauge.initialized);

    // the staleness check runs on this path too.
    let mut task2 = DhtReadingTask::new(4);
    task2.last_good_reading = 39_000;
    let a2 = plan_task_cycle(&mut task2, &mut gauge, ReadCycleEvent::PinUnavailable, 100_001);
    assert!(a2.power_cycle);
}

#[test]
fn test_new_task_defaults() {
    let task = DhtReadingTask::new(7);
    assert_eq!(task.sensor_pin, 7);
    assert_eq!(task.retries, 0);
    assert_eq!(task.last_good_reading, 0);
    assert_eq!(task.max_bad_reading_duration, 60_000);
}

#[test]
fn test_gauge_offsets_applied() {
    // 23.4 C with a +1.6 C offset is 25.0 C = 77.0 F; 50.0% with -2.5 gives
    // 47.5%.
    let mut gauge = DhtGauge::new(test_config(4, Some(16), Some(-25)));
    gauge.set_good_values(TemperatureCelsius(234), Humidity(500));
    assert_eq!(gauge.temp_c_tenths, 250);
    // fiftieths of a degree fahrenheit: 77.0 F = 3850.
    assert_eq!(gauge.temp_f_fiftieths, 9 * 250 + 1600);
    assert_eq!(gauge.temp_f_fiftieths, 3850);
    assert_eq!(gauge.humidity_tenths, 475);
}

#[test]
fn test_gauge_without_offsets() {
    let mut gauge = DhtGauge::new(test_config(4, None, None));
    gauge.set_good_values(TemperatureCelsius(-100), Humidity(300));
    assert_eq!(gauge.temp_c_tenths, -100);
    // -10.0 C = 14.0 F = 700 fiftieths.
    assert_eq!(gauge.temp_f_fiftieths, 700);
    assert_eq!(gauge.humidity_tenths, 300);
}

/// One gauge value per sensor such that the average is the given whole
/// degrees fahrenheit: 1 F is 50 fiftieths.
fn tf(degrees_f: i64) -> i64 {
    degrees_f * 50
}

#[test]
fn test_fan_hysteresis_sequence() {
    // averages 84, 86, 91, 87, 84 F over the 85/90 band latch to
    // off, off, on, on, off.
    let averages = [84i64, 86, 91, 87, 84];
    let expected = [false, false, true, true, false];
    let mut fan_on = false;
    for (avg, want) in averages.iter().zip(expected.iter()) {
        fan_on = fan_control_decision(fan_on, tf(*avg), tf(*avg));
        assert_eq!(fan_on, *want, "at average {} F", avg);
    }
}

#[test]
fn test_fan_band_edges() {
    // at exactly 85 F the fan is forced off; at exactly 90 F a running fan
    // keeps running but a stopped one does not start.
    assert!(!fan_control_decision(true, tf(85), tf(85)));
    assert!(fan_control_decision(true, tf(90), tf(90)));
    assert!(!fan_control_decision(false, tf(90), tf(90)));
    assert!(fan_control_decision(false, tf(91), tf(91)));
}

#[test]
fn test_heater_hysteresis_sequence() {
    // averages 52, 50, 55, 60 F over the 50/60 band: off (inside band,
    // latched off), on (at the floor), on (latched), off (at the ceiling).
    let averages = [52i64, 50, 55, 60];
    let expected = [false, true, true, false];
    let mut heater_on = false;
    for (avg, want) in averages.iter().zip(expected.iter()) {
        heater_on = heater_control_decision(heater_on, tf(*avg), tf(*avg));
        assert_eq!(heater_on, *want, "at average {} F", avg);
    }
}

#[test]
fn test_heater_band_edges() {
    assert!(heater_control_decision(false, tf(50), tf(50)));
    assert!(!heater_control_decision(true, tf(60), tf(60)));
    assert!(heater_control_decision(true, tf(59), tf(59)));
    assert!(!heater_control_decision(false, tf(51), tf(51)));
}
