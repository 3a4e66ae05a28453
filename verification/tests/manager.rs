//! End-to-end tests of the sensor manager: board power, gauge updates through
//! task cycles, the pin-state mirror, and the automation cycle with its
//! override invariant.

use gha::config::{DhtConfig, GHAConfig, SwitchDevice};
use gha::sensor::{DataPin, Humidity, PinMode, TemperatureCelsius};
use gha::sensor_manager::{DhtReadingTask, ReadCycleEvent, SensorManager};

/// An in-memory output pin remembering the level it was last driven to.
struct FakeOutPin {
    number: u8,
    level: bool,
}

impl FakeOutPin {
    fn new(number: u8) -> FakeOutPin {
        FakeOutPin { number, level: false }
    }
}

impl DataPin for FakeOutPin {
    fn is_low(&self) -> bool {
        !self.level
    }

    fn is_high(&self) -> bool {
        self.level
    }

    fn pin(&self) -> u8 {
        self.number
    }

    fn set_high(&mut self) {
        self.level = true;
    }

    fn set_low(&mut self) {
        self.level = false;
    }

    fn set_mode(&mut self, _mode: PinMode) {}

    fn sleep_micros(&mut self, _micros: u64) {}
}

fn test_gha_config() -> GHAConfig {
    GHAConfig {
        listen_host: Some("0.0.0.0".to_string()),
        listen_port: Some(6666),
        dht_board_pin: Some(17),
        dht_configs: vec![
            DhtConfig {
                gpio_pin: 4,
                name: "inside_upper".to_string(),
                temp_offset: None,
                humidity_offset: None,
            },
            DhtConfig {
                gpio_pin: 5,
                name: "inside_lower".to_string(),
                temp_offset: None,
                humidity_offset: None,
            },
        ],
        switch_devices: Some(vec![
            SwitchDevice { gpio_pin: 20, name: "fan".to_string(), auto: Some(true) },
            SwitchDevice { gpio_pin: 21, name: "case_fan".to_string(), auto: Some(true) },
            SwitchDevice { gpio_pin: 22, name: "heater".to_string(), auto: Some(true) },
        ]),
        cors_origins: Vec::new(),
    }
}

fn test_manager() -> SensorManager<FakeOutPin> {
    let config = test_gha_config();
    let mut opened = Vec::new();
    for pin in SensorManager::<FakeOutPin>::output_pins(&config) {
        opened.push((pin, FakeOutPin::new(pin as u8)));
    }
    opened.push((17, FakeOutPin::new(17)));
    SensorManager::new(config, opened)
}

/// Feed both inside sensors a reading of the given temperature in tenths of a
/// degree celsius.
fn feed_readings(manager: &mut SensorManager<FakeOutPin>, temp_c_tenths: i32, now: u64) {
    for pin in [4u32, 5u32] {
        let mut task = DhtReadingTask::new(pin);
        let event =
            ReadCycleEvent::Read(Ok((TemperatureCelsius(temp_c_tenths), Humidity(500))));
        manager.apply_task_cycle(&mut task, event, now);
    }
}

#[test]
fn test_board_power_cycle_ops() {
    let mut manager = test_manager();
    assert_eq!(manager.is_dht_sensor_board_on().unwrap(), false);
    assert_eq!(manager.dht_sensor_board_on().unwrap(), true);
    assert_eq!(manager.is_dht_sensor_board_on().unwrap(), true);
    assert_eq!(manager.dht_sensor_board_off().unwrap(), false);
    assert_eq!(manager.is_dht_sensor_board_on().unwrap(), false);
}

#[test]
fn test_board_pin_not_configured() {
    let mut config = test_gha_config();
    config.dht_board_pin = None;
    let mut manager: SensorManager<FakeOutPin> = SensorManager::new(config, Vec::new());
    assert!(!manager.config().is_dht_board_pin_set());
    let err = manager.dht_sensor_board_on().unwrap_err();
    assert_eq!(err.details(), "dht_board_pin not set");
}

#[test]
fn test_apply_task_cycle_updates_owned_gauge() {
    let mut manager = test_manager();
    assert_eq!(manager.all_sensors_initialized().unwrap(), false);
    feed_readings(&mut manager, 250, 100_000);
    assert_eq!(manager.all_sensors_initialized().unwrap(), true);
    assert_eq!(manager.sensor_gauge_count().unwrap(), 2);
    let gauge = manager.dht_gauge_by_name("inside_upper");
    assert_eq!(gauge.temp_c_tenths, 250);
    assert_eq!(gauge.temp_f_fiftieths, 9 * 250 + 1600);
    assert_eq!(gauge.humidity_tenths, 500);
    assert!(gauge.initialized);
    let by_pin = manager.dht_gauge_by_pin_num(5);
    assert_eq!(by_pin.config.name, "inside_lower");
    assert_eq!(by_pin.temp_c_tenths, 250);
}

#[test]
fn test_set_output_pin_and_mirror_refresh() {
    let mut manager = test_manager();
    assert_eq!(manager.set_output_pin(20, 1).unwrap(), true);
    manager.update_pin_state_gauges();
    assert_eq!(manager.is_switch_on("fan").unwrap(), true);
    assert_eq!(manager.is_switch_on("case_fan").unwrap(), false);
    let states = manager.list_switch_states().unwrap();
    assert_eq!(states.by_name("fan").unwrap().pin_state, Some(1));
    assert_eq!(states.by_name("case_fan").unwrap().pin_state, Some(0));
}

#[test]
fn test_monitor_cycle_hysteresis_latch() {
    let mut manager = test_manager();

    // 35.0 C is 95 F on both sensors: hot, fans on.
    feed_readings(&mut manager, 350, 100_000);
    let cmds = manager.monitor_cycle().unwrap();
    assert!(cmds.fan_on);
    assert!(!cmds.heater_on);

    // 30.6 C is about 87.1 F: inside the band, the running fan latches on.
    feed_readings(&mut manager, 306, 110_000);
    let cmds = manager.monitor_cycle().unwrap();
    assert!(cmds.fan_on);
    assert!(!cmds.heater_on);

    // 15.0 C is 59 F: below the band, fans off; not yet cold.
    feed_readings(&mut manager, 150, 120_000);
    let cmds = manager.monitor_cycle().unwrap();
    assert!(!cmds.fan_on);
    assert!(!cmds.heater_on);

    // 10.0 C is 50 F: cold, heater on.
    feed_readings(&mut manager, 100, 130_000);
    let cmds = manager.monitor_cycle().unwrap();
    assert!(!cmds.fan_on);
    assert!(cmds.heater_on);

    // 12.0 C is 53.6 F: inside the heater band, the running heater latches on.
    feed_readings(&mut manager, 120, 140_000);
    let cmds = manager.monitor_cycle().unwrap();
    assert!(cmds.heater_on);

    // 16.0 C is 60.8 F: above the band, heater off.
    feed_readings(&mut manager, 160, 150_000);
    let cmds = manager.monitor_cycle().unwrap();
    assert!(!cmds.heater_on);
}

#[test]
fn test_override_blocks_automation() {
    let mut manager = test_manager();
    let state = manager.set_switch_override(20, true).unwrap();
    assert!(state.override_auto);

    // hot on both sensors: the case fan is driven, the overridden fan is not.
    feed_readings(&mut manager, 350, 100_000);
    let cmds = manager.monitor_cycle().unwrap();
    assert!(cmds.fan_on);
    // the next cycle refreshes the mirror from the physical pins.
    let _ = manager.monitor_cycle().unwrap();
    let states = manager.list_switch_states().unwrap();
    assert_eq!(states.by_name("fan").unwrap().pin_state, Some(0));
    assert_eq!(states.by_name("case_fan").unwrap().pin_state, Some(1));

    match manager.set_switch_override(99, true) {
        Err(gha::error::PinError::InvalidPin(pin)) => assert_eq!(pin, 99),
        other => panic!("expected InvalidPin, got {:?}", other),
    }
}

#[test]
fn test_switch_on_fails_when_pin_unregistered() {
    // the fan's pin could not be opened at startup: driving that switch
    // reports the registry error, while the other switches still work.
    let config = test_gha_config();
    let mut opened = Vec::new();
    for pin in [21u32, 22u32, 17u32] {
        opened.push((pin, FakeOutPin::new(pin as u8)));
    }
    let mut manager: SensorManager<FakeOutPin> = SensorManager::new(config, opened);
    assert!(manager.switch_on("fan").is_err());
    assert!(manager.switch_on("case_fan").is_ok());
}

#[test]
fn test_listen_address_getters() {
    let manager = test_manager();
    assert_eq!(manager.listen_host(), "0.0.0.0");
    assert_eq!(manager.listen_port(), 6666);
}
