//! Tests of the output-pin registry, the switch registry, the configuration
//! defaults, and the error types.

use gha::config::{GHAConfig, SwitchDevice};
use gha::error::{GHAError, PinError};
use gha::sensor::{DataPin, PinMode};
use gha::sensor_manager::{OutputPinState, SwitchManager};

/// An in-memory output pin remembering the level it was last driven to.
struct FakeOutPin {
    number: u8,
    level: bool,
}

impl FakeOutPin {
    fn new(number: u8) -> FakeOutPin {
        FakeOutPin { number, level: false }
    }
}

impl DataPin for FakeOutPin {
    fn is_low(&self) -> bool {
        !self.level
    }

    fn is_high(&self) -> bool {
        self.level
    }

    fn pin(&self) -> u8 {
        self.number
    }

    fn set_high(&mut self) {
        self.level = true;
    }

    fn set_low(&mut self) {
        self.level = false;
    }

    fn set_mode(&mut self, _mode: PinMode) {}

    fn sleep_micros(&mut self, _micros: u64) {}
}

fn registry_with_pins(pins: &[u32]) -> OutputPinState<FakeOutPin> {
    let mut entries = Vec::new();
    for &p in pins {
        entries.push((p, FakeOutPin::new(p as u8)));
    }
    OutputPinState::new(entries)
}

#[test]
fn test_set_unregistered_pin_fails_invalid_pin() {
    let mut registry = registry_with_pins(&[20, 21]);
    match registry.set_pin_state(99, 1) {
        Err(PinError::InvalidPin(pin)) => assert_eq!(pin, 99),
        other => panic!("expected InvalidPin, got {:?}", other),
    }
    // the level is not even examined for an unregistered pin.
    match registry.set_pin_state(99, 2) {
        Err(PinError::InvalidPin(pin)) => assert_eq!(pin, 99),
        other => panic!("expected InvalidPin, got {:?}", other),
    }
}

#[test]
fn test_set_registered_pin_level_2_fails_invalid_level() {
    let mut registry = registry_with_pins(&[20, 21]);
    match registry.set_pin_state(20, 2) {
        Err(PinError::InvalidPinValue { pin, val }) => {
            assert_eq!(pin, 20);
            assert_eq!(val, 2);
        }
        other => panic!("expected InvalidPinValue, got {:?}", other),
    }
}

#[test]
fn test_set_then_is_high() {
    let mut registry = registry_with_pins(&[20, 21]);
    assert_eq!(registry.set_pin_state(20, 1).unwrap(), true);
    assert_eq!(registry.is_pin_high(20).unwrap(), true);
    assert_eq!(registry.is_pin_high(21).unwrap(), false);
    assert_eq!(registry.set_pin_state(20, 0).unwrap(), false);
    assert_eq!(registry.is_pin_high(20).unwrap(), false);
}

#[test]
fn test_pin_on_off_wrappers() {
    let mut registry = registry_with_pins(&[20]);
    assert_eq!(registry.pin_on(20).unwrap(), true);
    assert_eq!(registry.pin_off(20).unwrap(), false);
    assert!(registry.pin_on(99).is_err());
    match registry.is_pin_high(99) {
        Err(PinError::InvalidPin(pin)) => assert_eq!(pin, 99),
        other => panic!("expected InvalidPin, got {:?}", other),
    }
}

fn device(pin: u32, name: &str, auto: Option<bool>) -> SwitchDevice {
    SwitchDevice { gpio_pin: pin, name: name.to_string(), auto }
}

#[test]
fn test_switch_manager_initial_states() {
    let devices = vec![
        device(22, "heater", Some(true)),
        device(20, "fan", Some(true)),
        device(21, "case_fan", None),
    ];
    let manager = SwitchManager::new(&devices);
    let snapshot = manager.switches_state().unwrap();
    assert_eq!(snapshot.len(), 3);
    // the snapshot is ordered by increasing pin number.
    assert_eq!(snapshot.get(0).pin_num, 20);
    assert_eq!(snapshot.get(1).pin_num, 21);
    assert_eq!(snapshot.get(2).pin_num, 22);
    let fan = snapshot.by_name("fan").unwrap();
    assert_eq!(fan.pin_num, 20);
    assert!(fan.is_auto);
    assert!(!fan.override_auto);
    assert_eq!(fan.pin_state, None);
    // a device without an explicit auto flag defaults to manual.
    let case_fan = snapshot.by_name("case_fan").unwrap();
    assert!(!case_fan.is_auto);
    assert!(snapshot.by_name("compressor").is_none());
}

#[test]
fn test_duplicate_pin_keeps_later_device() {
    // two devices on one pin: the later device's intent wins, and the pin
    // appears once.
    let devices = vec![
        device(20, "fan", Some(true)),
        device(20, "backup_fan", None),
    ];
    let manager = SwitchManager::new(&devices);
    let snapshot = manager.switches_state().unwrap();
    assert_eq!(snapshot.len(), 1);
    let entry = snapshot.get(0);
    assert_eq!(entry.name, "backup_fan");
    assert_eq!(entry.pin_num, 20);
    assert!(!entry.is_auto);
}

#[test]
fn test_set_pin_state_leaves_other_pins_untouched() {
    let mut registry = registry_with_pins(&[20, 21]);
    registry.set_pin_state(21, 1).unwrap();
    registry.set_pin_state(20, 1).unwrap();
    registry.set_pin_state(20, 0).unwrap();
    assert_eq!(registry.is_pin_high(21).unwrap(), true);
    assert_eq!(registry.is_pin_high(20).unwrap(), false);
}

#[test]
fn test_update_override_auto() {
    let devices = vec![device(20, "fan", Some(true))];
    let mut manager = SwitchManager::new(&devices);
    let updated = manager.update_override_auto(20, true).unwrap();
    assert!(updated.override_auto);
    let snapshot = manager.switches_state().unwrap();
    assert!(snapshot.by_name("fan").unwrap().override_auto);
    match manager.update_override_auto(99, true) {
        Err(PinError::InvalidPin(pin)) => assert_eq!(pin, 99),
        other => panic!("expected InvalidPin, got {:?}", other),
    }
}

#[test]
fn test_update_pin_state_mirror() {
    let devices = vec![device(20, "fan", Some(true))];
    let mut manager = SwitchManager::new(&devices);
    let updated = manager.update_pin_state(20, 1).unwrap();
    assert_eq!(updated.pin_state, Some(1));
    let snapshot = manager.switches_state().unwrap();
    assert_eq!(snapshot.by_name("fan").unwrap().pin_state, Some(1));
    assert!(manager.update_pin_state(99, 1).is_err());
}

#[test]
fn test_gha_config_defaults() {
    let config = GHAConfig::default();
    assert_eq!(config.listen_host, Some("0.0.0.0".to_string()));
    assert_eq!(config.listen_port, Some(6666));
    assert_eq!(config.dht_board_pin, None);
    assert!(!config.is_dht_board_pin_set());
    assert!(config.dht_configs.is_empty());
    assert_eq!(config.switch_devices, Some(Vec::new()));
    assert!(config.cors_origins.is_empty());
}

#[test]
fn test_gha_config_origins() {
    let mut config = GHAConfig::default();
    config.cors_origins = vec!["http://one".to_string(), "http://two".to_string()];
    let origins = config.origins();
    assert_eq!(origins, vec!["http://one", "http://two"]);
}

#[test]
fn test_gha_error_from_string() {
    let err = GHAError::from_string("something broke".to_string());
    assert_eq!(err.details(), "something broke");
}

#[test]
fn test_gha_error_from_pin_error() {
    let e1 = GHAError::from_pin_error(PinError::InvalidPin(9));
    assert_eq!(e1.details(), "invalid pin: pin not registered");
    let e2 = GHAError::from_pin_error(PinError::InvalidPinValue { pin: 9, val: 2 });
    assert_eq!(e2.details(), "invalid pin value: level must be 0 or 1");
}
