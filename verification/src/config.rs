//! Configuration snapshot consumed by the sensor manager: sensors, switches,
//! the optional sensor-board power pin, and the listen address.

use vstd::prelude::*;

verus! {

/// Per-sensor configuration: the GPIO pin of the data line, a display name,
/// and optional calibration offsets.
///
/// Offsets are in tenths of a unit (tenths of a degree celsius, tenths of a
/// percent relative humidity), matching the sensor's own precision.
#[derive(Debug, Clone, PartialEq)]
pub struct DhtConfig {
    pub gpio_pin: u32,
    pub name: String,
    pub temp_offset: Option<i32>,
    pub humidity_offset: Option<i32>,
}

/// Per-switch configuration: the GPIO pin driving the relay, a display name,
/// and whether automation may control it by default.
#[derive(Debug, Clone, PartialEq)]
pub struct SwitchDevice {
    pub gpio_pin: u32,
    pub name: String,
    pub auto: Option<bool>,
}

/// The full configuration snapshot.
#[derive(Debug, Clone, PartialEq)]
pub struct GHAConfig {
    pub listen_host: Option<String>,
    pub listen_port: Option<u16>,
    pub dht_board_pin: Option<u32>,
    pub dht_configs: Vec<DhtConfig>,
    pub switch_devices: Option<Vec<SwitchDevice>>,
    pub cors_origins: Vec<String>,
}

impl GHAConfig {
    /// The built-in defaults: listen on 0.0.0.0:6666 with no sensors, no
    /// switches, no sensor-board pin and no allowed origins.
    pub fn default() -> (r: GHAConfig)
        ensures
            r.listen_host matches Some(h) && h@ == "0.0.0.0"@,
            r.listen_port == Some(6666u16),
            r.dht_board_pin is None,
            r.dht_configs@.len() == 0,
            r.switch_devices matches Some(d) && d@.len() == 0,
            r.cors_origins@.len() == 0,
    {
        GHAConfig {
            listen_host: Some("0.0.0.0".to_owned()),
            listen_port: Some(6666),
            dht_configs: Vec::new(),
            dht_board_pin: None,
            switch_devices: Some(Vec::new()),
            cors_origins: Vec::new(),
        }
    }

    /// Whether a sensor-board power pin is configured.
    pub fn is_dht_board_pin_set(&self) -> (r: bool)
        ensures
            r == self.dht_board_pin is Some,
    {
        self.dht_board_pin.is_some()
    }

    /// The allowed CORS origins, borrowed.
    pub fn origins(&self) -> (r: Vec<&str>)
        ensures
            r@.len() == self.cors_origins@.len(),
            forall|i: int| 0 <= i < r@.len() ==> r@[i]@ == self.cors_origins@[i]@,
    {
        let mut ret: Vec<&str> = Vec::with_capacity(self.cors_origins.len());
        let mut i: usize = 0;
        while i < self.cors_origins.len()
            invariant
                i <= self.cors_origins@.len(),
                ret@.len() == i,
                forall|j: int| 0 <= j < i ==> ret@[j]@ == self.cors_origins@[j]@,
            decreases self.cors_origins@.len() - i,
        {
            ret.push(self.cors_origins[i].as_str());
            i = i + 1;
        }
        ret
    }
}

} // verus!
