//! Error types shared by the registries and the boundary layer.

use vstd::prelude::*;

verus! {

/// A catch-all error carrying a human-readable description.
#[derive(Debug)]
pub struct GHAError {
    details: String,
}

impl GHAError {
    /// The characters of the stored description.
    pub closed spec fn spec_details(&self) -> Seq<char> {
        self.details@
    }

    /// Wrap a message in a `GHAError`.
    pub fn from_string(msg: String) -> (r: GHAError)
        ensures
            r.spec_details() == msg@,
    {
        GHAError { details: msg }
    }

    /// Borrow the stored description.
    pub fn details(&self) -> (r: &str)
        ensures
            r@ == self.spec_details(),
    {
        self.details.as_str()
    }
}

/// Failure operating a registered output pin: the pin is unknown, or the
/// requested level is neither 0 nor 1.
#[derive(Debug, Clone, Copy, PartialEq, Eq, Structural)]
pub enum PinError {
    /// The pin is registered but the requested level is not 0 or 1.
    InvalidPinValue { pin: u32, val: u32 },
    /// The pin is not registered as an output pin.
    InvalidPin(u32),
}

impl GHAError {
    /// Describe a `PinError` as a `GHAError`.
    pub fn from_pin_error(e: PinError) -> (r: GHAError)
        ensures
            e is InvalidPinValue ==> r.spec_details() == "invalid pin value: level must be 0 or 1"@,
            e is InvalidPin ==> r.spec_details() == "invalid pin: pin not registered"@,
    {
        match e {
            PinError::InvalidPinValue { .. } => GHAError {
                details: "invalid pin value: level must be 0 or 1".to_owned(),
            },
            PinError::InvalidPin(_) => GHAError {
                details: "invalid pin: pin not registered".to_owned(),
            },
        }
    }
}

} // verus!
