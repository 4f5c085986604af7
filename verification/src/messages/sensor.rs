//! The statuses that a sensor can be in.

use vstd::prelude::*;

verus! {

/// The status of a sensor.
#[derive(Debug, PartialEq, Eq, Copy, Clone, Structural)]
pub enum SensorStatus {
    /// The sensor is being set up and no value has been seen yet.
    Unknown,
    /// The reading lies within the nominal range.
    Nominal,
    /// The reading lies outside the nominal range.
    Warn,
    /// The reading shows a critical condition.
    Error,
    /// Taking a reading failed and is unlikely to succeed without
    /// maintenance.
    Failure,
    /// The sensor could not be reached.
    Unreachable,
    /// The sensor is inactive, which is no failure.
    Inactive,
}

impl SensorStatus {
    /// Whether a reading with this status holds a valid value: only a
    /// nominal one, a warning and an error do.
    pub fn is_valid(self) -> (valid: bool)
        ensures
            valid == (self == SensorStatus::Nominal || self == SensorStatus::Warn || self
                == SensorStatus::Error),
    {
        match self {
            SensorStatus::Nominal | SensorStatus::Warn | SensorStatus::Error => true,
            _ => false,
        }
    }
}

} // verus!
