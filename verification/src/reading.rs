//! One normalized sample of environmental measurements.

use vstd::prelude::*;

use crate::decimal::Decimal;
use crate::decimal::celsius_to_fahrenheit;
use crate::decimal::spec_fahrenheit;

verus! {

/// A fixed-shape record of the five measured quantities. A value type with
/// no identity beyond its fields; it is copied freely.
///
/// Invariant of the decoder boundary: by the time a reading leaves the
/// decoder its temperature is expressed in Fahrenheit; the wire unit
/// (Celsius) never escapes.
#[derive(Clone, Copy, Debug, PartialEq, Eq, Structural)]
pub struct SensorReading {
    pub temperature: Decimal,
    pub humidity: Decimal,
    pub pressure: Decimal,
    pub altitude: Decimal,
    pub gas_resistance: Decimal,
}

impl SensorReading {
    pub open spec fn wf(self) -> bool {
        &&& self.temperature.wf()
        &&& self.humidity.wf()
        &&& self.pressure.wf()
        &&& self.altitude.wf()
        &&& self.gas_resistance.wf()
    }

    /// The bounds every reading fresh off the wire satisfies, before unit
    /// normalization.
    pub open spec fn parsed_wf(self) -> bool {
        &&& self.temperature.parsed_wf()
        &&& self.humidity.parsed_wf()
        &&& self.pressure.parsed_wf()
        &&& self.altitude.parsed_wf()
        &&& self.gas_resistance.parsed_wf()
    }
}

/// The reading as published: the wire reading with its temperature converted
/// from Celsius to Fahrenheit; every other field passes through unchanged.
pub open spec fn spec_output(raw: SensorReading) -> SensorReading {
    SensorReading { temperature: spec_fahrenheit(raw.temperature), ..raw }
}

/// Apply unit normalization to a reading fresh off the wire.
pub fn normalize(raw: SensorReading) -> (out: SensorReading)
    requires
        raw.parsed_wf(),
    ensures
        out == spec_output(raw),
        out.wf(),
{
    SensorReading { temperature: celsius_to_fahrenheit(raw.temperature), ..raw }
}

} // verus!
