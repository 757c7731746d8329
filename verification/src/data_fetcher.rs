//! Current conditions as the air-quality service reports them.
//!
//! These are plain values: amounts are integers in thousandths of the stated
//! unit, so that a concentration with three decimals is held exactly.

use vstd::prelude::*;

verus! {

/// An amount as the service reports it.
#[derive(Clone, Copy, Debug, PartialEq, Eq, Structural)]
pub enum Quantity {
    /// A finite amount, in thousandths of the unit it comes with.
    Milli(i64),
    /// The service sent something that is not a finite number.
    NonFinite,
}

/// One air-quality index of a report.
#[derive(Clone, Debug, PartialEq, Eq)]
pub struct Index {
    /// Which index this is, such as `uaqi`.
    pub code: String,
    /// The index value, in index points.
    pub aqi: i32,
}

/// How much of a pollutant there is, and in which unit.
#[derive(Clone, Debug, PartialEq, Eq)]
pub struct Concentration {
    pub value: Quantity,
    /// `MICROGRAMS_PER_CUBIC_METER` or `PARTS_PER_BILLION`.
    pub units: String,
}

/// One pollutant of a report.
#[derive(Clone, Debug, PartialEq, Eq)]
pub struct Pollutant {
    /// Which pollutant this is, such as `pm25`.
    pub code: String,
    pub concentration: Concentration,
}

/// The current conditions at one place.
#[derive(Clone, Debug, PartialEq, Eq)]
pub struct AirQualityData {
    /// When the conditions were observed, in seconds.
    pub date_time: u64,
    /// The place the conditions are for.
    pub region_code: String,
    pub indexes: Vec<Index>,
    pub pollutants: Vec<Pollutant>,
}

} // verus!
