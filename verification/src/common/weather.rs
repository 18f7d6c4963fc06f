//! Weather reports.

use vstd::prelude::*;

verus! {

#[derive(Debug, Clone, Copy, PartialEq, Eq, Structural)]
pub enum WeatherCondition {
    Clear,
    PartlyCloudy,
    Cloudy,
    Fog,
    Rain,
    Snow,
    Thunderstorm,
}

#[derive(Debug, Clone, Copy, PartialEq, Eq, Structural)]
pub struct WeatherSnapshot {
    pub temperature_celsius: i16,
    pub condition: WeatherCondition,
    pub fetched_at_unix: u64,
}

} // verus!
