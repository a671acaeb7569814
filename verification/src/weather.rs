//! The weather condition of a weatherbit observation or forecast.
use vstd::prelude::*;

verus! {

/// The weather of a current observation.
pub struct CurrentDataWeather {
    pub icon: String,
    pub code: i32,
    pub description: String,
}

/// The weather of a forecast day.
pub struct ForecastDataWeather {
    pub icon: String,
    pub code: i32,
    pub description: String,
}

} // verus!
