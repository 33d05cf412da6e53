//! The vehicle.

use vstd::prelude::*;

pub mod tire;

verus! {

/// A vehicle's engine: the force it currently delivers to each powered tire
/// and the most it can deliver.
#[derive(Clone, Copy, Debug, PartialEq, Eq)]
pub struct Car {
    pub current_power: i64,
    pub max_power: i64,
}

impl Car {
    pub fn new(current_power: i64, max_power: i64) -> (car: Car)
        ensures
            car == (Car { current_power, max_power }),
    {
        Car { current_power, max_power }
    }
}

} // verus!
