use vstd::prelude::*;

verus! {

/// The fixed parameters of a simulation, chosen once at start-up.
#[derive(Debug, Clone, Copy, PartialEq, Eq, Structural)]
pub struct Config {
    /// Arena width, in length units.
    pub width: i32,
    /// Arena height, in length units.
    pub height: i32,
    /// How many creatures the arena holds.
    pub population: usize,
    /// The radius every creature is given.
    pub radius: i32,
    /// The largest magnitude of each initial velocity component.
    pub max_speed: i32,
}

impl Config {
    /// Every size and speed is non-negative.
    pub open spec fn wf(&self) -> bool {
        &&& self.width >= 0
        &&& self.height >= 0
        &&& self.radius >= 0
        &&& self.max_speed >= 0
    }
}

} // verus!
