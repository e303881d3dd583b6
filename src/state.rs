//! The state that modules share: whether the plants need water.
use vstd::prelude::*;

verus! {

/// The one piece of state shared between modules.
#[derive(Clone, Copy, Debug, PartialEq, Eq, Structural)]
pub struct State {
    pub watering_needed: bool,
}

impl Default for State {
    fn default() -> (r: State)
        ensures
            r == (State { watering_needed: false }),
    {
        State { watering_needed: false }
    }
}

} // verus!
