//! The operator-tunable parameters that the modules are built from.
use vstd::prelude::*;

use crate::time::{time_at, TimeOfDay};

verus! {

/// Operator settings: when to check, and for how long (in seconds).
#[derive(Clone, Copy, Debug, PartialEq, Eq, Structural)]
pub struct Settings {
    pub check_time: TimeOfDay,
    pub check_duration: u64,
    pub open_duration: u64,
}

impl Default for Settings {
    /// Check at 03:00 for 30 seconds; open for five minutes.
    fn default() -> (r: Settings)
        ensures
            r == (Settings {
                check_time: time_at(3, 0),
                check_duration: 30,
                open_duration: 300,
            }),
    {
        let check_time = TimeOfDay::new(3, 0).unwrap();
        Settings { check_time, check_duration: 30, open_duration: 5 * 60 }
    }
}

} // verus!
