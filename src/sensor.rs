//! The sensor module: it raises the watering-needed flag.
use vstd::prelude::*;

use crate::module::{pairs_view, ClientModule, Reaction, ReactionView};
use crate::settings::Settings;
use crate::state::State;
use crate::text::{decimal, decimal_string, is_true_text, is_true_word};
use crate::time::{hh_mm, serialize_naive_time, TimeOfDay};

verus! {

/// Minutes by which the sensor checks ahead of the operator's check time.
pub const SENSOR_LEAD_MINUTES: u32 = 5;

/// Watches the soil sensor; a report that water is needed sets the shared flag.
#[derive(Clone, Copy, Debug, PartialEq, Eq, Structural)]
pub struct SensorModule {
    pub check_time: TimeOfDay,
    pub check_duration: u64,
}

/// The topic under which the sensor reports whether water is needed.
pub open spec fn sensor_report_topic() -> Seq<char> {
    "home/sensor"@ + "/watering_needed"@
}

impl SensorModule {
    /// The sensor of these settings: it checks five minutes before the
    /// operator's check time, for the configured duration.
    pub fn from(settings: &Settings) -> (r: SensorModule)
        ensures
            r.check_time.minutes_of_day() == (settings.check_time.minutes_of_day() - 5) % 1440,
            r.check_duration == settings.check_duration,
    {
        SensorModule {
            check_time: settings.check_time.minus_minutes(SENSOR_LEAD_MINUTES),
            check_duration: settings.check_duration,
        }
    }
}

impl Default for SensorModule {
    /// The sensor of the default settings.
    fn default() -> (r: SensorModule)
        ensures
            r.check_time.minutes_of_day() == 175,
            r.check_duration == 30,
    {
        proof {
            TimeOfDay::lemma_time_at(3, 0);
        }
        SensorModule::from(&Settings::default())
    }
}

impl ClientModule for SensorModule {
    open spec fn spec_topic(&self) -> Seq<char> {
        "home/sensor"@
    }

    open spec fn spec_settings(&self) -> Seq<(Seq<char>, Seq<char>)> {
        seq![
            ("check_time"@, hh_mm(self.check_time)),
            ("check_duration"@, decimal(self.check_duration as nat)),
        ]
    }

    open spec fn spec_handle(&self, topic: Seq<char>, payload: Seq<char>, state: State) -> (State, ReactionView) {
        if topic == sensor_report_topic() && is_true_word(payload) {
            (State { watering_needed: true }, ReactionView::Idle)
        } else {
            (state, ReactionView::Idle)
        }
    }

    fn topic(&self) -> (r: String) {
        String::from_str("home/sensor")
    }

    fn settings(&self) -> (r: Vec<(String, String)>) {
        let mut r: Vec<(String, String)> = Vec::new();
        r.push((String::from_str("check_time"), serialize_naive_time(&self.check_time)));
        r.push((String::from_str("check_duration"), decimal_string(self.check_duration)));
        assert(pairs_view(r@) =~= self.spec_settings());
        r
    }

    fn handle(&self, topic: &str, payload: &str, state: &mut State) -> (r: Reaction) {
        let mut expected = self.topic();
        expected.append("/watering_needed");
        if String::from_str(topic) == expected && is_true_text(payload) {
            state.watering_needed = true;
        }
        Reaction::Idle
    }
}

} // verus!
