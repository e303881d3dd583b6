//! The watering module: it answers queries on the watering-needed flag and
//! clears the flag once its answer is accepted for delivery.
use vstd::prelude::*;

use crate::module::{pairs_view, settled, ClientModule, Publish, PublishView, QoS, Reaction, ReactionView};
use crate::settings::Settings;
use crate::state::State;
use crate::text::{decimal, decimal_string};
use crate::time::{hh_mm, serialize_naive_time, TimeOfDay};

verus! {

/// Opens the valve; answers whether watering is needed.
#[derive(Clone, Copy, Debug, PartialEq, Eq, Structural)]
pub struct WateringModule {
    pub check_time: TimeOfDay,
    pub open_duration: u64,
}

/// The topic on which the watering module is asked whether water is needed.
pub open spec fn watering_query_topic() -> Seq<char> {
    "home/watering"@ + "/watering_needed"@
}

/// The topic on which the watering module answers.
pub open spec fn watering_response_topic() -> Seq<char> {
    "home/watering"@ + "/watering_needed/response"@
}

/// The text of a flag.
pub open spec fn bool_text(b: bool) -> Seq<char> {
    if b {
        "true"@
    } else {
        "false"@
    }
}

/// The answer to a query in `state`: the flag, not retained, exactly once.
pub open spec fn watering_answer(state: State) -> PublishView {
    PublishView {
        topic: watering_response_topic(),
        payload: bool_text(state.watering_needed),
        retain: false,
        qos: QoS::ExactlyOnce,
    }
}

/// A query, whatever its payload, asks for one answer carrying the flag on
/// the response topic; the flag then reads `false` if the transport accepted
/// the answer, and is unchanged if it refused it.
pub proof fn lemma_query_reads_and_clears(m: WateringModule, payload: Seq<char>, state: State, accepted: bool)
    ensures
        ({
            let (after, reaction) = m.spec_handle(watering_query_topic(), payload, state);
            &&& reaction == (ReactionView::Send {
                message: watering_answer(state),
                on_accepted: State { watering_needed: false },
            })
            &&& settled(after, reaction, accepted) == if accepted {
                State { watering_needed: false }
            } else {
                state
            }
        }),
{
}

impl WateringModule {
    /// The watering module of these settings.
    pub fn from(settings: &Settings) -> (r: WateringModule)
        ensures
            r.check_time == settings.check_time,
            r.open_duration == settings.open_duration,
    {
        WateringModule { check_time: settings.check_time, open_duration: settings.open_duration }
    }
}

impl Default for WateringModule {
    /// The watering module of the default settings.
    fn default() -> (r: WateringModule)
        ensures
            r.check_time.minutes_of_day() == 180,
            r.open_duration == 300,
    {
        proof {
            TimeOfDay::lemma_time_at(3, 0);
        }
        WateringModule::from(&Settings::default())
    }
}

impl ClientModule for WateringModule {
    open spec fn spec_topic(&self) -> Seq<char> {
        "home/watering"@
    }

    open spec fn spec_settings(&self) -> Seq<(Seq<char>, Seq<char>)> {
        seq![
            ("check_time"@, hh_mm(self.check_time)),
            ("open_duration"@, decimal(self.open_duration as nat)),
        ]
    }

    open spec fn spec_handle(&self, topic: Seq<char>, payload: Seq<char>, state: State) -> (State, ReactionView) {
        if topic == watering_query_topic() {
            (
                state,
                ReactionView::Send {
                    message: watering_answer(state),
                    on_accepted: State { watering_needed: false },
                },
            )
        } else {
            (state, ReactionView::Idle)
        }
    }

    fn topic(&self) -> (r: String) {
        String::from_str("home/watering")
    }

    fn settings(&self) -> (r: Vec<(String, String)>) {
        let mut r: Vec<(String, String)> = Vec::new();
        r.push((String::from_str("check_time"), serialize_naive_time(&self.check_time)));
        r.push((String::from_str("open_duration"), decimal_string(self.open_duration)));
        assert(pairs_view(r@) =~= self.spec_settings());
        r
    }

    fn handle(&self, topic: &str, payload: &str, state: &mut State) -> (r: Reaction) {
        let mut query = self.topic();
        query.append("/watering_needed");
        if String::from_str(topic) == query {
            let mut response = self.topic();
            response.append("/watering_needed/response");
            let payload = if state.watering_needed {
                String::from_str("true")
            } else {
                String::from_str("false")
            };
            let message = Publish { topic: response, payload, retain: false, qos: QoS::ExactlyOnce };
            Reaction::Send { message, on_accepted: State { watering_needed: false } }
        } else {
            Reaction::Idle
        }
    }
}

} // verus!
