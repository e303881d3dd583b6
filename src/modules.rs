//! The modules this hub runs, under one type for the registry.
use vstd::prelude::*;

use crate::module::{ClientModule, Reaction, ReactionView};
use crate::sensor::SensorModule;
use crate::state::State;
use crate::watering::WateringModule;

verus! {

/// One of the hub's modules.
#[derive(Clone, Copy, Debug, PartialEq, Eq, Structural)]
pub enum HubModule {
    Sensor(SensorModule),
    Watering(WateringModule),
}

impl ClientModule for HubModule {
    open spec fn spec_topic(&self) -> Seq<char> {
        match self {
            HubModule::Sensor(m) => m.spec_topic(),
            HubModule::Watering(m) => m.spec_topic(),
        }
    }

    open spec fn spec_settings(&self) -> Seq<(Seq<char>, Seq<char>)> {
        match self {
            HubModule::Sensor(m) => m.spec_settings(),
            HubModule::Watering(m) => m.spec_settings(),
        }
    }

    open spec fn spec_handle(&self, topic: Seq<char>, payload: Seq<char>, state: State) -> (State, ReactionView) {
        match self {
            HubModule::Sensor(m) => m.spec_handle(topic, payload, state),
            HubModule::Watering(m) => m.spec_handle(topic, payload, state),
        }
    }

    fn topic(&self) -> (r: String) {
        match self {
            HubModule::Sensor(m) => m.topic(),
            HubModule::Watering(m) => m.topic(),
        }
    }

    fn settings(&self) -> (r: Vec<(String, String)>) {
        match self {
            HubModule::Sensor(m) => m.settings(),
            HubModule::Watering(m) => m.settings(),
        }
    }

    fn handle(&self, topic: &str, payload: &str, state: &mut State) -> (r: Reaction) {
        match self {
            HubModule::Sensor(m) => m.handle(topic, payload, state),
            HubModule::Watering(m) => m.handle(topic, payload, state),
        }
    }
}

} // verus!
