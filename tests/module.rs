use hub::module::{ClientModule, Reaction, ReactionView};
use vstd::seq::Seq;
use hub::state::State;

#[derive(Debug, Default)]
struct SimpleTestModule;

impl ClientModule for SimpleTestModule {
    fn spec_topic(&self) -> Seq<char> {
        panic!("a specification, not called at run time")
    }

    fn spec_settings(&self) -> Seq<(Seq<char>, Seq<char>)> {
        panic!("a specification, not called at run time")
    }

    fn spec_handle(&self, _topic: Seq<char>, _payload: Seq<char>, state: State) -> (State, ReactionView) {
        (state, ReactionView::Idle)
    }

    fn topic(&self) -> String {
        "test/topic".to_string()
    }

    fn settings(&self) -> Vec<(String, String)> {
        Vec::new()
    }

    fn handle(&self, _topic: &str, _payload: &str, _state: &mut State) -> Reaction {
        Reaction::Idle
    }
}

#[derive(Debug, Default)]
struct TestModule {
    config_data: String,
}

impl ClientModule for TestModule {
    fn spec_topic(&self) -> Seq<char> {
        panic!("a specification, not called at run time")
    }

    fn spec_settings(&self) -> Seq<(Seq<char>, Seq<char>)> {
        panic!("a specification, not called at run time")
    }

    fn spec_handle(&self, _topic: Seq<char>, _payload: Seq<char>, state: State) -> (State, ReactionView) {
        (state, ReactionView::Idle)
    }

    fn topic(&self) -> String {
        "test/topic".to_string()
    }

    fn settings(&self) -> Vec<(String, String)> {
        vec![("config_data".to_string(), format!("\"{}\"", self.config_data))]
    }

    fn handle(&self, _topic: &str, _payload: &str, _state: &mut State) -> Reaction {
        Reaction::Idle
    }
}

struct RootModule;

impl ClientModule for RootModule {
    fn spec_topic(&self) -> Seq<char> {
        panic!("a specification, not called at run time")
    }

    fn spec_settings(&self) -> Seq<(Seq<char>, Seq<char>)> {
        panic!("a specification, not called at run time")
    }

    fn spec_handle(&self, _topic: Seq<char>, _payload: Seq<char>, state: State) -> (State, ReactionView) {
        (state, ReactionView::Idle)
    }

    fn topic(&self) -> String {
        String::new()
    }

    fn settings(&self) -> Vec<(String, String)> {
        Vec::new()
    }

    fn handle(&self, _topic: &str, _payload: &str, _state: &mut State) -> Reaction {
        Reaction::Idle
    }
}

#[test]
fn test_simple_client_module() {
    let module = SimpleTestModule;
    assert_eq!(module.name(), "topic");
    assert_eq!(module.topic(), "test/topic");
    assert_eq!(module.settings().len(), 0);
}

#[test]
fn test_client_module() {
    let module = TestModule::default();
    assert_eq!(module.name(), "topic");
    assert_eq!(module.topic(), "test/topic");
    assert_eq!(module.settings().len(), 1);
}

#[test]
fn name_of_empty_topic_is_empty() {
    assert_eq!(RootModule.name(), "");
}

#[test]
fn name_of_sensor_topic() {
    let sensor = hub::sensor::SensorModule::default();
    assert_eq!(sensor.name(), "sensor");
    let watering = hub::watering::WateringModule::default();
    assert_eq!(watering.name(), "watering");
}
