use hub::manager::ModuleManager;
use hub::module::{settle, ClientModule, QoS, Reaction};
use hub::modules::HubModule;
use hub::sensor::SensorModule;
use hub::settings::Settings;
use hub::state::State;
use hub::time::TimeOfDay;
use hub::watering::WateringModule;

fn hub_manager() -> ModuleManager<HubModule> {
    let settings = Settings::default();
    let mut manager = ModuleManager::new();
    manager.register_module(HubModule::Sensor(SensorModule::from(&settings)));
    manager.register_module(HubModule::Watering(WateringModule::from(&settings)));
    manager
}

/// Delivers one message the way the event loop does, with `accept` deciding
/// whether the transport takes each publish; returns what was published.
fn deliver(
    manager: &ModuleManager<HubModule>,
    state: &mut State,
    topic: &str,
    payload: &str,
    accept: bool,
) -> Vec<(String, String)> {
    let mut sent = Vec::new();
    for index in manager.matching_modules(topic) {
        let reaction = manager.handle_message(index, topic, payload, state);
        if let Reaction::Send { message, .. } = &reaction {
            if accept {
                sent.push((message.topic.clone(), message.payload.clone()));
            }
        }
        settle(state, &reaction, accept);
    }
    sent
}

#[test]
fn default_settings() {
    let s = Settings::default();
    assert_eq!(s.check_time, TimeOfDay::new(3, 0).unwrap());
    assert_eq!(s.check_duration, 30);
    assert_eq!(s.open_duration, 300);
    assert!(!State::default().watering_needed);
}

#[test]
fn sensor_checks_five_minutes_early() {
    let sensor = SensorModule::default();
    assert_eq!(sensor.check_time, TimeOfDay::new(2, 55).unwrap());
    assert_eq!(sensor.check_duration, 30);
    let watering = WateringModule::default();
    assert_eq!(watering.check_time, TimeOfDay::new(3, 0).unwrap());
    assert_eq!(watering.open_duration, 300);
}

#[test]
fn flattened_check_time_is_two_digit() {
    let sensor = SensorModule::default();
    let settings = sensor.settings();
    assert!(settings.contains(&("check_time".to_string(), "02:55".to_string())));
    assert!(settings.contains(&("check_duration".to_string(), "30".to_string())));
    assert_eq!(settings.len(), 2);
    let watering = WateringModule::default().settings();
    assert!(watering.contains(&("check_time".to_string(), "03:00".to_string())));
    assert!(watering.contains(&("open_duration".to_string(), "300".to_string())));
}

#[test]
fn sensor_true_sets_flag() {
    let sensor = SensorModule::default();
    let mut state = State { watering_needed: false };
    let r = sensor.handle("home/sensor/watering_needed", "true", &mut state);
    assert!(matches!(r, Reaction::Idle));
    assert!(state.watering_needed);
    sensor.handle("home/sensor/watering_needed", "TRUE", &mut state);
    assert!(state.watering_needed);
}

#[test]
fn sensor_other_payload_leaves_flag() {
    let sensor = SensorModule::default();
    let mut state = State { watering_needed: false };
    sensor.handle("home/sensor/watering_needed", "maybe", &mut state);
    assert!(!state.watering_needed);
    sensor.handle("home/sensor/other", "true", &mut state);
    assert!(!state.watering_needed);
}

#[test]
fn query_answers_and_clears_when_accepted() {
    let watering = WateringModule::default();
    let mut state = State { watering_needed: true };
    let reaction = watering.handle("home/watering/watering_needed", "", &mut state);
    match &reaction {
        Reaction::Send { message, on_accepted } => {
            assert_eq!(message.topic, "home/watering/watering_needed/response");
            assert_eq!(message.payload, "true");
            assert!(!message.retain);
            assert_eq!(message.qos, QoS::ExactlyOnce);
            assert!(!on_accepted.watering_needed);
        }
        Reaction::Idle => panic!("a query must be answered"),
    }
    assert!(state.watering_needed);
    settle(&mut state, &reaction, true);
    assert!(!state.watering_needed);
}

#[test]
fn query_keeps_flag_when_publish_fails() {
    let watering = WateringModule::default();
    let mut state = State { watering_needed: true };
    let reaction = watering.handle("home/watering/watering_needed", "", &mut state);
    settle(&mut state, &reaction, false);
    assert!(state.watering_needed);
}

#[test]
fn query_through_manager_publishes_once() {
    let manager = hub_manager();
    let mut state = State { watering_needed: true };
    let sent = deliver(&manager, &mut state, "home/watering/watering_needed", "", true);
    assert_eq!(sent, vec![("home/watering/watering_needed/response".to_string(), "true".to_string())]);
    assert!(!state.watering_needed);
}

#[test]
fn end_to_end_second_query_sees_cleared_flag() {
    let manager = hub_manager();
    let mut state = State::default();
    let (pubs, subs) = manager.initialize();
    assert_eq!(pubs.len(), 4);
    assert!(pubs.iter().any(|p| p.topic == "settings/home/sensor/check_time" && p.payload == "02:55"));
    assert!(pubs.iter().any(|p| p.topic == "settings/home/watering/open_duration" && p.payload == "300"));
    assert_eq!(subs[0].topic, "home/sensor/#");
    assert_eq!(subs[1].topic, "home/watering/#");

    assert!(deliver(&manager, &mut state, "home/sensor/watering_needed", "true", true).is_empty());
    assert!(state.watering_needed);
    let first = deliver(&manager, &mut state, "home/watering/watering_needed", "", true);
    let second = deliver(&manager, &mut state, "home/watering/watering_needed", "", true);
    assert_eq!(first[0].1, "true");
    assert_eq!(second[0].1, "false");
}

#[test]
fn response_topic_does_not_requery() {
    let manager = hub_manager();
    assert_eq!(manager.matching_modules("home/watering/watering_needed/response"), vec![1]);
    let mut state = State { watering_needed: true };
    let sent = deliver(&manager, &mut state, "home/watering/watering_needed/response", "true", true);
    assert!(sent.is_empty());
    assert!(state.watering_needed);
}
