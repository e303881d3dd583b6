use hub::manager::ModuleManager;
use hub::module::{ClientModule, Reaction, ReactionView};
use vstd::seq::Seq;
use hub::state::State;

#[derive(Debug, Default)]
struct TestModule {
    config_data: String,
}

impl ClientModule for TestModule {
    fn spec_topic(&self) -> Seq<char> {
        panic!("a specification, not called at run time")
    }

    fn spec_settings(&self) -> Seq<(Seq<char>, Seq<char>)> {
        panic!("a specification, not called at run time")
    }

    fn spec_handle(&self, _topic: Seq<char>, _payload: Seq<char>, state: State) -> (State, ReactionView) {
        (state, ReactionView::Idle)
    }

    fn topic(&self) -> String {
        "test/topic".to_string()
    }

    fn settings(&self) -> Vec<(String, String)> {
        vec![("config_data".to_string(), format!("\"{}\"", self.config_data))]
    }

    fn handle(&self, _topic: &str, _payload: &str, _state: &mut State) -> Reaction {
        Reaction::Idle
    }
}

struct EmptyValueModule;

impl ClientModule for EmptyValueModule {
    fn spec_topic(&self) -> Seq<char> {
        panic!("a specification, not called at run time")
    }

    fn spec_settings(&self) -> Seq<(Seq<char>, Seq<char>)> {
        panic!("a specification, not called at run time")
    }

    fn spec_handle(&self, _topic: Seq<char>, _payload: Seq<char>, state: State) -> (State, ReactionView) {
        (state, ReactionView::Idle)
    }

    fn topic(&self) -> String {
        "test/empty".to_string()
    }

    fn settings(&self) -> Vec<(String, String)> {
        vec![
            ("blank".to_string(), String::new()),
            ("level".to_string(), "7".to_string()),
        ]
    }

    fn handle(&self, _topic: &str, _payload: &str, _state: &mut State) -> Reaction {
        Reaction::Idle
    }
}

#[test]
fn test_module_manager_new() {
    let manager: ModuleManager<TestModule> = ModuleManager::new();
    assert_eq!(manager.module_count(), 0);
    assert_eq!(manager.config_count(), 0);
}

#[test]
fn test_register_module() {
    let mut manager = ModuleManager::new();
    let module = TestModule::default();
    manager.register_module(module);

    assert_eq!(manager.module_count(), 1);
    assert_eq!(manager.config_count(), 1);
}

#[test]
fn test_setting_prefix_correctly() {
    let mut manager = ModuleManager::new();
    let module = TestModule::default();
    manager.register_module(module);

    assert!(manager.contains_config("test/topic/config_data"));
}

#[test]
fn registering_same_topic_twice_keeps_both_modules() {
    let mut manager = ModuleManager::new();
    manager.register_module(TestModule::default());
    manager.register_module(TestModule { config_data: "x".to_string() });
    assert_eq!(manager.module_count(), 2);
    assert_eq!(manager.config_count(), 1);
    assert_eq!(manager.matching_modules("test/topic/anything"), vec![0, 1]);
    assert_eq!(manager.matching_modules("other/topic"), Vec::<usize>::new());
}

#[test]
fn later_registration_wins_on_key_collision() {
    let mut manager = ModuleManager::new();
    manager.register_module(TestModule { config_data: "first".to_string() });
    manager.register_module(TestModule { config_data: "second".to_string() });
    let (pubs, subs) = manager.initialize();
    assert_eq!(pubs.len(), 1);
    assert_eq!(pubs[0].topic, "settings/test/topic/config_data");
    assert_eq!(pubs[0].payload, "second");
    assert_eq!(subs.len(), 2);
}

#[test]
fn initialize_skips_empty_values_and_strips_quotes() {
    let mut manager = ModuleManager::new();
    manager.register_module(EmptyValueModule);
    assert_eq!(manager.config_count(), 2);
    let (pubs, subs) = manager.initialize();
    assert_eq!(pubs.len(), 1);
    assert_eq!(pubs[0].topic, "settings/test/empty/level");
    assert_eq!(pubs[0].payload, "7");
    assert!(pubs[0].retain);
    assert_eq!(pubs[0].qos, hub::module::QoS::ExactlyOnce);
    assert_eq!(subs.len(), 1);
    assert_eq!(subs[0].topic, "test/empty/#");
    assert_eq!(subs[0].qos, hub::module::QoS::ExactlyOnce);
}

#[test]
fn quoted_empty_text_is_published_as_empty_payload() {
    let mut manager = ModuleManager::new();
    manager.register_module(TestModule::default());
    let (pubs, _subs) = manager.initialize();
    assert_eq!(pubs.len(), 1);
    assert_eq!(pubs[0].payload, "");
}

#[test]
fn inner_quotes_of_a_setting_are_kept() {
    let mut manager = ModuleManager::new();
    manager.register_module(TestModule { config_data: "a\"b".to_string() });
    let (pubs, _subs) = manager.initialize();
    assert_eq!(pubs.len(), 1);
    assert_eq!(pubs[0].payload, "a\"b");
}
