//! Coordinator core of a home-automation hub: a registry of modules that
//! share a topic space, the flattening of their settings into retained
//! messages, and the watering-needed state machine.

pub mod text;
pub mod time;
pub mod state;
pub mod settings;
pub mod module;
pub mod sensor;
pub mod watering;
pub mod manager;
pub mod modules;
