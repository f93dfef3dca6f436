//! A managed client for MQTT brokers.
//!
//! The library decides; its caller waits. A caller resolves a broker
//! address ([`url`]), makes the settings of a connection from a profile
//! ([`settings`]), plans a connect and carries out the plan's actions
//! ([`connect`]), keeps the handle of the active connection in one slot
//! ([`state`]), feeds the events of the connection to a bridge that says what
//! the consumer is to be told ([`bridge`]), and takes the connection down
//! again ([`disconnect`]). The protocol itself is spoken by the engine
//! ([`engine`]).

pub mod bridge;
pub mod connect;
pub mod disconnect;
pub mod engine;
pub mod model;
pub mod settings;
pub mod state;
pub mod text;
pub mod url;
pub mod uuid;
