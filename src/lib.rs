//! Liveness-monitoring engine: a registry of monitors, the control messages
//! that drive each monitor's worker, and the fan-out of status events.
pub mod order;
pub mod models;
pub mod channel;
pub mod engine;
pub mod worker;
pub mod laws;
pub mod mime;
