//! Verified core of an IoT device-management engine: a device registry with
//! digital twins, telemetry ingestion that evaluates alert rules, remote
//! commands, fleets, OTA firmware rollouts and geofences.
//!
//! Every tool of the engine is a method of [`server::IoTServer`] whose
//! contract states the new state and the answer exactly; laws that relate
//! several operations stand in [`laws`].
use vstd::prelude::*;

pub mod ids;
pub mod keys;
pub mod floats;
pub mod json;
pub mod fields;
pub mod keyed;
pub mod model;
pub mod inputs;
pub mod alerting;
pub mod twins;
pub mod server;
pub mod laws;
pub mod history;

verus! {

} // verus!
