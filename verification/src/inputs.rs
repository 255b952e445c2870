//! The arguments of the engine's tools.
use vstd::prelude::*;

use crate::json::JsonValue;
use crate::model::Reading;

verus! {

/// Registers a device.
pub struct DeviceRegisterInput {
    pub name: String,
    pub device_type: String,
    /// Defaults to `mqtt`.
    pub protocol: Option<String>,
    /// Defaults to the empty text.
    pub location: Option<String>,
    /// Defaults to no tags.
    pub tags: Option<Vec<String>>,
    pub lat_bits: Option<u64>,
    pub lng_bits: Option<u64>,
}

/// Names a device.
pub struct DeviceIdInput {
    pub device_id: String,
}

/// Readings sent by a device.
pub struct TelemetryIngestInput {
    pub device_id: String,
    pub readings: Vec<Reading>,
}

/// Asks for a device's recent telemetry.
pub struct TelemetryQueryInput {
    pub device_id: String,
    /// Only this metric's value of each point, when given.
    pub metric: Option<String>,
    /// How many points at most; 20 when not given.
    pub last_n: Option<usize>,
}

/// A command for one device.
pub struct CommandInput {
    pub device_id: String,
    pub command: String,
    /// Defaults to no parameters.
    pub params: Option<Vec<(String, String)>>,
}

/// Creates an alert rule.
pub struct AlertRuleInput {
    pub name: String,
    pub device_id: Option<String>,
    pub metric: String,
    pub condition: String,
    pub threshold_bits: u64,
}

/// New desired values for a device's twin.
pub struct TwinUpdateInput {
    pub device_id: String,
    pub desired: Vec<(String, JsonValue)>,
}

/// Creates a fleet.
pub struct FleetCreateInput {
    pub name: String,
    pub device_ids: Vec<String>,
}

/// A command for every device of a fleet.
pub struct FleetCommandInput {
    pub fleet_id: String,
    pub command: String,
    /// Defaults to no parameters.
    pub params: Option<Vec<(String, String)>>,
}

/// Registers a firmware version.
pub struct OtaCreateInput {
    pub version: String,
    /// Defaults to `all`.
    pub target_type: Option<String>,
    pub url: String,
    /// Defaults to the empty text.
    pub checksum: Option<String>,
}

/// Rolls a firmware version out to devices.
pub struct OtaDeployInput {
    pub firmware_id: String,
    pub device_ids: Vec<String>,
}

/// Creates a circular geofence.
pub struct GeofenceCreateInput {
    pub name: String,
    pub lat_bits: u64,
    pub lng_bits: u64,
    pub radius_bits: u64,
    pub device_ids: Vec<String>,
}

/// A device's position to check against its geofences.
pub struct GeofenceCheckInput {
    pub device_id: String,
    pub lat_bits: u64,
    pub lng_bits: u64,
}

} // verus!
