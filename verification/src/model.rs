//! The records the engine keeps. Real-valued quantities (coordinates,
//! readings, thresholds, radii) are held as the IEEE 754 bit patterns of
//! their binary64 values: the engine stores and compares them but does no
//! arithmetic on them.
use vstd::prelude::*;

use crate::fields::FieldMap;
use crate::keyed::Keyed;

verus! {

/// Where a device stands in its life cycle.
#[derive(PartialEq, Eq, Structural, Clone, Copy, Debug)]
pub enum DeviceStatus {
    Online,
    Offline,
    Decommissioned,
}

impl DeviceStatus {
    /// The status as the engine reports it.
    pub fn label(&self) -> (s: &'static str)
        ensures
            *self == DeviceStatus::Online ==> s@ == "online"@,
            *self == DeviceStatus::Offline ==> s@ == "offline"@,
            *self == DeviceStatus::Decommissioned ==> s@ == "decommissioned"@,
    {
        match self {
            DeviceStatus::Online => "online",
            DeviceStatus::Offline => "offline",
            DeviceStatus::Decommissioned => "decommissioned",
        }
    }
}

/// A registered device.
pub struct Device {
    pub id: String,
    pub name: String,
    pub device_type: String,
    pub protocol: String,
    pub location: String,
    pub tags: Vec<String>,
    pub lat_bits: Option<u64>,
    pub lng_bits: Option<u64>,
    pub status: DeviceStatus,
    pub registered_at: String,
    pub last_seen: Option<String>,
}

/// One metric of a telemetry point.
pub struct Reading {
    pub metric: String,
    pub value_bits: u64,
}

/// A telemetry point: the readings a device sent at one time.
pub struct Telemetry {
    pub device_id: String,
    pub readings: Vec<Reading>,
    pub timestamp: String,
}

/// Where a remote command stands.
#[derive(PartialEq, Eq, Structural, Clone, Copy, Debug)]
pub enum CommandStatus {
    Sent,
}

impl CommandStatus {
    /// The status as the engine reports it.
    pub fn label(&self) -> (s: &'static str)
        ensures
            s@ == "sent"@,
    {
        "sent"
    }
}

/// A command sent to a device.
pub struct Command {
    pub id: String,
    pub device_id: String,
    pub command: String,
    pub params: Vec<(String, String)>,
    pub status: CommandStatus,
    pub sent_at: String,
}

/// A rule that raises an alert when a metric crosses a threshold.
pub struct AlertRule {
    pub id: String,
    pub name: String,
    /// The only device the rule watches, or every device.
    pub device_id: Option<String>,
    pub metric: String,
    /// The condition as it was given (see [`Condition::parse`]).
    pub condition: String,
    pub threshold_bits: u64,
    pub active: bool,
}

/// A breach that a rule detected.
pub struct Alert {
    pub id: String,
    pub rule_id: String,
    pub device_id: String,
    pub metric: String,
    pub value_bits: u64,
    pub threshold_bits: u64,
    pub triggered_at: String,
}

/// A named group of devices.
pub struct Fleet {
    pub id: String,
    pub name: String,
    pub device_ids: Vec<String>,
    pub created_at: String,
}

/// A firmware version that can be rolled out.
pub struct Firmware {
    pub id: String,
    pub version: String,
    pub target_type: String,
    pub url: String,
    pub checksum: String,
    pub created_at: String,
}

/// Where a rollout stands.
#[derive(PartialEq, Eq, Structural, Clone, Copy, Debug)]
pub enum DeploymentStatus {
    RollingOut,
}

impl DeploymentStatus {
    /// The status as the engine reports it.
    pub fn label(&self) -> (s: &'static str)
        ensures
            s@ == "rolling_out"@,
    {
        "rolling_out"
    }
}

/// A rollout of a firmware version to devices.
pub struct OtaDeployment {
    pub id: String,
    pub firmware_id: String,
    pub device_ids: Vec<String>,
    pub status: DeploymentStatus,
    pub started_at: String,
}

/// A circular zone that a set of devices should stay in.
pub struct Geofence {
    pub id: String,
    pub name: String,
    pub lat_bits: u64,
    pub lng_bits: u64,
    pub radius_bits: u64,
    pub device_ids: Vec<String>,
}

/// A device's digital twin: the state it reported and the state wanted.
pub struct Twin {
    pub reported: FieldMap,
    pub desired: FieldMap,
}

impl Twin {
    /// Both sides keep their keys in order.
    pub open spec fn wf(&self) -> bool {
        self.reported.wf() && self.desired.wf()
    }
}

/// The twin of one device.
pub struct TwinEntry {
    pub device_id: String,
    pub twin: Twin,
}

/// The comparison an alert rule makes between a reading and its threshold.
#[derive(PartialEq, Eq, Structural, Clone, Copy, Debug)]
pub enum Condition {
    Greater,
    Less,
    GreaterOrEqual,
    LessOrEqual,
    /// Equal within an absolute tolerance of 0.001.
    ApproxEqual,
    /// A condition the engine does not know: it never breaches.
    Unknown,
}

/// The condition that a rule's condition text names.
pub open spec fn condition_of(s: Seq<char>) -> Condition {
    if s == "gt"@ || s == ">"@ {
        Condition::Greater
    } else if s == "lt"@ || s == "<"@ {
        Condition::Less
    } else if s == "gte"@ || s == ">="@ {
        Condition::GreaterOrEqual
    } else if s == "lte"@ || s == "<="@ {
        Condition::LessOrEqual
    } else if s == "eq"@ || s == "=="@ {
        Condition::ApproxEqual
    } else {
        Condition::Unknown
    }
}

fn text_is(s: &String, lit: &str) -> (r: bool)
    ensures
        r == (s@ == lit@),
{
    *s == String::from_str(lit)
}

impl Condition {
    /// Reads a rule's condition text: `gt`/`>`, `lt`/`<`, `gte`/`>=`,
    /// `lte`/`<=`, `eq`/`==`; anything else is [`Condition::Unknown`].
    pub fn parse(s: &String) -> (c: Condition)
        ensures
            c == condition_of(s@),
    {
        if text_is(s, "gt") || text_is(s, ">") {
            Condition::Greater
        } else if text_is(s, "lt") || text_is(s, "<") {
            Condition::Less
        } else if text_is(s, "gte") || text_is(s, ">=") {
            Condition::GreaterOrEqual
        } else if text_is(s, "lte") || text_is(s, "<=") {
            Condition::LessOrEqual
        } else if text_is(s, "eq") || text_is(s, "==") {
            Condition::ApproxEqual
        } else {
            Condition::Unknown
        }
    }
}

impl Keyed for Device {
    open spec fn key(&self) -> Seq<char> {
        self.id@
    }

    fn key_text(&self) -> (k: &String) {
        &self.id
    }
}

impl Keyed for Fleet {
    open spec fn key(&self) -> Seq<char> {
        self.id@
    }

    fn key_text(&self) -> (k: &String) {
        &self.id
    }
}

impl Keyed for Firmware {
    open spec fn key(&self) -> Seq<char> {
        self.id@
    }

    fn key_text(&self) -> (k: &String) {
        &self.id
    }
}

impl Keyed for TwinEntry {
    open spec fn key(&self) -> Seq<char> {
        self.device_id@
    }

    fn key_text(&self) -> (k: &String) {
        &self.device_id
    }
}

} // verus!
