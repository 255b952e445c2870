//! The engine: its state, the invariant every tool keeps, and the tools.
use vstd::prelude::*;
use vstd::string::*;

use crate::alerting::{
    fired_alerts, firing_rules, raise_alerts, reading_of, report_readings,
    rules_that_fire, write_readings,
};
use crate::fields::FieldMap;
use crate::ids::{fresh_id, is_prefixed_id, now, Stamp};
use crate::inputs::{
    AlertRuleInput, CommandInput, DeviceIdInput, DeviceRegisterInput, FleetCommandInput,
    FleetCreateInput, GeofenceCreateInput, OtaCreateInput, OtaDeployInput, TelemetryIngestInput,
    TelemetryQueryInput, TwinUpdateInput,
};
use crate::keyed::{
    find_key, has_key, index_of_key, lemma_index_of_key, lemma_update_same_key,
    lemma_upserted_shape, record_of, unique_keys, upsert, upserted, Keyed,
};
use crate::model::{
    Alert, AlertRule, Command, CommandStatus, DeploymentStatus, Device, DeviceStatus, Firmware,
    Fleet, Geofence, OtaDeployment, Telemetry, Twin, TwinEntry,
};
use crate::twins::{apply_desired, drift_keys, find_drift, write_desired};

verus! {

/// Why a tool refused a request.
#[derive(PartialEq, Eq, Structural, Clone, Copy, Debug)]
pub enum IotError {
    DeviceNotFound,
    FleetNotFound,
    FirmwareNotFound,
}

impl IotError {
    /// The error code the engine answers with.
    pub fn code(&self) -> (s: &'static str)
        ensures
            *self == IotError::DeviceNotFound ==> s@ == "DEVICE_NOT_FOUND"@,
            *self == IotError::FleetNotFound ==> s@ == "FLEET_NOT_FOUND"@,
            *self == IotError::FirmwareNotFound ==> s@ == "FIRMWARE_NOT_FOUND"@,
    {
        match self {
            IotError::DeviceNotFound => "DEVICE_NOT_FOUND",
            IotError::FleetNotFound => "FLEET_NOT_FOUND",
            IotError::FirmwareNotFound => "FIRMWARE_NOT_FOUND",
        }
    }
}

/// The engine's state as a value: every collection in its order.
pub struct ServerState {
    pub devices: Seq<Device>,
    pub telemetry: Seq<Telemetry>,
    pub commands: Seq<Command>,
    pub alert_rules: Seq<AlertRule>,
    pub alerts: Seq<Alert>,
    pub twins: Seq<TwinEntry>,
    pub fleets: Seq<Fleet>,
    pub firmware: Seq<Firmware>,
    pub deployments: Seq<OtaDeployment>,
    pub geofences: Seq<Geofence>,
}

impl ServerState {
    /// What every tool keeps: ids are unique where they are keys; exactly the
    /// registered devices have twins, and twins keep their keys in order; no
    /// device is ever marked offline; every rule is active; every telemetry
    /// point and every alert belongs to a registered device.
    pub open spec fn wf(&self) -> bool {
        &&& unique_keys(self.devices)
        &&& unique_keys(self.twins)
        &&& unique_keys(self.fleets)
        &&& unique_keys(self.firmware)
        &&& forall|k: Seq<char>| #[trigger] has_key(self.devices, k) <==> has_key(self.twins, k)
        &&& forall|i: int| 0 <= i < self.twins.len() ==> (#[trigger] self.twins[i]).twin.wf()
        &&& forall|i: int|
            0 <= i < self.devices.len() ==> (#[trigger] self.devices[i]).status
                != DeviceStatus::Offline
        &&& forall|i: int| 0 <= i < self.alert_rules.len() ==> (#[trigger] self.alert_rules[i]).active
        &&& forall|i: int|
            0 <= i < self.telemetry.len() ==> has_key(
                self.devices,
                (#[trigger] self.telemetry[i]).device_id@,
            )
        &&& forall|i: int|
            0 <= i < self.alerts.len() ==> has_key(self.devices, (#[trigger] self.alerts[i]).device_id@)
    }

    /// The device with id `k`.
    pub open spec fn device(&self, k: Seq<char>) -> Device {
        record_of(self.devices, k)
    }

    /// The twin of device `k`.
    pub open spec fn twin(&self, k: Seq<char>) -> Twin {
        record_of(self.twins, k).twin
    }
}

/// `d` is the device that registration builds from `input`.
pub open spec fn registered_device(
    d: Device,
    id: String,
    registered_at: String,
    input: DeviceRegisterInput,
) -> bool {
    &&& d.id == id
    &&& d.name == input.name
    &&& d.device_type == input.device_type
    &&& d.protocol@ == (match input.protocol {
        Some(p) => p@,
        None => "mqtt"@,
    })
    &&& d.location@ == (match input.location {
        Some(l) => l@,
        None => Seq::<char>::empty(),
    })
    &&& d.tags@ == (match input.tags {
        Some(t) => t@,
        None => Seq::<String>::empty(),
    })
    &&& d.lat_bits == input.lat_bits
    &&& d.lng_bits == input.lng_bits
    &&& d.status == DeviceStatus::Online
    &&& d.registered_at == registered_at
    &&& d.last_seen is None
}

/// `e` is the fresh twin of device `id`: nothing reported, nothing desired.
pub open spec fn fresh_twin(e: TwinEntry, id: String) -> bool {
    &&& e.device_id == id
    &&& e.twin.wf()
    &&& e.twin.reported@ == Map::<Seq<char>, crate::json::JsonValue>::empty()
    &&& e.twin.desired@ == Map::<Seq<char>, crate::json::JsonValue>::empty()
}

/// The number of devices in `s` with status `st`.
pub open spec fn count_status(s: Seq<Device>, st: DeviceStatus) -> nat
    decreases s.len(),
{
    if s.len() == 0 {
        0
    } else {
        count_status(s.drop_last(), st) + (if s.last().status == st {
            1nat
        } else {
            0nat
        })
    }
}

/// The newest points of device `id`, newest first, at most `n` of them.
pub open spec fn newest_telemetry(s: Seq<Telemetry>, id: Seq<char>, n: nat) -> Seq<Telemetry>
    decreases s.len(),
{
    if s.len() == 0 || n == 0 {
        Seq::empty()
    } else if s.last().device_id@ == id {
        seq![s.last()] + newest_telemetry(s.drop_last(), id, (n - 1) as nat)
    } else {
        newest_telemetry(s.drop_last(), id, n)
    }
}

/// The stamps an ingestion needs: when the device was seen, when the point
/// was recorded, and the id and time of each alert it raises.
pub struct IngestStamps {
    pub seen_at: String,
    pub recorded_at: String,
    pub alerts: Vec<Stamp>,
}

/// Every alert id is `alrt_` followed by a short id.
pub open spec fn alert_ids_fresh(st: IngestStamps) -> bool {
    forall|k: int| 0 <= k < st.alerts@.len() ==> is_prefixed_id(#[trigger] st.alerts@[k].id@, "alrt_"@)
}

/// Ingesting `input` into `old` gives `new` and fires the rules at `fired`:
/// the device is seen (online, `last_seen` set); each firing rule raises
/// one alert, in rule order; the readings are written into the twin's
/// reported state; the point is appended to the telemetry log.
pub open spec fn ingest_effect(
    old: ServerState,
    new: ServerState,
    input: TelemetryIngestInput,
    near: Seq<bool>,
    stamps: IngestStamps,
    fired: Seq<usize>,
) -> bool {
    let dev = input.device_id@;
    let di = index_of_key(old.devices, dev);
    let ti = index_of_key(old.twins, dev);
    &&& fired == firing_rules(old.alert_rules, dev, input.readings@, near)
    &&& new.devices == old.devices.update(
        di,
        Device { last_seen: Some(stamps.seen_at), status: DeviceStatus::Online, ..old.devices[di] },
    )
    &&& new.alerts == old.alerts + fired_alerts(
        old.alert_rules,
        fired,
        input.device_id,
        input.readings@,
        stamps.alerts@,
    )
    &&& new.telemetry == old.telemetry.push(
        Telemetry {
            device_id: input.device_id,
            readings: input.readings,
            timestamp: stamps.recorded_at,
        },
    )
    &&& 0 <= ti < old.twins.len()
    &&& new.twins == old.twins.update(ti, new.twins[ti])
    &&& new.twins[ti].device_id == old.twins[ti].device_id
    &&& new.twins[ti].twin.desired == old.twins[ti].twin.desired
    &&& new.twins[ti].twin.reported@ == report_readings(
        old.twins[ti].twin.reported@,
        input.readings@,
    )
    &&& new == (ServerState {
        devices: new.devices,
        alerts: new.alerts,
        telemetry: new.telemetry,
        twins: new.twins,
        ..old
    })
}

/// The newest `n` entries of `s`, newest first.
pub open spec fn newest_first<T>(s: Seq<T>, n: nat) -> Seq<T>
    decreases s.len(),
{
    if s.len() == 0 || n == 0 {
        Seq::empty()
    } else {
        seq![s.last()] + newest_first(s.drop_last(), (n - 1) as nat)
    }
}

/// The commands sent to device `id`, oldest first.
pub open spec fn commands_for(s: Seq<Command>, id: Seq<char>) -> Seq<Command>
    decreases s.len(),
{
    if s.len() == 0 {
        Seq::empty()
    } else if s.last().device_id@ == id {
        commands_for(s.drop_last(), id).push(s.last())
    } else {
        commands_for(s.drop_last(), id)
    }
}

/// `c` is the command built for device `device_id` from the given parts.
pub open spec fn sent_command(
    c: Command,
    id: String,
    sent_at: String,
    device_id: String,
    command: String,
    params: Option<Vec<(String, String)>>,
) -> bool {
    &&& c.id == id
    &&& c.device_id == device_id
    &&& c.command == command
    &&& c.params@ == (match params {
        Some(p) => p@,
        None => Seq::<(String, String)>::empty(),
    })
    &&& c.status == CommandStatus::Sent
    &&& c.sent_at == sent_at
}

/// The rule that `alert_rule_create` builds from `input` under `id`.
pub open spec fn created_rule(id: String, input: AlertRuleInput) -> AlertRule {
    AlertRule {
        id,
        name: input.name,
        device_id: input.device_id,
        metric: input.metric,
        condition: input.condition,
        threshold_bits: input.threshold_bits,
        active: true,
    }
}

/// The fleet that `fleet_create` builds from `input`.
pub open spec fn created_fleet(id: String, created_at: String, input: FleetCreateInput) -> Fleet {
    Fleet { id, name: input.name, device_ids: input.device_ids, created_at }
}

/// `c` is the command that `fleet_command` sends to device `device_id`.
pub open spec fn fleet_command_sent(
    c: Command,
    stamp: Stamp,
    device_id: String,
    input: FleetCommandInput,
) -> bool {
    sent_command(c, stamp.id, stamp.at, device_id, input.command, input.params)
}

/// `f` is the firmware that `ota_firmware_create` builds from `input`.
pub open spec fn registered_firmware(
    f: Firmware,
    id: String,
    created_at: String,
    input: OtaCreateInput,
) -> bool {
    &&& f.id == id
    &&& f.version == input.version
    &&& f.target_type@ == (match input.target_type {
        Some(t) => t@,
        None => "all"@,
    })
    &&& f.url == input.url
    &&& f.checksum@ == (match input.checksum {
        Some(c) => c@,
        None => Seq::<char>::empty(),
    })
    &&& f.created_at == created_at
}

/// The rollout that `ota_deploy` builds from `input`.
pub open spec fn started_deployment(id: String, started_at: String, input: OtaDeployInput) -> OtaDeployment {
    OtaDeployment {
        id,
        firmware_id: input.firmware_id,
        device_ids: input.device_ids,
        status: DeploymentStatus::RollingOut,
        started_at,
    }
}

/// The geofence that `geofence_create` builds from `input`.
pub open spec fn created_geofence(id: String, input: GeofenceCreateInput) -> Geofence {
    Geofence {
        id,
        name: input.name,
        lat_bits: input.lat_bits,
        lng_bits: input.lng_bits,
        radius_bits: input.radius_bits,
        device_ids: input.device_ids,
    }
}

/// Geofence `g` lists device `id`.
pub open spec fn fence_lists(g: Geofence, id: Seq<char>) -> bool {
    exists|i: int| 0 <= i < g.device_ids@.len() && #[trigger] g.device_ids@[i]@ == id
}

/// The geofences that list device `id`, in order.
pub open spec fn fences_for(s: Seq<Geofence>, id: Seq<char>) -> Seq<Geofence>
    decreases s.len(),
{
    if s.len() == 0 {
        Seq::empty()
    } else if fence_lists(s.last(), id) {
        fences_for(s.drop_last(), id).push(s.last())
    } else {
        fences_for(s.drop_last(), id)
    }
}

/// How many of the flags are false.
pub open spec fn count_false(s: Seq<bool>) -> nat
    decreases s.len(),
{
    if s.len() == 0 {
        0
    } else {
        count_false(s.drop_last()) + (if s.last() {
            0nat
        } else {
            1nat
        })
    }
}

/// The answer to `alert_list`.
pub struct AlertListing<'a> {
    pub total: usize,
    /// The newest alerts, newest first, at most fifty.
    pub alerts: Vec<&'a Alert>,
}

/// One row of a `telemetry_query` answer.
pub struct TelemetryRow<'a> {
    pub point: &'a Telemetry,
    /// The asked metric's reading in this point, when a metric was asked.
    pub value_bits: Option<u64>,
}

/// The answer to `twin_get`.
pub struct TwinReport<'a> {
    pub reported: &'a FieldMap,
    pub desired: &'a FieldMap,
    /// The desired keys whose reported value is missing or different, in
    /// key order.
    pub drift_keys: Vec<String>,
    pub in_sync: bool,
}

/// The answer to `device_list`.
pub struct DeviceListing<'a> {
    pub total: usize,
    pub online: usize,
    /// Every device that is not online.
    pub offline: usize,
    pub devices: &'a Vec<Device>,
}

/// The answer to `device_get`.
pub struct DeviceDetails<'a> {
    pub device: &'a Device,
    pub twin: &'a Twin,
    /// The device's newest telemetry points, newest first, at most five.
    pub recent_telemetry: Vec<&'a Telemetry>,
}

/// The answer to `dashboard`.
pub struct Dashboard {
    pub total_devices: usize,
    pub online: usize,
    pub offline: usize,
    pub decommissioned: usize,
    pub telemetry_points: usize,
    pub alerts_triggered: usize,
    pub active_rules: usize,
    pub fleets: usize,
    pub ota_deployments: usize,
}

/// The engine's collections; every tool keeps them well formed.
struct Engine {
    devices: Vec<Device>,
    telemetry: Vec<Telemetry>,
    commands: Vec<Command>,
    alert_rules: Vec<AlertRule>,
    alerts: Vec<Alert>,
    twins: Vec<TwinEntry>,
    fleets: Vec<Fleet>,
    firmware: Vec<Firmware>,
    deployments: Vec<OtaDeployment>,
    geofences: Vec<Geofence>,
}

impl View for Engine {
    type V = ServerState;

    closed spec fn view(&self) -> ServerState {
        ServerState {
            devices: self.devices@,
            telemetry: self.telemetry@,
            commands: self.commands@,
            alert_rules: self.alert_rules@,
            alerts: self.alerts@,
            twins: self.twins@,
            fleets: self.fleets@,
            firmware: self.firmware@,
            deployments: self.deployments@,
            geofences: self.geofences@,
        }
    }
}

fn count_devices_with(v: &Vec<Device>, st: DeviceStatus) -> (n: usize)
    ensures
        n == count_status(v@, st),
{
    let mut n: usize = 0;
    let mut i: usize = 0;
    while i < v.len()
        invariant
            i <= v@.len(),
            n == count_status(v@.take(i as int), st),
            n <= i,
        decreases v@.len() - i,
    {
        assert(v@.take(i + 1).drop_last() =~= v@.take(i as int));
        if v[i].status == st {
            n = n + 1;
        }
        i = i + 1;
    }
    assert(v@.take(v@.len() as int) =~= v@);
    n
}

/// `s` without any occurrence of `id`, in order.
pub open spec fn texts_without_spec(s: Seq<String>, id: Seq<char>) -> Seq<String>
    decreases s.len(),
{
    if s.len() == 0 {
        Seq::empty()
    } else if s.last()@ == id {
        texts_without_spec(s.drop_last(), id)
    } else {
        texts_without_spec(s.drop_last(), id).push(s.last())
    }
}

/// `g` is fleet `f` without device `id`.
pub open spec fn fleet_without(f: Fleet, g: Fleet, id: Seq<char>) -> bool {
    &&& g.id == f.id
    &&& g.name == f.name
    &&& g.created_at == f.created_at
    &&& g.device_ids@ == texts_without_spec(f.device_ids@, id)
}

/// `new` is `old` with device `id` taken out of every fleet.
pub open spec fn fleets_without(old: Seq<Fleet>, new: Seq<Fleet>, id: Seq<char>) -> bool {
    &&& new.len() == old.len()
    &&& forall|j: int| 0 <= j < old.len() ==> fleet_without(#[trigger] old[j], new[j], id)
}

/// The number of active rules.
pub open spec fn count_active(s: Seq<AlertRule>) -> nat
    decreases s.len(),
{
    if s.len() == 0 {
        0
    } else {
        count_active(s.drop_last()) + (if s.last().active {
            1nat
        } else {
            0nat
        })
    }
}

proof fn lemma_count_status_bound(s: Seq<Device>, st: DeviceStatus)
    ensures
        count_status(s, st) <= s.len(),
    decreases s.len(),
{
    if s.len() > 0 {
        lemma_count_status_bound(s.drop_last(), st);
    }
}

fn count_active_rules(v: &Vec<AlertRule>) -> (n: usize)
    ensures
        n == count_active(v@),
{
    let mut n: usize = 0;
    let mut i: usize = 0;
    while i < v.len()
        invariant
            i <= v@.len(),
            n == count_active(v@.take(i as int)),
            n <= i,
        decreases v@.len() - i,
    {
        assert(v@.take(i + 1).drop_last() =~= v@.take(i as int));
        if v[i].active {
            n = n + 1;
        }
        i = i + 1;
    }
    assert(v@.take(v@.len() as int) =~= v@);
    n
}

fn texts_without(v: &Vec<String>, id: &String) -> (r: Vec<String>)
    ensures
        r@ == texts_without_spec(v@, id@),
{
    let mut r: Vec<String> = Vec::new();
    let mut i: usize = 0;
    while i < v.len()
        invariant
            i <= v@.len(),
            r@ == texts_without_spec(v@.take(i as int), id@),
        decreases v@.len() - i,
    {
        assert(v@.take(i + 1).drop_last() =~= v@.take(i as int));
        if !(v[i] == *id) {
            r.push(v[i].clone());
        }
        i = i + 1;
    }
    assert(v@.take(v@.len() as int) =~= v@);
    r
}

fn newest_points<'a>(v: &'a Vec<Telemetry>, id: &String, n: usize) -> (r: Vec<&'a Telemetry>)
    ensures
        r@.map_values(|t: &Telemetry| *t) == newest_telemetry(v@, id@, n as nat),
{
    let mut r: Vec<&'a Telemetry> = Vec::new();
    let mut i: usize = v.len();
    assert(v@.take(i as int) =~= v@);
    assert(r@.map_values(|t: &Telemetry| *t) =~= Seq::<Telemetry>::empty());
    while i > 0 && r.len() < n
        invariant
            i <= v@.len(),
            r@.len() <= n,
            newest_telemetry(v@, id@, n as nat) == r@.map_values(|t: &Telemetry| *t)
                + newest_telemetry(v@.take(i as int), id@, (n - r@.len()) as nat),
        decreases i,
    {
        let ghost pre = v@.take(i as int);
        assert(pre.drop_last() =~= v@.take(i - 1));
        assert(pre.last() == v@[i - 1]);
        i = i - 1;
        if v[i].device_id == *id {
            let ghost before = r@.map_values(|t: &Telemetry| *t);
            r.push(&v[i]);
            assert(r@.map_values(|t: &Telemetry| *t) =~= before + seq![v@[i as int]]);
        }
    }
    proof {
        if i == 0 {
            assert(v@.take(0).len() == 0);
        }
        assert(newest_telemetry(v@.take(i as int), id@, (n - r@.len()) as nat) =~= Seq::empty());
    }
    r
}

fn newest_alerts<'a>(v: &'a Vec<Alert>, n: usize) -> (r: Vec<&'a Alert>)
    ensures
        r@.map_values(|a: &Alert| *a) == newest_first(v@, n as nat),
{
    let mut r: Vec<&'a Alert> = Vec::new();
    let mut i: usize = v.len();
    assert(v@.take(i as int) =~= v@);
    assert(r@.map_values(|a: &Alert| *a) =~= Seq::<Alert>::empty());
    while i > 0 && r.len() < n
        invariant
            i <= v@.len(),
            r@.len() <= n,
            i + r@.len() == v@.len(),
            newest_first(v@, n as nat) == r@.map_values(|a: &Alert| *a) + newest_first(
                v@.take(i as int),
                (n - r@.len()) as nat,
            ),
        decreases i,
    {
        let ghost pre = v@.take(i as int);
        assert(pre.drop_last() =~= v@.take(i - 1));
        assert(pre.last() == v@[i - 1]);
        i = i - 1;
        let ghost before = r@.map_values(|a: &Alert| *a);
        r.push(&v[i]);
        assert(r@.map_values(|a: &Alert| *a) =~= before + seq![v@[i as int]]);
    }
    proof {
        assert(newest_first(v@.take(i as int), (n - r@.len()) as nat) =~= Seq::<Alert>::empty());
    }
    r
}

fn clone_params(v: &Vec<(String, String)>) -> (r: Vec<(String, String)>)
    ensures
        r@ == v@,
{
    let mut r: Vec<(String, String)> = Vec::new();
    let mut i: usize = 0;
    while i < v.len()
        invariant
            i <= v@.len(),
            r@ == v@.take(i as int),
        decreases v@.len() - i,
    {
        r.push((v[i].0.clone(), v[i].1.clone()));
        assert(r@ =~= v@.take(i + 1));
        i = i + 1;
    }
    assert(v@.take(v@.len() as int) =~= v@);
    r
}

fn lists_device(g: &Geofence, id: &String) -> (r: bool)
    ensures
        r == fence_lists(*g, id@),
{
    let mut i: usize = 0;
    while i < g.device_ids.len()
        invariant
            i <= g.device_ids@.len(),
            forall|j: int| 0 <= j < i ==> #[trigger] g.device_ids@[j]@ != id@,
        decreases g.device_ids@.len() - i,
    {
        if g.device_ids[i] == *id {
            return true;
        }
        i = i + 1;
    }
    false
}

/// Counts the false flags: the geofences a device is outside of, given
/// whether it is inside each.
pub fn count_breaches(inside: &Vec<bool>) -> (n: usize)
    ensures
        n == count_false(inside@),
{
    let mut n: usize = 0;
    let mut i: usize = 0;
    while i < inside.len()
        invariant
            i <= inside@.len(),
            n <= i,
            n == count_false(inside@.take(i as int)),
        decreases inside@.len() - i,
    {
        assert(inside@.take(i + 1).drop_last() =~= inside@.take(i as int));
        if !inside[i] {
            n = n + 1;
        }
        i = i + 1;
    }
    assert(inside@.take(inside@.len() as int) =~= inside@);
    n
}

fn commands_of<'a>(v: &'a Vec<Command>, id: &String) -> (r: Vec<&'a Command>)
    ensures
        r@.map_values(|c: &Command| *c) == commands_for(v@, id@),
{
    let mut r: Vec<&'a Command> = Vec::new();
    let mut i: usize = 0;
    assert(r@.map_values(|c: &Command| *c) =~= Seq::<Command>::empty());
    while i < v.len()
        invariant
            i <= v@.len(),
            r@.map_values(|c: &Command| *c) == commands_for(v@.take(i as int), id@),
        decreases v@.len() - i,
    {
        assert(v@.take(i + 1).drop_last() =~= v@.take(i as int));
        if v[i].device_id == *id {
            let ghost before = r@.map_values(|c: &Command| *c);
            r.push(&v[i]);
            assert(r@.map_values(|c: &Command| *c) =~= before.push(v@[i as int]));
        }
        i = i + 1;
    }
    assert(v@.take(v@.len() as int) =~= v@);
    r
}

impl Engine {
    fn new() -> (s: Engine)
        ensures
            s@.wf(),
            s@.devices.len() == 0 && s@.telemetry.len() == 0 && s@.commands.len() == 0
                && s@.alert_rules.len() == 0 && s@.alerts.len() == 0 && s@.twins.len() == 0
                && s@.fleets.len() == 0 && s@.firmware.len() == 0 && s@.deployments.len() == 0
                && s@.geofences.len() == 0,
    {
        Engine {
            devices: Vec::new(),
            telemetry: Vec::new(),
            commands: Vec::new(),
            alert_rules: Vec::new(),
            alerts: Vec::new(),
            twins: Vec::new(),
            fleets: Vec::new(),
            firmware: Vec::new(),
            deployments: Vec::new(),
            geofences: Vec::new(),
        }
    }

    fn devices(&self) -> (r: &Vec<Device>)
        ensures
            r@ == self@.devices,
    {
        &self.devices
    }

    fn telemetry(&self) -> (r: &Vec<Telemetry>)
        ensures
            r@ == self@.telemetry,
    {
        &self.telemetry
    }

    fn commands(&self) -> (r: &Vec<Command>)
        ensures
            r@ == self@.commands,
    {
        &self.commands
    }

    fn alert_rule_list(&self) -> (r: &Vec<AlertRule>)
        ensures
            r@ == self@.alert_rules,
    {
        &self.alert_rules
    }

    fn alerts(&self) -> (r: &Vec<Alert>)
        ensures
            r@ == self@.alerts,
    {
        &self.alerts
    }

    fn twins(&self) -> (r: &Vec<TwinEntry>)
        ensures
            r@ == self@.twins,
    {
        &self.twins
    }

    fn fleet_list(&self) -> (r: &Vec<Fleet>)
        ensures
            r@ == self@.fleets,
    {
        &self.fleets
    }

    fn firmware(&self) -> (r: &Vec<Firmware>)
        ensures
            r@ == self@.firmware,
    {
        &self.firmware
    }

    fn firmware_get(&self, id: &String) -> (r: Option<&Firmware>)
        requires
            self@.wf(),
        ensures
            r is None <==> !has_key(self@.firmware, id@),
            r matches Some(f) ==> *f == record_of(self@.firmware, id@),
    {
        match find_key(&self.firmware, id) {
            Some(i) => Some(&self.firmware[i]),
            None => None,
        }
    }

    fn ota_list(&self) -> (r: &Vec<OtaDeployment>)
        ensures
            r@ == self@.deployments,
    {
        &self.deployments
    }

    fn geofences(&self) -> (r: &Vec<Geofence>)
        ensures
            r@ == self@.geofences,
    {
        &self.geofences
    }

    // === Device registry ===

    fn register_device(&mut self, id: String, registered_at: String, input: DeviceRegisterInput)
        requires
            old(self)@.wf(),
        ensures
            final(self)@.wf(),
            has_key(final(self)@.devices, id@),
            registered_device(final(self)@.device(id@), id, registered_at, input),
            final(self)@.devices == upserted(old(self)@.devices, final(self)@.device(id@)),
            fresh_twin(record_of(final(self)@.twins, id@), id),
            final(self)@.twins == upserted(old(self)@.twins, record_of(final(self)@.twins, id@)),
            final(self)@ == (ServerState {
                devices: final(self)@.devices,
                twins: final(self)@.twins,
                ..old(self)@
            }),
    {
        let ghost old_s = self@;
        let protocol = match input.protocol {
            Some(p) => p,
            None => String::from_str("mqtt"),
        };
        let location = match input.location {
            Some(l) => l,
            None => String::new(),
        };
        let tags = match input.tags {
            Some(t) => t,
            None => Vec::new(),
        };
        let device = Device {
            id: id.clone(),
            name: input.name,
            device_type: input.device_type,
            protocol,
            location,
            tags,
            lat_bits: input.lat_bits,
            lng_bits: input.lng_bits,
            status: DeviceStatus::Online,
            registered_at,
            last_seen: None,
        };
        let ghost dv = device;
        proof {
            lemma_upserted_shape(self.devices@, device);
        }
        upsert(&mut self.devices, device);
        let entry = TwinEntry {
            device_id: id,
            twin: Twin { reported: FieldMap::new(), desired: FieldMap::new() },
        };
        let ghost ev = entry;
        proof {
            lemma_upserted_shape(self.twins@, entry);
        }
        upsert(&mut self.twins, entry);
        proof {
            let s = self@;
            assert forall|k: Seq<char>| #[trigger] has_key(s.devices, k) <==> has_key(s.twins, k) by {
                assert(has_key(old_s.devices, k) <==> has_key(old_s.twins, k));
            }
            assert forall|i: int| 0 <= i < s.twins.len() implies (#[trigger] s.twins[i]).twin.wf() by {
                if s.twins[i] != ev {
                    assert(old_s.twins[i].twin.wf());
                }
            }
            assert forall|i: int| 0 <= i < s.devices.len() implies (#[trigger] s.devices[i]).status
                != DeviceStatus::Offline by {
                if s.devices[i] != dv {
                    assert(old_s.devices[i].status != DeviceStatus::Offline);
                }
            }
            assert forall|i: int| 0 <= i < s.telemetry.len() implies has_key(
                s.devices,
                (#[trigger] s.telemetry[i]).device_id@,
            ) by {
                assert(has_key(old_s.devices, old_s.telemetry[i].device_id@));
            }
            assert forall|i: int| 0 <= i < s.alerts.len() implies has_key(
                s.devices,
                (#[trigger] s.alerts[i]).device_id@,
            ) by {
                assert(has_key(old_s.devices, old_s.alerts[i].device_id@));
            }
        }
    }

    fn device_register(&mut self, input: DeviceRegisterInput) -> (id: String)
        requires
            old(self)@.wf(),
        ensures
            final(self)@.wf(),
            is_prefixed_id(id@, "dev_"@),
            has_key(final(self)@.devices, id@),
            registered_device(
                final(self)@.device(id@),
                id,
                final(self)@.device(id@).registered_at,
                input,
            ),
            final(self)@.devices == upserted(old(self)@.devices, final(self)@.device(id@)),
            fresh_twin(record_of(final(self)@.twins, id@), id),
            final(self)@.twins == upserted(old(self)@.twins, record_of(final(self)@.twins, id@)),
            final(self)@ == (ServerState {
                devices: final(self)@.devices,
                twins: final(self)@.twins,
                ..old(self)@
            }),
    {
        let id = fresh_id("dev_");
        let at = now();
        self.register_device(id.clone(), at, input);
        id
    }

    fn device_list(&self) -> (r: DeviceListing<'_>)
        ensures
            r.devices@ == self@.devices,
            r.total == self@.devices.len(),
            r.online == count_status(self@.devices, DeviceStatus::Online),
            r.offline == r.total - r.online,
    {
        let online = count_devices_with(&self.devices, DeviceStatus::Online);
        proof {
            lemma_count_status_bound(self.devices@, DeviceStatus::Online);
        }
        DeviceListing {
            total: self.devices.len(),
            online,
            offline: self.devices.len() - online,
            devices: &self.devices,
        }
    }

    fn device_get(&self, input: DeviceIdInput) -> (r: Result<DeviceDetails<'_>, IotError>)
        requires
            self@.wf(),
        ensures
            r is Err <==> !has_key(self@.devices, input.device_id@),
            r matches Err(e) ==> e == IotError::DeviceNotFound,
            r matches Ok(d) ==> {
                &&& *d.device == self@.device(input.device_id@)
                &&& *d.twin == self@.twin(input.device_id@)
                &&& d.recent_telemetry@.map_values(|t: &Telemetry| *t) == newest_telemetry(
                    self@.telemetry,
                    input.device_id@,
                    5,
                )
            },
    {
        match find_key(&self.devices, &input.device_id) {
            None => Err(IotError::DeviceNotFound),
            Some(i) => {
                assert(has_key(self@.twins, input.device_id@));
                let j = match find_key(&self.twins, &input.device_id) {
                    Some(j) => j,
                    None => {
                        return Err(IotError::DeviceNotFound);
                    },
                };
                let recent = newest_points(&self.telemetry, &input.device_id, 5);
                Ok(DeviceDetails { device: &self.devices[i], twin: &self.twins[j].twin, recent_telemetry: recent })
            },
        }
    }

    fn device_decommission(&mut self, input: DeviceIdInput) -> (r: Result<(), IotError>)
        requires
            old(self)@.wf(),
        ensures
            final(self)@.wf(),
            r is Err <==> !has_key(old(self)@.devices, input.device_id@),
            r matches Err(e) ==> e == IotError::DeviceNotFound && final(self)@ == old(self)@,
            r is Ok ==> {
                let i = index_of_key(old(self)@.devices, input.device_id@);
                &&& final(self)@.devices == old(self)@.devices.update(
                    i,
                    Device { status: DeviceStatus::Decommissioned, ..old(self)@.devices[i] },
                )
                &&& fleets_without(old(self)@.fleets, final(self)@.fleets, input.device_id@)
                &&& final(self)@ == (ServerState {
                    devices: final(self)@.devices,
                    fleets: final(self)@.fleets,
                    ..old(self)@
                })
            },
    {
        let ghost old_s = self@;
        match find_key(&self.devices, &input.device_id) {
            None => Err(IotError::DeviceNotFound),
            Some(i) => {
                let mut d = self.devices.remove(i);
                d.status = DeviceStatus::Decommissioned;
                self.devices.insert(i, d);
                assert(self@.devices =~= old_s.devices.update(
                    i as int,
                    Device { status: DeviceStatus::Decommissioned, ..old_s.devices[i as int] },
                ));
                self.remove_from_fleets(&input.device_id);
                proof {
                    let s = self@;
                    assert forall|k: Seq<char>| has_key(s.devices, k) <==> has_key(old_s.devices, k) by {
                        if has_key(s.devices, k) {
                            let j = index_of_key(s.devices, k);
                            assert(old_s.devices[j].key() == k);
                        }
                        if has_key(old_s.devices, k) {
                            let j = index_of_key(old_s.devices, k);
                            assert(s.devices[j].key() == k);
                        }
                    }
                    assert forall|a: int, b: int|
                        0 <= a < s.devices.len() && 0 <= b < s.devices.len() && a != b implies #[trigger] s.devices[a].key()
                        != #[trigger] s.devices[b].key() by {
                        assert(old_s.devices[a].key() != old_s.devices[b].key());
                    }
                    assert forall|k: Seq<char>| #[trigger] has_key(s.devices, k) <==> has_key(s.twins, k) by {
                        assert(has_key(old_s.devices, k) <==> has_key(old_s.twins, k));
                    }
                    assert forall|j: int| 0 <= j < s.devices.len() implies (#[trigger] s.devices[j]).status
                        != DeviceStatus::Offline by {
                        if j != i {
                            assert(old_s.devices[j].status != DeviceStatus::Offline);
                        }
                    }
                    assert forall|j: int| 0 <= j < s.telemetry.len() implies has_key(
                        s.devices,
                        (#[trigger] s.telemetry[j]).device_id@,
                    ) by {
                        assert(has_key(old_s.devices, old_s.telemetry[j].device_id@));
                    }
                    assert forall|j: int| 0 <= j < s.alerts.len() implies has_key(
                        s.devices,
                        (#[trigger] s.alerts[j]).device_id@,
                    ) by {
                        assert(has_key(old_s.devices, old_s.alerts[j].device_id@));
                    }
                    assert forall|a: int, b: int|
                        0 <= a < s.fleets.len() && 0 <= b < s.fleets.len() && a != b implies #[trigger] s.fleets[a].key()
                        != #[trigger] s.fleets[b].key() by {
                        assert(old_s.fleets[a].key() != old_s.fleets[b].key());
                    }
                }
                Ok(())
            },
        }
    }

    /// Takes device `id` out of every fleet.
    fn remove_from_fleets(&mut self, id: &String)
        ensures
            fleets_without(old(self)@.fleets, final(self)@.fleets, id@),
            final(self)@ == (ServerState { fleets: final(self)@.fleets, ..old(self)@ }),
    {
        let ghost old_s = self@;
        let mut i: usize = 0;
        while i < self.fleets.len()
            invariant
                i <= self@.fleets.len(),
                self@ == (ServerState { fleets: self@.fleets, ..old_s }),
                self@.fleets.len() == old_s.fleets.len(),
                forall|j: int| i <= j < self@.fleets.len() ==> self@.fleets[j] == old_s.fleets[j],
                forall|j: int|
                    0 <= j < i ==> fleet_without(#[trigger] old_s.fleets[j], self@.fleets[j], id@),
            decreases self@.fleets.len() - i,
        {
            let mut f = self.fleets.remove(i);
            f.device_ids = texts_without(&f.device_ids, id);
            self.fleets.insert(i, f);
            i = i + 1;
        }
    }

    // === Telemetry ===

    fn ingest_stamped(
        &mut self,
        input: TelemetryIngestInput,
        near: &Vec<bool>,
        stamps: IngestStamps,
    ) -> (r: Result<Vec<usize>, IotError>)
        requires
            old(self)@.wf(),
            stamps.alerts@.len() >= firing_rules(
                old(self)@.alert_rules,
                input.device_id@,
                input.readings@,
                near@,
            ).len(),
        ensures
            final(self)@.wf(),
            r is Err <==> !has_key(old(self)@.devices, input.device_id@),
            r matches Err(e) ==> e == IotError::DeviceNotFound && final(self)@ == old(self)@,
            r matches Ok(fired) ==> ingest_effect(old(self)@, final(self)@, input, near@, stamps, fired@),
    {
        let ghost old_s = self@;
        let di = match find_key(&self.devices, &input.device_id) {
            None => {
                return Err(IotError::DeviceNotFound);
            },
            Some(i) => i,
        };
        assert(has_key(self@.twins, input.device_id@));
        let ti = match find_key(&self.twins, &input.device_id) {
            Some(j) => j,
            None => {
                return Err(IotError::DeviceNotFound);
            },
        };
        let fired = rules_that_fire(&self.alert_rules, &input.device_id, &input.readings, near);
        let mut raised = raise_alerts(&self.alert_rules, &fired, &input.device_id, &input.readings, &stamps.alerts);
        let mut d = self.devices.remove(di);
        d.last_seen = Some(stamps.seen_at);
        d.status = DeviceStatus::Online;
        self.devices.insert(di, d);
        self.alerts.append(&mut raised);
        let mut e = self.twins.remove(ti);
        proof {
            assert(old_s.twins[ti as int].twin.wf());
        }
        write_readings(&mut e.twin.reported, &input.readings);
        self.twins.insert(ti, e);
        let ghost dev = input.device_id;
        self.telemetry.push(
            Telemetry {
                device_id: input.device_id,
                readings: input.readings,
                timestamp: stamps.recorded_at,
            },
        );
        proof {
            let s = self@;
            assert(s.devices =~= old_s.devices.update(di as int, s.devices[di as int]));
            assert(s.twins =~= old_s.twins.update(ti as int, s.twins[ti as int]));
            lemma_update_same_key(old_s.devices, di as int, s.devices[di as int]);
            lemma_update_same_key(old_s.twins, ti as int, s.twins[ti as int]);
            assert forall|k: Seq<char>| #[trigger] has_key(s.devices, k) <==> has_key(s.twins, k) by {
                assert(has_key(old_s.devices, k) <==> has_key(old_s.twins, k));
            }
            assert forall|j: int| 0 <= j < s.twins.len() implies (#[trigger] s.twins[j]).twin.wf() by {
                if j != ti {
                    assert(old_s.twins[j].twin.wf());
                }
            }
            assert forall|j: int| 0 <= j < s.devices.len() implies (#[trigger] s.devices[j]).status
                != DeviceStatus::Offline by {
                if j != di {
                    assert(old_s.devices[j].status != DeviceStatus::Offline);
                }
            }
            assert forall|j: int| 0 <= j < s.telemetry.len() implies has_key(
                s.devices,
                (#[trigger] s.telemetry[j]).device_id@,
            ) by {
                if j < old_s.telemetry.len() {
                    assert(has_key(old_s.devices, old_s.telemetry[j].device_id@));
                }
            }
            assert forall|j: int| 0 <= j < s.alerts.len() implies has_key(
                s.devices,
                (#[trigger] s.alerts[j]).device_id@,
            ) by {
                if j < old_s.alerts.len() {
                    assert(has_key(old_s.devices, old_s.alerts[j].device_id@));
                } else {
                    assert(s.alerts[j].device_id == dev);
                }
            }
        }
        Ok(fired)
    }

    fn telemetry_ingest(&mut self, input: TelemetryIngestInput, near: &Vec<bool>) -> (r:
        Result<Vec<usize>, IotError>)
        requires
            old(self)@.wf(),
        ensures
            final(self)@.wf(),
            r is Err <==> !has_key(old(self)@.devices, input.device_id@),
            r matches Err(e) ==> e == IotError::DeviceNotFound && final(self)@ == old(self)@,
            r matches Ok(fired) ==> exists|st: IngestStamps|
                alert_ids_fresh(st) && st.alerts@.len() == fired@.len() && #[trigger] ingest_effect(
                    old(self)@,
                    final(self)@,
                    input,
                    near@,
                    st,
                    fired@,
                ),
    {
        if find_key(&self.devices, &input.device_id).is_none() {
            return Err(IotError::DeviceNotFound);
        }
        let seen_at = now();
        let fired = rules_that_fire(&self.alert_rules, &input.device_id, &input.readings, near);
        let mut alerts: Vec<Stamp> = Vec::new();
        let mut k: usize = 0;
        while k < fired.len()
            invariant
                k <= fired@.len(),
                alerts@.len() == k,
                forall|q: int| 0 <= q < k ==> is_prefixed_id(#[trigger] alerts@[q].id@, "alrt_"@),
            decreases fired@.len() - k,
        {
            let id = fresh_id("alrt_");
            let at = now();
            alerts.push(Stamp { id, at });
            k = k + 1;
        }
        let recorded_at = now();
        let stamps = IngestStamps { seen_at, recorded_at, alerts };
        assert(alert_ids_fresh(stamps));
        self.ingest_stamped(input, near, stamps)
    }

    // === Digital twins ===

    fn twin(&self, device_id: &String) -> (r: Option<&Twin>)
        requires
            self@.wf(),
        ensures
            r is None <==> !has_key(self@.devices, device_id@),
            r matches Some(t) ==> *t == self@.twin(device_id@),
    {
        match find_key(&self.twins, device_id) {
            Some(j) => Some(&self.twins[j].twin),
            None => None,
        }
    }

    fn twin_update(&mut self, input: TwinUpdateInput) -> (r: Result<(), IotError>)
        requires
            old(self)@.wf(),
        ensures
            final(self)@.wf(),
            r is Err <==> !has_key(old(self)@.devices, input.device_id@),
            r matches Err(e) ==> e == IotError::DeviceNotFound && final(self)@ == old(self)@,
            r is Ok ==> {
                let ti = index_of_key(old(self)@.twins, input.device_id@);
                &&& 0 <= ti < old(self)@.twins.len()
                &&& final(self)@.twins == old(self)@.twins.update(ti, final(self)@.twins[ti])
                &&& final(self)@.twins[ti].device_id == old(self)@.twins[ti].device_id
                &&& final(self)@.twins[ti].twin.reported == old(self)@.twins[ti].twin.reported
                &&& final(self)@.twins[ti].twin.desired@ == apply_desired(
                    old(self)@.twins[ti].twin.desired@,
                    input.desired@,
                )
                &&& final(self)@ == (ServerState { twins: final(self)@.twins, ..old(self)@ })
            },
    {
        let ghost old_s = self@;
        if find_key(&self.devices, &input.device_id).is_none() {
            return Err(IotError::DeviceNotFound);
        }
        assert(has_key(self@.twins, input.device_id@));
        let ti = match find_key(&self.twins, &input.device_id) {
            Some(j) => j,
            None => {
                return Err(IotError::DeviceNotFound);
            },
        };
        let mut e = self.twins.remove(ti);
        proof {
            assert(old_s.twins[ti as int].twin.wf());
        }
        write_desired(&mut e.twin.desired, input.desired);
        self.twins.insert(ti, e);
        proof {
            let s = self@;
            assert(s.twins =~= old_s.twins.update(ti as int, s.twins[ti as int]));
            lemma_update_same_key(old_s.twins, ti as int, s.twins[ti as int]);
            assert forall|k: Seq<char>| #[trigger] has_key(s.devices, k) <==> has_key(s.twins, k) by {
                assert(has_key(old_s.devices, k) <==> has_key(old_s.twins, k));
            }
            assert forall|j: int| 0 <= j < s.twins.len() implies (#[trigger] s.twins[j]).twin.wf() by {
                if j != ti {
                    assert(old_s.twins[j].twin.wf());
                }
            }
        }
        Ok(())
    }

    fn twin_get(&self, input: DeviceIdInput) -> (r: Result<TwinReport<'_>, IotError>)
        requires
            self@.wf(),
        ensures
            r is Err <==> !has_key(self@.devices, input.device_id@),
            r matches Err(e) ==> e == IotError::DeviceNotFound,
            r matches Ok(rep) ==> {
                let t = self@.twin(input.device_id@);
                &&& *rep.reported == t.reported
                &&& *rep.desired == t.desired
                &&& rep.drift_keys@.map_values(|s: String| s@) == drift_keys(
                    t.desired.members@,
                    t.reported@,
                )
                &&& rep.in_sync == (rep.drift_keys@.len() == 0)
            },
    {
        assert(has_key(self@.devices, input.device_id@) <==> has_key(self@.twins, input.device_id@));
        match find_key(&self.twins, &input.device_id) {
            None => Err(IotError::DeviceNotFound),
            Some(j) => {
                let t = &self.twins[j].twin;
                proof {
                    assert(self@.twins[j as int].twin.wf());
                }
                let drift = find_drift(&t.desired, &t.reported);
                let in_sync = drift.len() == 0;
                Ok(TwinReport { reported: &t.reported, desired: &t.desired, drift_keys: drift, in_sync })
            },
        }
    }

    fn telemetry_query(&self, input: TelemetryQueryInput) -> (r: Vec<TelemetryRow<'_>>)
        ensures
            ({
                let n: nat = match input.last_n {
                    Some(n) => n as nat,
                    None => 20,
                };
                let pts = newest_telemetry(self@.telemetry, input.device_id@, n);
                &&& r@.len() == pts.len()
                &&& forall|k: int|
                    0 <= k < r@.len() ==> *(#[trigger] r@[k]).point == pts[k] && r@[k].value_bits == (
                    match input.metric {
                        Some(m) => reading_of(pts[k].readings@, m@),
                        None => None,
                    })
            }),
    {
        let limit = match input.last_n {
            Some(n) => n,
            None => 20,
        };
        let pts = newest_points(&self.telemetry, &input.device_id, limit);
        let ghost want = newest_telemetry(self@.telemetry, input.device_id@, limit as nat);
        let mut rows: Vec<TelemetryRow<'_>> = Vec::new();
        let mut k: usize = 0;
        while k < pts.len()
            invariant
                k <= pts@.len(),
                pts@.map_values(|t: &Telemetry| *t) == want,
                rows@.len() == k,
                forall|q: int|
                    0 <= q < k ==> *(#[trigger] rows@[q]).point == want[q] && rows@[q].value_bits == (
                    match input.metric {
                        Some(m) => reading_of(want[q].readings@, m@),
                        None => None,
                    }),
            decreases pts@.len() - k,
        {
            let p = pts[k];
            assert(*p == want[k as int]);
            let value_bits = match &input.metric {
                Some(m) => crate::alerting::find_reading(&p.readings, m),
                None => None,
            };
            rows.push(TelemetryRow { point: p, value_bits });
            k = k + 1;
        }
        rows
    }

    // === Commands ===

    fn send_command(&mut self, id: String, sent_at: String, input: CommandInput) -> (r: Result<
        String,
        IotError,
    >)
        requires
            old(self)@.wf(),
        ensures
            final(self)@.wf(),
            r is Err <==> !has_key(old(self)@.devices, input.device_id@),
            r matches Err(e) ==> e == IotError::DeviceNotFound && final(self)@ == old(self)@,
            r matches Ok(c) ==> {
                &&& c == id
                &&& final(self)@.commands == old(self)@.commands.push(final(self)@.commands.last())
                &&& sent_command(
                    final(self)@.commands.last(),
                    id,
                    sent_at,
                    input.device_id,
                    input.command,
                    input.params,
                )
                &&& final(self)@ == (ServerState { commands: final(self)@.commands, ..old(self)@ })
            },
    {
        if find_key(&self.devices, &input.device_id).is_none() {
            return Err(IotError::DeviceNotFound);
        }
        let params = match input.params {
            Some(p) => p,
            None => Vec::new(),
        };
        let answer = id.clone();
        self.commands.push(
            Command {
                id,
                device_id: input.device_id,
                command: input.command,
                params,
                status: CommandStatus::Sent,
                sent_at,
            },
        );
        Ok(answer)
    }

    fn command_send(&mut self, input: CommandInput) -> (r: Result<String, IotError>)
        requires
            old(self)@.wf(),
        ensures
            final(self)@.wf(),
            r is Err <==> !has_key(old(self)@.devices, input.device_id@),
            r matches Err(e) ==> e == IotError::DeviceNotFound && final(self)@ == old(self)@,
            r matches Ok(c) ==> {
                &&& is_prefixed_id(c@, "cmd_"@)
                &&& final(self)@.commands == old(self)@.commands.push(final(self)@.commands.last())
                &&& sent_command(
                    final(self)@.commands.last(),
                    c,
                    final(self)@.commands.last().sent_at,
                    input.device_id,
                    input.command,
                    input.params,
                )
                &&& final(self)@ == (ServerState { commands: final(self)@.commands, ..old(self)@ })
            },
    {
        if find_key(&self.devices, &input.device_id).is_none() {
            return Err(IotError::DeviceNotFound);
        }
        let id = fresh_id("cmd_");
        let at = now();
        self.send_command(id, at, input)
    }

    fn command_list(&self, input: DeviceIdInput) -> (r: Vec<&Command>)
        ensures
            r@.map_values(|c: &Command| *c) == commands_for(self@.commands, input.device_id@),
    {
        commands_of(&self.commands, &input.device_id)
    }

    // === Alert rules and alerts ===

    fn create_rule(&mut self, id: String, input: AlertRuleInput) -> (r: String)
        requires
            old(self)@.wf(),
        ensures
            final(self)@.wf(),
            r == id,
            final(self)@ == (ServerState {
                alert_rules: old(self)@.alert_rules.push(created_rule(id, input)),
                ..old(self)@
            }),
    {
        let answer = id.clone();
        self.alert_rules.push(
            AlertRule {
                id,
                name: input.name,
                device_id: input.device_id,
                metric: input.metric,
                condition: input.condition,
                threshold_bits: input.threshold_bits,
                active: true,
            },
        );
        answer
    }

    fn alert_rule_create(&mut self, input: AlertRuleInput) -> (r: String)
        requires
            old(self)@.wf(),
        ensures
            final(self)@.wf(),
            is_prefixed_id(r@, "rule_"@),
            final(self)@ == (ServerState {
                alert_rules: old(self)@.alert_rules.push(created_rule(r, input)),
                ..old(self)@
            }),
    {
        let id = fresh_id("rule_");
        self.create_rule(id, input)
    }

    fn alert_list(&self) -> (r: AlertListing<'_>)
        ensures
            r.total == self@.alerts.len(),
            r.alerts@.map_values(|a: &Alert| *a) == newest_first(self@.alerts, 50),
    {
        AlertListing { total: self.alerts.len(), alerts: newest_alerts(&self.alerts, 50) }
    }

    // === Fleets ===

    fn create_fleet(&mut self, id: String, created_at: String, input: FleetCreateInput) -> (r:
        String)
        requires
            old(self)@.wf(),
        ensures
            final(self)@.wf(),
            r == id,
            final(self)@ == (ServerState {
                fleets: upserted(old(self)@.fleets, created_fleet(id, created_at, input)),
                ..old(self)@
            }),
    {
        let answer = id.clone();
        let fleet = Fleet { id, name: input.name, device_ids: input.device_ids, created_at };
        proof {
            lemma_upserted_shape(self.fleets@, fleet);
        }
        upsert(&mut self.fleets, fleet);
        answer
    }

    fn fleet_create(&mut self, input: FleetCreateInput) -> (r: String)
        requires
            old(self)@.wf(),
        ensures
            final(self)@.wf(),
            is_prefixed_id(r@, "fleet_"@),
            has_key(final(self)@.fleets, r@),
            final(self)@ == (ServerState {
                fleets: upserted(
                    old(self)@.fleets,
                    created_fleet(r, record_of(final(self)@.fleets, r@).created_at, input),
                ),
                ..old(self)@
            }),
    {
        let id = fresh_id("fleet_");
        let at = now();
        let ghost g = at;
        let r = self.create_fleet(id, at, input);
        proof {
            lemma_upserted_shape(old(self)@.fleets, created_fleet(r, g, input));
        }
        r
    }

    fn command_fleet(&mut self, input: FleetCommandInput, stamps: &Vec<Stamp>) -> (r: Result<
        usize,
        IotError,
    >)
        requires
            old(self)@.wf(),
            has_key(old(self)@.fleets, input.fleet_id@) ==> record_of(
                old(self)@.fleets,
                input.fleet_id@,
            ).device_ids@.len() <= stamps@.len(),
        ensures
            final(self)@.wf(),
            r is Err <==> !has_key(old(self)@.fleets, input.fleet_id@),
            r matches Err(e) ==> e == IotError::FleetNotFound && final(self)@ == old(self)@,
            r matches Ok(n) ==> {
                let ids = record_of(old(self)@.fleets, input.fleet_id@).device_ids@;
                &&& n == ids.len()
                &&& final(self)@.commands.len() == old(self)@.commands.len() + n
                &&& final(self)@.commands.subrange(0, old(self)@.commands.len() as int)
                    == old(self)@.commands
                &&& forall|k: int|
                    0 <= k < n ==> fleet_command_sent(
                        #[trigger] final(self)@.commands[old(self)@.commands.len() + k],
                        stamps@[k],
                        ids[k],
                        input,
                    )
                &&& final(self)@ == (ServerState { commands: final(self)@.commands, ..old(self)@ })
            },
    {
        let ghost old_s = self@;
        let fi = match find_key(&self.fleets, &input.fleet_id) {
            None => {
                return Err(IotError::FleetNotFound);
            },
            Some(i) => i,
        };
        let params = match input.params {
            Some(p) => p,
            None => Vec::new(),
        };
        let ghost want_params = params@;
        let count = self.fleets[fi].device_ids.len();
        let mut k: usize = 0;
        while k < count
            invariant
                fi < self@.fleets.len(),
                self@ == (ServerState { commands: self@.commands, ..old_s }),
                count == self@.fleets[fi as int].device_ids@.len(),
                count <= stamps@.len(),
                k <= count,
                params@ == want_params,
                self@.commands.len() == old_s.commands.len() + k,
                self@.commands.subrange(0, old_s.commands.len() as int) == old_s.commands,
                forall|q: int|
                    0 <= q < k ==> {
                        let c = #[trigger] self@.commands[old_s.commands.len() + q];
                        &&& c.id == stamps@[q].id
                        &&& c.device_id == self@.fleets[fi as int].device_ids@[q]
                        &&& c.command == input.command
                        &&& c.params@ == want_params
                        &&& c.status == CommandStatus::Sent
                        &&& c.sent_at == stamps@[q].at
                    },
            decreases count - k,
        {
            let c = Command {
                id: stamps[k].id.clone(),
                device_id: self.fleets[fi].device_ids[k].clone(),
                command: input.command.clone(),
                params: clone_params(&params),
                status: CommandStatus::Sent,
                sent_at: stamps[k].at.clone(),
            };
            self.commands.push(c);
            k = k + 1;
            assert(self@.commands.subrange(0, old_s.commands.len() as int) =~= old_s.commands);
        }
        proof {
            lemma_index_of_key(old_s.fleets, fi as int);
        }
        Ok(count)
    }

    fn fleet_command(&mut self, input: FleetCommandInput) -> (r: Result<usize, IotError>)
        requires
            old(self)@.wf(),
        ensures
            final(self)@.wf(),
            r is Err <==> !has_key(old(self)@.fleets, input.fleet_id@),
            r matches Err(e) ==> e == IotError::FleetNotFound && final(self)@ == old(self)@,
            r matches Ok(n) ==> {
                let ids = record_of(old(self)@.fleets, input.fleet_id@).device_ids@;
                &&& n == ids.len()
                &&& final(self)@.commands.len() == old(self)@.commands.len() + n
                &&& final(self)@.commands.subrange(0, old(self)@.commands.len() as int)
                    == old(self)@.commands
                &&& forall|k: int|
                    0 <= k < n ==> {
                        let c = #[trigger] final(self)@.commands[old(self)@.commands.len() + k];
                        &&& is_prefixed_id(c.id@, "cmd_"@)
                        &&& fleet_command_sent(c, Stamp { id: c.id, at: c.sent_at }, ids[k], input)
                    }
                &&& final(self)@ == (ServerState { commands: final(self)@.commands, ..old(self)@ })
            },
    {
        let n = match find_key(&self.fleets, &input.fleet_id) {
            None => {
                return Err(IotError::FleetNotFound);
            },
            Some(i) => self.fleets[i].device_ids.len(),
        };
        let mut stamps: Vec<Stamp> = Vec::new();
        let mut k: usize = 0;
        while k < n
            invariant
                k <= n,
                stamps@.len() == k,
                forall|q: int| 0 <= q < k ==> is_prefixed_id(#[trigger] stamps@[q].id@, "cmd_"@),
            decreases n - k,
        {
            let id = fresh_id("cmd_");
            let at = now();
            stamps.push(Stamp { id, at });
            k = k + 1;
        }
        proof {
            lemma_index_of_key(self@.fleets, index_of_key(self@.fleets, input.fleet_id@));
        }
        let r = self.command_fleet(input, &stamps);
        proof {
            if r is Ok {
                let ids = record_of(old(self)@.fleets, input.fleet_id@).device_ids@;
                assert forall|q: int| 0 <= q < ids.len() implies {
                    let c = #[trigger] self@.commands[old(self)@.commands.len() + q];
                    &&& is_prefixed_id(c.id@, "cmd_"@)
                    &&& fleet_command_sent(c, Stamp { id: c.id, at: c.sent_at }, ids[q], input)
                } by {
                    assert(is_prefixed_id(stamps@[q].id@, "cmd_"@));
                }
            }
        }
        r
    }

    // === OTA firmware ===

    fn create_firmware(&mut self, id: String, created_at: String, input: OtaCreateInput) -> (r:
        String)
        requires
            old(self)@.wf(),
        ensures
            final(self)@.wf(),
            r == id,
            has_key(final(self)@.firmware, id@),
            registered_firmware(record_of(final(self)@.firmware, id@), id, created_at, input),
            final(self)@ == (ServerState {
                firmware: upserted(old(self)@.firmware, record_of(final(self)@.firmware, id@)),
                ..old(self)@
            }),
    {
        let answer = id.clone();
        let target_type = match input.target_type {
            Some(t) => t,
            None => String::from_str("all"),
        };
        let checksum = match input.checksum {
            Some(c) => c,
            None => String::new(),
        };
        let fw = Firmware {
            id,
            version: input.version,
            target_type,
            url: input.url,
            checksum,
            created_at,
        };
        proof {
            lemma_upserted_shape(self.firmware@, fw);
        }
        upsert(&mut self.firmware, fw);
        answer
    }

    fn ota_firmware_create(&mut self, input: OtaCreateInput) -> (r: String)
        requires
            old(self)@.wf(),
        ensures
            final(self)@.wf(),
            is_prefixed_id(r@, "fw_"@),
            has_key(final(self)@.firmware, r@),
            registered_firmware(
                record_of(final(self)@.firmware, r@),
                r,
                record_of(final(self)@.firmware, r@).created_at,
                input,
            ),
            final(self)@ == (ServerState {
                firmware: upserted(old(self)@.firmware, record_of(final(self)@.firmware, r@)),
                ..old(self)@
            }),
    {
        let id = fresh_id("fw_");
        let at = now();
        self.create_firmware(id, at, input)
    }

    fn deploy_firmware(&mut self, id: String, started_at: String, input: OtaDeployInput) -> (r:
        Result<String, IotError>)
        requires
            old(self)@.wf(),
        ensures
            final(self)@.wf(),
            r is Err <==> !has_key(old(self)@.firmware, input.firmware_id@),
            r matches Err(e) ==> e == IotError::FirmwareNotFound && final(self)@ == old(self)@,
            r matches Ok(d) ==> d == id && final(self)@ == (ServerState {
                deployments: old(self)@.deployments.push(started_deployment(id, started_at, input)),
                ..old(self)@
            }),
    {
        if find_key(&self.firmware, &input.firmware_id).is_none() {
            return Err(IotError::FirmwareNotFound);
        }
        let answer = id.clone();
        self.deployments.push(
            OtaDeployment {
                id,
                firmware_id: input.firmware_id,
                device_ids: input.device_ids,
                status: DeploymentStatus::RollingOut,
                started_at,
            },
        );
        Ok(answer)
    }

    fn ota_deploy(&mut self, input: OtaDeployInput) -> (r: Result<String, IotError>)
        requires
            old(self)@.wf(),
        ensures
            final(self)@.wf(),
            r is Err <==> !has_key(old(self)@.firmware, input.firmware_id@),
            r matches Err(e) ==> e == IotError::FirmwareNotFound && final(self)@ == old(self)@,
            r matches Ok(d) ==> is_prefixed_id(d@, "dep_"@) && final(self)@ == (ServerState {
                deployments: old(self)@.deployments.push(
                    started_deployment(d, final(self)@.deployments.last().started_at, input),
                ),
                ..old(self)@
            }),
    {
        if find_key(&self.firmware, &input.firmware_id).is_none() {
            return Err(IotError::FirmwareNotFound);
        }
        let id = fresh_id("dep_");
        let at = now();
        self.deploy_firmware(id, at, input)
    }

    // === Geofencing ===

    fn create_geofence(&mut self, id: String, input: GeofenceCreateInput) -> (r: String)
        requires
            old(self)@.wf(),
        ensures
            final(self)@.wf(),
            r == id,
            final(self)@ == (ServerState {
                geofences: old(self)@.geofences.push(created_geofence(id, input)),
                ..old(self)@
            }),
    {
        let answer = id.clone();
        self.geofences.push(
            Geofence {
                id,
                name: input.name,
                lat_bits: input.lat_bits,
                lng_bits: input.lng_bits,
                radius_bits: input.radius_bits,
                device_ids: input.device_ids,
            },
        );
        answer
    }

    fn geofence_create(&mut self, input: GeofenceCreateInput) -> (r: String)
        requires
            old(self)@.wf(),
        ensures
            final(self)@.wf(),
            is_prefixed_id(r@, "geo_"@),
            final(self)@ == (ServerState {
                geofences: old(self)@.geofences.push(created_geofence(r, input)),
                ..old(self)@
            }),
    {
        let id = fresh_id("geo_");
        self.create_geofence(id, input)
    }

    fn geofences_for(&self, device_id: &String) -> (r: Vec<&Geofence>)
        ensures
            r@.map_values(|g: &Geofence| *g) == fences_for(self@.geofences, device_id@),
    {
        let v = &self.geofences;
        let mut r: Vec<&Geofence> = Vec::new();
        let mut i: usize = 0;
        assert(r@.map_values(|g: &Geofence| *g) =~= Seq::<Geofence>::empty());
        while i < v.len()
            invariant
                v@ == self@.geofences,
                i <= v@.len(),
                r@.map_values(|g: &Geofence| *g) == fences_for(v@.take(i as int), device_id@),
            decreases v@.len() - i,
        {
            assert(v@.take(i + 1).drop_last() =~= v@.take(i as int));
            if lists_device(&v[i], device_id) {
                let ghost before = r@.map_values(|g: &Geofence| *g);
                r.push(&v[i]);
                assert(r@.map_values(|g: &Geofence| *g) =~= before.push(v@[i as int]));
            }
            i = i + 1;
        }
        assert(v@.take(v@.len() as int) =~= v@);
        r
    }

    fn dashboard(&self) -> (r: Dashboard)
        ensures
            r.total_devices == self@.devices.len(),
            r.online == count_status(self@.devices, DeviceStatus::Online),
            r.offline == count_status(self@.devices, DeviceStatus::Offline),
            r.decommissioned == count_status(self@.devices, DeviceStatus::Decommissioned),
            r.telemetry_points == self@.telemetry.len(),
            r.alerts_triggered == self@.alerts.len(),
            r.active_rules == count_active(self@.alert_rules),
            r.fleets == self@.fleets.len(),
            r.ota_deployments == self@.deployments.len(),
    {
        Dashboard {
            total_devices: self.devices.len(),
            online: count_devices_with(&self.devices, DeviceStatus::Online),
            offline: count_devices_with(&self.devices, DeviceStatus::Offline),
            decommissioned: count_devices_with(&self.devices, DeviceStatus::Decommissioned),
            telemetry_points: self.telemetry.len(),
            alerts_triggered: self.alerts.len(),
            active_rules: count_active_rules(&self.alert_rules),
            fleets: self.fleets.len(),
            ota_deployments: self.deployments.len(),
        }
    }

}

/// The IoT engine.
pub struct IoTServer {
    engine: Engine,
}

impl IoTServer {
    /// Every tool keeps the engine well formed.
    #[verifier::type_invariant]
    spec fn well_formed(&self) -> bool {
        self.engine@.wf()
    }
}

impl View for IoTServer {
    type V = ServerState;

    closed spec fn view(&self) -> ServerState {
        self.engine@
    }
}

impl IoTServer {
    /// An engine with nothing registered.
    pub fn new() -> (s: IoTServer)
        ensures
            s@.wf(),
            s@.devices.len() == 0 && s@.telemetry.len() == 0 && s@.commands.len() == 0
                && s@.alert_rules.len() == 0 && s@.alerts.len() == 0 && s@.twins.len() == 0
                && s@.fleets.len() == 0 && s@.firmware.len() == 0 && s@.deployments.len() == 0
                && s@.geofences.len() == 0,
    {
        IoTServer { engine: Engine::new() }
    }

    /// The registered devices.
    pub fn devices(&self) -> (r: &Vec<Device>)
        ensures
            r@ == self@.devices,
    {
        proof {
            use_type_invariant(self);
        }
        self.engine.devices()
    }

    /// The telemetry log, oldest first.
    pub fn telemetry(&self) -> (r: &Vec<Telemetry>)
        ensures
            r@ == self@.telemetry,
    {
        proof {
            use_type_invariant(self);
        }
        self.engine.telemetry()
    }

    /// The command log, oldest first.
    pub fn commands(&self) -> (r: &Vec<Command>)
        ensures
            r@ == self@.commands,
    {
        proof {
            use_type_invariant(self);
        }
        self.engine.commands()
    }

    /// `alert_rule_list`: the alert rules, oldest first.
    pub fn alert_rule_list(&self) -> (r: &Vec<AlertRule>)
        ensures
            r@ == self@.alert_rules,
    {
        proof {
            use_type_invariant(self);
        }
        self.engine.alert_rule_list()
    }

    /// The alert log, oldest first.
    pub fn alerts(&self) -> (r: &Vec<Alert>)
        ensures
            r@ == self@.alerts,
    {
        proof {
            use_type_invariant(self);
        }
        self.engine.alerts()
    }

    /// The twins.
    pub fn twins(&self) -> (r: &Vec<TwinEntry>)
        ensures
            r@ == self@.twins,
    {
        proof {
            use_type_invariant(self);
        }
        self.engine.twins()
    }

    /// `fleet_list`: the fleets.
    pub fn fleet_list(&self) -> (r: &Vec<Fleet>)
        ensures
            r@ == self@.fleets,
    {
        proof {
            use_type_invariant(self);
        }
        self.engine.fleet_list()
    }

    /// The registered firmware versions.
    pub fn firmware(&self) -> (r: &Vec<Firmware>)
        ensures
            r@ == self@.firmware,
    {
        proof {
            use_type_invariant(self);
        }
        self.engine.firmware()
    }

    /// The firmware registered under `id`, if any.
    pub fn firmware_get(&self, id: &String) -> (r: Option<&Firmware>)
        ensures
            r is None <==> !has_key(self@.firmware, id@),
            r matches Some(f) ==> *f == record_of(self@.firmware, id@),
    {
        proof {
            use_type_invariant(self);
        }
        self.engine.firmware_get(id)
    }

    /// `ota_list`: the rollouts, oldest first.
    pub fn ota_list(&self) -> (r: &Vec<OtaDeployment>)
        ensures
            r@ == self@.deployments,
    {
        proof {
            use_type_invariant(self);
        }
        self.engine.ota_list()
    }

    /// The geofences, oldest first.
    pub fn geofences(&self) -> (r: &Vec<Geofence>)
        ensures
            r@ == self@.geofences,
    {
        proof {
            use_type_invariant(self);
        }
        self.engine.geofences()
    }

    // === Device registry ===

    /// Registers a device under `id` at time `registered_at`, with a fresh
    /// twin; a device or twin already under `id` is replaced.
    pub fn register_device(&mut self, id: String, registered_at: String, input: DeviceRegisterInput)
        ensures
            final(self)@.wf(),
            has_key(final(self)@.devices, id@),
            registered_device(final(self)@.device(id@), id, registered_at, input),
            final(self)@.devices == upserted(old(self)@.devices, final(self)@.device(id@)),
            fresh_twin(record_of(final(self)@.twins, id@), id),
            final(self)@.twins == upserted(old(self)@.twins, record_of(final(self)@.twins, id@)),
            final(self)@ == (ServerState {
                devices: final(self)@.devices,
                twins: final(self)@.twins,
                ..old(self)@
            }),
    {
        proof {
            use_type_invariant(&*self);
        }
        let mut engine = Engine::new();
        std::mem::swap(&mut engine, &mut self.engine);
        let r = engine.register_device(id, registered_at, input);
        self.engine = engine;
        r
    }

    /// `device_register`: registers a device under a fresh id `dev_` +
    /// eight hex digits, stamped with the current time, and gives it a fresh
    /// twin. Answers the id.
    pub fn device_register(&mut self, input: DeviceRegisterInput) -> (id: String)
        ensures
            final(self)@.wf(),
            is_prefixed_id(id@, "dev_"@),
            has_key(final(self)@.devices, id@),
            registered_device(
                final(self)@.device(id@),
                id,
                final(self)@.device(id@).registered_at,
                input,
            ),
            final(self)@.devices == upserted(old(self)@.devices, final(self)@.device(id@)),
            fresh_twin(record_of(final(self)@.twins, id@), id),
            final(self)@.twins == upserted(old(self)@.twins, record_of(final(self)@.twins, id@)),
            final(self)@ == (ServerState {
                devices: final(self)@.devices,
                twins: final(self)@.twins,
                ..old(self)@
            }),
    {
        proof {
            use_type_invariant(&*self);
        }
        let mut engine = Engine::new();
        std::mem::swap(&mut engine, &mut self.engine);
        let r = engine.device_register(input);
        self.engine = engine;
        r
    }

    /// `device_list`: the devices with how many are online; every other
    /// device counts as offline.
    pub fn device_list(&self) -> (r: DeviceListing<'_>)
        ensures
            r.devices@ == self@.devices,
            r.total == self@.devices.len(),
            r.online == count_status(self@.devices, DeviceStatus::Online),
            r.offline == r.total - r.online,
    {
        proof {
            use_type_invariant(self);
        }
        self.engine.device_list()
    }

    /// `device_get`: a device with its twin and its five newest telemetry
    /// points; `DEVICE_NOT_FOUND` for an unknown id.
    pub fn device_get(&self, input: DeviceIdInput) -> (r: Result<DeviceDetails<'_>, IotError>)
        ensures
            r is Err <==> !has_key(self@.devices, input.device_id@),
            r matches Err(e) ==> e == IotError::DeviceNotFound,
            r matches Ok(d) ==> {
                &&& *d.device == self@.device(input.device_id@)
                &&& *d.twin == self@.twin(input.device_id@)
                &&& d.recent_telemetry@.map_values(|t: &Telemetry| *t) == newest_telemetry(
                    self@.telemetry,
                    input.device_id@,
                    5,
                )
            },
    {
        proof {
            use_type_invariant(self);
        }
        self.engine.device_get(input)
    }

    /// `device_decommission`: marks a device decommissioned and takes it out
    /// of every fleet; `DEVICE_NOT_FOUND` for an unknown id.
    pub fn device_decommission(&mut self, input: DeviceIdInput) -> (r: Result<(), IotError>)
        ensures
            final(self)@.wf(),
            r is Err <==> !has_key(old(self)@.devices, input.device_id@),
            r matches Err(e) ==> e == IotError::DeviceNotFound && final(self)@ == old(self)@,
            r is Ok ==> {
                let i = index_of_key(old(self)@.devices, input.device_id@);
                &&& final(self)@.devices == old(self)@.devices.update(
                    i,
                    Device { status: DeviceStatus::Decommissioned, ..old(self)@.devices[i] },
                )
                &&& fleets_without(old(self)@.fleets, final(self)@.fleets, input.device_id@)
                &&& final(self)@ == (ServerState {
                    devices: final(self)@.devices,
                    fleets: final(self)@.fleets,
                    ..old(self)@
                })
            },
    {
        proof {
            use_type_invariant(&*self);
        }
        let mut engine = Engine::new();
        std::mem::swap(&mut engine, &mut self.engine);
        let r = engine.device_decommission(input);
        self.engine = engine;
        r
    }

    // === Telemetry ===

    /// Ingests `input` with the given stamps. `near[i]` tells whether the
    /// reading of alert rule `i`'s metric lies within 0.001 of the rule's
    /// threshold (a binary64 subtraction made by the caller; it matters only
    /// to `eq` rules, and flags past its end count as false).
    /// `DEVICE_NOT_FOUND` for an unknown device.
    pub fn ingest_stamped(
        &mut self,
        input: TelemetryIngestInput,
        near: &Vec<bool>,
        stamps: IngestStamps,
    ) -> (r: Result<Vec<usize>, IotError>)
        requires
            stamps.alerts@.len() >= firing_rules(
                old(self)@.alert_rules,
                input.device_id@,
                input.readings@,
                near@,
            ).len(),
        ensures
            final(self)@.wf(),
            r is Err <==> !has_key(old(self)@.devices, input.device_id@),
            r matches Err(e) ==> e == IotError::DeviceNotFound && final(self)@ == old(self)@,
            r matches Ok(fired) ==> ingest_effect(old(self)@, final(self)@, input, near@, stamps, fired@),
    {
        proof {
            use_type_invariant(&*self);
        }
        let mut engine = Engine::new();
        std::mem::swap(&mut engine, &mut self.engine);
        let r = engine.ingest_stamped(input, near, stamps);
        self.engine = engine;
        r
    }

    /// `telemetry_ingest`: ingests readings from a device, stamping the
    /// device as seen, each raised alert with a fresh id `alrt_` + eight hex
    /// digits, and the point, with the current time. `near` is as in
    /// [`IoTServer::ingest_stamped`]. Answers the positions of the rules that
    /// fired; `DEVICE_NOT_FOUND` for an unknown device.
    pub fn telemetry_ingest(&mut self, input: TelemetryIngestInput, near: &Vec<bool>) -> (r:
        Result<Vec<usize>, IotError>)
        ensures
            final(self)@.wf(),
            r is Err <==> !has_key(old(self)@.devices, input.device_id@),
            r matches Err(e) ==> e == IotError::DeviceNotFound && final(self)@ == old(self)@,
            r matches Ok(fired) ==> exists|st: IngestStamps|
                alert_ids_fresh(st) && st.alerts@.len() == fired@.len() && #[trigger] ingest_effect(
                    old(self)@,
                    final(self)@,
                    input,
                    near@,
                    st,
                    fired@,
                ),
    {
        proof {
            use_type_invariant(&*self);
        }
        let ghost before = self@;
        let ghost given = input;
        let mut engine = Engine::new();
        std::mem::swap(&mut engine, &mut self.engine);
        let r = engine.telemetry_ingest(input, near);
        self.engine = engine;
        proof {
            if let Ok(fired) = &r {
                let st = choose|st: IngestStamps|
                    alert_ids_fresh(st) && st.alerts@.len() == fired@.len() && #[trigger] ingest_effect(
                        before,
                        engine@,
                        given,
                        near@,
                        st,
                        fired@,
                    );
                assert(self@ == engine@);
                assert(ingest_effect(before, self@, given, near@, st, fired@));
            }
        }
        r
    }

    // === Digital twins ===

    /// The twin of device `device_id`, if it is registered.
    pub fn twin(&self, device_id: &String) -> (r: Option<&Twin>)
        ensures
            r is None <==> !has_key(self@.devices, device_id@),
            r matches Some(t) ==> *t == self@.twin(device_id@),
    {
        proof {
            use_type_invariant(self);
        }
        self.engine.twin(device_id)
    }

    /// `twin_update`: writes new desired values into a device's twin;
    /// `DEVICE_NOT_FOUND` for an unknown device.
    pub fn twin_update(&mut self, input: TwinUpdateInput) -> (r: Result<(), IotError>)
        ensures
            final(self)@.wf(),
            r is Err <==> !has_key(old(self)@.devices, input.device_id@),
            r matches Err(e) ==> e == IotError::DeviceNotFound && final(self)@ == old(self)@,
            r is Ok ==> {
                let ti = index_of_key(old(self)@.twins, input.device_id@);
                &&& 0 <= ti < old(self)@.twins.len()
                &&& final(self)@.twins == old(self)@.twins.update(ti, final(self)@.twins[ti])
                &&& final(self)@.twins[ti].device_id == old(self)@.twins[ti].device_id
                &&& final(self)@.twins[ti].twin.reported == old(self)@.twins[ti].twin.reported
                &&& final(self)@.twins[ti].twin.desired@ == apply_desired(
                    old(self)@.twins[ti].twin.desired@,
                    input.desired@,
                )
                &&& final(self)@ == (ServerState { twins: final(self)@.twins, ..old(self)@ })
            },
    {
        proof {
            use_type_invariant(&*self);
        }
        let mut engine = Engine::new();
        std::mem::swap(&mut engine, &mut self.engine);
        let r = engine.twin_update(input);
        self.engine = engine;
        r
    }

    /// `twin_get`: a device's reported and desired state with the keys that
    /// drift; `DEVICE_NOT_FOUND` for an unknown device.
    pub fn twin_get(&self, input: DeviceIdInput) -> (r: Result<TwinReport<'_>, IotError>)
        ensures
            r is Err <==> !has_key(self@.devices, input.device_id@),
            r matches Err(e) ==> e == IotError::DeviceNotFound,
            r matches Ok(rep) ==> {
                let t = self@.twin(input.device_id@);
                &&& *rep.reported == t.reported
                &&& *rep.desired == t.desired
                &&& rep.drift_keys@.map_values(|s: String| s@) == drift_keys(
                    t.desired.members@,
                    t.reported@,
                )
                &&& rep.in_sync == (rep.drift_keys@.len() == 0)
            },
    {
        proof {
            use_type_invariant(self);
        }
        self.engine.twin_get(input)
    }

    /// `telemetry_query`: a device's newest telemetry points, newest first,
    /// at most `last_n` (20 when not given); with a metric, each row also
    /// carries that metric's reading.
    pub fn telemetry_query(&self, input: TelemetryQueryInput) -> (r: Vec<TelemetryRow<'_>>)
        ensures
            ({
                let n: nat = match input.last_n {
                    Some(n) => n as nat,
                    None => 20,
                };
                let pts = newest_telemetry(self@.telemetry, input.device_id@, n);
                &&& r@.len() == pts.len()
                &&& forall|k: int|
                    0 <= k < r@.len() ==> *(#[trigger] r@[k]).point == pts[k] && r@[k].value_bits == (
                    match input.metric {
                        Some(m) => reading_of(pts[k].readings@, m@),
                        None => None,
                    })
            }),
    {
        proof {
            use_type_invariant(self);
        }
        self.engine.telemetry_query(input)
    }

    // === Commands ===

    /// Sends a command with id `id` at time `sent_at` to a registered device;
    /// `DEVICE_NOT_FOUND` for an unknown device. Answers the command id.
    pub fn send_command(&mut self, id: String, sent_at: String, input: CommandInput) -> (r: Result<
        String,
        IotError,
    >)
        ensures
            final(self)@.wf(),
            r is Err <==> !has_key(old(self)@.devices, input.device_id@),
            r matches Err(e) ==> e == IotError::DeviceNotFound && final(self)@ == old(self)@,
            r matches Ok(c) ==> {
                &&& c == id
                &&& final(self)@.commands == old(self)@.commands.push(final(self)@.commands.last())
                &&& sent_command(
                    final(self)@.commands.last(),
                    id,
                    sent_at,
                    input.device_id,
                    input.command,
                    input.params,
                )
                &&& final(self)@ == (ServerState { commands: final(self)@.commands, ..old(self)@ })
            },
    {
        proof {
            use_type_invariant(&*self);
        }
        let mut engine = Engine::new();
        std::mem::swap(&mut engine, &mut self.engine);
        let r = engine.send_command(id, sent_at, input);
        self.engine = engine;
        r
    }

    /// `command_send`: sends a command to a registered device under a fresh
    /// id `cmd_` + eight hex digits, stamped with the current time;
    /// `DEVICE_NOT_FOUND` for an unknown device. Answers the command id.
    pub fn command_send(&mut self, input: CommandInput) -> (r: Result<String, IotError>)
        ensures
            final(self)@.wf(),
            r is Err <==> !has_key(old(self)@.devices, input.device_id@),
            r matches Err(e) ==> e == IotError::DeviceNotFound && final(self)@ == old(self)@,
            r matches Ok(c) ==> {
                &&& is_prefixed_id(c@, "cmd_"@)
                &&& final(self)@.commands == old(self)@.commands.push(final(self)@.commands.last())
                &&& sent_command(
                    final(self)@.commands.last(),
                    c,
                    final(self)@.commands.last().sent_at,
                    input.device_id,
                    input.command,
                    input.params,
                )
                &&& final(self)@ == (ServerState { commands: final(self)@.commands, ..old(self)@ })
            },
    {
        proof {
            use_type_invariant(&*self);
        }
        let mut engine = Engine::new();
        std::mem::swap(&mut engine, &mut self.engine);
        let r = engine.command_send(input);
        self.engine = engine;
        r
    }

    /// `command_list`: the commands sent to a device, oldest first.
    pub fn command_list(&self, input: DeviceIdInput) -> (r: Vec<&Command>)
        ensures
            r@.map_values(|c: &Command| *c) == commands_for(self@.commands, input.device_id@),
    {
        proof {
            use_type_invariant(self);
        }
        self.engine.command_list(input)
    }

    // === Alert rules and alerts ===

    /// Adds an active alert rule under `id`. Answers the rule id.
    pub fn create_rule(&mut self, id: String, input: AlertRuleInput) -> (r: String)
        ensures
            final(self)@.wf(),
            r == id,
            final(self)@ == (ServerState {
                alert_rules: old(self)@.alert_rules.push(created_rule(id, input)),
                ..old(self)@
            }),
    {
        proof {
            use_type_invariant(&*self);
        }
        let mut engine = Engine::new();
        std::mem::swap(&mut engine, &mut self.engine);
        let r = engine.create_rule(id, input);
        self.engine = engine;
        r
    }

    /// `alert_rule_create`: adds an active alert rule under a fresh id
    /// `rule_` + eight hex digits. Answers the rule id.
    pub fn alert_rule_create(&mut self, input: AlertRuleInput) -> (r: String)
        ensures
            final(self)@.wf(),
            is_prefixed_id(r@, "rule_"@),
            final(self)@ == (ServerState {
                alert_rules: old(self)@.alert_rules.push(created_rule(r, input)),
                ..old(self)@
            }),
    {
        proof {
            use_type_invariant(&*self);
        }
        let mut engine = Engine::new();
        std::mem::swap(&mut engine, &mut self.engine);
        let r = engine.alert_rule_create(input);
        self.engine = engine;
        r
    }

    /// `alert_list`: how many alerts were raised, and the newest fifty,
    /// newest first.
    pub fn alert_list(&self) -> (r: AlertListing<'_>)
        ensures
            r.total == self@.alerts.len(),
            r.alerts@.map_values(|a: &Alert| *a) == newest_first(self@.alerts, 50),
    {
        proof {
            use_type_invariant(self);
        }
        self.engine.alert_list()
    }

    // === Fleets ===

    /// Creates fleet `id` at time `created_at`; a fleet already under `id`
    /// is replaced. Answers the fleet id.
    pub fn create_fleet(&mut self, id: String, created_at: String, input: FleetCreateInput) -> (r:
        String)
        ensures
            final(self)@.wf(),
            r == id,
            final(self)@ == (ServerState {
                fleets: upserted(old(self)@.fleets, created_fleet(id, created_at, input)),
                ..old(self)@
            }),
    {
        proof {
            use_type_invariant(&*self);
        }
        let mut engine = Engine::new();
        std::mem::swap(&mut engine, &mut self.engine);
        let r = engine.create_fleet(id, created_at, input);
        self.engine = engine;
        r
    }

    /// `fleet_create`: creates a fleet under a fresh id `fleet_` + eight hex
    /// digits, stamped with the current time. Answers the fleet id.
    pub fn fleet_create(&mut self, input: FleetCreateInput) -> (r: String)
        ensures
            final(self)@.wf(),
            is_prefixed_id(r@, "fleet_"@),
            has_key(final(self)@.fleets, r@),
            final(self)@ == (ServerState {
                fleets: upserted(
                    old(self)@.fleets,
                    created_fleet(r, record_of(final(self)@.fleets, r@).created_at, input),
                ),
                ..old(self)@
            }),
    {
        proof {
            use_type_invariant(&*self);
        }
        let mut engine = Engine::new();
        std::mem::swap(&mut engine, &mut self.engine);
        let r = engine.fleet_create(input);
        self.engine = engine;
        r
    }

    /// Sends a command to every device of a fleet, the `k`-th with
    /// `stamps[k]`; `FLEET_NOT_FOUND` for an unknown fleet. Answers how many
    /// devices were targeted.
    pub fn command_fleet(&mut self, input: FleetCommandInput, stamps: &Vec<Stamp>) -> (r: Result<
        usize,
        IotError,
    >)
        requires
            has_key(old(self)@.fleets, input.fleet_id@) ==> record_of(
                old(self)@.fleets,
                input.fleet_id@,
            ).device_ids@.len() <= stamps@.len(),
        ensures
            final(self)@.wf(),
            r is Err <==> !has_key(old(self)@.fleets, input.fleet_id@),
            r matches Err(e) ==> e == IotError::FleetNotFound && final(self)@ == old(self)@,
            r matches Ok(n) ==> {
                let ids = record_of(old(self)@.fleets, input.fleet_id@).device_ids@;
                &&& n == ids.len()
                &&& final(self)@.commands.len() == old(self)@.commands.len() + n
                &&& final(self)@.commands.subrange(0, old(self)@.commands.len() as int)
                    == old(self)@.commands
                &&& forall|k: int|
                    0 <= k < n ==> fleet_command_sent(
                        #[trigger] final(self)@.commands[old(self)@.commands.len() + k],
                        stamps@[k],
                        ids[k],
                        input,
                    )
                &&& final(self)@ == (ServerState { commands: final(self)@.commands, ..old(self)@ })
            },
    {
        proof {
            use_type_invariant(&*self);
        }
        let mut engine = Engine::new();
        std::mem::swap(&mut engine, &mut self.engine);
        let r = engine.command_fleet(input, stamps);
        self.engine = engine;
        r
    }

    /// `fleet_command`: sends a command to every device of a fleet, each
    /// under a fresh id `cmd_` + eight hex digits, stamped with the current
    /// time; `FLEET_NOT_FOUND` for an unknown fleet. Answers how many
    /// devices were targeted.
    pub fn fleet_command(&mut self, input: FleetCommandInput) -> (r: Result<usize, IotError>)
        ensures
            final(self)@.wf(),
            r is Err <==> !has_key(old(self)@.fleets, input.fleet_id@),
            r matches Err(e) ==> e == IotError::FleetNotFound && final(self)@ == old(self)@,
            r matches Ok(n) ==> {
                let ids = record_of(old(self)@.fleets, input.fleet_id@).device_ids@;
                &&& n == ids.len()
                &&& final(self)@.commands.len() == old(self)@.commands.len() + n
                &&& final(self)@.commands.subrange(0, old(self)@.commands.len() as int)
                    == old(self)@.commands
                &&& forall|k: int|
                    0 <= k < n ==> {
                        let c = #[trigger] final(self)@.commands[old(self)@.commands.len() + k];
                        &&& is_prefixed_id(c.id@, "cmd_"@)
                        &&& fleet_command_sent(c, Stamp { id: c.id, at: c.sent_at }, ids[k], input)
                    }
                &&& final(self)@ == (ServerState { commands: final(self)@.commands, ..old(self)@ })
            },
    {
        proof {
            use_type_invariant(&*self);
        }
        let mut engine = Engine::new();
        std::mem::swap(&mut engine, &mut self.engine);
        let r = engine.fleet_command(input);
        self.engine = engine;
        r
    }

    // === OTA firmware ===

    /// Registers firmware `id` at time `created_at`; firmware already under
    /// `id` is replaced. Answers the firmware id.
    pub fn create_firmware(&mut self, id: String, created_at: String, input: OtaCreateInput) -> (r:
        String)
        ensures
            final(self)@.wf(),
            r == id,
            has_key(final(self)@.firmware, id@),
            registered_firmware(record_of(final(self)@.firmware, id@), id, created_at, input),
            final(self)@ == (ServerState {
                firmware: upserted(old(self)@.firmware, record_of(final(self)@.firmware, id@)),
                ..old(self)@
            }),
    {
        proof {
            use_type_invariant(&*self);
        }
        let mut engine = Engine::new();
        std::mem::swap(&mut engine, &mut self.engine);
        let r = engine.create_firmware(id, created_at, input);
        self.engine = engine;
        r
    }

    /// `ota_firmware_create`: registers a firmware version under a fresh id
    /// `fw_` + eight hex digits, stamped with the current time; the target
    /// type defaults to `all` and the checksum to the empty text. Answers
    /// the firmware id.
    pub fn ota_firmware_create(&mut self, input: OtaCreateInput) -> (r: String)
        ensures
            final(self)@.wf(),
            is_prefixed_id(r@, "fw_"@),
            has_key(final(self)@.firmware, r@),
            registered_firmware(
                record_of(final(self)@.firmware, r@),
                r,
                record_of(final(self)@.firmware, r@).created_at,
                input,
            ),
            final(self)@ == (ServerState {
                firmware: upserted(old(self)@.firmware, record_of(final(self)@.firmware, r@)),
                ..old(self)@
            }),
    {
        proof {
            use_type_invariant(&*self);
        }
        let mut engine = Engine::new();
        std::mem::swap(&mut engine, &mut self.engine);
        let r = engine.ota_firmware_create(input);
        self.engine = engine;
        r
    }

    /// Starts rollout `id` at time `started_at` of registered firmware;
    /// `FIRMWARE_NOT_FOUND` for unknown firmware. Answers the rollout id.
    pub fn deploy_firmware(&mut self, id: String, started_at: String, input: OtaDeployInput) -> (r:
        Result<String, IotError>)
        ensures
            final(self)@.wf(),
            r is Err <==> !has_key(old(self)@.firmware, input.firmware_id@),
            r matches Err(e) ==> e == IotError::FirmwareNotFound && final(self)@ == old(self)@,
            r matches Ok(d) ==> d == id && final(self)@ == (ServerState {
                deployments: old(self)@.deployments.push(started_deployment(id, started_at, input)),
                ..old(self)@
            }),
    {
        proof {
            use_type_invariant(&*self);
        }
        let mut engine = Engine::new();
        std::mem::swap(&mut engine, &mut self.engine);
        let r = engine.deploy_firmware(id, started_at, input);
        self.engine = engine;
        r
    }

    /// `ota_deploy`: starts a rollout of registered firmware under a fresh
    /// id `dep_` + eight hex digits, stamped with the current time;
    /// `FIRMWARE_NOT_FOUND` for unknown firmware. Answers the rollout id.
    pub fn ota_deploy(&mut self, input: OtaDeployInput) -> (r: Result<String, IotError>)
        ensures
            final(self)@.wf(),
            r is Err <==> !has_key(old(self)@.firmware, input.firmware_id@),
            r matches Err(e) ==> e == IotError::FirmwareNotFound && final(self)@ == old(self)@,
            r matches Ok(d) ==> is_prefixed_id(d@, "dep_"@) && final(self)@ == (ServerState {
                deployments: old(self)@.deployments.push(
                    started_deployment(d, final(self)@.deployments.last().started_at, input),
                ),
                ..old(self)@
            }),
    {
        proof {
            use_type_invariant(&*self);
        }
        let mut engine = Engine::new();
        std::mem::swap(&mut engine, &mut self.engine);
        let r = engine.ota_deploy(input);
        self.engine = engine;
        r
    }

    // === Geofencing ===

    /// Adds geofence `id`. Answers the geofence id.
    pub fn create_geofence(&mut self, id: String, input: GeofenceCreateInput) -> (r: String)
        ensures
            final(self)@.wf(),
            r == id,
            final(self)@ == (ServerState {
                geofences: old(self)@.geofences.push(created_geofence(id, input)),
                ..old(self)@
            }),
    {
        proof {
            use_type_invariant(&*self);
        }
        let mut engine = Engine::new();
        std::mem::swap(&mut engine, &mut self.engine);
        let r = engine.create_geofence(id, input);
        self.engine = engine;
        r
    }

    /// `geofence_create`: adds a circular geofence under a fresh id `geo_`
    /// + eight hex digits. Answers the geofence id.
    pub fn geofence_create(&mut self, input: GeofenceCreateInput) -> (r: String)
        ensures
            final(self)@.wf(),
            is_prefixed_id(r@, "geo_"@),
            final(self)@ == (ServerState {
                geofences: old(self)@.geofences.push(created_geofence(r, input)),
                ..old(self)@
            }),
    {
        proof {
            use_type_invariant(&*self);
        }
        let mut engine = Engine::new();
        std::mem::swap(&mut engine, &mut self.engine);
        let r = engine.geofence_create(input);
        self.engine = engine;
        r
    }

    /// The geofences that list device `device_id`, in order: the ones
    /// `geofence_check` measures the device's position against.
    pub fn geofences_for(&self, device_id: &String) -> (r: Vec<&Geofence>)
        ensures
            r@.map_values(|g: &Geofence| *g) == fences_for(self@.geofences, device_id@),
    {
        proof {
            use_type_invariant(self);
        }
        self.engine.geofences_for(device_id)
    }

    /// `dashboard`: device counts by status and the sizes of the logs.
    pub fn dashboard(&self) -> (r: Dashboard)
        ensures
            r.total_devices == self@.devices.len(),
            r.online == count_status(self@.devices, DeviceStatus::Online),
            r.offline == count_status(self@.devices, DeviceStatus::Offline),
            r.decommissioned == count_status(self@.devices, DeviceStatus::Decommissioned),
            r.telemetry_points == self@.telemetry.len(),
            r.alerts_triggered == self@.alerts.len(),
            r.active_rules == count_active(self@.alert_rules),
            r.fleets == self@.fleets.len(),
            r.ota_deployments == self@.deployments.len(),
    {
        proof {
            use_type_invariant(self);
        }
        self.engine.dashboard()
    }
}
} // verus!
