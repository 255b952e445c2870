use std::collections::HashMap;

use mcp_iot::fields::FieldMap;
use mcp_iot::inputs::{
    AlertRuleInput, CommandInput, DeviceIdInput, DeviceRegisterInput, FleetCommandInput,
    FleetCreateInput, GeofenceCheckInput, GeofenceCreateInput, OtaCreateInput, OtaDeployInput,
    TelemetryIngestInput, TelemetryQueryInput, TwinUpdateInput,
};
use mcp_iot::floats::{float_eq, float_le, float_lt};
use mcp_iot::json::{float_to_json, json_eq, JsonValue};
use mcp_iot::keys::{compare_keys, KeyOrder};
use mcp_iot::model::{CommandStatus, Condition, DeploymentStatus, DeviceStatus, Reading};
use mcp_iot::server::{count_breaches, IoTServer, IotError};

fn text(s: &str) -> String {
    s.to_string()
}

fn register(s: &mut IoTServer, name: &str) -> String {
    s.device_register(DeviceRegisterInput {
        name: text(name),
        device_type: text("sensor"),
        protocol: None,
        location: None,
        tags: None,
        lat_bits: None,
        lng_bits: None,
    })
}

fn near_flags(s: &IoTServer, metrics: &HashMap<String, f64>) -> Vec<bool> {
    s.alert_rule_list()
        .iter()
        .map(|r| match metrics.get(&r.metric) {
            Some(v) => (v - f64::from_bits(r.threshold_bits)).abs() < 0.001,
            None => false,
        })
        .collect()
}

fn ingest(s: &mut IoTServer, dev: &str, metrics: &[(&str, f64)]) -> Result<Vec<usize>, IotError> {
    let map: HashMap<String, f64> = metrics.iter().map(|(k, v)| (text(k), *v)).collect();
    let b = near_flags(s, &map);
    let readings = metrics
        .iter()
        .map(|(k, v)| Reading { metric: text(k), value_bits: v.to_bits() })
        .collect();
    s.telemetry_ingest(TelemetryIngestInput { device_id: text(dev), readings }, &b)
}

fn rule(s: &mut IoTServer, name: &str, dev: Option<&str>, metric: &str, cond: &str, t: f64) -> String {
    s.alert_rule_create(AlertRuleInput {
        name: text(name),
        device_id: dev.map(text),
        metric: text(metric),
        condition: text(cond),
        threshold_bits: t.to_bits(),
    })
}

fn is_short_hex(s: &str) -> bool {
    s.len() == 8 && s.chars().all(|c| c.is_ascii_digit() || ('a'..='f').contains(&c))
}

#[test]
fn register_applies_defaults_and_fresh_twin() {
    let mut s = IoTServer::new();
    let id = register(&mut s, "Door Actuator B2");
    assert!(id.starts_with("dev_"));
    assert!(is_short_hex(&id[4..]));
    let d = &s.devices()[0];
    assert_eq!(d.id, id);
    assert_eq!(d.name, "Door Actuator B2");
    assert_eq!(d.protocol, "mqtt");
    assert_eq!(d.location, "");
    assert!(d.tags.is_empty());
    assert_eq!(d.status, DeviceStatus::Online);
    assert!(d.last_seen.is_none());
    let t = s.twin(&id).unwrap();
    assert!(t.reported.members.is_empty());
    assert!(t.desired.members.is_empty());
}

#[test]
fn register_keeps_given_fields() {
    let mut s = IoTServer::new();
    let id = s.device_register(DeviceRegisterInput {
        name: text("Temp Sensor A1"),
        device_type: text("sensor"),
        protocol: Some(text("coap")),
        location: Some(text("Warehouse 3")),
        tags: Some(vec![text("temperature"), text("warehouse")]),
        lat_bits: Some((-1.286f64).to_bits()),
        lng_bits: Some(36.817f64.to_bits()),
    });
    let details = s.device_get(DeviceIdInput { device_id: id.clone() }).ok().unwrap();
    assert_eq!(details.device.protocol, "coap");
    assert_eq!(details.device.location, "Warehouse 3");
    assert_eq!(details.device.tags, vec![text("temperature"), text("warehouse")]);
    assert_eq!(details.device.lat_bits.map(f64::from_bits), Some(-1.286));
    assert_eq!(details.device.lng_bits.map(f64::from_bits), Some(36.817));
    assert!(details.recent_telemetry.is_empty());
}

#[test]
fn unknown_device_is_refused_everywhere() {
    let mut s = IoTServer::new();
    let id = text("dev_missing0");
    assert!(matches!(s.device_get(DeviceIdInput { device_id: id.clone() }), Err(IotError::DeviceNotFound)));
    assert_eq!(s.device_decommission(DeviceIdInput { device_id: id.clone() }), Err(IotError::DeviceNotFound));
    assert_eq!(ingest(&mut s, "dev_missing0", &[("temperature", 20.0)]), Err(IotError::DeviceNotFound));
    assert_eq!(
        s.command_send(CommandInput { device_id: id.clone(), command: text("reboot"), params: None }),
        Err(IotError::DeviceNotFound)
    );
    assert_eq!(
        s.twin_update(TwinUpdateInput { device_id: id.clone(), desired: vec![] }),
        Err(IotError::DeviceNotFound)
    );
    assert!(matches!(s.twin_get(DeviceIdInput { device_id: id }), Err(IotError::DeviceNotFound)));
    assert!(s.telemetry().is_empty() && s.commands().is_empty());
    assert_eq!(IotError::DeviceNotFound.code(), "DEVICE_NOT_FOUND");
    assert_eq!(IotError::FleetNotFound.code(), "FLEET_NOT_FOUND");
    assert_eq!(IotError::FirmwareNotFound.code(), "FIRMWARE_NOT_FOUND");
}

#[test]
fn device_list_counts_not_online_as_offline() {
    let mut s = IoTServer::new();
    let a = register(&mut s, "a");
    register(&mut s, "b");
    register(&mut s, "c");
    s.device_decommission(DeviceIdInput { device_id: a }).unwrap();
    let l = s.device_list();
    assert_eq!((l.total, l.online, l.offline), (3, 2, 1));
    assert_eq!(l.devices.len(), 3);
}

#[test]
fn decommission_marks_device_and_leaves_fleets() {
    let mut s = IoTServer::new();
    let a = register(&mut s, "a");
    let b = register(&mut s, "b");
    let f = s.fleet_create(FleetCreateInput { name: text("f"), device_ids: vec![a.clone(), b.clone(), a.clone()] });
    s.device_decommission(DeviceIdInput { device_id: a.clone() }).unwrap();
    assert_eq!(s.devices()[0].status, DeviceStatus::Decommissioned);
    assert_eq!(DeviceStatus::Decommissioned.label(), "decommissioned");
    let fleet = s.fleet_list().iter().find(|x| x.id == f).unwrap();
    assert_eq!(fleet.device_ids, vec![b]);
    let d = s.dashboard();
    assert_eq!((d.total_devices, d.online, d.offline, d.decommissioned), (2, 1, 0, 1));
}

#[test]
fn ingest_fires_matching_rules_only() {
    let mut s = IoTServer::new();
    let dev = register(&mut s, "a");
    let other = register(&mut s, "b");
    rule(&mut s, "High Temp Alert", None, "temperature", "gt", 45.0);
    rule(&mut s, "Low Battery", None, "voltage", "lt", 3.2);
    rule(&mut s, "Other device", Some(&other), "temperature", ">", 0.0);
    rule(&mut s, "Missing metric", None, "pressure", "gt", 0.0);
    rule(&mut s, "Odd condition", None, "temperature", "between", 0.0);
    let fired = ingest(&mut s, &dev, &[("temperature", 47.5), ("humidity", 62.0), ("voltage", 3.8)]).unwrap();
    assert_eq!(fired, vec![0]);
    assert_eq!(s.alerts().len(), 1);
    let a = &s.alerts()[0];
    assert!(a.id.starts_with("alrt_") && is_short_hex(&a.id[5..]));
    assert_eq!(a.rule_id, s.alert_rule_list()[0].id);
    assert_eq!(a.device_id, dev);
    assert_eq!(a.metric, "temperature");
    assert_eq!(f64::from_bits(a.value_bits), 47.5);
    assert_eq!(f64::from_bits(a.threshold_bits), 45.0);
    let fired = ingest(&mut s, &dev, &[("voltage", 3.0), ("temperature", 20.0)]).unwrap();
    assert_eq!(fired, vec![1]);
    assert_eq!(s.alerts().len(), 2);
    assert_eq!(s.telemetry().len(), 2);
}

#[test]
fn conditions_parse_every_spelling() {
    let cases = [
        ("gt", Condition::Greater),
        (">", Condition::Greater),
        ("lt", Condition::Less),
        ("<", Condition::Less),
        ("gte", Condition::GreaterOrEqual),
        (">=", Condition::GreaterOrEqual),
        ("lte", Condition::LessOrEqual),
        ("<=", Condition::LessOrEqual),
        ("eq", Condition::ApproxEqual),
        ("==", Condition::ApproxEqual),
        ("GT", Condition::Unknown),
        ("", Condition::Unknown),
    ];
    for (t, c) in cases {
        assert_eq!(Condition::parse(&text(t)), c, "{}", t);
    }
}

#[test]
fn near_flags_past_the_end_count_as_false() {
    let mut s = IoTServer::new();
    let dev = register(&mut s, "a");
    rule(&mut s, "r0", None, "t", "eq", 5.0);
    rule(&mut s, "r1", None, "t", "eq", 5.0);
    let r = s.telemetry_ingest(
        TelemetryIngestInput { device_id: dev, readings: vec![Reading { metric: text("t"), value_bits: 5.0f64.to_bits() }] },
        &vec![true],
    );
    assert_eq!(r, Ok(vec![0]));
}

#[test]
fn orderings_follow_ieee_comparison() {
    let mut s = IoTServer::new();
    let dev = register(&mut s, "a");
    rule(&mut s, "gt", None, "t", "gt", -1.0);
    rule(&mut s, "lt", None, "t", "<", -0.0);
    rule(&mut s, "gte", None, "t", ">=", 0.0);
    rule(&mut s, "lte", None, "t", "lte", 0.0);
    // -0.0 equals 0.0: not less, but at least and at most.
    assert_eq!(ingest(&mut s, &dev, &[("t", -0.0)]).unwrap(), vec![0, 2, 3]);
    // NaN compares false with everything.
    assert_eq!(ingest(&mut s, &dev, &[("t", f64::NAN)]).unwrap(), Vec::<usize>::new());
    assert_eq!(ingest(&mut s, &dev, &[("t", f64::NEG_INFINITY)]).unwrap(), vec![1, 3]);
    assert_eq!(ingest(&mut s, &dev, &[("t", -2.5)]).unwrap(), vec![1, 3]);
    assert_eq!(ingest(&mut s, &dev, &[("t", f64::INFINITY)]).unwrap(), vec![0, 2]);
    assert_eq!(ingest(&mut s, &dev, &[("t", 1e-300)]).unwrap(), vec![0, 2]);
}

#[test]
fn ingest_brings_decommissioned_device_online() {
    let mut s = IoTServer::new();
    let dev = register(&mut s, "a");
    s.device_decommission(DeviceIdInput { device_id: dev.clone() }).unwrap();
    ingest(&mut s, &dev, &[("t", 1.0)]).unwrap();
    let d = &s.devices()[0];
    assert_eq!(d.status, DeviceStatus::Online);
    assert!(d.last_seen.is_some());
}

#[test]
fn ingest_writes_reported_state() {
    let mut s = IoTServer::new();
    let dev = register(&mut s, "a");
    ingest(&mut s, &dev, &[("temperature", 21.5), ("bad", f64::NAN)]).unwrap();
    ingest(&mut s, &dev, &[("temperature", 22.0)]).unwrap();
    let t = s.twin(&dev).unwrap();
    let keys: Vec<&str> = t.reported.members.iter().map(|m| m.0.as_str()).collect();
    assert_eq!(keys, vec!["bad", "temperature"]);
    assert!(matches!(t.reported.members[0].1, JsonValue::Null));
    assert!(matches!(t.reported.members[1].1, JsonValue::Float(b) if f64::from_bits(b) == 22.0));
}

#[test]
fn twin_drift_follows_value_equality() {
    let mut s = IoTServer::new();
    let dev = register(&mut s, "a");
    s.twin_update(TwinUpdateInput {
        device_id: dev.clone(),
        desired: vec![
            (text("reporting_interval"), JsonValue::PosInt(30)),
            (text("mode"), JsonValue::Str(text("low_power"))),
            (text("level"), JsonValue::Float(0.5f64.to_bits())),
        ],
    })
    .unwrap();
    let rep = s.twin_get(DeviceIdInput { device_id: dev.clone() }).ok().unwrap();
    assert_eq!(rep.drift_keys, vec![text("level"), text("mode"), text("reporting_interval")]);
    assert!(!rep.in_sync);
    // A float report never equals an integer wish, but equals an equal float.
    ingest(&mut s, &dev, &[("reporting_interval", 30.0), ("level", 0.5)]).unwrap();
    let rep = s.twin_get(DeviceIdInput { device_id: dev.clone() }).ok().unwrap();
    assert_eq!(rep.drift_keys, vec![text("mode"), text("reporting_interval")]);
    s.twin_update(TwinUpdateInput {
        device_id: dev.clone(),
        desired: vec![
            (text("reporting_interval"), JsonValue::Float(30.0f64.to_bits())),
            (text("mode"), JsonValue::Null),
        ],
    })
    .unwrap();
    let rep = s.twin_get(DeviceIdInput { device_id: dev.clone() }).ok().unwrap();
    assert_eq!(rep.drift_keys, vec![text("mode")]);
    ingest(&mut s, &dev, &[("mode", f64::INFINITY)]).unwrap();
    let rep = s.twin_get(DeviceIdInput { device_id: dev }).ok().unwrap();
    assert!(rep.drift_keys.is_empty());
    assert!(rep.in_sync);
}

#[test]
fn twin_update_later_value_wins() {
    let mut s = IoTServer::new();
    let dev = register(&mut s, "a");
    s.twin_update(TwinUpdateInput {
        device_id: dev.clone(),
        desired: vec![(text("k"), JsonValue::PosInt(1)), (text("k"), JsonValue::PosInt(2))],
    })
    .unwrap();
    let t = s.twin(&dev).unwrap();
    assert_eq!(t.desired.members.len(), 1);
    assert!(matches!(t.desired.members[0].1, JsonValue::PosInt(2)));
}

#[test]
fn zeros_of_both_signs_are_equal() {
    assert!(float_eq(0.0f64.to_bits(), (-0.0f64).to_bits()));
    assert!(!float_eq(f64::NAN.to_bits(), f64::NAN.to_bits()));
    assert!(!float_eq(1.0f64.to_bits(), 2.0f64.to_bits()));
    let samples = [0.0, -0.0, 1.0, -1.0, 2.5, -2.5, 1e-300, -1e300, f64::INFINITY, f64::NEG_INFINITY, f64::NAN];
    for a in samples {
        for b in samples {
            assert_eq!(float_lt(a.to_bits(), b.to_bits()), a < b, "{} < {}", a, b);
            assert_eq!(float_le(a.to_bits(), b.to_bits()), a <= b, "{} <= {}", a, b);
            assert_eq!(float_eq(a.to_bits(), b.to_bits()), a == b, "{} == {}", a, b);
        }
    }
    let mut s = IoTServer::new();
    let dev = register(&mut s, "a");
    s.twin_update(TwinUpdateInput { device_id: dev.clone(), desired: vec![(text("z"), JsonValue::Float((-0.0f64).to_bits()))] })
        .unwrap();
    ingest(&mut s, &dev, &[("z", 0.0)]).unwrap();
    assert!(s.twin_get(DeviceIdInput { device_id: dev }).ok().unwrap().in_sync);
}

#[test]
fn json_equality_is_structural() {
    let a = JsonValue::Array(vec![JsonValue::PosInt(1), JsonValue::Object(vec![(text("x"), JsonValue::Bool(true))])]);
    let b = JsonValue::Array(vec![JsonValue::PosInt(1), JsonValue::Object(vec![(text("x"), JsonValue::Bool(true))])]);
    let c = JsonValue::Array(vec![JsonValue::PosInt(1), JsonValue::Object(vec![(text("y"), JsonValue::Bool(true))])]);
    assert!(json_eq(&a, &b));
    assert!(!json_eq(&a, &c));
    assert!(!json_eq(&JsonValue::PosInt(1), &JsonValue::Float(1.0f64.to_bits())));
    assert!(!json_eq(&JsonValue::NegInt(-1), &JsonValue::PosInt(1)));
    assert!(matches!(float_to_json(f64::INFINITY.to_bits()), JsonValue::Null));
    assert!(matches!(float_to_json(2.5f64.to_bits()), JsonValue::Float(_)));
}

#[test]
fn keys_sort_by_code_point() {
    assert_eq!(compare_keys(&text("a"), &text("b")), KeyOrder::Before);
    assert_eq!(compare_keys(&text("ab"), &text("a")), KeyOrder::After);
    assert_eq!(compare_keys(&text("Z"), &text("a")), KeyOrder::Before);
    assert_eq!(compare_keys(&text("é"), &text("z")), KeyOrder::After);
    assert_eq!(compare_keys(&text("same"), &text("same")), KeyOrder::Same);
    let mut m = FieldMap::new();
    for k in ["m", "b", "z", "b", "a"] {
        m.set(text(k), JsonValue::Str(text(k)));
    }
    let keys: Vec<&str> = m.members.iter().map(|p| p.0.as_str()).collect();
    assert_eq!(keys, vec!["a", "b", "m", "z"]);
    assert!(m.get(&text("m")).is_some());
    assert!(m.get(&text("q")).is_none());
}

#[test]
fn telemetry_query_newest_first_with_limit() {
    let mut s = IoTServer::new();
    let dev = register(&mut s, "a");
    let other = register(&mut s, "b");
    for i in 0..25 {
        ingest(&mut s, &dev, &[("t", i as f64)]).unwrap();
        ingest(&mut s, &other, &[("t", 100.0)]).unwrap();
    }
    let rows = s.telemetry_query(TelemetryQueryInput { device_id: dev.clone(), metric: None, last_n: None });
    assert_eq!(rows.len(), 20);
    assert_eq!(f64::from_bits(rows[0].point.readings[0].value_bits), 24.0);
    assert!(rows.iter().all(|r| r.point.device_id == dev && r.value_bits.is_none()));
    let rows = s.telemetry_query(TelemetryQueryInput { device_id: dev.clone(), metric: Some(text("t")), last_n: Some(3) });
    let vals: Vec<f64> = rows.iter().map(|r| f64::from_bits(r.value_bits.unwrap())).collect();
    assert_eq!(vals, vec![24.0, 23.0, 22.0]);
    let rows = s.telemetry_query(TelemetryQueryInput { device_id: dev.clone(), metric: Some(text("nope")), last_n: Some(2) });
    assert_eq!(rows.len(), 2);
    assert!(rows.iter().all(|r| r.value_bits.is_none()));
    let details = s.device_get(DeviceIdInput { device_id: dev }).ok().unwrap();
    let recent: Vec<f64> = details.recent_telemetry.iter().map(|t| f64::from_bits(t.readings[0].value_bits)).collect();
    assert_eq!(recent, vec![24.0, 23.0, 22.0, 21.0, 20.0]);
}

#[test]
fn commands_are_logged_per_device() {
    let mut s = IoTServer::new();
    let a = register(&mut s, "a");
    let b = register(&mut s, "b");
    let c1 = s.command_send(CommandInput { device_id: a.clone(), command: text("reboot"), params: None }).unwrap();
    s.command_send(CommandInput { device_id: b.clone(), command: text("calibrate"), params: None }).unwrap();
    let c3 = s
        .command_send(CommandInput {
            device_id: a.clone(),
            command: text("configure"),
            params: Some(vec![(text("interval"), text("30"))]),
        })
        .unwrap();
    assert!(c1.starts_with("cmd_") && is_short_hex(&c1[4..]));
    let list = s.command_list(DeviceIdInput { device_id: a });
    let ids: Vec<&str> = list.iter().map(|c| c.id.as_str()).collect();
    assert_eq!(ids, vec![c1.as_str(), c3.as_str()]);
    assert_eq!(list[0].status, CommandStatus::Sent);
    assert_eq!(CommandStatus::Sent.label(), "sent");
    assert!(list[0].params.is_empty());
    assert_eq!(list[1].params, vec![(text("interval"), text("30"))]);
}

#[test]
fn alert_list_shows_newest_fifty() {
    let mut s = IoTServer::new();
    let dev = register(&mut s, "a");
    let r = rule(&mut s, "any", None, "t", "gte", 0.0);
    assert!(r.starts_with("rule_"));
    for i in 0..55 {
        ingest(&mut s, &dev, &[("t", i as f64)]).unwrap();
    }
    let l = s.alert_list();
    assert_eq!(l.total, 55);
    assert_eq!(l.alerts.len(), 50);
    assert_eq!(f64::from_bits(l.alerts[0].value_bits), 54.0);
    assert_eq!(f64::from_bits(l.alerts[49].value_bits), 5.0);
    let rules = s.alert_rule_list();
    assert_eq!(rules.len(), 1);
    assert!(rules[0].active);
    assert_eq!(rules[0].condition, "gte");
    assert_eq!(s.dashboard().active_rules, 1);
}

#[test]
fn approx_equal_rule_uses_tolerance() {
    let mut s = IoTServer::new();
    let dev = register(&mut s, "a");
    rule(&mut s, "eq", None, "v", "eq", 3.3);
    assert_eq!(ingest(&mut s, &dev, &[("v", 3.3005)]).unwrap(), vec![0]);
    assert_eq!(ingest(&mut s, &dev, &[("v", 3.31)]).unwrap(), Vec::<usize>::new());
}

#[test]
fn fleet_command_targets_every_member() {
    let mut s = IoTServer::new();
    let a = register(&mut s, "a");
    let f = s.fleet_create(FleetCreateInput { name: text("Warehouse Sensors"), device_ids: vec![a.clone(), text("dev_unregist")] });
    assert!(f.starts_with("fleet_") && is_short_hex(&f[6..]));
    let n = s
        .fleet_command(FleetCommandInput { fleet_id: f.clone(), command: text("reboot"), params: None })
        .unwrap();
    assert_eq!(n, 2);
    let cmds = s.commands();
    assert_eq!(cmds.len(), 2);
    assert_eq!(cmds[0].device_id, a);
    assert_eq!(cmds[1].device_id, "dev_unregist");
    assert!(cmds.iter().all(|c| c.command == "reboot" && c.id.starts_with("cmd_")));
    assert_eq!(
        s.fleet_command(FleetCommandInput { fleet_id: text("fleet_nope0000"), command: text("x"), params: None }),
        Err(IotError::FleetNotFound)
    );
    assert_eq!(s.fleet_list().len(), 1);
}

#[test]
fn ota_rollout_needs_registered_firmware() {
    let mut s = IoTServer::new();
    let fw = s.ota_firmware_create(OtaCreateInput {
        version: text("1.2.0"),
        target_type: None,
        url: text("https://example.invalid/fw.bin"),
        checksum: None,
    });
    assert!(fw.starts_with("fw_") && is_short_hex(&fw[3..]));
    let f = &s.firmware()[0];
    assert_eq!(f.target_type, "all");
    assert_eq!(f.checksum, "");
    assert_eq!(
        s.ota_deploy(OtaDeployInput { firmware_id: text("fw_missing0"), device_ids: vec![] }),
        Err(IotError::FirmwareNotFound)
    );
    let d = s.ota_deploy(OtaDeployInput { firmware_id: fw.clone(), device_ids: vec![text("d1"), text("d2")] }).unwrap();
    assert!(d.starts_with("dep_"));
    let deps = s.ota_list();
    assert_eq!(deps.len(), 1);
    assert_eq!(deps[0].status, DeploymentStatus::RollingOut);
    assert_eq!(DeploymentStatus::RollingOut.label(), "rolling_out");
    assert_eq!(deps[0].firmware_id, fw);
    assert_eq!(deps[0].device_ids.len(), 2);
    assert_eq!(s.dashboard().ota_deployments, 1);
}

#[test]
fn geofences_are_selected_by_device() {
    let mut s = IoTServer::new();
    let g = s.geofence_create(GeofenceCreateInput {
        name: text("Warehouse Zone"),
        lat_bits: (-1.286f64).to_bits(),
        lng_bits: 36.817f64.to_bits(),
        radius_bits: 500.0f64.to_bits(),
        device_ids: vec![text("dev_a"), text("dev_b")],
    });
    assert!(g.starts_with("geo_"));
    s.geofence_create(GeofenceCreateInput {
        name: text("Other"),
        lat_bits: 0,
        lng_bits: 0,
        radius_bits: 0,
        device_ids: vec![text("dev_c")],
    });
    let check = GeofenceCheckInput { device_id: text("dev_a"), lat_bits: 0, lng_bits: 0 };
    let fences = s.geofences_for(&check.device_id);
    assert_eq!(fences.len(), 1);
    assert_eq!(fences[0].id, g);
    assert!(s.geofences_for(&text("dev_z")).is_empty());
    assert_eq!(count_breaches(&vec![true, false, false]), 2);
    assert_eq!(count_breaches(&vec![]), 0);
}

#[test]
fn dashboard_counts_everything() {
    let mut s = IoTServer::new();
    let a = register(&mut s, "a");
    register(&mut s, "b");
    rule(&mut s, "r", None, "t", "gt", 0.0);
    ingest(&mut s, &a, &[("t", 1.0)]).unwrap();
    s.fleet_create(FleetCreateInput { name: text("f"), device_ids: vec![] });
    let d = s.dashboard();
    assert_eq!(d.total_devices, 2);
    assert_eq!(d.online, 2);
    assert_eq!(d.offline, 0);
    assert_eq!(d.telemetry_points, 1);
    assert_eq!(d.alerts_triggered, 1);
    assert_eq!(d.active_rules, 1);
    assert_eq!(d.fleets, 1);
    assert_eq!(d.ota_deployments, 0);
}

#[test]
fn fleet_command_extends_each_device_history() {
    let mut s = IoTServer::new();
    let a = register(&mut s, "a");
    let b = register(&mut s, "b");
    let c0 = s.command_send(CommandInput { device_id: a.clone(), command: text("calibrate"), params: None }).unwrap();
    let f = s.fleet_create(FleetCreateInput { name: text("f"), device_ids: vec![a.clone(), b.clone(), a.clone()] });
    assert_eq!(s.fleet_command(FleetCommandInput { fleet_id: f, command: text("reboot"), params: None }), Ok(3));
    let ha: Vec<&str> = s.command_list(DeviceIdInput { device_id: a }).iter().map(|c| c.command.as_str()).collect();
    assert_eq!(ha, vec!["calibrate", "reboot", "reboot"]);
    assert_eq!(s.command_list(DeviceIdInput { device_id: text("dev_none0000") }).len(), 0);
    let hb = s.command_list(DeviceIdInput { device_id: b });
    assert_eq!(hb.len(), 1);
    assert!(hb[0].id.starts_with("cmd_") && hb[0].id != c0);
}

#[test]
fn new_device_has_no_history_and_firmware_is_found() {
    let mut s = IoTServer::new();
    let a = register(&mut s, "a");
    ingest(&mut s, &a, &[("t", 1.0)]).unwrap();
    let b = register(&mut s, "b");
    let details = s.device_get(DeviceIdInput { device_id: b }).ok().unwrap();
    assert!(details.recent_telemetry.is_empty());
    assert_eq!(s.device_list().online, 2);
    let fw = s.ota_firmware_create(OtaCreateInput { version: text("2.0"), target_type: Some(text("edge")), url: text("u"), checksum: Some(text("abc")) });
    let rec = s.firmware_get(&fw).unwrap();
    assert_eq!((rec.version.as_str(), rec.target_type.as_str(), rec.checksum.as_str()), ("2.0", "edge", "abc"));
    assert!(s.firmware_get(&text("fw_missing0")).is_none());
}

#[test]
fn repeated_and_reordered_calls() {
    let mut s = IoTServer::new();
    let a = register(&mut s, "a");
    register(&mut s, "b");
    let f = s.fleet_create(FleetCreateInput { name: text("f"), device_ids: vec![a.clone()] });
    s.device_decommission(DeviceIdInput { device_id: a.clone() }).unwrap();
    let after_once = (s.dashboard().online, s.dashboard().decommissioned);
    assert_eq!(s.device_decommission(DeviceIdInput { device_id: a.clone() }), Ok(()));
    assert_eq!((s.dashboard().online, s.dashboard().decommissioned), after_once);
    assert_eq!(after_once, (1, 1));
    assert!(s.fleet_list().iter().any(|x| x.id == f && x.device_ids.is_empty()));
    let u1 = || vec![(text("x"), JsonValue::PosInt(1))];
    let u2 = || vec![(text("y"), JsonValue::Bool(true))];
    s.twin_update(TwinUpdateInput { device_id: a.clone(), desired: u1() }).unwrap();
    s.twin_update(TwinUpdateInput { device_id: a.clone(), desired: u2() }).unwrap();
    s.twin_update(TwinUpdateInput { device_id: a.clone(), desired: u2() }).unwrap();
    let keys: Vec<String> = s.twin(&a).unwrap().desired.members.iter().map(|m| m.0.clone()).collect();
    let mut t = IoTServer::new();
    let b = register(&mut t, "b");
    t.twin_update(TwinUpdateInput { device_id: b.clone(), desired: u2() }).unwrap();
    t.twin_update(TwinUpdateInput { device_id: b.clone(), desired: u1() }).unwrap();
    let keys2: Vec<String> = t.twin(&b).unwrap().desired.members.iter().map(|m| m.0.clone()).collect();
    assert_eq!(keys, keys2);
    assert_eq!(keys, vec![text("x"), text("y")]);
}
