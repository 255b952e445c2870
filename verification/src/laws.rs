//! Laws of the engine: what its tools promise together.
use vstd::prelude::*;

use crate::alerting::{condition_holds, firing_rules, lemma_firing_prefix, reading_of, report_readings, rule_applies, rule_fires};
use crate::floats::{float_equal, float_is_finite, float_is_nan, float_less, float_less_eq, float_magnitude};
use crate::json::{json_equal, json_of_float, JsonValue};
use crate::keyed::{
    has_key, index_of_key, key_map, lemma_index_of_key, lemma_update_same_key, lemma_upserted,
    record_of, unique_keys, upserted, Keyed,
};
use crate::inputs::TelemetryIngestInput;
use crate::model::{condition_of, AlertRule, Condition, Command, Device, DeviceStatus, Fleet, Geofence, Reading, Telemetry};
use crate::server::{
    commands_for, count_active, count_false, fence_lists, fences_for, count_status, fleets_without, ingest_effect, newest_first, newest_telemetry,
    texts_without_spec, IngestStamps, ServerState,
};

use crate::twins::{apply_desired, drift_keys, drifts};

verus! {

/// A record stored under its key is what a lookup of that key gives back,
/// and every other key keeps its record.
pub proof fn law_stored_record_is_found<T: Keyed>(s: Seq<T>, x: T, k: Seq<char>)
    requires
        unique_keys(s),
    ensures
        has_key(upserted(s, x), x.key()),
        record_of(upserted(s, x), x.key()) == x,
        k != x.key() ==> (has_key(upserted(s, x), k) == has_key(s, k)),
        k != x.key() && has_key(s, k) ==> record_of(upserted(s, x), k) == record_of(s, k),
{
    lemma_upserted(s, x);
    assert(key_map(upserted(s, x)).contains_key(x.key()));
    assert(key_map(upserted(s, x)).contains_key(k) == key_map(s).insert(x.key(), x).contains_key(k));
    if k != x.key() && has_key(s, k) {
        assert(key_map(upserted(s, x))[k] == key_map(s)[k]);
    }
}

/// Every registered device has a twin, and every twin belongs to a
/// registered device.
pub proof fn law_devices_have_twins(s: ServerState, k: Seq<char>)
    requires
        s.wf(),
    ensures
        has_key(s.devices, k) <==> has_key(s.twins, k),
{
}

proof fn lemma_status_counts(s: Seq<Device>)
    ensures
        count_status(s, DeviceStatus::Online) + count_status(s, DeviceStatus::Offline)
            + count_status(s, DeviceStatus::Decommissioned) == s.len(),
        (forall|i: int| 0 <= i < s.len() ==> (#[trigger] s[i]).status != DeviceStatus::Offline)
            ==> count_status(s, DeviceStatus::Offline) == 0,
    decreases s.len(),
{
    if s.len() > 0 {
        lemma_status_counts(s.drop_last());
        if forall|i: int| 0 <= i < s.len() ==> (#[trigger] s[i]).status != DeviceStatus::Offline {
            assert forall|i: int| 0 <= i < s.drop_last().len() implies (
            #[trigger] s.drop_last()[i]).status != DeviceStatus::Offline by {
                assert(s[i].status != DeviceStatus::Offline);
            }
            assert(s[s.len() - 1].status != DeviceStatus::Offline);
        }
    }
}

/// No device is ever offline: the dashboard counts none, and every device
/// is online or decommissioned.
pub proof fn law_no_device_offline(s: ServerState)
    requires
        s.wf(),
    ensures
        count_status(s.devices, DeviceStatus::Offline) == 0,
        count_status(s.devices, DeviceStatus::Online) + count_status(
            s.devices,
            DeviceStatus::Decommissioned,
        ) == s.devices.len(),
{
    lemma_status_counts(s.devices);
}

proof fn lemma_all_active(s: Seq<AlertRule>)
    requires
        forall|i: int| 0 <= i < s.len() ==> (#[trigger] s[i]).active,
    ensures
        count_active(s) == s.len(),
    decreases s.len(),
{
    if s.len() > 0 {
        assert forall|i: int| 0 <= i < s.drop_last().len() implies (#[trigger] s.drop_last()[i]).active by {
            assert(s[i].active);
        }
        assert(s[s.len() - 1].active);
        lemma_all_active(s.drop_last());
    }
}

/// Every alert rule is active: the dashboard's active rules are all rules.
pub proof fn law_all_rules_active(s: ServerState)
    requires
        s.wf(),
    ensures
        count_active(s.alert_rules) == s.alert_rules.len(),
{
    lemma_all_active(s.alert_rules);
}

/// An ingestion raises exactly one alert per rule that fires, and a rule
/// fires exactly when it is active, watches the device, the readings hold
/// its metric, and its condition holds of the reading.
pub proof fn law_alert_per_firing_rule(
    old: ServerState,
    new: ServerState,
    input: TelemetryIngestInput,
    near: Seq<bool>,
    stamps: IngestStamps,
    fired: Seq<usize>,
    p: int,
)
    requires
        old.wf(),
        ingest_effect(old, new, input, near, stamps, fired),
        0 <= p < old.alert_rules.len(),
        old.alert_rules.len() <= usize::MAX,
    ensures
        new.alerts.len() == old.alerts.len() + fired.len(),
        new.alerts.subrange(0, old.alerts.len() as int) == old.alerts,
        fired.contains(p as usize) <==> rule_fires(
            old.alert_rules,
            p,
            input.device_id@,
            input.readings@,
            near,
        ),
{
    lemma_firing_prefix(
        old.alert_rules,
        input.device_id@,
        input.readings@,
        near,
        old.alert_rules.len() as int,
    );
    assert(new.alerts.subrange(0, old.alerts.len() as int) =~= old.alerts);
    if fired.contains(p as usize) {
        let w = choose|w: int| 0 <= w < fired.len() && fired[w] == p as usize;
        assert(fired[w] == p as usize);
    }
}

/// Ingestion marks the device online and seen, whatever its status was,
/// and appends the point to the telemetry log.
pub proof fn law_ingest_brings_device_online(
    old: ServerState,
    new: ServerState,
    input: TelemetryIngestInput,
    near: Seq<bool>,
    stamps: IngestStamps,
    fired: Seq<usize>,
)
    requires
        old.wf(),
        has_key(old.devices, input.device_id@),
        ingest_effect(old, new, input, near, stamps, fired),
    ensures
        has_key(new.devices, input.device_id@),
        new.device(input.device_id@).status == DeviceStatus::Online,
        new.device(input.device_id@).last_seen == Some(stamps.seen_at),
        new.telemetry.len() == old.telemetry.len() + 1,
        new.telemetry.last().device_id == input.device_id,
{
    let i = crate::keyed::index_of_key(old.devices, input.device_id@);
    crate::keyed::lemma_update_same_key(old.devices, i, new.devices[i]);
    crate::keyed::lemma_index_of_key(new.devices, i);
}

/// After readings are written into a reported state, each metric holds the
/// value of its last reading (a float, or `null` when not finite), and
/// every other key keeps its value.
pub proof fn law_reported_read_back(
    m: Map<Seq<char>, JsonValue>,
    rs: Seq<Reading>,
    i: int,
)
    requires
        0 <= i < rs.len(),
        forall|j: int| i < j < rs.len() ==> (#[trigger] rs[j]).metric@ != rs[i].metric@,
    ensures
        report_readings(m, rs).contains_key(rs[i].metric@),
        report_readings(m, rs)[rs[i].metric@] == json_of_float(rs[i].value_bits),
    decreases rs.len(),
{
    if i < rs.len() - 1 {
        assert forall|j: int| i < j < rs.drop_last().len() implies (#[trigger] rs.drop_last()[j]).metric@
            != rs.drop_last()[i].metric@ by {
            assert(rs[j].metric@ != rs[i].metric@);
        }
        law_reported_read_back(m, rs.drop_last(), i);
        assert(rs.last().metric@ != rs[i].metric@);
    }
}

/// Metrics that no reading names keep their reported values.
pub proof fn law_reported_untouched(m: Map<Seq<char>, JsonValue>, rs: Seq<Reading>, k: Seq<char>)
    ensures
        (forall|j: int| 0 <= j < rs.len() ==> (#[trigger] rs[j]).metric@ != k) ==> (
        report_readings(m, rs).contains_key(k) == m.contains_key(k) && report_readings(m, rs)[k]
            == m[k]),
    decreases rs.len(),
{
    if rs.len() > 0 {
        law_reported_untouched(m, rs.drop_last(), k);
        if forall|j: int| 0 <= j < rs.len() ==> (#[trigger] rs[j]).metric@ != k {
            assert forall|j: int| 0 <= j < rs.drop_last().len() implies (#[trigger] rs.drop_last()[j]).metric@
                != k by {
                assert(rs[j].metric@ != k);
            }
            assert(rs[rs.len() - 1].metric@ != k);
        }
    }
}

/// After desired values are written into a twin, each key holds the value
/// it was last given, and every key not written keeps its value.
pub proof fn law_desired_read_back(
    m: Map<Seq<char>, JsonValue>,
    u: Seq<(String, JsonValue)>,
    i: int,
)
    requires
        0 <= i < u.len(),
        forall|j: int| i < j < u.len() ==> (#[trigger] u[j]).0@ != u[i].0@,
    ensures
        apply_desired(m, u).contains_key(u[i].0@),
        apply_desired(m, u)[u[i].0@] == u[i].1,
    decreases u.len(),
{
    if i < u.len() - 1 {
        assert forall|j: int| i < j < u.drop_last().len() implies (#[trigger] u.drop_last()[j]).0@
            != u.drop_last()[i].0@ by {
            assert(u[j].0@ != u[i].0@);
        }
        law_desired_read_back(m, u.drop_last(), i);
        assert(u.last().0@ != u[i].0@);
    }
}

/// Keys that no update names keep their desired values.
pub proof fn law_desired_untouched(m: Map<Seq<char>, JsonValue>, u: Seq<(String, JsonValue)>, k: Seq<char>)
    requires
        forall|j: int| 0 <= j < u.len() ==> (#[trigger] u[j]).0@ != k,
    ensures
        apply_desired(m, u).contains_key(k) == m.contains_key(k),
        apply_desired(m, u)[k] == m[k],
    decreases u.len(),
{
    if u.len() > 0 {
        assert forall|j: int| 0 <= j < u.drop_last().len() implies (#[trigger] u.drop_last()[j]).0@
            != k by {
            assert(u[j].0@ != k);
        }
        assert(u[u.len() - 1].0@ != k);
        law_desired_untouched(m, u.drop_last(), k);
    }
}

/// Drift detection reports exactly the desired keys whose reported value is
/// missing or not equal to the desired value, so a twin is in sync exactly
/// when every desired key is reported with an equal value.
pub proof fn law_drift_exact(desired: Seq<(String, JsonValue)>, reported: Map<Seq<char>, JsonValue>, k: Seq<char>)
    ensures
        drift_keys(desired, reported).contains(k) <==> exists|i: int|
            0 <= i < desired.len() && (#[trigger] desired[i]).0@ == k && drifts(
                reported,
                k,
                desired[i].1,
            ),
        drift_keys(desired, reported).len() == 0 <==> forall|i: int|
            0 <= i < desired.len() ==> !drifts(reported, (#[trigger] desired[i]).0@, desired[i].1),
    decreases desired.len(),
{
    if desired.len() > 0 {
        let d = desired.drop_last();
        law_drift_exact(d, reported, k);
        let rest = drift_keys(d, reported);
        let last = desired.last();
        if drift_keys(desired, reported).contains(k) {
            if !rest.contains(k) {
                assert(drift_keys(desired, reported) == rest.push(last.0@));
                let w = choose|w: int| 0 <= w < rest.push(last.0@).len() && rest.push(last.0@)[w] == k;
                if w < rest.len() {
                    assert(rest.contains(k));
                }
                assert(desired[desired.len() - 1] == last);
            } else {
                let i = choose|i: int| 0 <= i < d.len() && (#[trigger] d[i]).0@ == k && drifts(reported, k, d[i].1);
                assert(desired[i] == d[i]);
            }
        }
        if exists|i: int| 0 <= i < desired.len() && (#[trigger] desired[i]).0@ == k && drifts(reported, k, desired[i].1) {
            let i = choose|i: int| 0 <= i < desired.len() && (#[trigger] desired[i]).0@ == k && drifts(reported, k, desired[i].1);
            if i < d.len() {
                assert(d[i] == desired[i]);
                assert(rest.contains(k));
                let w = choose|w: int| 0 <= w < rest.len() && rest[w] == k;
                if drifts(reported, last.0@, last.1) {
                    assert(rest.push(last.0@)[w] == k);
                }
            } else {
                assert(drift_keys(desired, reported) == rest.push(last.0@));
                assert(rest.push(last.0@)[rest.len() as int] == k);
            }
        }
        if forall|i: int| 0 <= i < desired.len() ==> !drifts(reported, (#[trigger] desired[i]).0@, desired[i].1) {
            assert forall|i: int| 0 <= i < d.len() implies !drifts(reported, (#[trigger] d[i]).0@, d[i].1) by {
                assert(desired[i] == d[i]);
            }
            assert(desired[desired.len() - 1] == last);
        }
        if drift_keys(desired, reported).len() == 0 {
            assert forall|i: int| 0 <= i < desired.len() implies !drifts(reported, (#[trigger] desired[i]).0@, desired[i].1) by {
                if i < d.len() {
                    assert(d[i] == desired[i]);
                }
            }
        }
    }
}

/// A device that reports exactly the finite value wanted for a metric no
/// longer drifts on it: after the readings are written, a desired float
/// equal to the last reading of its key is in sync.
pub proof fn law_matching_report_clears_drift(
    m: Map<Seq<char>, JsonValue>,
    rs: Seq<Reading>,
    i: int,
)
    requires
        0 <= i < rs.len(),
        forall|j: int| i < j < rs.len() ==> (#[trigger] rs[j]).metric@ != rs[i].metric@,
        float_is_finite(rs[i].value_bits),
    ensures
        !drifts(report_readings(m, rs), rs[i].metric@, JsonValue::Float(rs[i].value_bits)),
{
    law_reported_read_back(m, rs, i);
    assert(json_equal(JsonValue::Float(rs[i].value_bits), JsonValue::Float(rs[i].value_bits)));
}

proof fn lemma_texts_without(s: Seq<String>, id: Seq<char>)
    ensures
        forall|j: int|
            0 <= j < texts_without_spec(s, id).len() ==> (#[trigger] texts_without_spec(s, id)[j])@
                != id,
    decreases s.len(),
{
    if s.len() > 0 {
        lemma_texts_without(s.drop_last(), id);
        let rest = texts_without_spec(s.drop_last(), id);
        if s.last()@ != id {
            assert forall|j: int| 0 <= j < rest.push(s.last()).len() implies (#[trigger] rest.push(
                s.last(),
            )[j])@ != id by {
                if j < rest.len() {
                    assert(rest.push(s.last())[j] == rest[j]);
                }
            }
        }
    }
}

/// After a device is decommissioned, no fleet lists it any more.
pub proof fn law_decommissioned_device_leaves_fleets(
    old: Seq<Fleet>,
    new: Seq<Fleet>,
    id: Seq<char>,
    f: int,
    j: int,
)
    requires
        fleets_without(old, new, id),
        0 <= f < new.len(),
        0 <= j < new[f].device_ids@.len(),
    ensures
        new[f].device_ids@[j]@ != id,
{
    lemma_texts_without(old[f].device_ids@, id);
    assert(crate::server::fleet_without(old[f], new[f], id));
}

/// A telemetry query answers at most the limit, only points of the asked
/// device, each taken from the log.
pub proof fn law_query_bounded(s: Seq<Telemetry>, id: Seq<char>, n: nat)
    ensures
        newest_telemetry(s, id, n).len() <= n,
        newest_telemetry(s, id, n).len() <= s.len(),
        forall|k: int|
            0 <= k < newest_telemetry(s, id, n).len() ==> (#[trigger] newest_telemetry(s, id, n)[k]).device_id@
                == id && s.contains(newest_telemetry(s, id, n)[k]),
    decreases s.len(),
{
    if s.len() > 0 && n > 0 {
        let rest = s.drop_last();
        if s.last().device_id@ == id {
            law_query_bounded(rest, id, (n - 1) as nat);
        } else {
            law_query_bounded(rest, id, n);
        }
        let r = newest_telemetry(s, id, n);
        assert forall|k: int| 0 <= k < r.len() implies (#[trigger] r[k]).device_id@ == id && s.contains(r[k]) by {
            if s.last().device_id@ == id {
                if k == 0 {
                    assert(s[s.len() - 1] == r[0]);
                } else {
                    let q = newest_telemetry(rest, id, (n - 1) as nat);
                    assert(r[k] == q[k - 1]);
                    let w = choose|w: int| 0 <= w < rest.len() && rest[w] == q[k - 1];
                    assert(s[w] == rest[w]);
                }
            } else {
                let q = newest_telemetry(rest, id, n);
                let w = choose|w: int| 0 <= w < rest.len() && rest[w] == q[k];
                assert(s[w] == rest[w]);
            }
        }
    }
}

/// The alert list shows the newest alerts, newest first: the `k`-th shown
/// is the `k`-th from the end of the log, and it shows fifty or all.
pub proof fn law_newest_first<T>(s: Seq<T>, n: nat, k: int)
    ensures
        newest_first(s, n).len() == if s.len() < n {
            s.len()
        } else {
            n
        },
        0 <= k < newest_first(s, n).len() ==> newest_first(s, n)[k] == s[s.len() - 1 - k],
    decreases s.len(),
{
    if s.len() > 0 && n > 0 {
        law_newest_first(s.drop_last(), (n - 1) as nat, k - 1);
    }
}

/// After readings are written into a reported state, its keys are the old
/// keys and the readings' metrics, no others.
pub proof fn law_reported_keys(m: Map<Seq<char>, JsonValue>, rs: Seq<Reading>, k: Seq<char>)
    ensures
        report_readings(m, rs).contains_key(k) <==> (m.contains_key(k) || exists|j: int|
            0 <= j < rs.len() && (#[trigger] rs[j]).metric@ == k),
    decreases rs.len(),
{
    if rs.len() > 0 {
        let d = rs.drop_last();
        law_reported_keys(m, d, k);
        if exists|j: int| 0 <= j < rs.len() && (#[trigger] rs[j]).metric@ == k {
            let j = choose|j: int| 0 <= j < rs.len() && (#[trigger] rs[j]).metric@ == k;
            if j < d.len() {
                assert(d[j] == rs[j]);
            }
        }
        if exists|j: int| 0 <= j < d.len() && (#[trigger] d[j]).metric@ == k {
            let j = choose|j: int| 0 <= j < d.len() && (#[trigger] d[j]).metric@ == k;
            assert(rs[j] == d[j]);
        }
    }
}

/// Ingestion writes the readings into the device's reported state and
/// leaves its desired state as it was.
pub proof fn law_ingest_updates_twin(
    old: ServerState,
    new: ServerState,
    input: TelemetryIngestInput,
    near: Seq<bool>,
    stamps: IngestStamps,
    fired: Seq<usize>,
)
    requires
        old.wf(),
        has_key(old.devices, input.device_id@),
        ingest_effect(old, new, input, near, stamps, fired),
    ensures
        has_key(new.twins, input.device_id@),
        new.twin(input.device_id@).desired == old.twin(input.device_id@).desired,
        new.twin(input.device_id@).reported@ == report_readings(
            old.twin(input.device_id@).reported@,
            input.readings@,
        ),
{
    let d = input.device_id@;
    let ti = index_of_key(old.twins, d);
    lemma_index_of_key(old.twins, ti);
    lemma_update_same_key(old.twins, ti, new.twins[ti]);
    lemma_index_of_key(new.twins, ti);
}

/// After an ingestion, the device's newest point is the one just ingested,
/// followed by the points it had before.
pub proof fn law_query_after_ingest(
    old: ServerState,
    new: ServerState,
    input: TelemetryIngestInput,
    near: Seq<bool>,
    stamps: IngestStamps,
    fired: Seq<usize>,
    n: nat,
)
    requires
        ingest_effect(old, new, input, near, stamps, fired),
        n > 0,
    ensures
        newest_telemetry(new.telemetry, input.device_id@, n) == seq![new.telemetry.last()]
            + newest_telemetry(old.telemetry, input.device_id@, (n - 1) as nat),
        new.telemetry.last().readings == input.readings,
{
    assert(new.telemetry.drop_last() =~= old.telemetry);
}

/// A device that is not registered has no telemetry.
pub proof fn law_unregistered_device_has_no_telemetry(s: ServerState, id: Seq<char>, n: nat)
    requires
        s.wf(),
        !has_key(s.devices, id),
    ensures
        newest_telemetry(s.telemetry, id, n).len() == 0,
{
    lemma_no_points(s.telemetry, id, n, s.devices);
}

proof fn lemma_no_points(t: Seq<Telemetry>, id: Seq<char>, n: nat, devices: Seq<Device>)
    requires
        forall|i: int| 0 <= i < t.len() ==> has_key(devices, (#[trigger] t[i]).device_id@),
        !has_key(devices, id),
    ensures
        newest_telemetry(t, id, n).len() == 0,
    decreases t.len(),
{
    if t.len() > 0 {
        assert(has_key(devices, t[t.len() - 1].device_id@));
        assert forall|i: int| 0 <= i < t.drop_last().len() implies has_key(
            devices,
            (#[trigger] t.drop_last()[i]).device_id@,
        ) by {
            assert(has_key(devices, t[i].device_id@));
        }
        lemma_no_points(t.drop_last(), id, n, devices);
    }
}

/// Registering a device under a new id adds one device, online.
pub proof fn law_register_new_id(s: Seq<Device>, d: Device)
    requires
        unique_keys(s),
        !has_key(s, d.key()),
        d.status == DeviceStatus::Online,
    ensures
        upserted(s, d).len() == s.len() + 1,
        count_status(upserted(s, d), DeviceStatus::Online) == count_status(s, DeviceStatus::Online)
            + 1,
{
    assert(upserted(s, d).drop_last() =~= s);
}

/// The commands listed for a device after new commands are logged are the
/// ones listed before, followed by the new ones sent to it, in order.
pub proof fn law_command_list_grows(a: Seq<Command>, b: Seq<Command>, x: Seq<char>)
    ensures
        commands_for(a + b, x) == commands_for(a, x) + commands_for(b, x),
        forall|k: int|
            0 <= k < commands_for(b, x).len() ==> (#[trigger] commands_for(b, x)[k]).device_id@ == x
                && b.contains(commands_for(b, x)[k]),
    decreases b.len(),
{
    if b.len() == 0 {
        assert(a + b =~= a);
        assert(commands_for(a, x) + commands_for(b, x) =~= commands_for(a, x));
    } else {
        let b0 = b.drop_last();
        law_command_list_grows(a, b0, x);
        assert((a + b).drop_last() =~= a + b0);
        assert((a + b).last() == b.last());
        let r = commands_for(b, x);
        let r0 = commands_for(b0, x);
        if b.last().device_id@ == x {
            assert(commands_for(a, x) + r =~= (commands_for(a, x) + r0).push(b.last()));
        }
        assert forall|k: int| 0 <= k < r.len() implies (#[trigger] r[k]).device_id@ == x && b.contains(
            r[k],
        ) by {
            if k < r0.len() {
                assert(r[k] == r0[k]);
                let w = choose|w: int| 0 <= w < b0.len() && b0[w] == r0[k];
                assert(b[w] == b0[w]);
            } else {
                assert(r[k] == b[b.len() - 1]);
            }
        }
    }
}

proof fn lemma_reading_of_first(rs: Seq<Reading>, m: Seq<char>, j: int)
    requires
        0 <= j < rs.len(),
        rs[j].metric@ == m,
        forall|k: int| 0 <= k < j ==> (#[trigger] rs[k]).metric@ != m,
    ensures
        reading_of(rs, m) == Some(rs[j].value_bits),
    decreases j,
{
    if j > 0 {
        assert(rs[0].metric@ != m);
        assert forall|k: int| 0 <= k < j - 1 implies (#[trigger] rs.drop_first()[k]).metric@ != m by {
            assert(rs[k + 1].metric@ != m);
        }
        lemma_reading_of_first(rs.drop_first(), m, j - 1);
    }
}

proof fn lemma_reading_of_absent(rs: Seq<Reading>, m: Seq<char>)
    requires
        forall|k: int| 0 <= k < rs.len() ==> (#[trigger] rs[k]).metric@ != m,
    ensures
        reading_of(rs, m) is None,
    decreases rs.len(),
{
    if rs.len() > 0 {
        assert(rs[0].metric@ != m);
        assert forall|k: int| 0 <= k < rs.len() - 1 implies (#[trigger] rs.drop_first()[k]).metric@ != m by {
            assert(rs[k + 1].metric@ != m);
        }
        lemma_reading_of_absent(rs.drop_first(), m);
    }
}

proof fn lemma_condition_names()
    ensures
        condition_of("gt"@) == Condition::Greater,
        condition_of(">"@) == Condition::Greater,
        condition_of("lt"@) == Condition::Less,
        condition_of("<"@) == Condition::Less,
        condition_of("gte"@) == Condition::GreaterOrEqual,
        condition_of(">="@) == Condition::GreaterOrEqual,
        condition_of("lte"@) == Condition::LessOrEqual,
        condition_of("<="@) == Condition::LessOrEqual,
        condition_of("eq"@) == Condition::ApproxEqual,
        condition_of("=="@) == Condition::ApproxEqual,
{
    reveal_strlit("gt");
    reveal_strlit(">");
    reveal_strlit("lt");
    reveal_strlit("<");
    reveal_strlit("gte");
    reveal_strlit(">=");
    reveal_strlit("lte");
    reveal_strlit("<=");
    reveal_strlit("eq");
    reveal_strlit("==");
    assert("gt"@[0] == 'g' && "gt"@[1] == 't');
    assert(">"@[0] == '>');
    assert("lt"@[0] == 'l' && "lt"@[1] == 't');
    assert("<"@[0] == '<');
    assert("gte"@[0] == 'g');
    assert(">="@[0] == '>' && ">="@[1] == '=');
    assert("lte"@[0] == 'l');
    assert("<="@[0] == '<' && "<="@[1] == '=');
    assert("eq"@[0] == 'e');
    assert("=="@[0] == '=');
    assert("gte"@.len() != "gt"@.len() && "gte"@ != "gt"@ && "gte"@ != ">"@);
    assert(">="@.len() != ">"@.len() && ">="@ != ">"@ && ">="@ != "gt"@);
    assert("lte"@.len() != "lt"@.len() && "lte"@ != "lt"@ && "lte"@ != "<"@);
    assert("<="@.len() != "<"@.len() && "<="@ != "<"@ && "<="@ != "lt"@);
}

/// An active rule that watches every device or exactly the ingesting
/// device, whose metric is among the readings (`rs[j]` the first reading of
/// it), fires exactly when its condition holds of that reading: `gt`/`>`
/// when the value is above the threshold, `lt`/`<` below, `gte`/`>=` at
/// least, `lte`/`<=` at most (IEEE comparisons), `eq`/`==` when the caller
/// found the value within 0.001 of the threshold; no other condition fires.
pub proof fn law_watching_rule_fires_on_its_condition(
    rules: Seq<AlertRule>,
    dev: Seq<char>,
    rs: Seq<Reading>,
    near: Seq<bool>,
    i: int,
    j: int,
)
    requires
        rules.len() <= usize::MAX,
        0 <= i < rules.len(),
        rules[i].active,
        rules[i].device_id is None || rules[i].device_id.unwrap()@ == dev,
        0 <= j < rs.len(),
        rs[j].metric@ == rules[i].metric@,
        forall|k: int| 0 <= k < j ==> (#[trigger] rs[k]).metric@ != rules[i].metric@,
    ensures
        firing_rules(rules, dev, rs, near).contains(i as usize) <==> ({
            let c = rules[i].condition@;
            let v = rs[j].value_bits;
            let t = rules[i].threshold_bits;
            ||| (c == "gt"@ || c == ">"@) && float_less(t, v)
            ||| (c == "lt"@ || c == "<"@) && float_less(v, t)
            ||| (c == "gte"@ || c == ">="@) && float_less_eq(t, v)
            ||| (c == "lte"@ || c == "<="@) && float_less_eq(v, t)
            ||| (c == "eq"@ || c == "=="@) && i < near.len() && near[i]
        }),
{
    lemma_condition_names();
    lemma_reading_of_first(rs, rules[i].metric@, j);
    lemma_firing_prefix(rules, dev, rs, near, rules.len() as int);
    let c = rules[i].condition@;
    let v = rs[j].value_bits;
    let t = rules[i].threshold_bits;
    assert(rule_applies(rules[i], dev, rs));
    assert(reading_of(rs, rules[i].metric@).unwrap() == v);
    assert(rule_fires(rules, i, dev, rs, near) == condition_holds(
        condition_of(c),
        v,
        t,
        i < near.len() && near[i],
    ));
    if firing_rules(rules, dev, rs, near).contains(i as usize) {
        let w = choose|w: int|
            0 <= w < firing_rules(rules, dev, rs, near).len() && firing_rules(rules, dev, rs, near)[w]
                == i as usize;
        assert(firing_rules(rules, dev, rs, near)[w] == i as usize);
    }
}

/// A rule that is inactive, watches another device, or whose metric is not
/// among the readings never fires.
pub proof fn law_rule_silent_unless_it_watches(
    rules: Seq<AlertRule>,
    dev: Seq<char>,
    rs: Seq<Reading>,
    near: Seq<bool>,
    i: int,
)
    requires
        rules.len() <= usize::MAX,
        0 <= i < rules.len(),
        !rules[i].active || (rules[i].device_id is Some && rules[i].device_id.unwrap()@ != dev)
            || forall|k: int| 0 <= k < rs.len() ==> (#[trigger] rs[k]).metric@ != rules[i].metric@,
    ensures
        !firing_rules(rules, dev, rs, near).contains(i as usize),
{
    if forall|k: int| 0 <= k < rs.len() ==> (#[trigger] rs[k]).metric@ != rules[i].metric@ {
        lemma_reading_of_absent(rs, rules[i].metric@);
    }
    lemma_firing_prefix(rules, dev, rs, near, rules.len() as int);
    if firing_rules(rules, dev, rs, near).contains(i as usize) {
        let w = choose|w: int|
            0 <= w < firing_rules(rules, dev, rs, near).len() && firing_rules(rules, dev, rs, near)[w]
                == i as usize;
        assert(firing_rules(rules, dev, rs, near)[w] == i as usize);
    }
}

/// Two JSON floats are equal exactly when neither is NaN and they are the
/// same number: the same bit pattern, or both zeros (either sign).
pub proof fn law_json_floats_equal_when_same_number(x: u64, y: u64)
    ensures
        json_equal(JsonValue::Float(x), JsonValue::Float(y)) <==> ({
            &&& x as int % 0x8000_0000_0000_0000 <= 0x7FF0_0000_0000_0000
            &&& y as int % 0x8000_0000_0000_0000 <= 0x7FF0_0000_0000_0000
            &&& (x == y || (x as int % 0x8000_0000_0000_0000 == 0 && y as int
                % 0x8000_0000_0000_0000 == 0))
        }),
{
}

/// A desired float whose reported value is a different number is a drift
/// key: the twin is not in sync.
pub proof fn law_different_float_drifts(
    desired: Seq<(String, JsonValue)>,
    reported: Map<Seq<char>, JsonValue>,
    i: int,
    x: u64,
    y: u64,
)
    requires
        0 <= i < desired.len(),
        desired[i].1 == JsonValue::Float(y),
        reported.contains_key(desired[i].0@),
        reported[desired[i].0@] == JsonValue::Float(x),
        x != y,
        !(x as int % 0x8000_0000_0000_0000 == 0 && y as int % 0x8000_0000_0000_0000 == 0),
    ensures
        drift_keys(desired, reported).contains(desired[i].0@),
        drift_keys(desired, reported).len() > 0,
{
    let k = desired[i].0@;
    law_drift_exact(desired, reported, k);
    assert(!json_equal(JsonValue::Float(x), JsonValue::Float(y)));
    assert(drifts(reported, k, desired[i].1));
    assert(drift_keys(desired, reported).contains(k));
    let w = choose|w: int| 0 <= w < drift_keys(desired, reported).len() && drift_keys(desired, reported)[w] == k;
    assert(drift_keys(desired, reported)[w] == k);
}

/// The geofences checked for a device are exactly the geofences, in order,
/// that list the device at some position of their device ids.
pub proof fn law_geofences_for_lists_device(s: Seq<Geofence>, id: Seq<char>)
    ensures
        fences_for(s, id) == s.filter(
            |g: Geofence| exists|k: int| 0 <= k < g.device_ids@.len() && g.device_ids@[k]@ == id,
        ),
    decreases s.len(),
{
    reveal(Seq::filter);
    let pred = |g: Geofence| exists|k: int| 0 <= k < g.device_ids@.len() && g.device_ids@[k]@ == id;
    if s.len() > 0 {
        law_geofences_for_lists_device(s.drop_last(), id);
        assert(fence_lists(s.last(), id) == pred(s.last()));
    }
}

/// A geofence listing the device at any position is among the geofences
/// checked for it.
pub proof fn law_listed_geofence_is_checked(s: Seq<Geofence>, id: Seq<char>, p: int, k: int)
    requires
        0 <= p < s.len(),
        0 <= k < s[p].device_ids@.len(),
        s[p].device_ids@[k]@ == id,
    ensures
        fences_for(s, id).contains(s[p]),
{
    let pred = |g: Geofence| exists|k: int| 0 <= k < g.device_ids@.len() && g.device_ids@[k]@ == id;
    law_geofences_for_lists_device(s, id);
    assert(pred(s[p]));
    s.lemma_filter_contains_rev(pred, s[p]);
    assert(s.contains(s[p]));
}

/// A device's command list is exactly the logged commands sent to it, in
/// order, whatever their parameters.
pub proof fn law_command_list_is_device_commands(s: Seq<Command>, x: Seq<char>)
    ensures
        commands_for(s, x) == s.filter(|c: Command| c.device_id@ == x),
    decreases s.len(),
{
    reveal(Seq::filter);
    if s.len() > 0 {
        law_command_list_is_device_commands(s.drop_last(), x);
    }
}

/// Every logged command sent to a device is in that device's command list.
pub proof fn law_sent_command_is_listed(s: Seq<Command>, x: Seq<char>, p: int)
    requires
        0 <= p < s.len(),
        s[p].device_id@ == x,
    ensures
        commands_for(s, x).contains(s[p]),
{
    law_command_list_is_device_commands(s, x);
    let pred = |c: Command| c.device_id@ == x;
    assert(pred(s[p]));
    s.lemma_filter_contains_rev(pred, s[p]);
    assert(s.contains(s[p]));
}

/// The breach count is the number of geofences the device is outside of:
/// the false flags, counted over any split of the flags; all outside gives
/// every geofence, all inside gives none.
pub proof fn law_breach_count(a: Seq<bool>, b: Seq<bool>)
    ensures
        count_false(a) == a.filter(|f: bool| !f).len(),
        count_false(a + b) == count_false(a) + count_false(b),
        (forall|i: int| 0 <= i < a.len() ==> !(#[trigger] a[i])) ==> count_false(a) == a.len(),
        (forall|i: int| 0 <= i < a.len() ==> #[trigger] a[i]) ==> count_false(a) == 0,
    decreases a.len() + b.len(),
{
    reveal(Seq::filter);
    if b.len() > 0 {
        law_breach_count(a, b.drop_last());
        assert((a + b).drop_last() =~= a + b.drop_last());
        assert((a + b).last() == b.last());
    } else {
        assert(a + b =~= a);
        if a.len() > 0 {
            law_breach_count(a.drop_last(), Seq::empty());
            if forall|i: int| 0 <= i < a.len() ==> !(#[trigger] a[i]) {
                assert forall|i: int| 0 <= i < a.drop_last().len() implies !(#[trigger] a.drop_last()[i]) by {
                    assert(!a[i]);
                }
                assert(!a[a.len() - 1]);
            }
            if forall|i: int| 0 <= i < a.len() ==> #[trigger] a[i] {
                assert forall|i: int| 0 <= i < a.drop_last().len() implies #[trigger] a.drop_last()[i] by {
                    assert(a[i]);
                }
                assert(a[a.len() - 1]);
            }
        }
    }
}

/// JSON scalars are equal only to scalars of the same kind: `null` to
/// `null`, booleans, integers of the same form and strings when their
/// contents are the same, floats only to floats; values of different kinds
/// are never equal.
pub proof fn law_json_scalars_equal(a: JsonValue, b: JsonValue)
    ensures
        a is Null ==> (json_equal(a, b) <==> b is Null),
        a matches JsonValue::Bool(x) ==> (json_equal(a, b) <==> b == JsonValue::Bool(x)),
        a matches JsonValue::PosInt(x) ==> (json_equal(a, b) <==> b == JsonValue::PosInt(x)),
        a matches JsonValue::NegInt(x) ==> (json_equal(a, b) <==> b == JsonValue::NegInt(x)),
        a matches JsonValue::Str(x) ==> (json_equal(a, b) <==> (b matches JsonValue::Str(y)
            && y@ == x@)),
        a is Float && json_equal(a, b) ==> b is Float,
        a is Array && json_equal(a, b) ==> b is Array,
        a is Object && json_equal(a, b) ==> b is Object,
{
}

/// The IEEE ordering of binary64 patterns: NaN is unordered; two numbers
/// with the sign bit clear are ordered as their patterns, two with it set in
/// reverse, a negative number lies below a positive one (the zeros aside);
/// `<` is irreflexive and asymmetric, and `<=` is `<` or IEEE equality.
pub proof fn law_float_order(x: u64, y: u64)
    ensures
        float_magnitude(x) > 0x7FF0_0000_0000_0000 ==> !float_less(x, y) && !float_less(y, x)
            && !float_less_eq(x, y) && !float_less_eq(y, x),
        !float_is_nan(x) && !float_is_nan(y) && x < 0x8000_0000_0000_0000 && y
            < 0x8000_0000_0000_0000 ==> (float_less(x, y) <==> x < y),
        !float_is_nan(x) && !float_is_nan(y) && x >= 0x8000_0000_0000_0000 && y
            >= 0x8000_0000_0000_0000 ==> (float_less(x, y) <==> y < x),
        !float_is_nan(x) && !float_is_nan(y) && x >= 0x8000_0000_0000_0000 && y
            < 0x8000_0000_0000_0000 && !(float_magnitude(x) == 0 && y == 0) ==> float_less(x, y),
        !float_less(x, x),
        float_less(x, y) ==> !float_less(y, x),
        float_less_eq(x, y) <==> (float_less(x, y) || float_equal(x, y)),
{
}

/// The device count for a status is the number of devices with that status.
pub proof fn law_status_count(s: Seq<Device>, st: DeviceStatus)
    ensures
        count_status(s, st) == s.filter(|d: Device| d.status == st).len(),
    decreases s.len(),
{
    reveal(Seq::filter);
    if s.len() > 0 {
        law_status_count(s.drop_last(), st);
    }
}

/// The active rule count is the number of rules marked active.
pub proof fn law_active_rule_count(s: Seq<AlertRule>)
    ensures
        count_active(s) == s.filter(|r: AlertRule| r.active).len(),
    decreases s.len(),
{
    reveal(Seq::filter);
    if s.len() > 0 {
        law_active_rule_count(s.drop_last());
    }
}

/// Taking a device out of a fleet's list keeps every other id, in order,
/// and drops every occurrence of it.
pub proof fn law_fleet_removal_keeps_others(s: Seq<String>, id: Seq<char>)
    ensures
        texts_without_spec(s, id) == s.filter(|t: String| t@ != id),
    decreases s.len(),
{
    reveal(Seq::filter);
    if s.len() > 0 {
        law_fleet_removal_keeps_others(s.drop_last(), id);
    }
}

} // verus!
