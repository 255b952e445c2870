//! Laws over sequences of tool calls: the logs only grow, so what a listing
//! shows is what the calls before it appended, and some calls can be
//! repeated or reordered without changing the state.
use vstd::prelude::*;

use crate::json::JsonValue;
use crate::keyed::{has_key, lemma_upserted_shape, unique_keys, upserted, Keyed};
use crate::model::{Device, DeviceStatus, Fleet, Telemetry};
use crate::server::{count_status, fleet_without, newest_first, newest_telemetry, texts_without_spec};
use crate::twins::apply_desired;

verus! {

/// Everything the steps appended, in order.
pub open spec fn appended<T>(added: Seq<Seq<T>>) -> Seq<T>
    decreases added.len(),
{
    if added.len() == 0 {
        Seq::empty()
    } else {
        appended(added.drop_last()) + added.last()
    }
}

/// A log as it stood before each step and after the last one, where step
/// `i` appended `added[i]` (nothing, for the steps that keep the log).
pub open spec fn log_grows<T>(logs: Seq<Seq<T>>, added: Seq<Seq<T>>) -> bool {
    &&& logs.len() == added.len() + 1
    &&& forall|i: int| 0 <= i < added.len() ==> #[trigger] logs[i + 1] == logs[i] + added[i]
}

/// After any sequence of steps, a log is what it was at first followed by
/// everything the steps appended, in order; its length grows by as much.
pub proof fn law_log_history<T>(logs: Seq<Seq<T>>, added: Seq<Seq<T>>)
    requires
        log_grows(logs, added),
    ensures
        logs.last() == logs[0] + appended(added),
        logs.last().len() == logs[0].len() + appended(added).len(),
    decreases added.len(),
{
    if added.len() > 0 {
        let l0 = logs.drop_last();
        let a0 = added.drop_last();
        assert forall|i: int| 0 <= i < a0.len() implies #[trigger] l0[i + 1] == l0[i] + a0[i] by {
            assert(logs[i + 1] == logs[i] + added[i]);
        }
        law_log_history(l0, a0);
        assert(logs[added.len() as int] == logs[added.len() - 1] + added.last());
        assert(logs[0] + appended(added) =~= (logs[0] + appended(a0)) + added.last());
    } else {
        assert(logs[0] + appended(added) =~= logs[0]);
    }
}

/// The points of device `d`, oldest first.
pub open spec fn points_of(s: Seq<Telemetry>, d: Seq<char>) -> Seq<Telemetry>
    decreases s.len(),
{
    if s.len() == 0 {
        Seq::empty()
    } else if s.last().device_id@ == d {
        points_of(s.drop_last(), d).push(s.last())
    } else {
        points_of(s.drop_last(), d)
    }
}

/// A device's points are exactly the logged points of that device, oldest
/// first.
pub proof fn law_points_are_device_points(s: Seq<Telemetry>, d: Seq<char>)
    ensures
        points_of(s, d) == s.filter(|t: Telemetry| t.device_id@ == d),
    decreases s.len(),
{
    reveal(Seq::filter);
    if s.len() > 0 {
        law_points_are_device_points(s.drop_last(), d);
    }
}

/// The points of a device in a log followed by more points are its points
/// in the log followed by its points among the new ones.
pub proof fn law_points_of_concat(a: Seq<Telemetry>, b: Seq<Telemetry>, d: Seq<char>)
    ensures
        points_of(a + b, d) == points_of(a, d) + points_of(b, d),
    decreases b.len(),
{
    if b.len() == 0 {
        assert(a + b =~= a);
        assert(points_of(a, d) + points_of(b, d) =~= points_of(a, d));
    } else {
        law_points_of_concat(a, b.drop_last(), d);
        assert((a + b).drop_last() =~= a + b.drop_last());
        assert((a + b).last() == b.last());
        if b.last().device_id@ == d {
            assert(points_of(a, d) + points_of(b, d) =~= (points_of(a, d) + points_of(
                b.drop_last(),
                d,
            )).push(b.last()));
        }
    }
}

/// A telemetry query (and the recent points of `device_get`) shows the
/// newest `n` points of the device, newest first: the `k`-th shown is the
/// `k`-th from the end of the device's points, and it shows `n` or all.
pub proof fn law_query_shows_newest_points(s: Seq<Telemetry>, d: Seq<char>, n: nat)
    ensures
        newest_telemetry(s, d, n) == newest_first(points_of(s, d), n),
    decreases s.len(),
{
    if s.len() > 0 && n > 0 {
        if s.last().device_id@ == d {
            law_query_shows_newest_points(s.drop_last(), d, (n - 1) as nat);
            assert(points_of(s, d).drop_last() =~= points_of(s.drop_last(), d));
        } else {
            law_query_shows_newest_points(s.drop_last(), d, n);
        }
    } else if s.len() > 0 {
        assert(newest_first(points_of(s, d), n) =~= Seq::<Telemetry>::empty());
    } else {
        assert(points_of(s, d) =~= Seq::<Telemetry>::empty());
    }
}

/// After a sequence of calls starting from an empty log, where each
/// successful ingestion appended its point, a query for device `d` shows
/// the newest `n` of the points ingested for `d`, newest first.
pub proof fn law_query_after_history(
    logs: Seq<Seq<Telemetry>>,
    added: Seq<Seq<Telemetry>>,
    d: Seq<char>,
    n: nat,
)
    requires
        log_grows(logs, added),
        logs[0].len() == 0,
    ensures
        newest_telemetry(logs.last(), d, n) == newest_first(points_of(appended(added), d), n),
{
    law_log_history(logs, added);
    assert(logs.last() =~= appended(added));
    law_query_shows_newest_points(logs.last(), d, n);
}

proof fn lemma_count_update(s: Seq<Device>, i: int, x: Device, st: DeviceStatus)
    requires
        0 <= i < s.len(),
    ensures
        count_status(s.update(i, x), st) + (if s[i].status == st {
            1int
        } else {
            0int
        }) == count_status(s, st) + (if x.status == st {
            1int
        } else {
            0int
        }),
    decreases s.len(),
{
    let t = s.update(i, x);
    if i == s.len() - 1 {
        assert(t.drop_last() =~= s.drop_last());
    } else {
        assert(t.drop_last() =~= s.drop_last().update(i, x));
        lemma_count_update(s.drop_last(), i, x, st);
    }
}

/// Decommissioning the device at position `i` keeps the number of devices,
/// takes one from the online count when it was online, adds one to the
/// decommissioned count when it was not yet decommissioned, and doing it
/// again changes nothing.
pub proof fn law_decommission_counts(s: Seq<Device>, i: int)
    requires
        0 <= i < s.len(),
    ensures
        ({
            let t = s.update(i, Device { status: DeviceStatus::Decommissioned, ..s[i] });
            &&& t.len() == s.len()
            &&& count_status(t, DeviceStatus::Online) == count_status(s, DeviceStatus::Online) - (
            if s[i].status == DeviceStatus::Online {
                1int
            } else {
                0int
            })
            &&& count_status(t, DeviceStatus::Decommissioned) == count_status(
                s,
                DeviceStatus::Decommissioned,
            ) + (if s[i].status == DeviceStatus::Decommissioned {
                0int
            } else {
                1int
            })
            &&& t.update(i, Device { status: DeviceStatus::Decommissioned, ..t[i] }) == t
        }),
{
    let x = Device { status: DeviceStatus::Decommissioned, ..s[i] };
    lemma_count_update(s, i, x, DeviceStatus::Online);
    lemma_count_update(s, i, x, DeviceStatus::Decommissioned);
    let t = s.update(i, x);
    assert(t.update(i, Device { status: DeviceStatus::Decommissioned, ..t[i] }) =~= t);
}

proof fn lemma_texts_without_idempotent(s: Seq<String>, id: Seq<char>)
    ensures
        texts_without_spec(texts_without_spec(s, id), id) == texts_without_spec(s, id),
    decreases s.len(),
{
    if s.len() > 0 {
        lemma_texts_without_idempotent(s.drop_last(), id);
        let r = texts_without_spec(s.drop_last(), id);
        if s.last()@ != id {
            assert(r.push(s.last()).drop_last() =~= r);
        }
    }
}

/// Taking a device out of the fleets keeps every fleet (same ids, names
/// and creation times), and taking it out again changes no fleet's devices.
pub proof fn law_fleets_kept_and_removal_idempotent(
    s: Seq<Fleet>,
    t: Seq<Fleet>,
    u: Seq<Fleet>,
    id: Seq<char>,
    j: int,
)
    requires
        crate::server::fleets_without(s, t, id),
        crate::server::fleets_without(t, u, id),
        0 <= j < s.len(),
    ensures
        t.len() == s.len(),
        t[j].id == s[j].id && t[j].name == s[j].name && t[j].created_at == s[j].created_at,
        u[j].device_ids@ == t[j].device_ids@,
{
    assert(fleet_without(s[j], t[j], id));
    assert(fleet_without(t[j], u[j], id));
    lemma_texts_without_idempotent(s[j].device_ids@, id);
}

/// Storing a record under its key: the keys afterwards are the old ones and
/// the new record's, and the count grows by one exactly when the key is new.
pub proof fn law_registry_keys<T: Keyed>(s: Seq<T>, x: T, k: Seq<char>)
    requires
        unique_keys(s),
    ensures
        has_key(upserted(s, x), k) <==> (has_key(s, k) || k == x.key()),
        upserted(s, x).len() == s.len() + (if has_key(s, x.key()) {
            0int
        } else {
            1int
        }),
{
    lemma_upserted_shape(s, x);
}

/// The value that the last update of key `k` writes, if any update does.
pub open spec fn last_write(u: Seq<(String, JsonValue)>, k: Seq<char>) -> Option<JsonValue>
    decreases u.len(),
{
    if u.len() == 0 {
        None
    } else if u.last().0@ == k {
        Some(u.last().1)
    } else {
        last_write(u.drop_last(), k)
    }
}

proof fn lemma_apply_desired_at(m: Map<Seq<char>, JsonValue>, u: Seq<(String, JsonValue)>, k: Seq<char>)
    ensures
        apply_desired(m, u).contains_key(k) == (last_write(u, k) is Some || m.contains_key(k)),
        apply_desired(m, u)[k] == (match last_write(u, k) {
            Some(v) => v,
            None => m[k],
        }),
        last_write(u, k) is Some ==> exists|j: int| 0 <= j < u.len() && (#[trigger] u[j]).0@ == k,
    decreases u.len(),
{
    if u.len() > 0 {
        lemma_apply_desired_at(m, u.drop_last(), k);
        if u.last().0@ != k && last_write(u.drop_last(), k) is Some {
            let j = choose|j: int| 0 <= j < u.drop_last().len() && (#[trigger] u.drop_last()[j]).0@ == k;
            assert(u[j] == u.drop_last()[j]);
        }
        if u.last().0@ == k {
            assert(u[u.len() - 1].0@ == k);
        }
    }
}

/// Writing the same desired values twice leaves the twin as writing them
/// once.
pub proof fn law_twin_update_idempotent(m: Map<Seq<char>, JsonValue>, u: Seq<(String, JsonValue)>)
    ensures
        apply_desired(apply_desired(m, u), u) == apply_desired(m, u),
{
    let a = apply_desired(m, u);
    assert forall|k: Seq<char>| #[trigger] apply_desired(a, u).contains_key(k) == a.contains_key(k)
        && apply_desired(a, u)[k] == a[k] by {
        lemma_apply_desired_at(m, u, k);
        lemma_apply_desired_at(a, u, k);
    }
    assert(apply_desired(a, u) =~= a);
}

/// Two desired-state updates on disjoint keys give the same twin in either
/// order.
pub proof fn law_twin_updates_commute(
    m: Map<Seq<char>, JsonValue>,
    u1: Seq<(String, JsonValue)>,
    u2: Seq<(String, JsonValue)>,
)
    requires
        forall|i: int, j: int|
            0 <= i < u1.len() && 0 <= j < u2.len() ==> (#[trigger] u1[i]).0@ != (#[trigger] u2[j]).0@,
    ensures
        apply_desired(apply_desired(m, u1), u2) == apply_desired(apply_desired(m, u2), u1),
{
    let a = apply_desired(apply_desired(m, u1), u2);
    let b = apply_desired(apply_desired(m, u2), u1);
    assert forall|k: Seq<char>| #[trigger] a.contains_key(k) == b.contains_key(k) && a[k] == b[k] by {
        lemma_apply_desired_at(m, u1, k);
        lemma_apply_desired_at(m, u2, k);
        lemma_apply_desired_at(apply_desired(m, u1), u2, k);
        lemma_apply_desired_at(apply_desired(m, u2), u1, k);
        if last_write(u1, k) is Some && last_write(u2, k) is Some {
            let i = choose|i: int| 0 <= i < u1.len() && (#[trigger] u1[i]).0@ == k;
            let j = choose|j: int| 0 <= j < u2.len() && (#[trigger] u2[j]).0@ == k;
            assert(u1[i].0@ != u2[j].0@);
        }
    }
    assert(a =~= b);
}

} // verus!
