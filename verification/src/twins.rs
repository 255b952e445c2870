//! Digital twins: writing desired state and detecting drift between the
//! reported and the desired state.
use vstd::prelude::*;

use crate::fields::FieldMap;
use crate::json::{json_eq, json_equal, JsonValue};

verus! {

/// A desired state after the updates are written into it in order.
pub open spec fn apply_desired(
    m: Map<Seq<char>, JsonValue>,
    updates: Seq<(String, JsonValue)>,
) -> Map<Seq<char>, JsonValue>
    decreases updates.len(),
{
    if updates.len() == 0 {
        m
    } else {
        apply_desired(m, updates.drop_last()).insert(updates.last().0@, updates.last().1)
    }
}

/// Writes the updates into a desired state (see [`apply_desired`]).
pub fn write_desired(m: &mut FieldMap, updates: Vec<(String, JsonValue)>)
    requires
        old(m).wf(),
    ensures
        final(m).wf(),
        final(m)@ == apply_desired(old(m)@, updates@),
{
    let ghost start = m@;
    let ghost all = updates@;
    let total = updates.len();
    let mut rest = updates;
    let mut done: usize = 0;
    assert(all.skip(0) =~= all);
    while rest.len() > 0
        invariant
            m.wf(),
            done <= all.len(),
            all.len() == total,
            rest@ == all.skip(done as int),
            m@ == apply_desired(start, all.take(done as int)),
        decreases rest@.len(),
    {
        let (k, v) = rest.remove(0);
        assert(all.take(done + 1).drop_last() =~= all.take(done as int));
        assert(all[done as int] == (k, v));
        m.set(k, v);
        done = done + 1;
        assert(rest@ =~= all.skip(done as int));
    }
    assert(all.take(done as int) =~= all);
}

/// Key `k` of the desired state drifts: the reported state lacks it or
/// holds a value not equal to the desired one.
pub open spec fn drifts(reported: Map<Seq<char>, JsonValue>, k: Seq<char>, want: JsonValue) -> bool {
    !(reported.contains_key(k) && json_equal(reported[k], want))
}

/// The drifting keys of the desired members, in their order.
pub open spec fn drift_keys(
    desired: Seq<(String, JsonValue)>,
    reported: Map<Seq<char>, JsonValue>,
) -> Seq<Seq<char>>
    decreases desired.len(),
{
    if desired.len() == 0 {
        Seq::empty()
    } else {
        let rest = drift_keys(desired.drop_last(), reported);
        if drifts(reported, desired.last().0@, desired.last().1) {
            rest.push(desired.last().0@)
        } else {
            rest
        }
    }
}

/// Finds [`drift_keys`].
pub fn find_drift(desired: &FieldMap, reported: &FieldMap) -> (r: Vec<String>)
    requires
        reported.wf(),
    ensures
        r@.map_values(|s: String| s@) == drift_keys(desired.members@, reported@),
{
    let mut r: Vec<String> = Vec::new();
    let mut i: usize = 0;
    while i < desired.members.len()
        invariant
            reported.wf(),
            i <= desired.members@.len(),
            r@.map_values(|s: String| s@) == drift_keys(desired.members@.take(i as int), reported@),
        decreases desired.members@.len() - i,
    {
        let ghost pre = desired.members@.take(i + 1);
        assert(pre.drop_last() =~= desired.members@.take(i as int));
        let k = &desired.members[i].0;
        let want = &desired.members[i].1;
        let same = match reported.get(k) {
            Some(have) => json_eq(have, want),
            None => false,
        };
        if !same {
            let ghost before = r@.map_values(|s: String| s@);
            r.push(k.clone());
            assert(r@.map_values(|s: String| s@) =~= before.push(k@));
        }
        i = i + 1;
    }
    assert(desired.members@.take(desired.members@.len() as int) =~= desired.members@);
    r
}

} // verus!
