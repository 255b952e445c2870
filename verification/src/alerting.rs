//! Telemetry readings: which alert rules they fire, the alerts that result,
//! and how they update a twin's reported state.
use vstd::prelude::*;

use crate::fields::FieldMap;
use crate::json::{float_to_json, json_of_float, JsonValue};
use crate::ids::Stamp;
use crate::floats::{float_le, float_less, float_less_eq, float_lt};
use crate::model::{condition_of, Alert, AlertRule, Condition, Reading};

verus! {

/// The value of the first reading of metric `m`, if any.
pub open spec fn reading_of(rs: Seq<Reading>, m: Seq<char>) -> Option<u64>
    decreases rs.len(),
{
    if rs.len() == 0 {
        None
    } else if rs[0].metric@ == m {
        Some(rs[0].value_bits)
    } else {
        reading_of(rs.drop_first(), m)
    }
}

/// Finds [`reading_of`].
pub fn find_reading(rs: &Vec<Reading>, m: &String) -> (r: Option<u64>)
    ensures
        r == reading_of(rs@, m@),
{
    let mut i: usize = 0;
    assert(rs@.skip(0) =~= rs@);
    while i < rs.len()
        invariant
            i <= rs@.len(),
            reading_of(rs@, m@) == reading_of(rs@.skip(i as int), m@),
        decreases rs@.len() - i,
    {
        assert(rs@.skip(i as int).drop_first() =~= rs@.skip(i + 1));
        if rs[i].metric == *m {
            return Some(rs[i].value_bits);
        }
        i = i + 1;
    }
    None
}

/// Rule `r` watches device `dev` (it names no device, or names `dev`), is
/// active, and the readings hold its metric.
pub open spec fn rule_applies(r: AlertRule, dev: Seq<char>, rs: Seq<Reading>) -> bool {
    &&& r.active
    &&& match r.device_id {
        Some(d) => d@ == dev,
        None => true,
    }
    &&& reading_of(rs, r.metric@) is Some
}

/// Whether a condition holds of a reading against a threshold: the
/// orderings are IEEE 754 comparisons of the binary64 values; `eq` holds
/// when `near`, i.e. when the two lie within 0.001 of each other, which the
/// caller decides with binary64 arithmetic; an unknown condition never holds.
pub open spec fn condition_holds(c: Condition, value: u64, threshold: u64, near: bool) -> bool {
    match c {
        Condition::Greater => float_less(threshold, value),
        Condition::Less => float_less(value, threshold),
        Condition::GreaterOrEqual => float_less_eq(threshold, value),
        Condition::LessOrEqual => float_less_eq(value, threshold),
        Condition::ApproxEqual => near,
        Condition::Unknown => false,
    }
}

/// Decides [`condition_holds`].
pub fn check_condition(c: Condition, value: u64, threshold: u64, near: bool) -> (r: bool)
    ensures
        r == condition_holds(c, value, threshold, near),
{
    match c {
        Condition::Greater => float_lt(threshold, value),
        Condition::Less => float_lt(value, threshold),
        Condition::GreaterOrEqual => float_le(threshold, value),
        Condition::LessOrEqual => float_le(value, threshold),
        Condition::ApproxEqual => near,
        Condition::Unknown => false,
    }
}

/// Rule `i` fires: it applies and its condition holds of the reading of
/// its metric; `near[i]` (false past the end) is the caller's answer to
/// whether that reading lies within 0.001 of the threshold.
pub open spec fn rule_fires(
    rules: Seq<AlertRule>,
    i: int,
    dev: Seq<char>,
    rs: Seq<Reading>,
    near: Seq<bool>,
) -> bool {
    &&& rule_applies(rules[i], dev, rs)
    &&& condition_holds(
        condition_of(rules[i].condition@),
        reading_of(rs, rules[i].metric@).unwrap(),
        rules[i].threshold_bits,
        i < near.len() && near[i],
    )
}

/// The positions of the rules among the first `n` that fire, in order.
pub open spec fn firing_prefix(
    rules: Seq<AlertRule>,
    dev: Seq<char>,
    rs: Seq<Reading>,
    near: Seq<bool>,
    n: int,
) -> Seq<usize>
    decreases n,
{
    if n <= 0 {
        Seq::empty()
    } else if rule_fires(rules, n - 1, dev, rs, near) {
        firing_prefix(rules, dev, rs, near, n - 1).push((n - 1) as usize)
    } else {
        firing_prefix(rules, dev, rs, near, n - 1)
    }
}

/// The positions of the rules that fire, in rule order.
pub open spec fn firing_rules(
    rules: Seq<AlertRule>,
    dev: Seq<char>,
    rs: Seq<Reading>,
    near: Seq<bool>,
) -> Seq<usize> {
    firing_prefix(rules, dev, rs, near, rules.len() as int)
}

/// Every position listed fires, positions increase, and every rule among the
/// first `n` that fires is listed.
pub proof fn lemma_firing_prefix(
    rules: Seq<AlertRule>,
    dev: Seq<char>,
    rs: Seq<Reading>,
    near: Seq<bool>,
    n: int,
)
    requires
        0 <= n <= rules.len(),
        rules.len() <= usize::MAX,
    ensures
        forall|k: int|
            0 <= k < firing_prefix(rules, dev, rs, near, n).len() ==> {
                let p = #[trigger] firing_prefix(rules, dev, rs, near, n)[k] as int;
                &&& 0 <= p < n
                &&& rule_fires(rules, p, dev, rs, near)
            },
        forall|a: int, b: int|
            0 <= a < b < firing_prefix(rules, dev, rs, near, n).len() ==> #[trigger] firing_prefix(
                rules,
                dev,
                rs,
                near,
                n,
            )[a] < #[trigger] firing_prefix(rules, dev, rs, near, n)[b],
        forall|p: int|
            0 <= p < n && rule_fires(rules, p, dev, rs, near) ==> firing_prefix(
                rules,
                dev,
                rs,
                near,
                n,
            ).contains(p as usize),
        firing_prefix(rules, dev, rs, near, n).len() <= n,
    decreases n,
{
    if n > 0 {
        lemma_firing_prefix(rules, dev, rs, near, n - 1);
        let prev = firing_prefix(rules, dev, rs, near, n - 1);
        let cur = firing_prefix(rules, dev, rs, near, n);
        assert forall|k: int| 0 <= k < cur.len() implies {
            let p = #[trigger] cur[k] as int;
            &&& 0 <= p < n
            &&& rule_fires(rules, p, dev, rs, near)
        } by {
            if k < prev.len() {
                assert(cur[k] == prev[k]);
            }
        }
        assert forall|a: int, b: int| 0 <= a < b < cur.len() implies #[trigger] cur[a] < #[trigger] cur[b] by {
            if b < prev.len() {
                assert(cur[a] == prev[a] && cur[b] == prev[b]);
            } else {
                assert(cur[a] == prev[a]);
            }
        }
        assert forall|p: int|
            0 <= p < n && rule_fires(rules, p, dev, rs, near) implies cur.contains(p as usize) by {
            if p < n - 1 {
                assert(prev.contains(p as usize));
                let w = choose|w: int| 0 <= w < prev.len() && prev[w] == p as usize;
                assert(cur[w] == p as usize);
            } else {
                assert(cur[cur.len() - 1] == p as usize);
            }
        }
    }
}

/// Finds [`firing_rules`].
pub fn rules_that_fire(
    rules: &Vec<AlertRule>,
    dev: &String,
    rs: &Vec<Reading>,
    near: &Vec<bool>,
) -> (r: Vec<usize>)
    ensures
        r@ == firing_rules(rules@, dev@, rs@, near@),
        forall|k: int|
            0 <= k < r@.len() ==> #[trigger] r@[k] < rules@.len() && rule_fires(
                rules@,
                r@[k] as int,
                dev@,
                rs@,
                near@,
            ),
{
    let mut r: Vec<usize> = Vec::new();
    let mut i: usize = 0;
    while i < rules.len()
        invariant
            i <= rules@.len(),
            r@ == firing_prefix(rules@, dev@, rs@, near@, i as int),
        decreases rules@.len() - i,
    {
        let rule = &rules[i];
        let watches = match &rule.device_id {
            Some(d) => *d == *dev,
            None => true,
        };
        let fires = if rule.active && watches {
            match find_reading(rs, &rule.metric) {
                Some(v) => check_condition(
                    Condition::parse(&rule.condition),
                    v,
                    rule.threshold_bits,
                    i < near.len() && near[i],
                ),
                None => false,
            }
        } else {
            false
        };
        if fires {
            r.push(i);
        }
        i = i + 1;
    }
    proof {
        lemma_firing_prefix(rules@, dev@, rs@, near@, i as int);
    }
    r
}

/// The alert that rule `rule` raises for device `dev`'s readings.
pub open spec fn fired_alert(rule: AlertRule, dev: String, rs: Seq<Reading>, stamp: Stamp) -> Alert {
    Alert {
        id: stamp.id,
        rule_id: rule.id,
        device_id: dev,
        metric: rule.metric,
        value_bits: reading_of(rs, rule.metric@).unwrap(),
        threshold_bits: rule.threshold_bits,
        triggered_at: stamp.at,
    }
}

/// The alerts that the firing rules raise, in rule order, the `k`-th
/// stamped with `stamps[k]`.
pub open spec fn fired_alerts(
    rules: Seq<AlertRule>,
    fired: Seq<usize>,
    dev: String,
    rs: Seq<Reading>,
    stamps: Seq<Stamp>,
) -> Seq<Alert> {
    Seq::new(fired.len(), |k: int| fired_alert(rules[fired[k] as int], dev, rs, stamps[k]))
}

/// Raises the alerts of the firing rules (see [`fired_alerts`]).
pub fn raise_alerts(
    rules: &Vec<AlertRule>,
    fired: &Vec<usize>,
    dev: &String,
    rs: &Vec<Reading>,
    stamps: &Vec<Stamp>,
) -> (r: Vec<Alert>)
    requires
        forall|k: int|
            0 <= k < fired@.len() ==> #[trigger] fired@[k] < rules@.len() && rule_applies(
                rules@[fired@[k] as int],
                dev@,
                rs@,
            ),
        fired@.len() <= stamps@.len(),
    ensures
        r@ == fired_alerts(rules@, fired@, *dev, rs@, stamps@),
{
    let mut r: Vec<Alert> = Vec::new();
    let mut k: usize = 0;
    while k < fired.len()
        invariant
            k <= fired@.len(),
            fired@.len() <= stamps@.len(),
            forall|q: int|
                0 <= q < fired@.len() ==> #[trigger] fired@[q] < rules@.len() && rule_applies(
                    rules@[fired@[q] as int],
                    dev@,
                    rs@,
                ),
            r@ == Seq::new(
                k as nat,
                |q: int| fired_alert(rules@[fired@[q] as int], *dev, rs@, stamps@[q]),
            ),
        decreases fired@.len() - k,
    {
        assert(fired@[k as int] < rules@.len());
        let rule = &rules[fired[k]];
        let value = find_reading(rs, &rule.metric).unwrap();
        let stamp = &stamps[k];
        r.push(
            Alert {
                id: stamp.id.clone(),
                rule_id: rule.id.clone(),
                device_id: dev.clone(),
                metric: rule.metric.clone(),
                value_bits: value,
                threshold_bits: rule.threshold_bits,
                triggered_at: stamp.at.clone(),
            },
        );
        k = k + 1;
        assert(r@ =~= Seq::new(
            k as nat,
            |q: int| fired_alert(rules@[fired@[q] as int], *dev, rs@, stamps@[q]),
        ));
    }
    r
}

/// A reported state after the readings are written into it in order, each
/// metric set to its reading (a float, or `null` when not finite).
pub open spec fn report_readings(m: Map<Seq<char>, JsonValue>, rs: Seq<Reading>) -> Map<
    Seq<char>,
    JsonValue,
>
    decreases rs.len(),
{
    if rs.len() == 0 {
        m
    } else {
        report_readings(m, rs.drop_last()).insert(rs.last().metric@, json_of_float(rs.last().value_bits))
    }
}

/// Writes the readings into a reported state (see [`report_readings`]).
pub fn write_readings(m: &mut FieldMap, rs: &Vec<Reading>)
    requires
        old(m).wf(),
    ensures
        final(m).wf(),
        final(m)@ == report_readings(old(m)@, rs@),
{
    let ghost start = m@;
    let mut i: usize = 0;
    while i < rs.len()
        invariant
            i <= rs@.len(),
            m.wf(),
            m@ == report_readings(start, rs@.take(i as int)),
        decreases rs@.len() - i,
    {
        assert(rs@.take(i + 1).drop_last() =~= rs@.take(i as int));
        m.set(rs[i].metric.clone(), float_to_json(rs[i].value_bits));
        i = i + 1;
    }
    assert(rs@.take(rs@.len() as int) =~= rs@);
}

} // verus!
