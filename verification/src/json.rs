//! JSON values as the engine keeps them in digital twins, with the equality
//! that drift detection uses.
use vstd::prelude::*;

use crate::floats::{float_eq, float_equal, float_is_finite};

verus! {

/// A JSON value. Numbers keep the three forms that JSON text can take: a
/// non-negative integer, a negative integer, or a binary64 float given by its
/// IEEE 754 bit pattern. An object lists its members in key order.
pub enum JsonValue {
    Null,
    Bool(bool),
    PosInt(u64),
    NegInt(i64),
    Float(u64),
    Str(String),
    Array(Vec<JsonValue>),
    Object(Vec<(String, JsonValue)>),
}

/// Equality of JSON values: same kind and equal contents; numbers are equal
/// only within the same form, floats by IEEE equality; arrays element by
/// element; objects member by member in key order.
pub open spec fn json_equal(a: JsonValue, b: JsonValue) -> bool
    decreases a,
{
    match a {
        JsonValue::Null => b is Null,
        JsonValue::Bool(x) => b matches JsonValue::Bool(y) && x == y,
        JsonValue::PosInt(x) => b matches JsonValue::PosInt(y) && x == y,
        JsonValue::NegInt(x) => b matches JsonValue::NegInt(y) && x == y,
        JsonValue::Float(x) => b matches JsonValue::Float(y) && float_equal(x, y),
        JsonValue::Str(x) => b matches JsonValue::Str(y) && x@ == y@,
        JsonValue::Array(xs) => match b {
            JsonValue::Array(ys) => xs@.len() == ys@.len() && forall|i: int|
                0 <= i < xs@.len() ==> json_equal(#[trigger] xs@[i], ys@[i]),
            _ => false,
        },
        JsonValue::Object(xs) => match b {
            JsonValue::Object(ys) => xs@.len() == ys@.len() && forall|i: int|
                #![trigger xs@[i]]
                0 <= i < xs@.len() ==> xs@[i].0@ == ys@[i].0@ && json_equal(
                    xs@[i].1,
                    ys@[i].1,
                ),
            _ => false,
        },
    }
}

/// The JSON form of a binary64 reading: a float when it is finite, `null`
/// otherwise (JSON has no text for infinities or NaN).
pub open spec fn json_of_float(bits: u64) -> JsonValue {
    if float_is_finite(bits) {
        JsonValue::Float(bits)
    } else {
        JsonValue::Null
    }
}

/// Computes [`json_of_float`].
pub fn float_to_json(bits: u64) -> (v: JsonValue)
    ensures
        v == json_of_float(bits),
{
    if bits % 0x8000_0000_0000_0000 < 0x7FF0_0000_0000_0000 {
        JsonValue::Float(bits)
    } else {
        JsonValue::Null
    }
}

/// Decides [`json_equal`].
pub fn json_eq(a: &JsonValue, b: &JsonValue) -> (r: bool)
    ensures
        r == json_equal(*a, *b),
    decreases a,
{
    match a {
        JsonValue::Null => match b {
            JsonValue::Null => true,
            _ => false,
        },
        JsonValue::Bool(x) => match b {
            JsonValue::Bool(y) => *x == *y,
            _ => false,
        },
        JsonValue::PosInt(x) => match b {
            JsonValue::PosInt(y) => *x == *y,
            _ => false,
        },
        JsonValue::NegInt(x) => match b {
            JsonValue::NegInt(y) => *x == *y,
            _ => false,
        },
        JsonValue::Float(x) => match b {
            JsonValue::Float(y) => float_eq(*x, *y),
            _ => false,
        },
        JsonValue::Str(x) => match b {
            JsonValue::Str(y) => *x == *y,
            _ => false,
        },
        JsonValue::Array(xs) => match b {
            JsonValue::Array(ys) => {
                if xs.len() != ys.len() {
                    return false;
                }
                let mut i: usize = 0;
                while i < xs.len()
                    invariant
                        xs@.len() == ys@.len(),
                        i <= xs@.len(),
                        *a == JsonValue::Array(*xs),
                        *b == JsonValue::Array(*ys),
                        forall|j: int| 0 <= j < i ==> json_equal(#[trigger] xs@[j], ys@[j]),
                    decreases xs@.len() - i,
                {
                    proof {
                        vstd::std_specs::vec::axiom_vec_index_decreases(*xs, i as int);
                        assert(decreases_to!(*a => a->Array_0));
                    }
                    if !json_eq(&xs[i], &ys[i]) {
                        assert(!json_equal(xs@[i as int], ys@[i as int]));
                        return false;
                    }
                    i = i + 1;
                }
                assert(json_equal(*a, *b));
                true
            },
            _ => false,
        },
        JsonValue::Object(xs) => match b {
            JsonValue::Object(ys) => {
                if xs.len() != ys.len() {
                    return false;
                }
                let mut i: usize = 0;
                while i < xs.len()
                    invariant
                        xs@.len() == ys@.len(),
                        i <= xs@.len(),
                        *a == JsonValue::Object(*xs),
                        *b == JsonValue::Object(*ys),
                        forall|j: int|
                            #![trigger xs@[j]]
                            0 <= j < i ==> xs@[j].0@ == ys@[j].0@ && json_equal(
                                xs@[j].1,
                                ys@[j].1,
                            ),
                    decreases xs@.len() - i,
                {
                    proof {
                        vstd::std_specs::vec::axiom_vec_index_decreases(*xs, i as int);
                        assert(decreases_to!(*a => a->Object_0));
                        assert(decreases_to!(xs@[i as int] => xs@[i as int].1));
                    }
                    if !(xs[i].0 == ys[i].0) || !json_eq(&xs[i].1, &ys[i].1) {
                        assert(!(xs@[i as int].0@ == ys@[i as int].0@ && json_equal(
                            xs@[i as int].1,
                            ys@[i as int].1,
                        )));
                        return false;
                    }
                    i = i + 1;
                }
                assert(json_equal(*a, *b));
                true
            },
            _ => false,
        },
    }
}

} // verus!
