//! JSON objects keyed by text, kept in key order as `serde_json` keeps them.
use vstd::prelude::*;

use crate::json::JsonValue;
use crate::keys::{chars_lt, compare_keys, lemma_lt_irreflexive, lemma_lt_transitive, KeyOrder};

verus! {

/// A JSON object: members in strictly increasing key order.
pub struct FieldMap {
    pub members: Vec<(String, JsonValue)>,
}

impl FieldMap {
    /// Keys strictly increase along the members, so no key occurs twice.
    pub open spec fn wf(&self) -> bool {
        forall|i: int, j: int|
            0 <= i < j < self.members@.len() ==> chars_lt(
                #[trigger] self.members@[i].0@,
                #[trigger] self.members@[j].0@,
            )
    }

    /// Some member has key `k`.
    pub open spec fn has(&self, k: Seq<char>) -> bool {
        exists|i: int| 0 <= i < self.members@.len() && #[trigger] self.members@[i].0@ == k
    }

    /// The position of the member with key `k`.
    pub open spec fn index_of(&self, k: Seq<char>) -> int {
        choose|i: int| 0 <= i < self.members@.len() && #[trigger] self.members@[i].0@ == k
    }

    /// The keys in their order.
    pub open spec fn keys(&self) -> Seq<Seq<char>> {
        self.members@.map_values(|m: (String, JsonValue)| m.0@)
    }

    /// A member's key is found at its own position.
    pub proof fn lemma_index_of(&self, i: int)
        requires
            self.wf(),
            0 <= i < self.members@.len(),
        ensures
            self.has(self.members@[i].0@),
            self.index_of(self.members@[i].0@) == i,
    {
        let k = self.members@[i].0@;
        assert(self.has(k));
        let j = self.index_of(k);
        if j < i {
            assert(chars_lt(self.members@[j].0@, self.members@[i].0@));
            lemma_lt_irreflexive(k);
        } else if j > i {
            assert(chars_lt(self.members@[i].0@, self.members@[j].0@));
            lemma_lt_irreflexive(k);
        }
    }

    /// The object with no members.
    pub fn new() -> (m: FieldMap)
        ensures
            m.wf(),
            m@ == Map::<Seq<char>, JsonValue>::empty(),
    {
        let m = FieldMap { members: Vec::new() };
        assert(m@ =~= Map::<Seq<char>, JsonValue>::empty());
        m
    }

    /// The value of key `k`, if any.
    pub fn get(&self, k: &String) -> (r: Option<&JsonValue>)
        requires
            self.wf(),
        ensures
            r == (if self@.contains_key(k@) {
                Some(&self@[k@])
            } else {
                None::<&JsonValue>
            }),
    {
        let mut i: usize = 0;
        while i < self.members.len()
            invariant
                self.wf(),
                i <= self.members@.len(),
                forall|j: int| 0 <= j < i ==> #[trigger] self.members@[j].0@ != k@,
            decreases self.members@.len() - i,
        {
            if self.members[i].0 == *k {
                proof {
                    self.lemma_index_of(i as int);
                }
                return Some(&self.members[i].1);
            }
            i = i + 1;
        }
        None
    }

    /// Sets key `k` to `v`, keeping the key order.
    pub fn set(&mut self, k: String, v: JsonValue)
        requires
            old(self).wf(),
        ensures
            final(self).wf(),
            final(self)@ == old(self)@.insert(k@, v),
    {
        let ghost old_m = *self;
        let len = self.members.len();
        let mut i: usize = 0;
        loop
            invariant_except_break
                i <= len,
            invariant
                *self == old_m,
                len == self.members@.len(),
                self.wf(),
                forall|j: int| 0 <= j < i ==> chars_lt(#[trigger] self.members@[j].0@, k@),
            ensures
                i <= len,
                i == len || chars_lt(k@, self.members@[i as int].0@) || self.members@[i as int].0@
                    == k@,
            decreases len - i,
        {
            if i == len {
                break;
            }
            match compare_keys(&self.members[i].0, &k) {
                KeyOrder::Before => {
                    i = i + 1;
                },
                _ => {
                    break;
                },
            }
        }
        proof {
            assert forall|j: int| i <= j < len implies chars_lt(k@, #[trigger] old_m.members@[j].0@)
                || old_m.members@[j].0@ == k@ by {
                if j > i {
                    assert(chars_lt(old_m.members@[i as int].0@, old_m.members@[j].0@));
                    if chars_lt(k@, old_m.members@[i as int].0@) {
                        lemma_lt_transitive(k@, old_m.members@[i as int].0@, old_m.members@[j].0@);
                    }
                }
            }
        }
        if i < len && self.members[i].0 == k {
            self.members.set(i, (k, v));
            proof {
                assert forall|a: int, b: int|
                    0 <= a < b < self.members@.len() implies chars_lt(
                    #[trigger] self.members@[a].0@,
                    #[trigger] self.members@[b].0@,
                ) by {
                    assert(chars_lt(old_m.members@[a].0@, old_m.members@[b].0@));
                }
                self.lemma_view_after_set(old_m, i as int, k@, v);
            }
        } else {
            proof {
                assert forall|j: int| i <= j < len implies chars_lt(k@, #[trigger] old_m.members@[j].0@) by {
                    if j > i {
                        assert(chars_lt(old_m.members@[i as int].0@, old_m.members@[j].0@));
                        lemma_lt_transitive(k@, old_m.members@[i as int].0@, old_m.members@[j].0@);
                    }
                }
            }
            self.members.insert(i, (k, v));
            proof {
                assert forall|a: int, b: int|
                    0 <= a < b < self.members@.len() implies chars_lt(
                    #[trigger] self.members@[a].0@,
                    #[trigger] self.members@[b].0@,
                ) by {
                    if b < i {
                        assert(chars_lt(old_m.members@[a].0@, old_m.members@[b].0@));
                    } else if b == i {
                        assert(chars_lt(old_m.members@[a].0@, k@));
                    } else if a == i {
                        assert(chars_lt(k@, old_m.members@[b - 1].0@));
                    } else if a < i {
                        assert(chars_lt(old_m.members@[a].0@, k@));
                        assert(chars_lt(k@, old_m.members@[b - 1].0@));
                        lemma_lt_transitive(old_m.members@[a].0@, k@, old_m.members@[b - 1].0@);
                    } else {
                        assert(chars_lt(old_m.members@[a - 1].0@, old_m.members@[b - 1].0@));
                    }
                }
                self.lemma_view_after_insert(old_m, i as int, k@, v);
            }
        }
    }

    proof fn lemma_view_after_set(&self, old_m: FieldMap, i: int, k: Seq<char>, v: JsonValue)
        requires
            old_m.wf(),
            self.wf(),
            0 <= i < old_m.members@.len(),
            old_m.members@[i].0@ == k,
            self.members@.len() == old_m.members@.len(),
            self.members@[i].0@ == k,
            self.members@[i].1 == v,
            forall|j: int|
                0 <= j < self.members@.len() && j != i ==> self.members@[j]
                    == old_m.members@[j],
        ensures
            self@ == old_m@.insert(k, v),
    {
        assert forall|q: Seq<char>| #[trigger] self@.contains_key(q) <==> old_m@.insert(
            k,
            v,
        ).contains_key(q) by {
            if self.has(q) {
                let j = self.index_of(q);
                assert(j == i || old_m.members@[j].0@ == q);
            }
            if old_m.has(q) {
                let j = old_m.index_of(q);
                assert(j == i || self.members@[j].0@ == q);
            }
            if q == k {
                assert(self.members@[i].0@ == q);
            }
        }
        assert forall|q: Seq<char>| #[trigger] self@.contains_key(q) implies self@[q] == old_m@.insert(
            k,
            v,
        )[q] by {
            assert(self.has(q));
            let j = self.index_of(q);
            assert(self.members@[j].0@ == q);
            if j != i {
                old_m.lemma_index_of(j);
                self.lemma_index_of(i);
                self.lemma_index_of(j);
                assert(q != k);
            } else {
                assert(q == k);
            }
        }
        assert(self@ =~= old_m@.insert(k, v));
    }

    proof fn lemma_view_after_insert(&self, old_m: FieldMap, i: int, k: Seq<char>, v: JsonValue)
        requires
            old_m.wf(),
            self.wf(),
            0 <= i <= old_m.members@.len(),
            i < self.members@.len(),
            self.members@ == old_m.members@.insert(i, (self.members@[i].0, v)),
            self.members@[i].0@ == k,
        ensures
            self@ == old_m@.insert(k, v),
    {
        assert forall|q: Seq<char>| #[trigger] self@.contains_key(q) <==> old_m@.insert(
            k,
            v,
        ).contains_key(q) by {
            if self.has(q) {
                let j = self.index_of(q);
                if j < i {
                    assert(old_m.members@[j].0@ == q);
                } else if j > i {
                    assert(old_m.members@[j - 1].0@ == q);
                }
            }
            if old_m.has(q) {
                let j = old_m.index_of(q);
                if j < i {
                    assert(self.members@[j].0@ == q);
                } else {
                    assert(self.members@[j + 1].0@ == q);
                }
            }
            if q == k {
                assert(self.members@[i].0@ == q);
            }
        }
        assert forall|q: Seq<char>| #[trigger] self@.contains_key(q) implies self@[q] == old_m@.insert(
            k,
            v,
        )[q] by {
            assert(self.has(q));
            let j = self.index_of(q);
            assert(self.members@[j].0@ == q);
            if j < i {
                old_m.lemma_index_of(j);
                self.lemma_index_of(j);
                self.lemma_index_of(i);
                assert(q != k);
            } else if j > i {
                old_m.lemma_index_of(j - 1);
                self.lemma_index_of(j);
                self.lemma_index_of(i);
                assert(q != k);
            }
        }
        assert(self@ =~= old_m@.insert(k, v));
    }
}

impl View for FieldMap {
    type V = Map<Seq<char>, JsonValue>;

    /// The object as a map from key text to value.
    open spec fn view(&self) -> Map<Seq<char>, JsonValue> {
        Map::new(|k: Seq<char>| self.has(k), |k: Seq<char>| self.members@[self.index_of(k)].1)
    }
}

} // verus!
