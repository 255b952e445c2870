//! Collections of records that are found by a text key, as a map keyed by
//! that text would hold them: each key at most once.
use vstd::prelude::*;

verus! {

/// A record found by its key.
pub trait Keyed {
    /// The key's text.
    spec fn key(&self) -> Seq<char>;

    /// The key itself.
    fn key_text(&self) -> (k: &String)
        ensures
            k@ == self.key(),
    ;
}

/// No key occurs twice.
pub open spec fn unique_keys<T: Keyed>(s: Seq<T>) -> bool {
    forall|i: int, j: int|
        0 <= i < s.len() && 0 <= j < s.len() && i != j ==> #[trigger] s[i].key() != #[trigger] s[j].key()
}

/// Some record has key `k`.
pub open spec fn has_key<T: Keyed>(s: Seq<T>, k: Seq<char>) -> bool {
    exists|i: int| 0 <= i < s.len() && #[trigger] s[i].key() == k
}

/// The position of the record with key `k`.
pub open spec fn index_of_key<T: Keyed>(s: Seq<T>, k: Seq<char>) -> int {
    choose|i: int| 0 <= i < s.len() && #[trigger] s[i].key() == k
}

/// The record with key `k`.
pub open spec fn record_of<T: Keyed>(s: Seq<T>, k: Seq<char>) -> T {
    s[index_of_key(s, k)]
}

/// The records as a map from key to record.
pub open spec fn key_map<T: Keyed>(s: Seq<T>) -> Map<Seq<char>, T> {
    Map::new(|k: Seq<char>| has_key(s, k), |k: Seq<char>| record_of(s, k))
}

/// `x` stored under its key: it replaces the record with the same key in
/// place, or is appended when the key is new.
pub open spec fn upserted<T: Keyed>(s: Seq<T>, x: T) -> Seq<T> {
    if has_key(s, x.key()) {
        s.update(index_of_key(s, x.key()), x)
    } else {
        s.push(x)
    }
}

/// With unique keys, a record is found at its own position.
pub proof fn lemma_index_of_key<T: Keyed>(s: Seq<T>, i: int)
    requires
        unique_keys(s),
        0 <= i < s.len(),
    ensures
        has_key(s, s[i].key()),
        index_of_key(s, s[i].key()) == i,
        record_of(s, s[i].key()) == s[i],
{
    assert(has_key(s, s[i].key()));
}

/// Storing a record keeps keys unique and maps its key to it.
pub proof fn lemma_upserted<T: Keyed>(s: Seq<T>, x: T)
    requires
        unique_keys(s),
    ensures
        unique_keys(upserted(s, x)),
        key_map(upserted(s, x)) == key_map(s).insert(x.key(), x),
{
    let t = upserted(s, x);
    if has_key(s, x.key()) {
        let p = index_of_key(s, x.key());
        assert forall|i: int, j: int|
            0 <= i < t.len() && 0 <= j < t.len() && i != j implies #[trigger] t[i].key()
            != #[trigger] t[j].key() by {
            if i == p {
                assert(s[p].key() == x.key());
            }
            if j == p {
                assert(s[p].key() == x.key());
            }
        }
        assert forall|k: Seq<char>| #[trigger] has_key(t, k) <==> (has_key(s, k) || k == x.key()) by {
            if has_key(t, k) {
                let i = index_of_key(t, k);
                if i != p {
                    assert(s[i].key() == k);
                }
            }
            if has_key(s, k) {
                let i = index_of_key(s, k);
                if i != p {
                    assert(t[i].key() == k);
                } else {
                    assert(t[p].key() == k);
                }
            }
            if k == x.key() {
                assert(t[p].key() == k);
            }
        }
        assert forall|k: Seq<char>| has_key(t, k) implies #[trigger] record_of(t, k) == key_map(
            s,
        ).insert(x.key(), x)[k] by {
            let i = index_of_key(t, k);
            lemma_index_of_key(t, i);
            if i != p {
                lemma_index_of_key(s, i);
                assert(s[i].key() == k);
            }
        }
    } else {
        assert forall|i: int, j: int|
            0 <= i < t.len() && 0 <= j < t.len() && i != j implies #[trigger] t[i].key()
            != #[trigger] t[j].key() by {
            if i == s.len() {
                assert(s[j].key() == t[j].key());
            }
            if j == s.len() {
                assert(s[i].key() == t[i].key());
            }
        }
        assert forall|k: Seq<char>| #[trigger] has_key(t, k) <==> (has_key(s, k) || k == x.key()) by {
            if has_key(t, k) {
                let i = index_of_key(t, k);
                if i < s.len() {
                    assert(s[i].key() == k);
                }
            }
            if has_key(s, k) {
                let i = index_of_key(s, k);
                assert(t[i].key() == k);
            }
            if k == x.key() {
                assert(t[s.len() as int].key() == k);
            }
        }
        assert forall|k: Seq<char>| has_key(t, k) implies #[trigger] record_of(t, k) == key_map(
            s,
        ).insert(x.key(), x)[k] by {
            let i = index_of_key(t, k);
            lemma_index_of_key(t, i);
            if i < s.len() {
                lemma_index_of_key(s, i);
            }
        }
    }
    assert(key_map(t) =~= key_map(s).insert(x.key(), x));
}

/// After storing `x`: the keys are the old ones and `x`'s, and every record
/// is `x` or the old record at its position.
pub proof fn lemma_upserted_shape<T: Keyed>(s: Seq<T>, x: T)
    requires
        unique_keys(s),
    ensures
        forall|k: Seq<char>| #[trigger] has_key(upserted(s, x), k) <==> (has_key(s, k) || k == x.key()),
        forall|i: int|
            0 <= i < upserted(s, x).len() ==> #[trigger] upserted(s, x)[i] == x || (i < s.len()
                && upserted(s, x)[i] == s[i]),
        s.len() <= upserted(s, x).len(),
        has_key(upserted(s, x), x.key()),
        record_of(upserted(s, x), x.key()) == x,
{
    lemma_upserted(s, x);
    assert(key_map(upserted(s, x)).contains_key(x.key()));
    assert(key_map(upserted(s, x))[x.key()] == x);
    assert forall|k: Seq<char>| #[trigger] has_key(upserted(s, x), k) <==> (has_key(s, k) || k
        == x.key()) by {
        assert(key_map(upserted(s, x)).contains_key(k) == has_key(upserted(s, x), k));
        assert(key_map(s).contains_key(k) == has_key(s, k));
    }
}

/// Replacing a record by one with the same key keeps the keys.
pub proof fn lemma_update_same_key<T: Keyed>(s: Seq<T>, i: int, x: T)
    requires
        unique_keys(s),
        0 <= i < s.len(),
        x.key() == s[i].key(),
    ensures
        unique_keys(s.update(i, x)),
        forall|k: Seq<char>| #[trigger] has_key(s.update(i, x), k) <==> has_key(s, k),
        index_of_key(s, x.key()) == i,
{
    let t = s.update(i, x);
    lemma_index_of_key(s, i);
    assert forall|a: int, b: int|
        0 <= a < t.len() && 0 <= b < t.len() && a != b implies #[trigger] t[a].key()
        != #[trigger] t[b].key() by {
        assert(s[a].key() != s[b].key());
    }
    assert forall|k: Seq<char>| #[trigger] has_key(t, k) <==> has_key(s, k) by {
        if has_key(t, k) {
            let j = index_of_key(t, k);
            assert(s[j].key() == k);
        }
        if has_key(s, k) {
            let j = index_of_key(s, k);
            assert(t[j].key() == k);
        }
    }
}

/// The position of the record with key `k`, if there is one.
pub fn find_key<T: Keyed>(v: &Vec<T>, k: &String) -> (r: Option<usize>)
    requires
        unique_keys(v@),
    ensures
        r is None <==> !has_key(v@, k@),
        r matches Some(i) ==> i < v@.len() && v@[i as int].key() == k@ && index_of_key(v@, k@)
            == i,
{
    let mut i: usize = 0;
    while i < v.len()
        invariant
            unique_keys(v@),
            i <= v@.len(),
            forall|j: int| 0 <= j < i ==> #[trigger] v@[j].key() != k@,
        decreases v@.len() - i,
    {
        if *v[i].key_text() == *k {
            proof {
                lemma_index_of_key(v@, i as int);
            }
            return Some(i);
        }
        i = i + 1;
    }
    None
}

/// Stores `x` under its key (see [`upserted`]).
pub fn upsert<T: Keyed>(v: &mut Vec<T>, x: T)
    requires
        unique_keys(old(v)@),
    ensures
        final(v)@ == upserted(old(v)@, x),
        unique_keys(final(v)@),
        key_map(final(v)@) == key_map(old(v)@).insert(x.key(), x),
{
    proof {
        lemma_upserted(v@, x);
    }
    match find_key(v, x.key_text()) {
        Some(i) => {
            v.set(i, x);
        },
        None => {
            v.push(x);
        },
    }
}

} // verus!
