//! Identifiers and timestamps: the random short ids and the wall-clock
//! readings that stamp every record.
use vstd::prelude::*;
use vstd::string::*;

verus! {

/// A lowercase hexadecimal digit, as `uuid` writes them.
pub open spec fn is_lower_hex(c: char) -> bool {
    ('0' <= c && c <= '9') || ('a' <= c && c <= 'f')
}

/// Eight lowercase hexadecimal digits: the shape of every short id.
pub open spec fn is_short_id(s: Seq<char>) -> bool {
    &&& s.len() == 8
    &&& forall|i: int| 0 <= i < 8 ==> #[trigger] is_lower_hex(s[i])
}

/// `prefix` followed by a short id, e.g. `dev_1a2b3c4d`.
pub open spec fn is_prefixed_id(id: Seq<char>, prefix: Seq<char>) -> bool {
    &&& id.len() == prefix.len() + 8
    &&& id.subrange(0, prefix.len() as int) == prefix
    &&& is_short_id(id.subrange(prefix.len() as int, id.len() as int))
}

/// Calls `uuid::Uuid::new_v4` and writes the UUID as text. The uuid crate
/// writes a UUID in its hyphenated lowercase form: 36 characters, hyphens at
/// positions 8, 13, 18 and 23, lowercase hex digits everywhere else. Which
/// digits is chance, and nothing more is claimed.
#[verifier::external_body]
fn uuid_text() -> (t: String)
    ensures
        t@.len() == 36,
        forall|i: int|
            0 <= i < 36 ==> (if i == 8 || i == 13 || i == 18 || i == 23 {
                #[trigger] t@[i] == '-'
            } else {
                is_lower_hex(t@[i])
            }),
{
    uuid::Uuid::new_v4().to_string()
}

/// A new short id: the first eight hex digits of a random UUID.
pub(crate) fn short_id() -> (id: String)
    ensures
        is_short_id(id@),
{
    let t = uuid_text();
    let id = String::from_str(t.as_str().substring_char(0, 8));
    assert forall|i: int| 0 <= i < 8 implies #[trigger] is_lower_hex(id@[i]) by {
        assert(id@[i] == t@[i]);
    }
    id
}

/// Calls `chrono::Utc::now()` and formats it with `to_rfc3339`. The reading
/// depends on the clock, so nothing is claimed of the text; chrono panics
/// only if the system clock reads a time before the Unix epoch.
#[verifier::external_body]
pub(crate) fn now() -> (stamp: String) {
    chrono::Utc::now().to_rfc3339()
}

/// The id and the time given to a new record.
pub struct Stamp {
    pub id: String,
    pub at: String,
}

/// Concatenates `prefix` and `suffix`.
pub fn join_id(prefix: &str, suffix: &String) -> (id: String)
    ensures
        id@ == prefix@ + suffix@,
{
    let mut id = String::from_str(prefix);
    id.append(suffix.as_str());
    id
}

/// A fresh id made of `prefix` and a new short id.
pub fn fresh_id(prefix: &str) -> (id: String)
    ensures
        is_prefixed_id(id@, prefix@),
{
    let suffix = short_id();
    let id = join_id(prefix, &suffix);
    assert(id@.subrange(0, prefix@.len() as int) =~= prefix@);
    assert(id@.subrange(prefix@.len() as int, id@.len() as int) =~= suffix@);
    id
}

} // verus!
