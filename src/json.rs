//! A JSON value tree, as the loader reads it.
use vstd::prelude::*;

verus! {

/// A JSON value. A number is kept as an `i64` when it is an integer in that
/// range, and as `None` otherwise.
#[derive(Debug)]
pub enum Json {
    Null,
    Bool(bool),
    Number(Option<i64>),
    Str(String),
    Array(Vec<Json>),
    Object(Vec<(String, Json)>),
}

/// The value under `key`, searching the members from index `i` on; the first
/// member with that key wins.
pub open spec fn field_from(fs: Seq<(String, Json)>, key: Seq<char>, i: int) -> Option<Json>
    decreases fs.len() - i,
{
    if i < 0 || i >= fs.len() {
        None
    } else if fs[i].0@ == key {
        Some(fs[i].1)
    } else {
        field_from(fs, key, i + 1)
    }
}

pub open spec fn field(fs: Seq<(String, Json)>, key: Seq<char>) -> Option<Json> {
    field_from(fs, key, 0)
}

/// An optional member: absent and `null` both read as absent.
pub open spec fn present(fs: Seq<(String, Json)>, key: Seq<char>) -> Option<Json> {
    match field(fs, key) {
        Some(Json::Null) => None,
        other => other,
    }
}

/// What serde_json makes of a text, as a tree of this library's `Json`;
/// `None` when the bytes are not one well-formed JSON value.
pub uninterp spec fn json_of_bytes(b: Seq<u8>) -> Option<Json>;

#[verifier::external_type_specification]
#[verifier::external_body]
pub struct ExValue(serde_json::Value);

/// Relies on serde_json::Number::as_i64 to keep integral numbers; moves
/// every other part of serde_json's tree into the library's own.
#[verifier::external_body]
fn json_from_value(v: serde_json::Value) -> Json {
    match v {
        serde_json::Value::Null => Json::Null,
        serde_json::Value::Bool(b) => Json::Bool(b),
        serde_json::Value::Number(n) => Json::Number(n.as_i64()),
        serde_json::Value::String(s) => Json::Str(s),
        serde_json::Value::Array(a) => Json::Array(a.into_iter().map(json_from_value).collect()),
        serde_json::Value::Object(m) => Json::Object(
            m.into_iter().map(|(k, x)| (k, json_from_value(x))).collect(),
        ),
    }
}

/// Relies on serde_json::from_slice: reads one JSON value from the bytes and
/// fails on anything else.
#[verifier::external_body]
pub(crate) fn json_from_bytes(b: &[u8]) -> (r: Option<Json>)
    ensures
        r == json_of_bytes(b@),
{
    serde_json::from_slice::<serde_json::Value>(b).ok().map(json_from_value)
}

/// Whether two strings hold the same characters.
pub fn str_eq(a: &str, b: &str) -> (r: bool)
    ensures
        r == (a@ == b@),
{
    let n = a.unicode_len();
    if n != b.unicode_len() {
        return false;
    }
    let mut i: usize = 0;
    while i < n
        invariant
            i <= n,
            n == a@.len(),
            n == b@.len(),
            a@.subrange(0, i as int) == b@.subrange(0, i as int),
        decreases n - i,
    {
        if a.get_char(i) != b.get_char(i) {
            return false;
        }
        assert(a@.subrange(0, i + 1) =~= a@.subrange(0, i as int).push(a@[i as int]));
        assert(b@.subrange(0, i + 1) =~= b@.subrange(0, i as int).push(b@[i as int]));
        i = i + 1;
    }
    assert(a@ =~= a@.subrange(0, n as int));
    assert(b@ =~= b@.subrange(0, n as int));
    true
}

/// Index of the first member named `key`.
pub fn find_field(fs: &Vec<(String, Json)>, key: &str) -> (r: Option<usize>)
    ensures
        match r {
            Some(i) => i < fs@.len() && fs@[i as int].0@ == key@ && field(fs@, key@) == Some(
                fs@[i as int].1,
            ),
            None => field(fs@, key@) is None,
        },
{
    let mut i: usize = 0;
    while i < fs.len()
        invariant
            i <= fs@.len(),
            field_from(fs@, key@, i as int) == field(fs@, key@),
        decreases fs@.len() - i,
    {
        if str_eq(fs[i].0.as_str(), key) {
            return Some(i);
        }
        i = i + 1;
    }
    None
}

/// The optional member named `key`: absent and `null` both give `None`.
pub fn get_present<'a>(fs: &'a Vec<(String, Json)>, key: &str) -> (r: Option<&'a Json>)
    ensures
        match r {
            Some(j) => present(fs@, key@) == Some(*j),
            None => present(fs@, key@) is None,
        },
{
    match find_field(fs, key) {
        Some(i) => match &fs[i].1 {
            Json::Null => None,
            j => Some(j),
        },
        None => None,
    }
}

/// The member named `key`, `null` included.
pub fn get_field<'a>(fs: &'a Vec<(String, Json)>, key: &str) -> (r: Option<&'a Json>)
    ensures
        match r {
            Some(j) => field(fs@, key@) == Some(*j),
            None => field(fs@, key@) is None,
        },
{
    match find_field(fs, key) {
        Some(i) => Some(&fs[i].1),
        None => None,
    }
}

} // verus!
