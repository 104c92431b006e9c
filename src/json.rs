//! The JSON documents that analysis tools and the benchmark server emit, as a
//! tree that verified code can read.

use vstd::prelude::*;

verus! {

/// A parsed JSON value. A number keeps what the normalizers read of it: its
/// value when it is an integer that fits in `u64`. Object members keep the
/// parser's order.
#[derive(Debug)]
pub enum Json {
    Null,
    Bool(bool),
    Number(Option<u64>),
    Str(String),
    Array(Vec<Json>),
    Object(Vec<(String, Json)>),
}

/// serde_json's document tree, opaque here: only `json_from_value` looks inside.
#[verifier::external_type_specification]
#[verifier::external_body]
pub struct ExJsonValue(serde_json::Value);

/// The document that serde_json reads from `bytes`, or `None` where the bytes
/// are not one well-formed JSON document.
pub uninterp spec fn json_of_bytes(bytes: Seq<u8>) -> Option<Json>;

/// Relies on `serde_json::from_slice::<serde_json::Value>`: the parse of a whole
/// byte string, which depends on the bytes alone.
#[verifier::external_body]
pub(crate) fn parse_json(bytes: &[u8]) -> (r: Option<Json>)
    ensures
        r == json_of_bytes(bytes@),
{
    serde_json::from_slice::<serde_json::Value>(bytes).ok().map(json_from_value)
}

/// Turns serde_json's tree into a `Json`, node for node, for `parse_json`.
/// Relies on `serde_json::Number::as_u64` for what a number keeps, and on
/// `serde_json::Map`'s iteration for the members (one per distinct key).
#[verifier::external_body]
fn json_from_value(v: serde_json::Value) -> Json {
    match v {
        serde_json::Value::Null => Json::Null,
        serde_json::Value::Bool(b) => Json::Bool(b),
        serde_json::Value::Number(n) => Json::Number(n.as_u64()),
        serde_json::Value::String(s) => Json::Str(s),
        serde_json::Value::Array(a) => Json::Array(a.into_iter().map(json_from_value).collect()),
        serde_json::Value::Object(m) => Json::Object(
            m.into_iter().map(|(k, v)| (k, json_from_value(v))).collect(),
        ),
    }
}

/// The value of the first member of `members` named `key`.
pub open spec fn first_member(members: Seq<(String, Json)>, key: Seq<char>) -> Option<Json>
    decreases members.len(),
{
    if members.len() == 0 {
        None
    } else if members[0].0@ == key {
        Some(members[0].1)
    } else {
        first_member(members.drop_first(), key)
    }
}

/// The member `key` of `v`; `None` where `v` is not an object or has no such member.
pub open spec fn member(v: Json, key: Seq<char>) -> Option<Json> {
    match v {
        Json::Object(m) => first_member(m@, key),
        _ => None,
    }
}

/// The unsigned integer held by `v`, if any.
pub open spec fn as_u64(v: Option<Json>) -> Option<u64> {
    match v {
        Some(Json::Number(n)) => n,
        _ => None,
    }
}

/// The length of `v` where it is an array.
pub open spec fn array_len(v: Option<Json>) -> Option<nat> {
    match v {
        Some(Json::Array(a)) => Some(a@.len()),
        _ => None,
    }
}

/// The text of `v` where it is a string.
pub open spec fn as_text(v: Option<Json>) -> Option<Seq<char>> {
    match v {
        Some(Json::Str(s)) => Some(s@),
        _ => None,
    }
}

/// Looks up member `key` of `v` (the first one, should the object repeat it).
pub fn get_member<'a>(v: &'a Json, key: &str) -> (r: Option<&'a Json>)
    ensures
        match member(*v, key@) {
            Some(x) => r matches Some(y) && *y == x,
            None => r is None,
        },
{
    match v {
        Json::Object(members) => {
            let wanted: String = key.to_owned();
            assert(member(*v, key@) == first_member(members@, key@));
            let mut i: usize = 0;
            assert(members@.skip(0) =~= members@);
            while i < members.len()
                invariant
                    i <= members@.len(),
                    wanted@ == key@,
                    member(*v, key@) == first_member(members@, key@),
                    first_member(members@, key@) == first_member(members@.skip(i as int), key@),
                decreases members@.len() - i,
            {
                assert(members@.skip(i as int).drop_first() =~= members@.skip(i + 1));
                assert(members@.skip(i as int)[0] == members@[i as int]);
                if members[i].0 == wanted {
                    assert(first_member(members@, key@) == Some(members@[i as int].1));
                    return Some(&members[i].1);
                }
                i = i + 1;
            }
            None
        },
        _ => None,
    }
}

/// The unsigned integer held by `v`, if it holds one.
pub fn u64_of(v: Option<&Json>) -> (r: Option<u64>)
    ensures
        r == as_u64(
            match v {
                Some(x) => Some(*x),
                None => None,
            },
        ),
{
    match v {
        Some(Json::Number(n)) => *n,
        _ => None,
    }
}

/// The length of `v` where it is an array.
pub fn array_len_of(v: Option<&Json>) -> (r: Option<usize>)
    ensures
        match array_len(
            match v {
                Some(x) => Some(*x),
                None => None,
            },
        ) {
            Some(n) => r matches Some(k) && k == n,
            None => r is None,
        },
{
    match v {
        Some(Json::Array(a)) => Some(a.len()),
        _ => None,
    }
}

} // verus!
