//! JSON values, as `serde_json` holds, reads and writes them.
//!
//! A `serde_json::Value` is opaque to the proofs.  [`shape_of`] stands for
//! what a value is at its top level, and the contracts in this file say, in
//! its terms, what the functions of `serde_json` that the protocol layer
//! calls do.  None of these contracts is proved: each restates the outside
//! function's documented behaviour.
use serde_json::Value;
use vstd::prelude::*;

verus! {

/// `serde_json::Value`: any JSON value.
#[verifier::external_type_specification]
#[verifier::external_body]
pub struct ExValue(serde_json::Value);

/// `serde_json::Error`: why text could not be read or a value not written.
#[verifier::external_type_specification]
#[verifier::external_body]
pub struct ExJsonError(serde_json::Error);

/// What a JSON value is at its top level.
pub enum Shape {
    Null,
    Bool(bool),
    /// A number that is whole, not negative, and below 2^64.
    Natural(u64),
    Text(Seq<char>),
    /// An object: its members by key.
    Object(Map<Seq<char>, Value>),
    /// An array, or a number that is negative or not whole.
    Other,
}

/// The top level of `v`: which variant of `serde_json::Value` it is, and
/// what that variant holds.
pub uninterp spec fn shape_of(v: Value) -> Shape;

/// What `serde_json::from_slice` reads `text` as, `None` where it reports an
/// error.
pub uninterp spec fn parsed(text: Seq<u8>) -> Option<Value>;

/// What `serde_json::to_vec` writes for `v`, `None` where it reports an
/// error.
pub uninterp spec fn printed(v: Value) -> Option<Seq<u8>>;

/// `serde_json::from_slice::<Value>`: the value that the text denotes, or an
/// error.  The same text always gives the same outcome.
#[verifier::external_body]
pub(crate) fn parse(text: &[u8]) -> (r: Result<Value, serde_json::Error>)
    ensures
        match r {
            Ok(v) => parsed(text@) == Some(v),
            Err(_) => parsed(text@) is None,
        },
{
    serde_json::from_slice(text)
}

/// `serde_json::to_vec::<Value>`: the compact text of `v`, or an error.  The
/// same value always gives the same outcome.
#[verifier::external_body]
pub(crate) fn print(v: &Value) -> (r: Result<Vec<u8>, serde_json::Error>)
    ensures
        match r {
            Ok(text) => printed(*v) == Some(text@),
            Err(_) => printed(*v) is None,
        },
{
    serde_json::to_vec(v)
}

/// `Value::get` with a string index: the member of an object under `key`;
/// `None` where `v` is no object or has no such member.
#[verifier::external_body]
pub(crate) fn member<'a>(v: &'a Value, key: &str) -> (r: Option<&'a Value>)
    ensures
        match shape_of(*v) {
            Shape::Object(members) => if members.contains_key(key@) {
                r == Some(&members[key@])
            } else {
                r is None
            },
            _ => r is None,
        },
{
    v.get(key)
}

/// `Value::as_str`: the text of a JSON string, `None` for any other value.
#[verifier::external_body]
pub(crate) fn as_text(v: &Value) -> (r: Option<String>)
    ensures
        match shape_of(*v) {
            Shape::Text(s) => r matches Some(t) && t@ == s,
            _ => r is None,
        },
{
    v.as_str().map(str::to_owned)
}

/// `Value::as_u64`: the number, where it is whole, not negative and below
/// 2^64; `None` for any other value.
#[verifier::external_body]
pub(crate) fn as_natural(v: &Value) -> (r: Option<u64>)
    ensures
        match shape_of(*v) {
            Shape::Natural(n) => r == Some(n),
            _ => r is None,
        },
{
    v.as_u64()
}

/// `Value::as_bool`: the truth value of a JSON boolean, `None` for any other
/// value.
#[verifier::external_body]
pub(crate) fn as_boolean(v: &Value) -> (r: Option<bool>)
    ensures
        match shape_of(*v) {
            Shape::Bool(b) => r == Some(b),
            _ => r is None,
        },
{
    v.as_bool()
}

/// `Value::clone`: an equal value.
pub assume_specification[ <Value as Clone>::clone ](v: &Value) -> (r: Value)
    ensures
        r == *v,
;

/// `Value::default`: JSON null.
pub assume_specification[ <Value as Default>::default ]() -> (r: Value)
    ensures
        shape_of(r) == Shape::Null,
;

/// `Value::Object` of `Map::new`: an object without members.
#[verifier::external_body]
pub(crate) fn empty_object() -> (r: Value)
    ensures
        shape_of(r) == Shape::Object(Map::empty()),
{
    Value::Object(serde_json::Map::new())
}

/// Assignment through `Value`'s `IndexMut` with a string index: on an
/// object, the member under `key` is `member` afterwards, whether or not
/// there was one before, and every other member is as it was.
#[verifier::external_body]
pub(crate) fn set_member(object: &mut Value, key: &str, member: Value)
    requires
        shape_of(*old(object)) is Object,
    ensures
        shape_of(*final(object)) == Shape::Object(
            shape_of(*old(object))->Object_0.insert(key@, member),
        ),
{
    object[key] = member;
}

/// `Value::from` of a string slice: the JSON string with that text.
#[verifier::external_body]
pub(crate) fn text(s: &str) -> (r: Value)
    ensures
        shape_of(r) == Shape::Text(s@),
{
    Value::from(s)
}

/// `Value::from` of a `u64`: the JSON number `n`.
#[verifier::external_body]
pub(crate) fn natural(n: u64) -> (r: Value)
    ensures
        shape_of(r) == Shape::Natural(n),
{
    Value::from(n)
}

/// `Value::from` of a `bool`: the JSON boolean `b`.
#[verifier::external_body]
pub(crate) fn boolean(b: bool) -> (r: Value)
    ensures
        shape_of(r) == Shape::Bool(b),
{
    Value::from(b)
}

} // verus!
