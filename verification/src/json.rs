//! The reading of a peer's answer to a get.
//!
//! A peer answers a get with a JSON object that holds the timestamp of
//! its value under `ts`, the node that wrote it under `node_id`, and the
//! data, if there is any, under `data`. The bytes of the answer are taken
//! apart by `serde_json`; what it finds under a name is taken on trust
//! and named here, and the value is put together from the parts in
//! verified code.

use vstd::prelude::*;
use crate::value::{text_view, value_view, Value, ValueView};

verus! {

/// The unsigned 64-bit number under `name` in the JSON object that
/// `body` encodes; none where `body` is not JSON, the document is not an
/// object, it has no member of that name, or the member is not such a
/// number.
pub uninterp spec fn json_u64_field(body: Seq<u8>, name: Seq<char>) -> Option<u64>;

/// The text under `name` in the JSON object that `body` encodes; none
/// where `body` is not JSON, the document is not an object, it has no
/// member of that name, or the member is not a string.
pub uninterp spec fn json_text_field(body: Seq<u8>, name: Seq<char>) -> Option<Seq<char>>;

/// Parses `body` with `serde_json::from_slice`, looks `name` up with
/// `serde_json::Value::get` and reads the member with
/// `serde_json::Value::as_u64`. Each of the three returns nothing where
/// it does not apply, and what they return depends on `body` and `name`
/// alone; the contract gives that result the name `json_u64_field`.
#[verifier::external_body]
fn u64_field(body: &[u8], name: &str) -> (number: Option<u64>)
    ensures
        number == json_u64_field(body@, name@),
{
    let doc: serde_json::Value = match serde_json::from_slice(body) {
        Ok(doc) => doc,
        Err(_) => return None,
    };
    match doc.get(name) {
        Some(member) => member.as_u64(),
        None => None,
    }
}

/// Parses `body` with `serde_json::from_slice`, looks `name` up with
/// `serde_json::Value::get` and reads the member with
/// `serde_json::Value::as_str`. Each of the three returns nothing where
/// it does not apply, and what they return depends on `body` and `name`
/// alone; the contract gives that result the name `json_text_field`.
#[verifier::external_body]
fn text_field(body: &[u8], name: &str) -> (text: Option<String>)
    ensures
        text_view(text) == json_text_field(body@, name@),
{
    let doc: serde_json::Value = match serde_json::from_slice(body) {
        Ok(doc) => doc,
        Err(_) => return None,
    };
    match doc.get(name) {
        Some(member) => member.as_str().map(String::from),
        None => None,
    }
}

/// The value that the parts of an answer make up: an answer counts only
/// with both a timestamp and a node; its data may be missing.
pub open spec fn assembled(ts: Option<u64>, node_id: Option<u64>, data: Option<Seq<char>>)
    -> Option<ValueView> {
    match (ts, node_id) {
        (Some(ts), Some(node_id)) => Some(ValueView { data, ts, node_id }),
        _ => None,
    }
}

/// The value that a peer's answer carries.
pub open spec fn peer_answer(body: Seq<u8>) -> Option<ValueView> {
    assembled(
        json_u64_field(body, "ts"@),
        json_u64_field(body, "node_id"@),
        json_text_field(body, "data"@),
    )
}

/// Puts a value together from the parts of an answer: an answer counts
/// only with both a timestamp and a node; its data may be missing.
pub fn assemble_value(ts: Option<u64>, node_id: Option<u64>, data: Option<String>) -> (value:
    Option<Value>)
    ensures
        value_view(value) == assembled(ts, node_id, text_view(data)),
{
    match (ts, node_id) {
        (Some(ts), Some(node_id)) => Some(Value { data, ts, node_id }),
        _ => None,
    }
}

/// Reads the value that a peer's answer carries from the bytes of the
/// answer; none where the answer is not a JSON object with a timestamp
/// and a node.
pub fn peer_value(body: &[u8]) -> (value: Option<Value>)
    ensures
        value_view(value) == peer_answer(body@),
{
    let ts = u64_field(body, "ts");
    let node_id = u64_field(body, "node_id");
    let data = text_field(body, "data");
    assemble_value(ts, node_id, data)
}

} // verus!
