//! Reading JSON text: the text is parsed by `serde_json`, and its value is
//! brought over, node by node, to the value that the library computes on.

use crate::json::{JsonMap, JsonNumber, JsonValue, JsonView};
use vstd::prelude::*;

verus! {

/// A JSON value of `serde_json`.
#[verifier::external_type_specification]
#[verifier::external_body]
pub struct ExValue(serde_json::Value);

/// An error of `serde_json`.
#[verifier::external_type_specification]
#[verifier::external_body]
pub struct ExError(serde_json::Error);

/// What a JSON value of `serde_json` holds.
pub uninterp spec fn value_contents(value: serde_json::Value) -> JsonView;

/// What `serde_json::from_str` makes of a text, as a JSON value: `None` where
/// it refuses the text.
pub uninterp spec fn json_text(text: Seq<char>) -> Option<JsonView>;

/// One node of a JSON value of `serde_json`, with its parts as they are.
enum Node {
    Null,
    Bool(bool),
    Number(serde_json::Value),
    String(String),
    Array(Vec<serde_json::Value>),
    Object(Vec<(String, serde_json::Value)>),
}

/// The model of one node.
spec fn node_contents(node: Node) -> JsonView {
    match node {
        Node::Null => JsonView::Null,
        Node::Bool(b) => JsonView::Bool(b),
        Node::Number(n) => value_contents(n),
        Node::String(s) => JsonView::String(s@),
        Node::Array(items) => JsonView::Array(items@.map_values(|v| value_contents(v))),
        Node::Object(members) => JsonView::Object(members_contents(members@)),
    }
}

/// The map that a list of members stands for.
spec fn members_contents(members: Seq<(String, serde_json::Value)>) -> Map<Seq<char>, JsonView>
    decreases members.len(),
{
    if members.len() == 0 {
        Map::empty()
    } else {
        members_contents(members.drop_last()).insert(
            members.last().0@,
            value_contents(members.last().1),
        )
    }
}

/// `serde_json::from_str`, asked for a `serde_json::Value`: which texts it
/// takes, and what value comes out, depends on the text alone. Nothing is said
/// of the error that comes with a text that it refuses.
#[verifier::external_body]
fn value_from_str(text: &str) -> (result: Result<serde_json::Value, serde_json::Error>)
    ensures
        result is Ok <==> json_text(text@) is Some,
        result matches Ok(value) ==> json_text(text@) == Some(value_contents(value)),
{
    serde_json::from_str(text)
}

/// Takes a `serde_json::Value` apart by its variants; `serde_json::Map` hands
/// out its members one by one, no name twice.
#[verifier::external_body]
fn into_node(value: serde_json::Value) -> (node: Node)
    ensures
        node_contents(node) == value_contents(value),
        node matches Node::Number(number) ==> value_contents(number) is Number,
        node matches Node::Object(members) ==> distinct_members(members@),
{
    match value {
        serde_json::Value::Null => Node::Null,
        serde_json::Value::Bool(b) => Node::Bool(b),
        number @ serde_json::Value::Number(_) => Node::Number(number),
        serde_json::Value::String(s) => Node::String(s),
        serde_json::Value::Array(items) => Node::Array(items),
        serde_json::Value::Object(members) => Node::Object(members.into_iter().collect()),
    }
}

/// `serde_json::Value::as_u64`: the number, if it is a non-negative integer.
#[verifier::external_body]
fn value_as_u64(value: &serde_json::Value) -> (n: Option<u64>)
    ensures
        n == (match value_contents(*value) {
            JsonView::Number(JsonNumber::PosInt(n)) => Some(n),
            _ => None,
        }),
{
    value.as_u64()
}

/// `serde_json::Value::as_i64`: the number, if it is an integer that fits.
#[verifier::external_body]
fn value_as_i64(value: &serde_json::Value) -> (n: Option<i64>)
    ensures
        n == (match value_contents(*value) {
            JsonView::Number(JsonNumber::PosInt(n)) => if n <= i64::MAX {
                Some(n as i64)
            } else {
                None
            },
            JsonView::Number(JsonNumber::NegInt(n)) => Some(n),
            _ => None,
        }),
{
    value.as_i64()
}

/// `serde_json::Value::as_f64`, of a number that is no integer: it is there,
/// and is given by its bits.
#[verifier::external_body]
fn value_as_double_bits(value: &serde_json::Value) -> (bits: u64)
    requires
        value_contents(*value).is_f64(),
    ensures
        value_contents(*value) == JsonView::Number(JsonNumber::Float(bits)),
{
    value.as_f64().unwrap().to_bits()
}

/// The number that a value of `serde_json` holds.
fn import_number(value: &serde_json::Value) -> (number: JsonNumber)
    requires
        value_contents(*value) is Number,
    ensures
        value_contents(*value) == JsonView::Number(number),
{
    match value_as_u64(value) {
        Some(n) => JsonNumber::PosInt(n),
        None => match value_as_i64(value) {
            Some(n) => JsonNumber::NegInt(n),
            None => JsonNumber::Float(value_as_double_bits(value)),
        },
    }
}

/// The value that a value of `serde_json` holds.
pub fn import_value(value: serde_json::Value) -> (result: JsonValue)
    ensures
        result@ == value_contents(value),
    decreases value_contents(value),
{
    match into_node(value) {
        Node::Null => JsonValue::Null,
        Node::Bool(b) => JsonValue::Bool(b),
        Node::Number(n) => JsonValue::Number(import_number(&n)),
        Node::String(s) => JsonValue::String(s),
        Node::Array(items) => {
            let ghost contents = items@.map_values(|v| value_contents(v));
            let ghost all = items@;
            let mut results: Vec<JsonValue> = Vec::new();
            for item in it: items
                invariant
                    value_contents(value) == JsonView::Array(contents),
                    contents == all.map_values(|v| value_contents(v)),
                    it.seq() == all,
                    results.len() == it.index(),
                    forall|j: int|
                        0 <= j < results.len() ==> crate::json::value_view(#[trigger] results@[j])
                            == contents[j],
            {
                assert(value_contents(item) == contents[it.index() as int]);
                assert(value_contents(value)->Array_0 == contents);
                assert(decreases_to!(value_contents(value) => value_contents(value)->Array_0));
                assert(decreases_to!(contents => contents[it.index() as int]));
                results.push(import_value(item));
            }
            assert(crate::json::items_view(results@) =~= contents);
            JsonValue::Array(results)
        },
        Node::Object(members) => {
            let ghost contents = members_contents(members@);
            let ghost all = members@;
            let mut results = JsonMap::new();
            proof {
                lemma_members(all);
                assert(all.take(0) =~= Seq::empty());
            }
            for member in it: members
                invariant
                    value_contents(value) == JsonView::Object(contents),
                    contents == members_contents(all),
                    it.seq() == all,
                    distinct_members(all),
                    forall|i: int|
                        0 <= i < all.len() ==> contents.contains_pair(
                            (#[trigger] all[i]).0@,
                            value_contents(all[i].1),
                        ),
                    results@ == members_contents(all.take(it.index() as int)),
            {
                let ghost i = it.index() as int;
                assert(member == all[i]);
                assert(contents.contains_pair(all[i].0@, value_contents(all[i].1)));
                assert(all.take(i + 1).drop_last() == all.take(i));
                assert(value_contents(value)->Object_0 == contents);
                assert(decreases_to!(value_contents(value) => value_contents(value)->Object_0[all[i].0@]));
                results.insert(member.0, import_value(member.1));
            }
            assert(all.take(all.len() as int) == all);
            JsonValue::Object(results)
        },
    }
}

/// No name occurs twice among the members.
spec fn distinct_members(members: Seq<(String, serde_json::Value)>) -> bool {
    forall|i: int, j: int|
        0 <= i < j < members.len() ==> (#[trigger] members[i]).0@ != (#[trigger] members[j]).0@
}

/// Where no name occurs twice, the map holds each member.
proof fn lemma_members(members: Seq<(String, serde_json::Value)>)
    requires
        distinct_members(members),
    ensures
        forall|i: int|
            0 <= i < members.len() ==> members_contents(members).contains_pair(
                (#[trigger] members[i]).0@,
                value_contents(members[i].1),
            ),
    decreases members.len(),
{
    if members.len() > 0 {
        let rest = members.drop_last();
        lemma_members(rest);
        assert forall|i: int| 0 <= i < members.len() implies members_contents(
            members,
        ).contains_pair((#[trigger] members[i]).0@, value_contents(members[i].1)) by {
            if i < rest.len() {
                assert(rest[i] == members[i]);
            }
        }
    }
}

/// Parses a JSON text. The error that refuses a text is the one of
/// `serde_json`, of which nothing is said.
pub fn parse_json(text: &str) -> (result: Result<JsonValue, serde_json::Error>)
    ensures
        result is Ok <==> json_text(text@) is Some,
        result matches Ok(value) ==> json_text(text@) == Some(value@),
{
    match value_from_str(text) {
        Ok(value) => Ok(import_value(value)),
        Err(error) => Err(error),
    }
}

} // verus!
