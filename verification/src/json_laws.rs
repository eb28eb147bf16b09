//! What can be found in a JSON value, told of calls and their results.

use crate::json::{JsonMap, JsonNumber, JsonValue, JsonView};
use crate::parts;
use crate::parse::{import_value, parse_json};
use vstd::prelude::*;

verus! {

/// The model of a value holds what the value holds.
pub proof fn lemma_model_holds_what_the_value_holds(
    b: bool,
    n: JsonNumber,
    s: String,
    items: Vec<JsonValue>,
    map: JsonMap,
)
    ensures
        JsonValue::Null@ == JsonView::Null,
        JsonValue::Bool(b)@ == JsonView::Bool(b),
        JsonValue::Number(n)@ == JsonView::Number(n),
        JsonValue::String(s)@ == JsonView::String(s@),
        JsonValue::Object(map)@ == JsonView::Object(map@),
        JsonValue::Array(items)@ is Array,
        JsonValue::Array(items)@->Array_0.len() == items@.len(),
        forall|i: int|
            0 <= i < items@.len() ==> JsonValue::Array(items)@->Array_0[i] == #[trigger] items@[i]@,
{
    let views = crate::json::items_view(items@);
    assert(JsonValue::Array(items)@->Array_0 == views);
    assert forall|i: int| 0 <= i < items@.len() implies JsonValue::Array(items)@->Array_0[i]
        == #[trigger] items@[i]@ by {
        assert(views[i] == crate::json::value_view(items@[i]));
    }
}

/// Looking a name up finds the member of that name, and null stands for one
/// that is not there; so for the items of an array.
pub proof fn lemma_lookup_finds_the_part(
    value: JsonValue,
    name: &str,
    index: usize,
    found: Option<&JsonValue>,
    part: &JsonValue,
)
    ensures
        call_ensures(JsonValue::get, (&value, name), found) ==> {
            &&& found is Some <==> parts::has_member(value@, name@)
            &&& found is Some ==> parts::is_part(value@, name@, found->Some_0@)
        },
        call_ensures(JsonValue::member, (&value, name), part) ==> parts::is_part(
            value@,
            name@,
            part@,
        ),
        call_ensures(JsonValue::get_item, (&value, index), found) ==> {
            &&& found is Some <==> parts::has_item(value@, index as int)
            &&& found is Some ==> parts::is_item(value@, index as int, found->Some_0@)
        },
        call_ensures(JsonValue::item, (&value, index), part) ==> parts::is_item(
            value@,
            index as int,
            part@,
        ),
{
}

/// The kinds of values are told apart.
pub proof fn lemma_kinds_are_told_apart(value: JsonValue, answer: bool)
    ensures
        call_ensures(JsonValue::is_boolean, (&value,), answer) ==> (answer <==> value is Bool),
        call_ensures(JsonValue::is_string, (&value,), answer) ==> (answer <==> value is String),
        call_ensures(JsonValue::is_i64, (&value,), answer) ==> (answer <==> (match value {
            JsonValue::Number(JsonNumber::PosInt(n)) => n <= 0x7fff_ffff_ffff_ffff,
            JsonValue::Number(JsonNumber::NegInt(_)) => true,
            _ => false,
        })),
        call_ensures(JsonValue::is_f64, (&value,), answer) ==> (answer <==> (match value {
            JsonValue::Number(JsonNumber::Float(_)) => true,
            _ => false,
        })),
{
}

/// A copy holds what the value holds.
pub proof fn lemma_copy_is_the_same(
    value: JsonValue,
    copy: JsonValue,
    map: JsonMap,
    map_copy: JsonMap,
)
    ensures
        call_ensures(JsonValue::clone, (&value,), copy) ==> copy@ == value@,
        call_ensures(JsonMap::clone, (&map,), map_copy) ==> map_copy@ == map@,
{
}

/// In an object without members nothing is found.
pub proof fn lemma_new_object_is_empty(map: JsonMap, name: &str, found: Option<&JsonValue>)
    requires
        call_ensures(JsonMap::new, (), map),
        call_ensures(JsonMap::get, (&map, name), found),
    ensures
        found is None,
{
}

/// A member that was set is found under its name, and what was there under
/// any other name before is found as it was.
pub proof fn lemma_set_member_is_found(
    map: &mut JsonMap,
    name: String,
    value: JsonValue,
    other: &str,
    before: Option<&JsonValue>,
    after: Option<&JsonValue>,
)
    requires
        call_ensures(JsonMap::insert, (map, name, value), ()),
        call_ensures(JsonMap::get, (&*old(map), other), before),
        call_ensures(JsonMap::get, (&*final(map), other), after),
    ensures
        other@ == name@ ==> (after matches Some(found) && found@ == value@),
        other@ != name@ ==> {
            &&& after is Some <==> before is Some
            &&& after is Some ==> after->Some_0@ == before->Some_0@
        },
{
}

/// Whether the member at that place has that name.
pub open spec fn has_name(map: JsonMap, k: usize, name: Seq<char>) -> bool {
    forall|entry: (&String, &JsonValue)| #[trigger]
        call_ensures(JsonMap::entry, (&map, k), entry) ==> entry.0@ == name
}

/// Walking through the members, from the first to the last, meets each name
/// once, with the value that is found under it.
pub proof fn lemma_walk_meets_each_member(
    map: JsonMap,
    n: usize,
    i: usize,
    j: usize,
    first: (&String, &JsonValue),
    second: (&String, &JsonValue),
    name: &str,
    found: Option<&JsonValue>,
)
    requires
        call_ensures(JsonMap::len, (&map,), n),
        call_ensures(JsonMap::get, (&map, name), found),
        i < n,
        j < n,
        call_ensures(JsonMap::entry, (&map, i), first),
        call_ensures(JsonMap::entry, (&map, j), second),
    ensures
        name@ == first.0@ ==> (found matches Some(value) && value@ == first.1@),
        i != j ==> first.0@ != second.0@,
        found is Some ==> exists|k: usize| k < n && #[trigger] has_name(map, k, name@),
{
    if found is Some {
        assert(map.names().contains(name@));
        let k = choose|k: int| 0 <= k < map.names().len() && map.names()[k] == name@;
        assert(has_name(map, k as usize, name@));
    }
}

/// A text is parsed if and only if it is JSON, and gives the value that it
/// stands for; and a value that was parsed before is taken over as it is.
pub proof fn lemma_parsed_value_is_that_of_the_text(
    text: &str,
    result: Result<JsonValue, serde_json::Error>,
    outside: serde_json::Value,
    value: JsonValue,
)
    ensures
        call_ensures(parse_json, (text,), result) ==> (match crate::parse::json_text(text@) {
            Some(json) => result matches Ok(parsed) && parsed@ == json,
            None => result is Err,
        }),
        call_ensures(import_value, (outside,), value) ==> value@ == crate::parse::value_contents(
            outside,
        ),
{
}

/// Any text can be parsed, and anything can be looked up in any value.
pub proof fn lemma_anything_can_be_looked_up(
    text: &str,
    outside: serde_json::Value,
    value: JsonValue,
    map: JsonMap,
    name: &str,
    index: usize,
    n: usize,
)
    ensures
        call_requires(parse_json, (text,)),
        call_requires(import_value, (outside,)),
        call_requires(JsonValue::get, (&value, name)),
        call_requires(JsonValue::member, (&value, name)),
        call_requires(JsonValue::get_item, (&value, index)),
        call_requires(JsonValue::item, (&value, index)),
        call_requires(JsonMap::get, (&map, name)),
        call_requires(JsonMap::len, (&map,)),
        call_ensures(JsonMap::len, (&map,), n) && index < n ==> call_requires(
            JsonMap::entry,
            (&map, index),
        ),
{
}

} // verus!
