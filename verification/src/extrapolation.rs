//! How a settings cache that was written for another version of the schema is
//! carried over to the current one.

use crate::json::{JsonMap, JsonValue, JsonView};
use crate::schema::{SchemaNode, SchemaView};
use vstd::prelude::*;

verus! {

/// What stands in the cache for one node, where the new cache holds `new`
/// for it: what can be taken over of `new`, on top of `old`; or `fallback`,
/// where the new cache holds nothing.
pub open spec fn carried_part(
    old: JsonView,
    fallback: JsonView,
    new: Option<JsonView>,
    node: SchemaView,
) -> JsonView
    decreases node, 1int,
{
    match new {
        Some(value) => carried_over(old, value, node),
        None => fallback,
    }
}

/// The named parts of a cache, for the names that have data. Where a name is
/// given twice, the later node counts.
pub open spec fn carried_named(
    old: JsonView,
    new: JsonView,
    named: Seq<(Seq<char>, Option<SchemaView>)>,
) -> Map<Seq<char>, JsonView>
    decreases named, 0int,
{
    if named.len() == 0 {
        Map::empty()
    } else {
        let rest = carried_named(old, new, named.drop_last());
        let name = named.last().0;
        match named.last().1 {
            Some(node) => rest.insert(
                name,
                carried_part(old.member(name), old.member(name), new.get(name), node),
            ),
            None => rest,
        }
    }
}

/// The items of an array, one for each node.
pub open spec fn carried_items(old: JsonView, new: JsonView, nodes: Seq<SchemaView>) -> Seq<
    JsonView,
>
    decreases nodes, 0int,
{
    Seq::new(
        nodes.len(),
        |i: int|
            if 0 <= i < nodes.len() {
                carried_part(old.item(i), old.item(i), new.get_item(i), nodes[i])
            } else {
                JsonView::Null
            },
    )
}

/// The value that the new cache holds under a name, if it is of the right
/// kind; else what the old cache holds.
pub open spec fn kept(
    old: JsonView,
    new: JsonView,
    name: Seq<char>,
    right_kind: spec_fn(JsonView) -> bool,
) -> JsonView {
    match new.get(name) {
        Some(value) => if right_kind(value) {
            value
        } else {
            old.member(name)
        },
        None => old.member(name),
    }
}

/// The settings cache that takes over from `new` whatever matches `schema` by
/// name and by kind of value, and has the rest from `old`.
pub open spec fn carried_over(old: JsonView, new: JsonView, schema: SchemaView) -> JsonView
    decreases schema, 0int,
{
    match schema {
        SchemaView::Section { entries } => JsonView::Object(carried_named(old, new, entries)),
        SchemaView::Choice { variants } => JsonView::Object(
            carried_named(old, new, variants).insert(
                "variant"@,
                kept(old, new, "variant"@, |v: JsonView| v is String),
            ),
        ),
        SchemaView::Optional { content } => JsonView::Object(
            Map::empty().insert("set"@, kept(old, new, "set"@, |v: JsonView| v is Bool)).insert(
                "content"@,
                carried_part(
                    old.member("content"@),
                    old.member("content"@),
                    new.get("content"@),
                    *content,
                ),
            ),
        ),
        SchemaView::Switch { content } => JsonView::Object(
            Map::empty().insert(
                "enabled"@,
                kept(old, new, "enabled"@, |v: JsonView| v is Bool),
            ).insert(
                "content"@,
                carried_part(
                    old.member("content"@),
                    old.member("content"@),
                    new.get("content"@),
                    *content,
                ),
            ),
        ),
        SchemaView::Boolean => if new is Bool {
            new
        } else {
            old
        },
        SchemaView::Integer => if new.is_i64() {
            new
        } else {
            old
        },
        SchemaView::Float => if new.is_f64() {
            new
        } else {
            old
        },
        SchemaView::Text => if new is String {
            new
        } else {
            old
        },
        SchemaView::Array(nodes) => JsonView::Array(carried_items(old, new, nodes)),
        SchemaView::Vector { default_element } => JsonView::Object(
            Map::empty().insert(
                "element"@,
                carried_part(
                    old.member("content"@),
                    old.member("content"@),
                    new.get("element"@),
                    *default_element,
                ),
            ).insert("default"@, kept(old, new, "default"@, |v: JsonView| true)),
        ),
        SchemaView::Dictionary { default_value } => JsonView::Object(
            Map::empty().insert("key"@, kept(old, new, "key"@, |v: JsonView| v is String)).insert(
                "value"@,
                carried_part(
                    old.member("value"@),
                    old.member("content"@),
                    new.get("value"@),
                    *default_value,
                ),
            ).insert("default"@, kept(old, new, "default"@, |v: JsonView| true)),
        ),
    }
}

/// The model of a value that may be missing.
pub open spec fn optional_view(value: Option<&JsonValue>) -> Option<JsonView> {
    match value {
        Some(v) => Some(v@),
        None => None,
    }
}

/// What stands in the cache for one node: see `carried_part`.
fn extrapolate_part(
    old: &JsonValue,
    fallback: &JsonValue,
    new: Option<&JsonValue>,
    node: &SchemaNode,
) -> (part: JsonValue)
    ensures
        part@ == carried_part(old@, fallback@, optional_view(new), node@),
    decreases node, 1int,
{
    match new {
        Some(value) => extrapolate_settings_cache(old, value, node),
        None => fallback.clone(),
    }
}

/// The named parts of a cache: see `carried_named`.
fn extrapolate_named(
    old_cache: &JsonValue,
    new_cache: &JsonValue,
    named: &Vec<(String, Option<SchemaNode>)>,
) -> (fields: JsonMap)
    ensures
        fields@ == carried_named(old_cache@, new_cache@, crate::schema::named_view(named@)),
    decreases named, 0int,
{
    let ghost names = crate::schema::named_view(named@);
    let mut fields = JsonMap::new();
    let mut i: usize = 0;
    while i < named.len()
        invariant
            i <= named.len(),
            names == crate::schema::named_view(named@),
            fields@ == carried_named(old_cache@, new_cache@, names.take(i as int)),
        decreases named.len() - i,
    {
        let name = &named[i].0;
        assert(names.take(i + 1).drop_last() == names.take(i as int));
        if let Some(node) = &named[i].1 {
            let old = old_cache.member(name.as_str());
            let part = extrapolate_part(old, old, new_cache.get(name.as_str()), node);
            fields.insert(name.clone(), part);
        }
        i += 1;
    }
    assert(names.take(i as int) == names);
    fields
}

/// The items of an array: see `carried_items`.
fn extrapolate_items(
    old_cache: &JsonValue,
    new_cache: &JsonValue,
    nodes: &Vec<SchemaNode>,
) -> (items: Vec<JsonValue>)
    ensures
        crate::json::items_view(items@) == carried_items(
            old_cache@,
            new_cache@,
            crate::schema::nodes_view(nodes@),
        ),
    decreases nodes, 0int,
{
    let ghost expected = carried_items(
        old_cache@,
        new_cache@,
        crate::schema::nodes_view(nodes@),
    );
    let mut items: Vec<JsonValue> = Vec::new();
    let mut i: usize = 0;
    while i < nodes.len()
        invariant
            i <= nodes.len(),
            items.len() == i,
            expected == carried_items(
                old_cache@,
                new_cache@,
                crate::schema::nodes_view(nodes@),
            ),
            forall|j: int|
                0 <= j < i ==> crate::json::value_view(#[trigger] items@[j]) == expected[j],
        decreases nodes.len() - i,
    {
        let old = old_cache.item(i);
        let item = extrapolate_part(old, old, new_cache.get_item(i), &nodes[i]);
        items.push(item);
        i += 1;
    }
    assert(crate::json::items_view(items@) =~= expected);
    items
}

/// Carries a settings cache over to the current schema: names and kinds of
/// values must match exactly. Whether a value lies within the bounds of the
/// schema, whether a variant is one of those of a choice, and what the default
/// of a vector or a dictionary holds, is not looked at.
pub fn extrapolate_settings_cache(
    old_cache: &JsonValue,
    new_cache: &JsonValue,
    schema: &SchemaNode,
) -> (cache: JsonValue)
    ensures
        cache@ == carried_over(old_cache@, new_cache@, schema@),
    decreases schema, 0int,
{
    match schema {
        SchemaNode::Section { entries } => JsonValue::Object(
            extrapolate_named(old_cache, new_cache, entries),
        ),
        SchemaNode::Choice { variants } => {
            let variant = match new_cache.get("variant") {
                Some(value) if value.is_string() => value.clone(),
                _ => old_cache.member("variant").clone(),
            };
            let mut fields = extrapolate_named(old_cache, new_cache, variants);
            fields.insert("variant".to_owned(), variant);
            JsonValue::Object(fields)
        },
        SchemaNode::Optional { content } => {
            let set = match new_cache.get("set") {
                Some(value) if value.is_boolean() => value.clone(),
                _ => old_cache.member("set").clone(),
            };
            let old = old_cache.member("content");
            let part = extrapolate_part(old, old, new_cache.get("content"), content);
            let mut fields = JsonMap::new();
            fields.insert("set".to_owned(), set);
            fields.insert("content".to_owned(), part);
            JsonValue::Object(fields)
        },
        SchemaNode::Switch { content } => {
            let enabled = match new_cache.get("enabled") {
                Some(value) if value.is_boolean() => value.clone(),
                _ => old_cache.member("enabled").clone(),
            };
            let old = old_cache.member("content");
            let part = extrapolate_part(old, old, new_cache.get("content"), content);
            let mut fields = JsonMap::new();
            fields.insert("enabled".to_owned(), enabled);
            fields.insert("content".to_owned(), part);
            JsonValue::Object(fields)
        },
        SchemaNode::Boolean => if new_cache.is_boolean() {
            new_cache.clone()
        } else {
            old_cache.clone()
        },
        SchemaNode::Integer => if new_cache.is_i64() {
            new_cache.clone()
        } else {
            old_cache.clone()
        },
        SchemaNode::Float => if new_cache.is_f64() {
            new_cache.clone()
        } else {
            old_cache.clone()
        },
        SchemaNode::Text => if new_cache.is_string() {
            new_cache.clone()
        } else {
            old_cache.clone()
        },
        SchemaNode::Array(nodes) => JsonValue::Array(
            extrapolate_items(old_cache, new_cache, nodes),
        ),
        SchemaNode::Vector { default_element } => {
            let old = old_cache.member("content");
            let element = extrapolate_part(old, old, new_cache.get("element"), default_element);
            let default = match new_cache.get("default") {
                Some(value) => value.clone(),
                None => old_cache.member("default").clone(),
            };
            let mut fields = JsonMap::new();
            fields.insert("element".to_owned(), element);
            fields.insert("default".to_owned(), default);
            JsonValue::Object(fields)
        },
        SchemaNode::Dictionary { default_value } => {
            let key = match new_cache.get("key") {
                Some(value) if value.is_string() => value.clone(),
                _ => old_cache.member("key").clone(),
            };
            let value = extrapolate_part(
                old_cache.member("value"),
                old_cache.member("content"),
                new_cache.get("value"),
                default_value,
            );
            let default = match new_cache.get("default") {
                Some(value) => value.clone(),
                None => old_cache.member("default").clone(),
            };
            let mut fields = JsonMap::new();
            fields.insert("key".to_owned(), key);
            fields.insert("value".to_owned(), value);
            fields.insert("default".to_owned(), default);
            JsonValue::Object(fields)
        },
    }
}

} // verus!
