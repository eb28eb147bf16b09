//! The settings that a settings cache stands for.

use crate::json::{JsonMap, JsonValue, JsonView};
use crate::schema::{SchemaNode, SchemaView};
use vstd::prelude::*;

verus! {

/// No variant carries data.
pub open spec fn only_tags(variants: Seq<(Seq<char>, Option<SchemaView>)>) -> bool {
    forall|i: int| 0 <= i < variants.len() ==> (#[trigger] variants[i]).1 is None
}

/// The place of the first variant of that name; the number of variants, if
/// there is none.
pub open spec fn first_named(
    variants: Seq<(Seq<char>, Option<SchemaView>)>,
    name: Seq<char>,
) -> int
    decreases variants.len(),
{
    if variants.len() == 0 {
        0
    } else {
        let place = first_named(variants.drop_last(), name);
        if place < variants.len() - 1 || variants.last().0 == name {
            place
        } else {
            variants.len() as int
        }
    }
}

/// Whether the settings can be read off the cache: where the schema has a
/// choice with data, a known variant is chosen; where it has an optional value
/// or a switch, the cache says whether it is on; and so on for what is read
/// from there.
pub open spec fn readable(cache: JsonView, schema: SchemaView) -> bool
    decreases schema, 0int,
{
    match schema {
        SchemaView::Section { entries } => readable_named(cache, entries),
        SchemaView::Choice { variants } => {
            ||| only_tags(variants)
            ||| cache.member("variant"@) matches JsonView::String(variant) && {
                let place = first_named(variants, variant);
                &&& 0 <= place < variants.len()
                &&& variants[place].1 matches Some(node) ==> readable(cache.member(variant), node)
            }
        },
        SchemaView::Optional { content } => {
            &&& cache.member("set"@) matches JsonView::Bool(set)
            &&& set ==> readable(cache.member("content"@), *content)
        },
        SchemaView::Switch { content } => {
            &&& cache.member("enabled"@) matches JsonView::Bool(enabled)
            &&& enabled ==> readable(cache.member("content"@), *content)
        },
        SchemaView::Array(nodes) => readable_items(cache, nodes),
        _ => true,
    }
}

/// Whether each named part that has data can be read.
pub open spec fn readable_named(
    cache: JsonView,
    named: Seq<(Seq<char>, Option<SchemaView>)>,
) -> bool
    decreases named, 0int,
{
    forall|i: int|
        0 <= i < named.len() ==> ((#[trigger] named[i]).1 matches Some(node) ==> readable(
            cache.member(named[i].0),
            node,
        ))
}

/// Whether each item of an array can be read.
pub open spec fn readable_items(cache: JsonView, nodes: Seq<SchemaView>) -> bool
    decreases nodes, 0int,
{
    forall|i: int| 0 <= i < nodes.len() ==> readable(cache.item(i), #[trigger] nodes[i])
}

/// The settings of the named parts that have data. Where a name is given
/// twice, the later node counts.
pub open spec fn settings_named(
    cache: JsonView,
    named: Seq<(Seq<char>, Option<SchemaView>)>,
) -> Map<Seq<char>, JsonView>
    decreases named, 0int,
{
    if named.len() == 0 {
        Map::empty()
    } else {
        let rest = settings_named(cache, named.drop_last());
        let name = named.last().0;
        match named.last().1 {
            Some(node) => rest.insert(name, settings_of(cache.member(name), node)),
            None => rest,
        }
    }
}

/// A value of an enum with data: its tag and its content.
pub open spec fn tagged(tag: Seq<char>, content: JsonView) -> JsonView {
    JsonView::Object(
        Map::empty().insert("type"@, JsonView::String(tag)).insert("content"@, content),
    )
}

/// The settings that a readable cache stands for.
pub open spec fn settings_of(cache: JsonView, schema: SchemaView) -> JsonView
    recommends
        readable(cache, schema),
    decreases schema, 0int,
{
    match schema {
        SchemaView::Section { entries } => JsonView::Object(settings_named(cache, entries)),
        SchemaView::Choice { variants } => if only_tags(variants) {
            cache.member("variant"@)
        } else {
            let variant = cache.member("variant"@)->String_0;
            let place = first_named(variants, variant);
            tagged(
                variant,
                if 0 <= place < variants.len() {
                    match variants[place].1 {
                        Some(node) => settings_of(cache.member(variant), node),
                        None => JsonView::Null,
                    }
                } else {
                    JsonView::Null
                },
            )
        },
        SchemaView::Optional { content } => if cache.member("set"@) == JsonView::Bool(true) {
            settings_of(cache.member("content"@), *content)
        } else {
            JsonView::Null
        },
        SchemaView::Switch { content } => if cache.member("enabled"@) == JsonView::Bool(true) {
            tagged("enabled"@, settings_of(cache.member("content"@), *content))
        } else {
            tagged("disabled"@, JsonView::Null)
        },
        SchemaView::Boolean => cache,
        SchemaView::Integer => cache,
        SchemaView::Float => cache,
        SchemaView::Text => cache,
        SchemaView::Array(nodes) => JsonView::Array(
            Seq::new(
                nodes.len(),
                |i: int|
                    if 0 <= i < nodes.len() {
                        settings_of(cache.item(i), nodes[i])
                    } else {
                        JsonView::Null
                    },
            ),
        ),
        SchemaView::Vector { .. } => cache.member("default"@),
        SchemaView::Dictionary { .. } => cache.member("default"@),
    }
}

/// Whether no variant carries data.
fn has_only_tags(variants: &Vec<(String, Option<SchemaNode>)>) -> (answer: bool)
    ensures
        answer == only_tags(crate::schema::named_view(variants@)),
{
    let ghost view = crate::schema::named_view(variants@);
    let mut i: usize = 0;
    while i < variants.len()
        invariant
            i <= variants.len(),
            view == crate::schema::named_view(variants@),
            forall|j: int| 0 <= j < i ==> (#[trigger] view[j]).1 is None,
        decreases variants.len() - i,
    {
        if variants[i].1.is_some() {
            assert(view[i as int].1 is Some);
            return false;
        }
        i += 1;
    }
    true
}

/// The place of the first variant of that name; the number of variants, if
/// there is none.
fn find_named(variants: &Vec<(String, Option<SchemaNode>)>, name: &String) -> (place: usize)
    ensures
        place == first_named(crate::schema::named_view(variants@), name@),
        place <= variants.len(),
{
    let ghost view = crate::schema::named_view(variants@);
    let mut i: usize = 0;
    while i < variants.len()
        invariant
            i <= variants.len(),
            view == crate::schema::named_view(variants@),
            first_named(view.take(i as int), name@) == i,
        decreases variants.len() - i,
    {
        assert(view.take(i + 1).drop_last() == view.take(i as int));
        if variants[i].0 == *name {
            proof {
                lemma_first_named_prefix(view, i + 1, name@);
            }
            return i;
        }
        i += 1;
    }
    assert(view.take(i as int) == view);
    i
}

/// A name found in a prefix is found at the same place in the whole.
proof fn lemma_first_named_prefix(
    variants: Seq<(Seq<char>, Option<SchemaView>)>,
    n: int,
    name: Seq<char>,
)
    requires
        0 <= n <= variants.len(),
        first_named(variants.take(n), name) < n,
    ensures
        first_named(variants, name) == first_named(variants.take(n), name),
    decreases variants.len() - n,
{
    if n < variants.len() {
        assert(variants.take(n + 1).drop_last() == variants.take(n));
        lemma_first_named_prefix(variants, n + 1, name);
    } else {
        assert(variants.take(n) == variants);
    }
}

/// The settings of the named parts: see `settings_named`.
fn settings_from_named(
    cache: &JsonValue,
    named: &Vec<(String, Option<SchemaNode>)>,
) -> (fields: JsonMap)
    requires
        readable_named(cache@, crate::schema::named_view(named@)),
    ensures
        fields@ == settings_named(cache@, crate::schema::named_view(named@)),
    decreases named, 0int,
{
    let ghost names = crate::schema::named_view(named@);
    let mut fields = JsonMap::new();
    let mut i: usize = 0;
    while i < named.len()
        invariant
            i <= named.len(),
            names == crate::schema::named_view(named@),
            readable_named(cache@, names),
            fields@ == settings_named(cache@, names.take(i as int)),
        decreases named.len() - i,
    {
        let name = &named[i].0;
        assert(names.take(i + 1).drop_last() == names.take(i as int));
        if let Some(node) = &named[i].1 {
            assert(names[i as int].1 == Some(node@));
            let part = json_cache_to_settings(cache.member(name.as_str()), node);
            fields.insert(name.clone(), part);
        }
        i += 1;
    }
    assert(names.take(i as int) == names);
    fields
}

/// A value of an enum with data.
fn tagged_value(tag: &str, content: JsonValue) -> (value: JsonValue)
    ensures
        value@ == tagged(tag@, content@),
{
    let mut fields = JsonMap::new();
    fields.insert("type".to_owned(), JsonValue::String(tag.to_owned()));
    fields.insert("content".to_owned(), content);
    JsonValue::Object(fields)
}

/// Reads the settings off a cache. Enums with data have the tag `type` and
/// the content `content`; enums without data are the bare variant.
pub fn json_cache_to_settings(cache: &JsonValue, schema: &SchemaNode) -> (settings: JsonValue)
    requires
        readable(cache@, schema@),
    ensures
        settings@ == settings_of(cache@, schema@),
    decreases schema, 0int,
{
    match schema {
        SchemaNode::Section { entries } => JsonValue::Object(settings_from_named(cache, entries)),
        SchemaNode::Choice { variants } => if has_only_tags(variants) {
            cache.member("variant").clone()
        } else {
            match cache.get("variant") {
                Some(JsonValue::String(variant)) => {
                    let place = find_named(variants, variant);
                    let ghost view = crate::schema::named_view(variants@);
                    assert(view[place as int].1 is Some == variants@[place as int].1 is Some);
                    let content = match &variants[place].1 {
                        Some(node) => json_cache_to_settings(
                            cache.member(variant.as_str()),
                            node,
                        ),
                        None => JsonValue::Null,
                    };
                    tagged_value(variant.as_str(), content)
                },
                _ => {
                    assert(false);
                    JsonValue::Null
                },
            }
        },
        SchemaNode::Optional { content } => match cache.get("set") {
            Some(JsonValue::Bool(true)) => json_cache_to_settings(
                cache.member("content"),
                content,
            ),
            _ => JsonValue::Null,
        },
        SchemaNode::Switch { content } => match cache.get("enabled") {
            Some(JsonValue::Bool(true)) => tagged_value(
                "enabled",
                json_cache_to_settings(cache.member("content"), content),
            ),
            _ => tagged_value("disabled", JsonValue::Null),
        },
        SchemaNode::Boolean => cache.clone(),
        SchemaNode::Integer => cache.clone(),
        SchemaNode::Float => cache.clone(),
        SchemaNode::Text => cache.clone(),
        SchemaNode::Array(nodes) => JsonValue::Array(settings_from_items(cache, nodes)),
        SchemaNode::Vector { .. } => cache.member("default").clone(),
        SchemaNode::Dictionary { .. } => cache.member("default").clone(),
    }
}

/// The settings of the items of an array.
fn settings_from_items(cache: &JsonValue, nodes: &Vec<SchemaNode>) -> (items: Vec<JsonValue>)
    requires
        readable_items(cache@, crate::schema::nodes_view(nodes@)),
    ensures
        JsonView::Array(crate::json::items_view(items@)) == settings_of(
            cache@,
            SchemaView::Array(crate::schema::nodes_view(nodes@)),
        ),
    decreases nodes, 0int,
{
    let ghost schema = SchemaView::Array(crate::schema::nodes_view(nodes@));
    let ghost expected = settings_of(cache@, schema)->Array_0;
    let mut items: Vec<JsonValue> = Vec::new();
    let mut i: usize = 0;
    while i < nodes.len()
        invariant
            i <= nodes.len(),
            items.len() == i,
            schema == SchemaView::Array(crate::schema::nodes_view(nodes@)),
            readable_items(cache@, crate::schema::nodes_view(nodes@)),
            expected == settings_of(cache@, schema)->Array_0,
            forall|j: int| 0 <= j < i ==> crate::json::value_view(#[trigger] items@[j]) == expected[j],
        decreases nodes.len() - i,
    {
        assert(crate::schema::nodes_view(nodes@)[i as int] == nodes@[i as int]@);
        let value = json_cache_to_settings(cache.item(i), &nodes[i]);
        items.push(value);
        i += 1;
    }
    assert(crate::json::items_view(items@) =~= expected);
    items
}

/// Whether the settings can be read off the cache.
pub fn is_readable(cache: &JsonValue, schema: &SchemaNode) -> (answer: bool)
    ensures
        answer == readable(cache@, schema@),
    decreases schema, 0int,
{
    match schema {
        SchemaNode::Section { entries } => are_named_readable(cache, entries),
        SchemaNode::Choice { variants } => if has_only_tags(variants) {
            true
        } else {
            match cache.get("variant") {
                Some(JsonValue::String(variant)) => {
                    let place = find_named(variants, variant);
                    if place == variants.len() {
                        false
                    } else {
                        let ghost view = crate::schema::named_view(variants@);
                        assert(view[place as int].1 is Some == variants@[place as int].1 is Some);
                        match &variants[place].1 {
                            Some(node) => is_readable(cache.member(variant.as_str()), node),
                            None => true,
                        }
                    }
                },
                _ => false,
            }
        },
        SchemaNode::Optional { content } => match cache.get("set") {
            Some(JsonValue::Bool(set)) => !*set || is_readable(cache.member("content"), content),
            _ => false,
        },
        SchemaNode::Switch { content } => match cache.get("enabled") {
            Some(JsonValue::Bool(enabled)) => !*enabled || is_readable(
                cache.member("content"),
                content,
            ),
            _ => false,
        },
        SchemaNode::Array(nodes) => are_items_readable(cache, nodes),
        _ => true,
    }
}

/// Whether each named part that has data can be read.
fn are_named_readable(
    cache: &JsonValue,
    named: &Vec<(String, Option<SchemaNode>)>,
) -> (answer: bool)
    ensures
        answer == readable_named(cache@, crate::schema::named_view(named@)),
    decreases named, 0int,
{
    let ghost names = crate::schema::named_view(named@);
    let mut i: usize = 0;
    while i < named.len()
        invariant
            i <= named.len(),
            names == crate::schema::named_view(named@),
            forall|j: int|
                0 <= j < i ==> ((#[trigger] names[j]).1 matches Some(node) ==> readable(
                    cache@.member(names[j].0),
                    node,
                )),
        decreases named.len() - i,
    {
        if let Some(node) = &named[i].1 {
            assert(names[i as int].1 == Some(node@));
            if !is_readable(cache.member(named[i].0.as_str()), node) {
                return false;
            }
        }
        i += 1;
    }
    true
}

/// Whether each item of an array can be read.
fn are_items_readable(cache: &JsonValue, nodes: &Vec<SchemaNode>) -> (answer: bool)
    ensures
        answer == readable_items(cache@, crate::schema::nodes_view(nodes@)),
    decreases nodes, 0int,
{
    let ghost view = crate::schema::nodes_view(nodes@);
    let mut i: usize = 0;
    while i < nodes.len()
        invariant
            i <= nodes.len(),
            view == crate::schema::nodes_view(nodes@),
            forall|j: int| 0 <= j < i ==> readable(cache@.item(j), #[trigger] view[j]),
        decreases nodes.len() - i,
    {
        assert(view[i as int] == nodes@[i as int]@);
        if !is_readable(cache.item(i), &nodes[i]) {
            return false;
        }
        i += 1;
    }
    true
}

} // verus!
