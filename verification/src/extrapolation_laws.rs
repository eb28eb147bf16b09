//! What is kept of a settings cache when it is carried over, told of the
//! caches that go in and of the one that comes out.

use crate::extrapolation::extrapolate_settings_cache;
use crate::json::{JsonNumber, JsonValue, JsonView};
use crate::parts;
use crate::schema::SchemaNode;
use vstd::prelude::*;

verus! {

/// A value of the kind that a leaf asks for is taken from the new cache; in
/// place of any other, the old one stays.
pub proof fn lemma_leaf_is_taken_by_kind(
    old_cache: JsonValue,
    new_cache: JsonValue,
    schema: SchemaNode,
    cache: JsonValue,
)
    requires
        call_ensures(extrapolate_settings_cache, (&old_cache, &new_cache, &schema), cache),
    ensures
        schema is Boolean ==> cache@ == (if new_cache@ is Bool {
            new_cache@
        } else {
            old_cache@
        }),
        schema is Text ==> cache@ == (if new_cache@ is String {
            new_cache@
        } else {
            old_cache@
        }),
        schema is Integer ==> cache@ == (match new_cache@ {
            JsonView::Number(JsonNumber::PosInt(n)) => if n <= 0x7fff_ffff_ffff_ffff {
                new_cache@
            } else {
                old_cache@
            },
            JsonView::Number(JsonNumber::NegInt(_)) => new_cache@,
            _ => old_cache@,
        }),
        schema is Float ==> cache@ == (match new_cache@ {
            JsonView::Number(JsonNumber::Float(_)) => new_cache@,
            _ => old_cache@,
        }),
{
}

/// A section has a member for each name that has data, and no other; so has a
/// choice, and the one that says which variant is chosen.
pub proof fn lemma_members_are_the_names_with_data(
    old_cache: JsonValue,
    new_cache: JsonValue,
    schema: SchemaNode,
    named: Vec<(String, Option<SchemaNode>)>,
    name: Seq<char>,
    cache: JsonValue,
)
    requires
        call_ensures(extrapolate_settings_cache, (&old_cache, &new_cache, &schema), cache),
        schema == (SchemaNode::Section { entries: named }) || schema == (SchemaNode::Choice {
            variants: named,
        }),
    ensures
        cache@ is Object,
        parts::has_member(cache@, name) <==> parts::has_data(named@, name) || schema is Choice && name == "variant"@,
{
    crate::conformance::lemma_carried_named(
        old_cache@,
        new_cache@,
        crate::schema::named_view(named@),
    );
    parts::lemma_names_with_data(named@, name);
}

/// What a section or a choice holds under a name does not depend on its other
/// parts: it is what the new cache holds under the name, carried over on top
/// of what the old one holds; and where the new cache holds nothing, what the
/// old one holds.
pub proof fn lemma_parts_are_carried_over_by_name(
    old_cache: JsonValue,
    new_cache: JsonValue,
    schema: SchemaNode,
    named: Vec<(String, Option<SchemaNode>)>,
    i: int,
    old_part: JsonValue,
    new_part: JsonValue,
    part: JsonValue,
    cache: JsonValue,
)
    requires
        call_ensures(extrapolate_settings_cache, (&old_cache, &new_cache, &schema), cache),
        schema == (SchemaNode::Section { entries: named }) || schema == (SchemaNode::Choice {
            variants: named,
        }),
        parts::is_last_of_name(named@, i),
        schema is Choice ==> named@[i].0@ != "variant"@,
        parts::is_part(old_cache@, named@[i].0@, old_part@),
    ensures
        parts::has_member(cache@, named@[i].0@),
        parts::is_part(new_cache@, named@[i].0@, new_part@) && call_ensures(
            extrapolate_settings_cache,
            (&old_part, &new_part, &named@[i].1->Some_0),
            part,
        ) && parts::has_member(new_cache@, named@[i].0@) ==> cache@->Object_0[named@[i].0@] == part@,
        !parts::has_member(new_cache@, named@[i].0@) ==> cache@->Object_0[named@[i].0@] == old_part@,
{
    let view = crate::schema::named_view(named@);
    crate::conformance::lemma_carried_named(old_cache@, new_cache@, view);
    parts::lemma_last_counts(named@, i);
    assert(crate::conformance::names_with_data(view).contains(view[i].0));
    assert(crate::conformance::counts(view, i));
}

/// The variant that the new cache chooses stays chosen, whatever else that
/// cache holds or lacks; only where it does not name one, the old choice
/// stays.
pub proof fn lemma_chosen_variant_stays(
    old_cache: JsonValue,
    new_cache: JsonValue,
    schema: SchemaNode,
    cache: JsonValue,
)
    requires
        call_ensures(extrapolate_settings_cache, (&old_cache, &new_cache, &schema), cache),
        schema is Choice,
    ensures
        parts::has_member(cache@, "variant"@),
        if parts::has_member(new_cache@, "variant"@) && new_cache@->Object_0["variant"@] is String {
            cache@->Object_0["variant"@] == new_cache@->Object_0["variant"@]
        } else {
            parts::is_part(old_cache@, "variant"@, cache@->Object_0["variant"@])
        },
{
}

/// Whether an optional value is set, or a switch enabled, is taken from the
/// new cache where it says so; whether it does has no say in the content,
/// which is carried over as a part of its own. There is no other member.
pub proof fn lemma_state_and_content_are_carried_over(
    old_cache: JsonValue,
    new_cache: JsonValue,
    schema: SchemaNode,
    content: Box<SchemaNode>,
    old_part: JsonValue,
    new_part: JsonValue,
    part: JsonValue,
    cache: JsonValue,
)
    requires
        call_ensures(extrapolate_settings_cache, (&old_cache, &new_cache, &schema), cache),
        schema == (SchemaNode::Optional { content }) || schema == (SchemaNode::Switch { content }),
        parts::is_part(old_cache@, "content"@, old_part@),
    ensures
        ({
            let state = if schema is Optional {
                "set"@
            } else {
                "enabled"@
            };
            &&& cache@ is Object
            &&& forall|name: Seq<char>| #[trigger]
                parts::has_member(cache@, name) <==> name == state || name == "content"@
            &&& if parts::has_member(new_cache@, state) && new_cache@->Object_0[state] is Bool {
                cache@->Object_0[state] == new_cache@->Object_0[state]
            } else {
                parts::is_part(old_cache@, state, cache@->Object_0[state])
            }
            &&& parts::has_member(new_cache@, "content"@) && parts::is_part(new_cache@, "content"@, new_part@)
                && call_ensures(
                extrapolate_settings_cache,
                (&old_part, &new_part, &*content),
                part,
            ) ==> cache@->Object_0["content"@] == part@
            &&& !parts::has_member(new_cache@, "content"@) ==> cache@->Object_0["content"@] == old_part@
        }),
{
    crate::conformance::lemma_names_differ();
}

/// An array has one item for each node, and each item is carried over as a
/// part of its own.
pub proof fn lemma_items_are_carried_over_by_place(
    old_cache: JsonValue,
    new_cache: JsonValue,
    nodes: Vec<SchemaNode>,
    i: int,
    old_part: JsonValue,
    new_part: JsonValue,
    part: JsonValue,
    cache: JsonValue,
)
    requires
        call_ensures(
            extrapolate_settings_cache,
            (&old_cache, &new_cache, &SchemaNode::Array(nodes)),
            cache,
        ),
        0 <= i < nodes@.len(),
        parts::is_item(old_cache@, i, old_part@),
    ensures
        cache@ is Array,
        cache@->Array_0.len() == nodes@.len(),
        parts::has_item(new_cache@, i) && parts::is_item(new_cache@, i, new_part@) && call_ensures(
            extrapolate_settings_cache,
            (&old_part, &new_part, &nodes@[i]),
            part,
        ) ==> cache@->Array_0[i] == part@,
        !parts::has_item(new_cache@, i) ==> cache@->Array_0[i] == old_part@,
{
    assert(cache@->Array_0 == crate::extrapolation::carried_items(
        old_cache@,
        new_cache@,
        crate::schema::nodes_view(nodes@),
    ));
}

/// An array has one item for each node, whatever the caches hold.
pub proof fn lemma_array_has_an_item_for_each_node(
    old_cache: JsonValue,
    new_cache: JsonValue,
    nodes: Vec<SchemaNode>,
    cache: JsonValue,
)
    requires
        call_ensures(
            extrapolate_settings_cache,
            (&old_cache, &new_cache, &SchemaNode::Array(nodes)),
            cache,
        ),
    ensures
        cache@ is Array,
        cache@->Array_0.len() == nodes@.len(),
{
    assert(cache@->Array_0 == crate::extrapolation::carried_items(
        old_cache@,
        new_cache@,
        crate::schema::nodes_view(nodes@),
    ));
}

/// The element of a vector is carried over on top of the old content; its
/// default is the new one, if there is one, and else the old one. There is no
/// other member.
pub proof fn lemma_vector_is_carried_over(
    old_cache: JsonValue,
    new_cache: JsonValue,
    default_element: Box<SchemaNode>,
    old_part: JsonValue,
    new_part: JsonValue,
    part: JsonValue,
    cache: JsonValue,
)
    requires
        call_ensures(
            extrapolate_settings_cache,
            (&old_cache, &new_cache, &SchemaNode::Vector { default_element }),
            cache,
        ),
        parts::is_part(old_cache@, "content"@, old_part@),
    ensures
        cache@ is Object,
        forall|name: Seq<char>| #[trigger]
            parts::has_member(cache@, name) <==> name == "element"@ || name == "default"@,
        parts::has_member(new_cache@, "element"@) && parts::is_part(new_cache@, "element"@, new_part@) && call_ensures(
            extrapolate_settings_cache,
            (&old_part, &new_part, &*default_element),
            part,
        ) ==> cache@->Object_0["element"@] == part@,
        !parts::has_member(new_cache@, "element"@) ==> cache@->Object_0["element"@] == old_part@,
        parts::is_part(
            if parts::has_member(new_cache@, "default"@) {
                new_cache@
            } else {
                old_cache@
            },
            "default"@,
            cache@->Object_0["default"@],
        ),
{
    crate::conformance::lemma_names_differ();
}

/// The value of a dictionary is carried over on top of the old value, and is
/// the old content where there is no new one; its key is the new one, if that
/// is a string, and else the old one; its default is the new one, if there is
/// one, and else the old one. There is no other member.
pub proof fn lemma_dictionary_is_carried_over(
    old_cache: JsonValue,
    new_cache: JsonValue,
    default_value: Box<SchemaNode>,
    old_part: JsonValue,
    new_part: JsonValue,
    part: JsonValue,
    cache: JsonValue,
)
    requires
        call_ensures(
            extrapolate_settings_cache,
            (&old_cache, &new_cache, &SchemaNode::Dictionary { default_value }),
            cache,
        ),
        parts::is_part(old_cache@, "value"@, old_part@),
    ensures
        cache@ is Object,
        forall|name: Seq<char>| #[trigger]
            parts::has_member(cache@, name) <==> name == "key"@ || name == "value"@ || name == "default"@,
        if parts::has_member(new_cache@, "key"@) && new_cache@->Object_0["key"@] is String {
            cache@->Object_0["key"@] == new_cache@->Object_0["key"@]
        } else {
            parts::is_part(old_cache@, "key"@, cache@->Object_0["key"@])
        },
        parts::has_member(new_cache@, "value"@) && parts::is_part(new_cache@, "value"@, new_part@) && call_ensures(
            extrapolate_settings_cache,
            (&old_part, &new_part, &*default_value),
            part,
        ) ==> cache@->Object_0["value"@] == part@,
        !parts::has_member(new_cache@, "value"@) ==> parts::is_part(
            old_cache@,
            "content"@,
            cache@->Object_0["value"@],
        ),
        parts::is_part(
            if parts::has_member(new_cache@, "default"@) {
                new_cache@
            } else {
                old_cache@
            },
            "default"@,
            cache@->Object_0["default"@],
        ),
{
    crate::conformance::lemma_names_differ();
}

/// Whether each value of a cache that matches the schema by name and kind
/// stands in another one, at the same place. Its neighbours have no say:
/// whether they are there, or match, is not asked.
pub open spec fn keeps(new: JsonView, result: JsonView, schema: SchemaNode) -> bool
    decreases schema, 0int,
{
    match schema {
        SchemaNode::Section { entries } => keeps_named(new, result, entries@, None),
        SchemaNode::Choice { variants } => {
            &&& keeps_member(new, result, "variant"@, |value: JsonView| value is String)
            &&& keeps_named(new, result, variants@, Some("variant"@))
        },
        SchemaNode::Optional { content } => {
            &&& keeps_member(new, result, "set"@, |value: JsonView| value is Bool)
            &&& parts::has_member(new, "content"@) ==> parts::has_member(result, "content"@) && keeps(
                new->Object_0["content"@],
                result->Object_0["content"@],
                *content,
            )
        },
        SchemaNode::Switch { content } => {
            &&& keeps_member(new, result, "enabled"@, |value: JsonView| value is Bool)
            &&& parts::has_member(new, "content"@) ==> parts::has_member(result, "content"@) && keeps(
                new->Object_0["content"@],
                result->Object_0["content"@],
                *content,
            )
        },
        SchemaNode::Boolean => new is Bool ==> result == new,
        SchemaNode::Integer => {
            &&& new matches JsonView::Number(JsonNumber::PosInt(n)) ==> (n
                <= 0x7fff_ffff_ffff_ffff ==> result == new)
            &&& new matches JsonView::Number(JsonNumber::NegInt(_)) ==> result == new
        },
        SchemaNode::Float => new matches JsonView::Number(JsonNumber::Float(_)) ==> result == new,
        SchemaNode::Text => new is String ==> result == new,
        SchemaNode::Array(nodes) => keeps_items(new, result, nodes@),
        SchemaNode::Vector { default_element } => {
            &&& keeps_member(new, result, "default"@, |value: JsonView| true)
            &&& parts::has_member(new, "element"@) ==> parts::has_member(result, "element"@) && keeps(
                new->Object_0["element"@],
                result->Object_0["element"@],
                *default_element,
            )
        },
        SchemaNode::Dictionary { default_value } => {
            &&& keeps_member(new, result, "key"@, |value: JsonView| value is String)
            &&& keeps_member(new, result, "default"@, |value: JsonView| true)
            &&& parts::has_member(new, "value"@) ==> parts::has_member(result, "value"@) && keeps(
                new->Object_0["value"@],
                result->Object_0["value"@],
                *default_value,
            )
        },
    }
}

/// Whether a member of the right kind stands unchanged.
pub open spec fn keeps_member(
    new: JsonView,
    result: JsonView,
    name: Seq<char>,
    right_kind: spec_fn(JsonView) -> bool,
) -> bool {
    parts::has_member(new, name) && right_kind(new->Object_0[name]) ==> parts::has_member(result, name)
        && result->Object_0[name] == new->Object_0[name]
}

/// The same for each named part; the part of one name is left out.
pub open spec fn keeps_named(
    new: JsonView,
    result: JsonView,
    named: Seq<(String, Option<SchemaNode>)>,
    but: Option<Seq<char>>,
) -> bool
    decreases named, 0int,
{
    forall|i: int|
        0 <= i < named.len() ==> ((#[trigger] named[i]).1 matches Some(node) ==> (parts::is_last_of_name(
            named,
            i,
        ) && but != Some(named[i].0@) && parts::has_member(new, named[i].0@) ==> parts::has_member(result, named[i].0@)
            && keeps(new->Object_0[named[i].0@], result->Object_0[named[i].0@], node)))
}

/// The same for each item of an array.
pub open spec fn keeps_items(new: JsonView, result: JsonView, nodes: Seq<SchemaNode>) -> bool
    decreases nodes, 0int,
{
    forall|i: int|
        0 <= i < nodes.len() ==> (parts::has_item(new, i) ==> parts::has_item(result, i) && keeps(
            new->Array_0[i],
            result->Array_0[i],
            #[trigger] nodes[i],
        ))
}

/// The same, of the models.
proof fn lemma_carried_over_keeps(old: JsonView, new: JsonView, schema: SchemaNode)
    ensures
        keeps(new, crate::extrapolation::carried_over(old, new, schema@), schema),
    decreases schema, 0int,
{
    crate::conformance::lemma_names_differ();
    let result = crate::extrapolation::carried_over(old, new, schema@);
    match schema {
        SchemaNode::Section { entries } => {
            lemma_carried_named_keeps(old, new, entries@, None, result);
        },
        SchemaNode::Choice { variants } => {
            lemma_carried_named_keeps(old, new, variants@, Some("variant"@), result);
        },
        SchemaNode::Optional { content } => {
            if parts::has_member(new, "content"@) {
                lemma_carried_over_keeps(
                    old.member("content"@),
                    new->Object_0["content"@],
                    *content,
                );
            }
        },
        SchemaNode::Switch { content } => {
            if parts::has_member(new, "content"@) {
                lemma_carried_over_keeps(
                    old.member("content"@),
                    new->Object_0["content"@],
                    *content,
                );
            }
        },
        SchemaNode::Array(nodes) => {
            let items = crate::extrapolation::carried_items(
                old,
                new,
                crate::schema::nodes_view(nodes@),
            );
            assert(result->Array_0 == items);
            assert forall|i: int|
                0 <= i < nodes@.len() && parts::has_item(
                    new,
                    i,
                ) implies parts::has_item(result, i) && keeps(
                new->Array_0[i],
                result->Array_0[i],
                #[trigger] nodes@[i],
            ) by {
                lemma_carried_over_keeps(old.item(i), new->Array_0[i], nodes@[i]);
            }
            assert(keeps_items(new, result, nodes@));
        },
        SchemaNode::Vector { default_element } => {
            if parts::has_member(new, "element"@) {
                lemma_carried_over_keeps(
                    old.member("content"@),
                    new->Object_0["element"@],
                    *default_element,
                );
            }
        },
        SchemaNode::Dictionary { default_value } => {
            if parts::has_member(new, "value"@) {
                lemma_carried_over_keeps(
                    old.member("value"@),
                    new->Object_0["value"@],
                    *default_value,
                );
            }
        },
        _ => {},
    }
}

/// The same for named parts.
proof fn lemma_carried_named_keeps(
    old: JsonView,
    new: JsonView,
    named: Seq<(String, Option<SchemaNode>)>,
    but: Option<Seq<char>>,
    result: JsonView,
)
    requires
        result is Object,
        forall|name: Seq<char>|
            but != Some(name) && #[trigger] crate::extrapolation::carried_named(
                old,
                new,
                crate::schema::named_view(named),
            ).dom().contains(name) ==> parts::has_member(result, name) && result->Object_0[name]
                == crate::extrapolation::carried_named(
                old,
                new,
                crate::schema::named_view(named),
            )[name],
    ensures
        keeps_named(new, result, named, but),
    decreases named, 0int,
{
    let view = crate::schema::named_view(named);
    crate::conformance::lemma_carried_named(old, new, view);
    assert forall|i: int| 0 <= i < named.len() implies ((#[trigger] named[i]).1 matches Some(node)
        ==> (parts::is_last_of_name(named, i) && but != Some(named[i].0@) && parts::has_member(new, named[i].0@)
        ==> parts::has_member(result, named[i].0@) && keeps(
        new->Object_0[named[i].0@],
        result->Object_0[named[i].0@],
        node,
    ))) by {
        let name = named[i].0@;
        if let Some(node) = named[i].1 {
            if parts::is_last_of_name(named, i) && but != Some(name) && parts::has_member(new, name) {
                parts::lemma_last_counts(named, i);
                assert(crate::conformance::counts(view, i));
                assert(crate::conformance::names_with_data(view).contains(view[i].0));
                lemma_carried_over_keeps(old.member(name), new->Object_0[name], node);
            }
        }
    }
}

/// Every value of the new cache that matches the schema by name and kind is
/// kept, at every depth, whatever stands or lacks beside it.
pub proof fn lemma_matching_values_are_kept(
    old_cache: JsonValue,
    new_cache: JsonValue,
    schema: SchemaNode,
    cache: JsonValue,
)
    requires
        call_ensures(extrapolate_settings_cache, (&old_cache, &new_cache, &schema), cache),
    ensures
        keeps(new_cache@, cache@, schema),
{
    lemma_carried_over_keeps(old_cache@, new_cache@, schema);
}

/// Any cache can be carried over on top of any other, to any schema.
pub proof fn lemma_any_cache_can_be_carried_over(
    old_cache: JsonValue,
    new_cache: JsonValue,
    schema: SchemaNode,
)
    ensures
        call_requires(extrapolate_settings_cache, (&old_cache, &new_cache, &schema)),
{
}

} // verus!
