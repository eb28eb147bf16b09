//! What the settings of a cache are, told of the cache that goes in and of
//! the settings that come out.

use crate::json::{JsonValue, JsonView};
use crate::parts;
use crate::schema::{SchemaNode, SchemaView};
use crate::settings::{is_readable, json_cache_to_settings};
use vstd::prelude::*;

verus! {

/// Whether the node at that place is the first one of a name.
pub open spec fn is_first_of_name(
    named: Seq<(String, Option<SchemaNode>)>,
    i: int,
    name: Seq<char>,
) -> bool {
    &&& 0 <= i < named.len()
    &&& named[i].0@ == name
    &&& forall|j: int| 0 <= j < i ==> (#[trigger] named[j]).0@ != name
}

/// Whether an object is a tag with its content, and nothing else.
pub open spec fn is_tagged(value: JsonView, tag: Seq<char>, content: JsonView) -> bool {
    &&& value is Object
    &&& forall|name: Seq<char>| #[trigger]
        parts::has_member(value, name) <==> name == "type"@ || name == "content"@
    &&& value->Object_0["type"@] == JsonView::String(tag)
    &&& value->Object_0["content"@] == content
}

/// The members of a tagged value have different names.
proof fn lemma_tag_names_differ()
    ensures
        "type"@ != "content"@,
{
    reveal_strlit("type");
    reveal_strlit("content");
    assert("type"@.len() == 4 && "content"@.len() == 7);
}

/// The first of a name is the one that is found.
proof fn lemma_first_is_found(
    named: Seq<(Seq<char>, Option<SchemaView>)>,
    i: int,
    name: Seq<char>,
)
    requires
        0 <= i < named.len(),
        named[i].0 == name,
        forall|j: int| 0 <= j < i ==> (#[trigger] named[j]).0 != name,
    ensures
        crate::settings::first_named(named, name) == i,
    decreases named.len(),
{
    let rest = named.drop_last();
    if i < rest.len() {
        assert(rest[i] == named[i]);
        assert forall|j: int| 0 <= j < i implies (#[trigger] rest[j]).0 != name by {
            assert(rest[j] == named[j]);
        }
        lemma_first_is_found(rest, i, name);
    } else {
        assert forall|j: int| 0 <= j < rest.len() implies (#[trigger] rest[j]).0 != name by {
            assert(rest[j] == named[j]);
        }
        lemma_none_is_found(rest, name);
    }
}

/// Where there is none of a name, none is found.
proof fn lemma_none_is_found(named: Seq<(Seq<char>, Option<SchemaView>)>, name: Seq<char>)
    requires
        forall|j: int| 0 <= j < named.len() ==> (#[trigger] named[j]).0 != name,
    ensures
        crate::settings::first_named(named, name) == named.len(),
    decreases named.len(),
{
    if named.len() > 0 {
        let rest = named.drop_last();
        assert forall|j: int| 0 <= j < rest.len() implies (#[trigger] rest[j]).0 != name by {
            assert(rest[j] == named[j]);
        }
        lemma_none_is_found(rest, name);
        assert(named.last() == named[named.len() - 1]);
    }
}

/// The setting of a leaf is the value itself.
pub proof fn lemma_setting_of_a_leaf_is_its_value(
    cache: JsonValue,
    schema: SchemaNode,
    settings: JsonValue,
)
    requires
        call_ensures(json_cache_to_settings, (&cache, &schema), settings),
        schema is Boolean || schema is Integer || schema is Float || schema is Text,
    ensures
        settings@ == cache@,
{
}

/// The settings of a section are those of its parts, each under its name, and
/// nothing else.
pub proof fn lemma_settings_of_a_section_are_those_of_its_parts(
    cache: JsonValue,
    entries: Vec<(String, Option<SchemaNode>)>,
    i: int,
    name: Seq<char>,
    part: JsonValue,
    part_settings: JsonValue,
    settings: JsonValue,
)
    requires
        call_ensures(
            json_cache_to_settings,
            (&cache, &SchemaNode::Section { entries }),
            settings,
        ),
    ensures
        settings@ is Object,
        parts::has_member(settings@, name) <==> parts::has_data(entries@, name),
        parts::is_last_of_name(entries@, i) && parts::is_part(cache@, entries@[i].0@, part@) && call_ensures(
            json_cache_to_settings,
            (&part, &entries@[i].1->Some_0),
            part_settings,
        ) ==> settings@->Object_0[entries@[i].0@] == part_settings@,
{
    let view = crate::schema::named_view(entries@);
    crate::conformance::lemma_settings_named(cache@, view);
    parts::lemma_names_with_data(entries@, name);
    if parts::is_last_of_name(entries@, i) {
        parts::lemma_last_counts(entries@, i);
        assert(crate::conformance::counts(view, i));
    }
}

/// The setting of a choice without data is the name of the variant; that of a
/// choice with data is the chosen variant, as a tag, with the settings of its
/// data, or null where it has none.
pub proof fn lemma_settings_of_a_choice_are_those_of_the_chosen_variant(
    cache: JsonValue,
    variants: Vec<(String, Option<SchemaNode>)>,
    i: int,
    variant: Seq<char>,
    part: JsonValue,
    part_settings: JsonValue,
    settings: JsonValue,
)
    requires
        call_ensures(
            json_cache_to_settings,
            (&cache, &SchemaNode::Choice { variants }),
            settings,
        ),
    ensures
        (forall|j: int| 0 <= j < variants@.len() ==> (#[trigger] variants@[j]).1 is None)
            ==> parts::is_part(cache@, "variant"@, settings@),
        (exists|j: int| 0 <= j < variants@.len() && (#[trigger] variants@[j]).1 is Some)
            && parts::is_part(cache@, "variant"@, JsonView::String(variant)) && is_first_of_name(
            variants@,
            i,
            variant,
        ) ==> {
            &&& variants@[i].1 is None ==> is_tagged(settings@, variant, JsonView::Null)
            &&& variants@[i].1 is Some && parts::is_part(cache@, variant, part@) && call_ensures(
                json_cache_to_settings,
                (&part, &variants@[i].1->Some_0),
                part_settings,
            ) ==> is_tagged(settings@, variant, part_settings@)
        },
{
    lemma_tag_names_differ();
    let view = crate::schema::named_view(variants@);
    if forall|j: int| 0 <= j < variants@.len() ==> (#[trigger] variants@[j]).1 is None {
        assert(crate::settings::only_tags(view));
    }
    if exists|j: int| 0 <= j < variants@.len() && (#[trigger] variants@[j]).1 is Some {
        let j = choose|j: int| 0 <= j < variants@.len() && (#[trigger] variants@[j]).1 is Some;
        assert(view[j].1 is Some);
        assert(!crate::settings::only_tags(view));
    }
    if is_first_of_name(variants@, i, variant) {
        assert forall|j: int| 0 <= j < i implies (#[trigger] view[j]).0 != variant by {
            assert(variants@[j].0@ != variant);
        }
        lemma_first_is_found(view, i, variant);
        assert(view[i].1 is Some <==> variants@[i].1 is Some);
    }
}

/// The settings of an optional value that is set are those of its content,
/// and null where it is not set; those of a switch are a tag that says whether
/// it is enabled, with the settings of its content, or null.
pub proof fn lemma_settings_of_what_is_on_are_those_of_its_content(
    cache: JsonValue,
    schema: SchemaNode,
    content: Box<SchemaNode>,
    part: JsonValue,
    part_settings: JsonValue,
    settings: JsonValue,
)
    requires
        call_ensures(json_cache_to_settings, (&cache, &schema), settings),
    ensures
        schema == (SchemaNode::Optional { content }) && parts::is_part(
            cache@,
            "set"@,
            JsonView::Bool(true),
        ) && parts::is_part(cache@, "content"@, part@) && call_ensures(
            json_cache_to_settings,
            (&part, &*content),
            part_settings,
        ) ==> settings@ == part_settings@,
        schema is Optional && parts::is_part(cache@, "set"@, JsonView::Bool(false)) ==> settings@
            == JsonView::Null,
        schema == (SchemaNode::Switch { content }) && parts::is_part(
            cache@,
            "enabled"@,
            JsonView::Bool(true),
        ) && parts::is_part(cache@, "content"@, part@) && call_ensures(
            json_cache_to_settings,
            (&part, &*content),
            part_settings,
        ) ==> is_tagged(settings@, "enabled"@, part_settings@),
        schema is Switch && parts::is_part(cache@, "enabled"@, JsonView::Bool(false)) ==> is_tagged(
            settings@,
            "disabled"@,
            JsonView::Null,
        ),
{
    lemma_tag_names_differ();
}

/// The settings of an array are those of its items, in their order, one for
/// each node.
pub proof fn lemma_settings_of_an_array_are_those_of_its_items(
    cache: JsonValue,
    nodes: Vec<SchemaNode>,
    i: int,
    part: JsonValue,
    part_settings: JsonValue,
    settings: JsonValue,
)
    requires
        call_ensures(json_cache_to_settings, (&cache, &SchemaNode::Array(nodes)), settings),
    ensures
        settings@ is Array,
        settings@->Array_0.len() == nodes@.len(),
        0 <= i < nodes@.len() && parts::is_item(cache@, i, part@) && call_ensures(
            json_cache_to_settings,
            (&part, &nodes@[i]),
            part_settings,
        ) ==> settings@->Array_0[i] == part_settings@,
{
    assert((SchemaNode::Array(nodes))@ == SchemaView::Array(crate::schema::nodes_view(nodes@)));
}

/// The settings of a vector, and those of a dictionary, are its default.
pub proof fn lemma_settings_of_a_list_are_its_default(
    cache: JsonValue,
    schema: SchemaNode,
    settings: JsonValue,
)
    requires
        call_ensures(json_cache_to_settings, (&cache, &schema), settings),
        schema is Vector || schema is Dictionary,
    ensures
        parts::is_part(cache@, "default"@, settings@),
{
}

/// Leaves, vectors and dictionaries can be read in any case; an optional value
/// and a switch if the cache says whether they are on, and what is on can be
/// read.
pub proof fn lemma_what_is_on_must_be_readable(
    cache: JsonValue,
    schema: SchemaNode,
    content: Box<SchemaNode>,
    part: JsonValue,
    part_answer: bool,
    answer: bool,
)
    requires
        call_ensures(is_readable, (&cache, &schema), answer),
    ensures
        schema is Boolean || schema is Integer || schema is Float || schema is Text
            || schema is Vector || schema is Dictionary ==> answer,
        ({
            let state = if schema is Optional {
                "set"@
            } else {
                "enabled"@
            };
            schema is Optional || schema is Switch ==> {
                &&& !parts::has_member(cache@, state) || !(cache@->Object_0[state] is Bool) ==> !answer
                &&& parts::has_member(cache@, state) && cache@->Object_0[state] == JsonView::Bool(false)
                    ==> answer
                &&& parts::has_member(cache@, state) && cache@->Object_0[state] == JsonView::Bool(true)
                    && parts::is_part(cache@, "content"@, part@) && call_ensures(
                    is_readable,
                    (&part, &*content),
                    part_answer,
                ) && (schema == (SchemaNode::Optional { content }) || schema
                    == (SchemaNode::Switch { content })) ==> answer == part_answer
            }
        }),
{
}

/// A choice without data can be read in any case; one with data if the cache
/// names one of its variants, and the data of that variant, if it has any, can
/// be read.
pub proof fn lemma_chosen_variant_must_be_readable(
    cache: JsonValue,
    variants: Vec<(String, Option<SchemaNode>)>,
    i: int,
    variant: Seq<char>,
    part: JsonValue,
    part_answer: bool,
    answer: bool,
)
    requires
        call_ensures(is_readable, (&cache, &SchemaNode::Choice { variants }), answer),
    ensures
        (forall|j: int| 0 <= j < variants@.len() ==> (#[trigger] variants@[j]).1 is None)
            ==> answer,
        (exists|j: int| 0 <= j < variants@.len() && (#[trigger] variants@[j]).1 is Some) ==> {
            &&& !parts::has_member(cache@, "variant"@) || !(cache@->Object_0["variant"@] is String)
                ==> !answer
            &&& parts::is_part(cache@, "variant"@, JsonView::String(variant)) ==> {
                &&& (forall|j: int|
                    0 <= j < variants@.len() ==> (#[trigger] variants@[j]).0@ != variant)
                    ==> !answer
                &&& is_first_of_name(variants@, i, variant) && variants@[i].1 is None ==> answer
                &&& is_first_of_name(variants@, i, variant) && variants@[i].1 is Some && parts::is_part(
                    cache@,
                    variant,
                    part@,
                ) && call_ensures(is_readable, (&part, &variants@[i].1->Some_0), part_answer)
                    ==> answer == part_answer
            }
        },
{
    let view = crate::schema::named_view(variants@);
    if forall|j: int| 0 <= j < variants@.len() ==> (#[trigger] variants@[j]).1 is None {
        assert(crate::settings::only_tags(view));
    }
    if exists|j: int| 0 <= j < variants@.len() && (#[trigger] variants@[j]).1 is Some {
        let j = choose|j: int| 0 <= j < variants@.len() && (#[trigger] variants@[j]).1 is Some;
        assert(view[j].1 is Some);
        assert(!crate::settings::only_tags(view));
    }
    if forall|j: int| 0 <= j < variants@.len() ==> (#[trigger] variants@[j]).0@ != variant {
        assert forall|j: int| 0 <= j < view.len() implies (#[trigger] view[j]).0 != variant by {
            assert(variants@[j].0@ != variant);
        }
        lemma_none_is_found(view, variant);
    }
    if is_first_of_name(variants@, i, variant) {
        assert forall|j: int| 0 <= j < i implies (#[trigger] view[j]).0 != variant by {
            assert(variants@[j].0@ != variant);
        }
        lemma_first_is_found(view, i, variant);
        assert(view[i].1 is Some <==> variants@[i].1 is Some);
    }
}

/// A section can be read if and only if each of its parts can.
pub proof fn lemma_each_part_must_be_readable(
    cache: JsonValue,
    entries: Vec<(String, Option<SchemaNode>)>,
    parts: Seq<JsonValue>,
    answers: Seq<bool>,
    answer: bool,
)
    requires
        call_ensures(is_readable, (&cache, &SchemaNode::Section { entries }), answer),
        parts.len() == entries@.len(),
        answers.len() == entries@.len(),
        forall|i: int|
            0 <= i < entries@.len() && (#[trigger] entries@[i]).1 is Some ==> parts::is_part(
                cache@,
                entries@[i].0@,
                parts[i]@,
            ) && call_ensures(is_readable, (&parts[i], &entries@[i].1->Some_0), answers[i]),
    ensures
        answer <==> forall|i: int|
            0 <= i < entries@.len() && (#[trigger] entries@[i]).1 is Some ==> answers[i],
{
    let view = crate::schema::named_view(entries@);
    assert(answer == crate::settings::readable_named(cache@, view));
    assert forall|i: int| 0 <= i < view.len() implies ((#[trigger] view[i]).1 matches Some(node)
        ==> (crate::settings::readable(cache@.member(view[i].0), node) <==> answers[i])) by {
        assert(entries@[i].1 is Some <==> view[i].1 is Some);
    }
    if answer {
        assert forall|i: int|
            0 <= i < entries@.len() && (#[trigger] entries@[i]).1 is Some implies answers[i] by {
            assert(view[i].1 is Some);
        }
    } else {
        let i = choose|i: int|
            0 <= i < view.len() && !((#[trigger] view[i]).1 matches Some(node)
                ==> crate::settings::readable(cache@.member(view[i].0), node));
        assert(entries@[i].1 is Some);
    }
}

/// An array can be read if and only if each of its items can.
pub proof fn lemma_each_item_must_be_readable(
    cache: JsonValue,
    nodes: Vec<SchemaNode>,
    items: Seq<JsonValue>,
    answers: Seq<bool>,
    answer: bool,
)
    requires
        call_ensures(is_readable, (&cache, &SchemaNode::Array(nodes)), answer),
        items.len() == nodes@.len(),
        answers.len() == nodes@.len(),
        forall|i: int|
            0 <= i < nodes@.len() ==> parts::is_item(cache@, i, items[i]@) && call_ensures(
                is_readable,
                (&items[i], &#[trigger] nodes@[i]),
                answers[i],
            ),
    ensures
        answer <==> forall|i: int| 0 <= i < nodes@.len() ==> #[trigger] answers[i],
{
    let view = crate::schema::nodes_view(nodes@);
    assert(answer == crate::settings::readable_items(cache@, view));
    assert forall|i: int| 0 <= i < view.len() implies (crate::settings::readable(
        cache@.item(i),
        #[trigger] view[i],
    ) <==> answers[i]) by {
        assert(view[i] == nodes@[i]@);
    }
    if answer {
        assert forall|i: int| 0 <= i < nodes@.len() implies #[trigger] answers[i] by {
            assert(crate::settings::readable(cache@.item(i), view[i]));
        }
    }
}

/// Whether null, among the settings, tells that an optional value is not set:
/// nothing that may be left out has settings that may be null by themselves.
pub open spec fn null_tells(schema: SchemaView) -> bool
    decreases schema, 0int,
{
    match schema {
        SchemaView::Section { entries } => null_tells_named(entries),
        SchemaView::Choice { variants } => null_tells_named(variants),
        SchemaView::Optional { content } => {
            &&& !(*content is Optional)
            &&& !(*content is Vector)
            &&& !(*content is Dictionary)
            &&& null_tells(*content)
        },
        SchemaView::Switch { content } => null_tells(*content),
        SchemaView::Array(nodes) => forall|i: int|
            0 <= i < nodes.len() ==> null_tells(#[trigger] nodes[i]),
        _ => true,
    }
}

/// The same for each named node.
pub open spec fn null_tells_named(named: Seq<(Seq<char>, Option<SchemaView>)>) -> bool
    decreases named, 0int,
{
    forall|i: int|
        0 <= i < named.len() ==> ((#[trigger] named[i]).1 matches Some(node) ==> null_tells(node))
}

/// Nothing that is selected gets lost on the way to the settings: caches that
/// have the shape of the schema, and the same settings, select the same and
/// hold the same in what they select. An optional value whose content may
/// have null for settings is left out, since there null does not tell whether
/// it is set.
pub proof fn lemma_settings_tell_what_is_selected(
    first: JsonValue,
    second: JsonValue,
    schema: SchemaNode,
    first_settings: JsonValue,
    second_settings: JsonValue,
)
    requires
        call_ensures(json_cache_to_settings, (&first, &schema), first_settings),
        call_ensures(json_cache_to_settings, (&second, &schema), second_settings),
        crate::conformance::well_named(schema@),
        null_tells(schema@),
        crate::conformance::conforms(first@, schema@),
        crate::conformance::conforms(second@, schema@),
        call_ensures(is_readable, (&first, &schema), true),
        call_ensures(is_readable, (&second, &schema), true),
        first_settings@ == second_settings@,
    ensures
        crate::conformance::select_alike(first@, second@, schema@),
{
    lemma_equal_settings_select_alike(first@, second@, schema@);
}

/// The same, of the models.
proof fn lemma_equal_settings_select_alike(first: JsonView, second: JsonView, schema: SchemaView)
    requires
        crate::conformance::well_named(schema),
        null_tells(schema),
        crate::conformance::conforms(first, schema),
        crate::conformance::conforms(second, schema),
        crate::settings::readable(first, schema),
        crate::settings::readable(second, schema),
        crate::settings::settings_of(first, schema) == crate::settings::settings_of(
            second,
            schema,
        ),
    ensures
        crate::conformance::select_alike(first, second, schema),
    decreases schema,
{
    lemma_tag_names_differ();
    crate::conformance::lemma_names_differ();
    let settings = crate::settings::settings_of(first, schema);
    let others = crate::settings::settings_of(second, schema);
    match schema {
        SchemaView::Section { entries } => {
            crate::conformance::lemma_settings_named(first, entries);
            crate::conformance::lemma_settings_named(second, entries);
            assert(crate::settings::readable_named(first, entries));
            assert(crate::settings::readable_named(second, entries));
            assert(crate::conformance::conforms_named(first->Object_0, entries, None));
            assert(crate::conformance::conforms_named(second->Object_0, entries, None));
            assert(null_tells_named(entries));
            assert(crate::conformance::well_named_all(entries));
            assert forall|i: int| 0 <= i < entries.len() implies ((
            #[trigger] entries[i]).1 matches Some(node) ==> crate::conformance::select_alike(
                first.member(entries[i].0),
                second.member(entries[i].0),
                node,
            )) by {
                if let Some(node) = entries[i].1 {
                    let name = entries[i].0;
                    assert(crate::conformance::counts(entries, i));
                    assert(crate::conformance::names_with_data(entries).contains(name));
                    lemma_equal_settings_select_alike(
                        first.member(name),
                        second.member(name),
                        node,
                    );
                }
            }
            assert(crate::conformance::select_alike_named(first, second, entries));
        },
        SchemaView::Choice { variants } => {
            let variant = first.member("variant"@)->String_0;
            if crate::settings::only_tags(variants) {
                assert(first.member("variant"@) == second.member("variant"@));
            } else {
                assert(settings->Object_0["type"@] == others->Object_0["type"@]);
                assert(settings->Object_0["content"@] == others->Object_0["content"@]);
                let place = crate::settings::first_named(variants, variant);
                crate::conformance::lemma_first_named(variants, variant);
                if let Some(node) = variants[place].1 {
                    assert(null_tells_named(variants));
                    assert(crate::conformance::well_named_all(variants));
                    assert(crate::conformance::counts(variants, place));
                    assert(crate::conformance::names_with_data(variants).contains(variant));
                    assert(crate::conformance::conforms_named(
                        first->Object_0,
                        variants,
                        Some("variant"@),
                    ));
                    assert(crate::conformance::conforms_named(
                        second->Object_0,
                        variants,
                        Some("variant"@),
                    ));
                    lemma_equal_settings_select_alike(
                        first.member(variant),
                        second.member(variant),
                        node,
                    );
                }
            }
        },
        SchemaView::Optional { content } => {
            if first.member("set"@) == JsonView::Bool(true) {
                lemma_settings_are_not_null(first.member("content"@), *content);
            }
            if second.member("set"@) == JsonView::Bool(true) {
                lemma_settings_are_not_null(second.member("content"@), *content);
            }
            if first.member("set"@) == JsonView::Bool(true) {
                lemma_equal_settings_select_alike(
                    first.member("content"@),
                    second.member("content"@),
                    *content,
                );
            }
        },
        SchemaView::Switch { content } => {
            assert("enabled"@ != "disabled"@) by {
                reveal_strlit("enabled");
                reveal_strlit("disabled");
                assert("enabled"@.len() == 7 && "disabled"@.len() == 8);
            }
            assert(settings->Object_0["type"@] == others->Object_0["type"@]);
            assert(settings->Object_0["content"@] == others->Object_0["content"@]);
            if first.member("enabled"@) == JsonView::Bool(true) {
                lemma_equal_settings_select_alike(
                    first.member("content"@),
                    second.member("content"@),
                    *content,
                );
            }
        },
        SchemaView::Array(nodes) => {
            assert(crate::settings::readable_items(first, nodes));
            assert(crate::settings::readable_items(second, nodes));
            assert(crate::conformance::conforms_items(first->Array_0, nodes));
            assert(crate::conformance::conforms_items(second->Array_0, nodes));
            assert forall|i: int| 0 <= i < nodes.len() implies crate::conformance::select_alike(
                first.item(i),
                second.item(i),
                #[trigger] nodes[i],
            ) by {
                assert(settings->Array_0[i] == others->Array_0[i]);
                lemma_equal_settings_select_alike(first.item(i), second.item(i), nodes[i]);
            }
            assert(crate::conformance::select_alike_items(first, second, nodes));
        },
        _ => {},
    }
}

/// What is no optional value and no list has settings other than null.
proof fn lemma_settings_are_not_null(cache: JsonView, schema: SchemaView)
    requires
        crate::conformance::conforms(cache, schema),
        !(schema is Optional),
        !(schema is Vector),
        !(schema is Dictionary),
    ensures
        crate::settings::settings_of(cache, schema) != JsonView::Null,
{
}

/// Of any cache it can be asked whether it can be read, and it can be read
/// wherever the answer is that it can.
pub proof fn lemma_what_is_readable_can_be_read(
    cache: JsonValue,
    schema: SchemaNode,
    answer: bool,
)
    ensures
        call_requires(is_readable, (&cache, &schema)),
        call_ensures(is_readable, (&cache, &schema), answer) && answer ==> call_requires(
            json_cache_to_settings,
            (&cache, &schema),
        ),
{
}

} // verus!
