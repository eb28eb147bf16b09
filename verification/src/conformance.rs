//! When a settings cache has the shape that a schema asks for, what
//! extrapolation does with such caches, which settings they have, and which
//! parts of a cache have a say in them.

use crate::json::JsonView;
use crate::schema::SchemaView;
use vstd::prelude::*;

verus! {

/// Whether a node of this name and with data stands at that place, and no
/// later one has the name.
pub open spec fn counts(named: Seq<(Seq<char>, Option<SchemaView>)>, i: int) -> bool {
    &&& 0 <= i < named.len()
    &&& named[i].1 is Some
    &&& forall|j: int|
        i < j < named.len() && (#[trigger] named[j]).1 is Some ==> named[j].0 != named[i].0
}

/// The names that have data.
pub open spec fn names_with_data(named: Seq<(Seq<char>, Option<SchemaView>)>) -> Set<Seq<char>> {
    Set::new(
        |name: Seq<char>|
            exists|i: int|
                0 <= i < named.len() && (#[trigger] named[i]).1 is Some && named[i].0 == name,
    )
}

/// Whether each named part conforms to its node; the part of one name is left
/// out.
pub open spec fn conforms_named(
    members: Map<Seq<char>, JsonView>,
    named: Seq<(Seq<char>, Option<SchemaView>)>,
    but: Option<Seq<char>>,
) -> bool
    decreases named, 0int,
{
    forall|i: int| #[trigger]
        counts(named, i) && but != Some(named[i].0) ==> (named[i].1 matches Some(node) && conforms(
            members[named[i].0],
            node,
        ))
}

/// Whether there is an item for each node, and each conforms to its own.
pub open spec fn conforms_items(items: Seq<JsonView>, nodes: Seq<SchemaView>) -> bool
    decreases nodes, 0int,
{
    &&& items.len() == nodes.len()
    &&& forall|i: int| 0 <= i < nodes.len() ==> conforms(items[i], #[trigger] nodes[i])
}

/// Whether a settings cache has the shape of the schema: the members and the
/// items that it asks for and no others, and values of the kinds that it asks
/// for. A choice may name any variant, and the default of a vector or a
/// dictionary may be any.
pub open spec fn conforms(cache: JsonView, schema: SchemaView) -> bool
    decreases schema, 0int,
{
    match schema {
        SchemaView::Section { entries } => {
            &&& cache matches JsonView::Object(members)
            &&& members.dom() == names_with_data(entries)
            &&& conforms_named(members, entries, None)
        },
        SchemaView::Choice { variants } => {
            &&& cache matches JsonView::Object(members)
            &&& members.dom() == names_with_data(variants).insert("variant"@)
            &&& members["variant"@] is String
            &&& conforms_named(members, variants, Some("variant"@))
        },
        SchemaView::Optional { content } => {
            &&& cache matches JsonView::Object(members)
            &&& members.dom() == set!["set"@, "content"@]
            &&& members["set"@] is Bool
            &&& conforms(members["content"@], *content)
        },
        SchemaView::Switch { content } => {
            &&& cache matches JsonView::Object(members)
            &&& members.dom() == set!["enabled"@, "content"@]
            &&& members["enabled"@] is Bool
            &&& conforms(members["content"@], *content)
        },
        SchemaView::Boolean => cache is Bool,
        SchemaView::Integer => cache.is_i64(),
        SchemaView::Float => cache.is_f64(),
        SchemaView::Text => cache is String,
        SchemaView::Array(nodes) => cache matches JsonView::Array(items) && conforms_items(
            items,
            nodes,
        ),
        SchemaView::Vector { default_element } => {
            &&& cache matches JsonView::Object(members)
            &&& members.dom() == set!["element"@, "default"@]
            &&& conforms(members["element"@], *default_element)
        },
        SchemaView::Dictionary { default_value } => {
            &&& cache matches JsonView::Object(members)
            &&& members.dom() == set!["key"@, "value"@, "default"@]
            &&& members["key"@] is String
            &&& conforms(members["value"@], *default_value)
        },
    }
}

/// The member names differ from each other.
pub proof fn lemma_names_differ()
    ensures
        "set"@ != "content"@,
        "enabled"@ != "content"@,
        "element"@ != "default"@,
        "element"@ != "content"@,
        "default"@ != "content"@,
        "key"@ != "value"@,
        "key"@ != "default"@,
        "value"@ != "default"@,
        "key"@ != "content"@,
        "value"@ != "content"@,
{
    reveal_strlit("set");
    reveal_strlit("content");
    reveal_strlit("enabled");
    reveal_strlit("element");
    reveal_strlit("default");
    reveal_strlit("key");
    reveal_strlit("value");
    assert("set"@.len() == 3 && "content"@.len() == 7);
    assert("enabled"@[0] == 'e' && "content"@[0] == 'c');
    assert("element"@[0] == 'e' && "default"@[0] == 'd');
    assert("key"@.len() == 3 && "value"@.len() == 5 && "default"@.len() == 7);
}

/// The names with data of all but the last node: the last adds its own, where
/// it has data.
proof fn lemma_names_of_rest(named: Seq<(Seq<char>, Option<SchemaView>)>)
    requires
        named.len() > 0,
    ensures
        names_with_data(named) == if named.last().1 is Some {
            names_with_data(named.drop_last()).insert(named.last().0)
        } else {
            names_with_data(named.drop_last())
        },
{
    let rest = named.drop_last();
    assert forall|name: Seq<char>| #[trigger] names_with_data(named).contains(name) <==> {
        ||| names_with_data(rest).contains(name)
        ||| named.last().1 is Some && named.last().0 == name
    } by {
        if names_with_data(rest).contains(name) {
            let i = choose|i: int|
                0 <= i < rest.len() && (#[trigger] rest[i]).1 is Some && rest[i].0 == name;
            assert(named[i] == rest[i]);
        }
        if names_with_data(named).contains(name) {
            let i = choose|i: int|
                0 <= i < named.len() && (#[trigger] named[i]).1 is Some && named[i].0 == name;
            if i < rest.len() {
                assert(rest[i] == named[i]);
            }
        }
    }
    assert(names_with_data(named) =~= if named.last().1 is Some {
        names_with_data(rest).insert(named.last().0)
    } else {
        names_with_data(rest)
    });
}

/// A node before the last one counts, if and only if it does so among all but
/// the last, and the last does not take its name.
proof fn lemma_counts_in_rest(named: Seq<(Seq<char>, Option<SchemaView>)>, i: int)
    requires
        0 <= i < named.len() - 1,
    ensures
        counts(named, i) <==> counts(named.drop_last(), i) && (named.last().1 is Some
            ==> named.last().0 != named[i].0),
        named.drop_last()[i] == named[i],
{
    let rest = named.drop_last();
    assert(rest[i] == named[i]);
    if counts(named, i) {
        assert forall|j: int| i < j < rest.len() && (#[trigger] rest[j]).1 is Some implies rest[j].0
            != rest[i].0 by {
            assert(named[j] == rest[j]);
        }
        assert(named.last() == named[named.len() - 1]);
    } else if counts(rest, i) && (named.last().1 is Some ==> named.last().0 != named[i].0) {
        assert forall|j: int|
            i < j < named.len() && (#[trigger] named[j]).1 is Some implies named[j].0
            != named[i].0 by {
            if j < rest.len() {
                assert(rest[j] == named[j]);
            }
        }
    }
}

/// What the named parts are, name by name: each name with data has one, and a
/// name that the schema does not know, or that has no data, has none, whatever
/// the new cache holds for it.
pub proof fn lemma_carried_named(
    old: JsonView,
    new: JsonView,
    named: Seq<(Seq<char>, Option<SchemaView>)>,
)
    ensures
        crate::extrapolation::carried_named(old, new, named).dom() == names_with_data(named),
        forall|i: int| #[trigger]
            counts(named, i) ==> (named[i].1 matches Some(node)
                && crate::extrapolation::carried_named(old, new, named)[named[i].0]
                == crate::extrapolation::carried_part(
                old.member(named[i].0),
                old.member(named[i].0),
                new.get(named[i].0),
                node,
            )),
    decreases named.len(),
{
    let result = crate::extrapolation::carried_named(old, new, named);
    if named.len() > 0 {
        let rest = named.drop_last();
        lemma_carried_named(old, new, rest);
        lemma_names_of_rest(named);
        assert(result.dom() =~= names_with_data(named));
        assert forall|i: int| #[trigger] counts(named, i) implies (named[i].1 matches Some(node)
            && result[named[i].0] == crate::extrapolation::carried_part(
            old.member(named[i].0),
            old.member(named[i].0),
            new.get(named[i].0),
            node,
        )) by {
            if i < rest.len() {
                lemma_counts_in_rest(named, i);
            }
        }
    } else {
        assert(result.dom() =~= names_with_data(named));
    }
}

/// Each name with data has a node that counts.
pub(crate) proof fn lemma_counts(named: Seq<(Seq<char>, Option<SchemaView>)>, name: Seq<char>)
    requires
        names_with_data(named).contains(name),
    ensures
        exists|i: int| #[trigger] counts(named, i) && named[i].0 == name,
    decreases named.len(),
{
    lemma_names_of_rest(named);
    if named.last().1 is Some && named.last().0 == name {
        assert(counts(named, named.len() - 1));
    } else {
        let rest = named.drop_last();
        lemma_counts(rest, name);
        let i = choose|i: int| #[trigger] counts(rest, i) && rest[i].0 == name;
        lemma_counts_in_rest(named, i);
        assert(counts(named, i));
    }
}

/// Nothing is lost of a settings cache that has the shape of the schema: it is
/// carried over as it is, whatever the old cache holds.
pub proof fn lemma_conforming_cache_is_kept(old: JsonView, new: JsonView, schema: SchemaView)
    requires
        conforms(new, schema),
    ensures
        crate::extrapolation::carried_over(old, new, schema) == new,
    decreases schema,
{
    lemma_names_differ();
    let result = crate::extrapolation::carried_over(old, new, schema);
    match schema {
        SchemaView::Section { entries } => {
            lemma_conforming_parts_are_kept(old, new, entries, None);
            assert(result->Object_0 =~= new->Object_0);
        },
        SchemaView::Choice { variants } => {
            lemma_conforming_parts_are_kept(old, new, variants, Some("variant"@));
            assert(result->Object_0 =~= new->Object_0);
        },
        SchemaView::Optional { content } => {
            lemma_conforming_cache_is_kept(
                old.member("content"@),
                new.member("content"@),
                *content,
            );
            assert(result->Object_0 =~= new->Object_0);
        },
        SchemaView::Switch { content } => {
            lemma_conforming_cache_is_kept(
                old.member("content"@),
                new.member("content"@),
                *content,
            );
            assert(result->Object_0 =~= new->Object_0);
        },
        SchemaView::Array(nodes) => {
            assert(conforms_items(new->Array_0, nodes));
            assert(result->Array_0 == crate::extrapolation::carried_items(old, new, nodes));
            assert forall|i: int| 0 <= i < nodes.len() implies #[trigger] result->Array_0[i]
                == new->Array_0[i] by {
                assert(conforms(new->Array_0[i], nodes[i]));
                lemma_conforming_cache_is_kept(old.item(i), new.item(i), nodes[i]);
            }
            assert(result->Array_0 =~= new->Array_0);
        },
        SchemaView::Vector { default_element } => {
            lemma_conforming_cache_is_kept(
                old.member("content"@),
                new.member("element"@),
                *default_element,
            );
            assert(result->Object_0 =~= new->Object_0);
        },
        SchemaView::Dictionary { default_value } => {
            lemma_conforming_cache_is_kept(
                old.member("value"@),
                new.member("value"@),
                *default_value,
            );
            assert(result->Object_0 =~= new->Object_0);
        },
        _ => {},
    }
}

/// Named parts that conform are carried over as they are.
proof fn lemma_conforming_parts_are_kept(
    old: JsonView,
    new: JsonView,
    named: Seq<(Seq<char>, Option<SchemaView>)>,
    but: Option<Seq<char>>,
)
    requires
        new is Object,
        names_with_data(named).subset_of(new->Object_0.dom()),
        conforms_named(new->Object_0, named, but),
    ensures
        crate::extrapolation::carried_named(old, new, named).dom() == names_with_data(named),
        forall|name: Seq<char>| #[trigger]
            names_with_data(named).contains(name) && but != Some(name)
                ==> crate::extrapolation::carried_named(old, new, named)[name]
                == new->Object_0[name],
    decreases named,
{
    lemma_carried_named(old, new, named);
    assert forall|name: Seq<char>| #[trigger]
        names_with_data(named).contains(name) && but != Some(
            name,
        ) implies crate::extrapolation::carried_named(old, new, named)[name]
        == new->Object_0[name] by {
        lemma_counts(named, name);
        let i = choose|i: int| #[trigger] counts(named, i) && named[i].0 == name;
        lemma_conforming_cache_is_kept(old.member(name), new.member(name), named[i].1->Some_0);
    }
}

/// Where the new cache holds nothing, an old cache that has the shape of the
/// schema stays as it is; but not one of a vector or a dictionary.
pub proof fn lemma_old_cache_stays(old: JsonView, schema: SchemaView)
    requires
        conforms(old, schema),
        !(schema is Vector),
        !(schema is Dictionary),
    ensures
        crate::extrapolation::carried_over(old, JsonView::Null, schema) == old,
{
    lemma_names_differ();
    let result = crate::extrapolation::carried_over(old, JsonView::Null, schema);
    match schema {
        SchemaView::Section { entries } => {
            lemma_old_parts_stay(old, entries);
            assert(result->Object_0 =~= old->Object_0);
        },
        SchemaView::Choice { variants } => {
            lemma_old_parts_stay(old, variants);
            assert(result->Object_0 =~= old->Object_0);
        },
        SchemaView::Optional { content } => {
            assert(result->Object_0 =~= old->Object_0);
        },
        SchemaView::Switch { content } => {
            assert(result->Object_0 =~= old->Object_0);
        },
        SchemaView::Array(nodes) => {
            assert(conforms_items(old->Array_0, nodes));
            assert(result->Array_0 == crate::extrapolation::carried_items(
                old,
                JsonView::Null,
                nodes,
            ));
            assert(result->Array_0 =~= old->Array_0);
        },
        _ => {},
    }
}

/// Where the new cache holds nothing, each named part is the old one.
proof fn lemma_old_parts_stay(old: JsonView, named: Seq<(Seq<char>, Option<SchemaView>)>)
    requires
        old is Object,
        names_with_data(named).subset_of(old->Object_0.dom()),
    ensures
        crate::extrapolation::carried_named(old, JsonView::Null, named).dom() == names_with_data(
            named,
        ),
        forall|name: Seq<char>| #[trigger]
            names_with_data(named).contains(name) ==> crate::extrapolation::carried_named(
                old,
                JsonView::Null,
                named,
            )[name] == old->Object_0[name],
{
    lemma_carried_named(old, JsonView::Null, named);
    assert forall|name: Seq<char>| #[trigger]
        names_with_data(named).contains(name) implies crate::extrapolation::carried_named(
        old,
        JsonView::Null,
        named,
    )[name] == old->Object_0[name] by {
        lemma_counts(named, name);
        let i = choose|i: int| #[trigger] counts(named, i) && named[i].0 == name;
        assert(counts(named, i));
    }
}

/// Whether a new cache gives by itself what cannot be had from an old one: the
/// element of each vector, as a whole, and the value of each dictionary.
pub open spec fn gives_lists(new: JsonView, schema: SchemaView) -> bool
    decreases schema, 0int,
{
    match schema {
        SchemaView::Section { entries } => gives_lists_named(new, entries, None),
        SchemaView::Choice { variants } => gives_lists_named(new, variants, Some("variant"@)),
        SchemaView::Optional { content } => new.get("content"@) matches Some(value)
            ==> gives_lists(value, *content),
        SchemaView::Switch { content } => new.get("content"@) matches Some(value) ==> gives_lists(
            value,
            *content,
        ),
        SchemaView::Array(nodes) => gives_lists_items(new, nodes),
        SchemaView::Vector { default_element } => new.get("element"@) matches Some(value)
            && conforms(
            crate::extrapolation::carried_over(JsonView::Null, value, *default_element),
            *default_element,
        ),
        SchemaView::Dictionary { default_value } => new.get("value"@) matches Some(value)
            && gives_lists(value, *default_value),
        _ => true,
    }
}

/// Whether each named part that a new cache holds gives its lists; the part of
/// one name is left out.
pub open spec fn gives_lists_named(
    new: JsonView,
    named: Seq<(Seq<char>, Option<SchemaView>)>,
    but: Option<Seq<char>>,
) -> bool
    decreases named, 0int,
{
    forall|i: int| #[trigger]
        counts(named, i) && but != Some(named[i].0) ==> (named[i].1 matches Some(node) ==> (
        new.get(named[i].0) matches Some(value) ==> gives_lists(value, node)))
}

/// Whether each item that a new cache holds gives its lists.
pub open spec fn gives_lists_items(new: JsonView, nodes: Seq<SchemaView>) -> bool
    decreases nodes, 0int,
{
    forall|i: int|
        0 <= i < nodes.len() ==> (new.get_item(i) matches Some(value) ==> gives_lists(
            value,
            #[trigger] nodes[i],
        ))
}

/// On top of an old cache that has the shape of the schema, extrapolation
/// gives one that has it too, whatever the new cache holds, if and only if the
/// new cache gives the element of each vector and the value of each
/// dictionary.
pub proof fn lemma_extrapolation_conforms(old: JsonView, new: JsonView, schema: SchemaView)
    requires
        conforms(old, schema),
    ensures
        conforms(crate::extrapolation::carried_over(old, new, schema), schema) <==> gives_lists(
            new,
            schema,
        ),
    decreases schema,
{
    lemma_names_differ();
    let result = crate::extrapolation::carried_over(old, new, schema);
    match schema {
        SchemaView::Section { entries } => {
            lemma_named_extrapolation_conforms(old, new, entries, None, result->Object_0);
        },
        SchemaView::Choice { variants } => {
            lemma_carried_named(old, new, variants);
            lemma_named_extrapolation_conforms(
                old,
                new,
                variants,
                Some("variant"@),
                result->Object_0,
            );
            assert(result->Object_0.dom() =~= names_with_data(variants).insert("variant"@));
        },
        SchemaView::Optional { content } => {
            assert(result->Object_0.dom() =~= set!["set"@, "content"@]);
            if let Some(value) = new.get("content"@) {
                lemma_extrapolation_conforms(old.member("content"@), value, *content);
            }
        },
        SchemaView::Switch { content } => {
            assert(result->Object_0.dom() =~= set!["enabled"@, "content"@]);
            if let Some(value) = new.get("content"@) {
                lemma_extrapolation_conforms(old.member("content"@), value, *content);
            }
        },
        SchemaView::Array(nodes) => {
            assert(conforms_items(old->Array_0, nodes));
            assert(result->Array_0 == crate::extrapolation::carried_items(old, new, nodes));
            assert forall|i: int| 0 <= i < nodes.len() implies (conforms(
                result->Array_0[i],
                #[trigger] nodes[i],
            ) <==> (new.get_item(i) matches Some(value) ==> gives_lists(value, nodes[i]))) by {
                assert(conforms(old->Array_0[i], nodes[i]));
                if let Some(value) = new.get_item(i) {
                    lemma_extrapolation_conforms(old.item(i), value, nodes[i]);
                }
            }
            assert(conforms_items(result->Array_0, nodes) <==> gives_lists_items(new, nodes));
        },
        SchemaView::Vector { default_element } => {
            assert(result->Object_0.dom() =~= set!["element"@, "default"@]);
            assert(!old->Object_0.contains_key("content"@));
            lemma_null_does_not_conform(*default_element);
        },
        SchemaView::Dictionary { default_value } => {
            assert(result->Object_0.dom() =~= set!["key"@, "value"@, "default"@]);
            assert(!old->Object_0.contains_key("content"@));
            lemma_null_does_not_conform(*default_value);
            if let Some(value) = new.get("value"@) {
                lemma_extrapolation_conforms(old.member("value"@), value, *default_value);
            }
        },
        _ => {},
    }
}

/// Null has the shape of no schema.
proof fn lemma_null_does_not_conform(schema: SchemaView)
    ensures
        !conforms(JsonView::Null, schema),
{
}

/// The same for named parts.
proof fn lemma_named_extrapolation_conforms(
    old: JsonView,
    new: JsonView,
    named: Seq<(Seq<char>, Option<SchemaView>)>,
    but: Option<Seq<char>>,
    members: Map<Seq<char>, JsonView>,
)
    requires
        old is Object,
        names_with_data(named).subset_of(old->Object_0.dom()),
        conforms_named(old->Object_0, named, but),
        forall|name: Seq<char>| #[trigger]
            names_with_data(named).contains(name) && but != Some(name) ==> members[name]
                == crate::extrapolation::carried_named(old, new, named)[name],
    ensures
        crate::extrapolation::carried_named(old, new, named).dom() == names_with_data(named),
        conforms_named(members, named, but) <==> gives_lists_named(new, named, but),
    decreases named,
{
    lemma_carried_named(old, new, named);
    assert forall|i: int| #[trigger] counts(named, i) && but != Some(named[i].0) implies (
    named[i].1 matches Some(node) && (conforms(members[named[i].0], node) <==> (new.get(
        named[i].0,
    ) matches Some(value) ==> gives_lists(value, node)))) by {
        let name = named[i].0;
        let node = named[i].1->Some_0;
        assert(names_with_data(named).contains(name));
        if let Some(value) = new.get(name) {
            lemma_extrapolation_conforms(old.member(name), value, node);
        }
    }
}

/// Whether what stands for one node would be carried over as it is: see
/// `settled`.
pub open spec fn settled_part(
    old: JsonView,
    fallback: JsonView,
    new: Option<JsonView>,
    node: SchemaView,
) -> bool
    decreases node, 1int,
{
    match new {
        Some(value) => settled(old, value, node),
        None => crate::extrapolation::carried_over(old, fallback, node) == fallback,
    }
}

/// Whether, wherever the new cache lacks a part, what the old cache holds for
/// it would be carried over as it is.
pub open spec fn settled(old: JsonView, new: JsonView, schema: SchemaView) -> bool
    decreases schema, 0int,
{
    match schema {
        SchemaView::Section { entries } => settled_named(old, new, entries, None),
        SchemaView::Choice { variants } => settled_named(old, new, variants, Some("variant"@)),
        SchemaView::Optional { content } => settled_part(
            old.member("content"@),
            old.member("content"@),
            new.get("content"@),
            *content,
        ),
        SchemaView::Switch { content } => settled_part(
            old.member("content"@),
            old.member("content"@),
            new.get("content"@),
            *content,
        ),
        SchemaView::Array(nodes) => settled_items(old, new, nodes),
        SchemaView::Vector { default_element } => settled_part(
            old.member("content"@),
            old.member("content"@),
            new.get("element"@),
            *default_element,
        ),
        SchemaView::Dictionary { default_value } => settled_part(
            old.member("value"@),
            old.member("content"@),
            new.get("value"@),
            *default_value,
        ),
        _ => true,
    }
}

/// Whether each item of an array is settled.
pub open spec fn settled_items(old: JsonView, new: JsonView, nodes: Seq<SchemaView>) -> bool
    decreases nodes, 0int,
{
    forall|i: int|
        0 <= i < nodes.len() ==> settled_part(
            old.item(i),
            old.item(i),
            new.get_item(i),
            #[trigger] nodes[i],
        )
}

/// Whether each named part is settled; the part of one name is left out.
pub open spec fn settled_named(
    old: JsonView,
    new: JsonView,
    named: Seq<(Seq<char>, Option<SchemaView>)>,
    but: Option<Seq<char>>,
) -> bool
    decreases named, 0int,
{
    forall|i: int| #[trigger]
        counts(named, i) && but != Some(named[i].0) ==> (named[i].1 matches Some(node)
            ==> settled_part(
            old.member(named[i].0),
            old.member(named[i].0),
            new.get(named[i].0),
            node,
        ))
}

/// Extrapolating what was extrapolated changes nothing more, if and only if
/// what the old cache holds for the parts that the new one lacks would be
/// carried over as it is.
pub proof fn lemma_extrapolation_is_idempotent(old: JsonView, new: JsonView, schema: SchemaView)
    ensures
        crate::extrapolation::carried_over(
            old,
            crate::extrapolation::carried_over(old, new, schema),
            schema,
        ) == crate::extrapolation::carried_over(old, new, schema) <==> settled(old, new, schema),
    decreases schema, 0int,
{
    lemma_names_differ();
    let once = crate::extrapolation::carried_over(old, new, schema);
    let twice = crate::extrapolation::carried_over(old, once, schema);
    match schema {
        SchemaView::Section { entries } => {
            lemma_carried_named(old, new, entries);
            lemma_carried_named(old, once, entries);
            lemma_named_extrapolation_is_idempotent(old, new, entries, None, once, twice);
            if settled(old, new, schema) {
                assert(once->Object_0 =~= twice->Object_0);
            }
        },
        SchemaView::Choice { variants } => {
            lemma_carried_named(old, new, variants);
            lemma_carried_named(old, once, variants);
            lemma_named_extrapolation_is_idempotent(
                old,
                new,
                variants,
                Some("variant"@),
                once,
                twice,
            );
            if settled(old, new, schema) {
                assert(once->Object_0 =~= twice->Object_0);
            }
        },
        SchemaView::Optional { content } => {
            lemma_part_is_idempotent(
                old.member("content"@),
                old.member("content"@),
                new.get("content"@),
                *content,
            );
            if settled(old, new, schema) {
                assert(once->Object_0 =~= twice->Object_0);
            }
        },
        SchemaView::Switch { content } => {
            lemma_part_is_idempotent(
                old.member("content"@),
                old.member("content"@),
                new.get("content"@),
                *content,
            );
            if settled(old, new, schema) {
                assert(once->Object_0 =~= twice->Object_0);
            }
        },
        SchemaView::Array(nodes) => {
            assert(once->Array_0 == crate::extrapolation::carried_items(old, new, nodes));
            assert(twice->Array_0 == crate::extrapolation::carried_items(old, once, nodes));
            assert forall|i: int| 0 <= i < nodes.len() implies (once->Array_0[i]
                == twice->Array_0[i] <==> settled_part(
                old.item(i),
                old.item(i),
                new.get_item(i),
                #[trigger] nodes[i],
            )) by {
                lemma_part_is_idempotent(old.item(i), old.item(i), new.get_item(i), nodes[i]);
            }
            assert(once->Array_0.len() == nodes.len() && twice->Array_0.len() == nodes.len());
            if settled_items(old, new, nodes) {
                assert forall|i: int| 0 <= i < nodes.len() implies #[trigger] once->Array_0[i]
                    == twice->Array_0[i] by {
                    assert(settled_part(old.item(i), old.item(i), new.get_item(i), nodes[i]));
                }
                assert(once->Array_0 =~= twice->Array_0);
            }
        },
        SchemaView::Vector { default_element } => {
            lemma_part_is_idempotent(
                old.member("content"@),
                old.member("content"@),
                new.get("element"@),
                *default_element,
            );
            if settled(old, new, schema) {
                assert(once->Object_0 =~= twice->Object_0);
            }
        },
        SchemaView::Dictionary { default_value } => {
            lemma_part_is_idempotent(
                old.member("value"@),
                old.member("content"@),
                new.get("value"@),
                *default_value,
            );
            if settled(old, new, schema) {
                assert(once->Object_0 =~= twice->Object_0);
            }
        },
        _ => {},
    }
}

/// The same for one part.
proof fn lemma_part_is_idempotent(
    old: JsonView,
    fallback: JsonView,
    new: Option<JsonView>,
    node: SchemaView,
)
    ensures
        crate::extrapolation::carried_over(
            old,
            crate::extrapolation::carried_part(old, fallback, new, node),
            node,
        ) == crate::extrapolation::carried_part(old, fallback, new, node) <==> settled_part(
            old,
            fallback,
            new,
            node,
        ),
    decreases node, 1int,
{
    if let Some(value) = new {
        lemma_extrapolation_is_idempotent(old, value, node);
    }
}

/// The same for named parts.
proof fn lemma_named_extrapolation_is_idempotent(
    old: JsonView,
    new: JsonView,
    named: Seq<(Seq<char>, Option<SchemaView>)>,
    but: Option<Seq<char>>,
    once: JsonView,
    twice: JsonView,
)
    requires
        once is Object,
        twice is Object,
        names_with_data(named).subset_of(once->Object_0.dom()),
        forall|name: Seq<char>| #[trigger]
            names_with_data(named).contains(name) && but != Some(name) ==> {
                &&& once->Object_0[name] == crate::extrapolation::carried_named(
                    old,
                    new,
                    named,
                )[name]
                &&& twice->Object_0[name] == crate::extrapolation::carried_named(
                    old,
                    once,
                    named,
                )[name]
            },
    ensures
        settled_named(old, new, named, but) <==> forall|name: Seq<char>| #[trigger]
            names_with_data(named).contains(name) && but != Some(name) ==> once->Object_0[name]
                == twice->Object_0[name],
    decreases named, 0int,
{
    lemma_carried_named(old, new, named);
    lemma_carried_named(old, once, named);
    assert forall|i: int| #[trigger] counts(named, i) && but != Some(named[i].0) implies (
    named[i].1 matches Some(node) && (once->Object_0[named[i].0] == twice->Object_0[named[i].0]
        <==> settled_part(
        old.member(named[i].0),
        old.member(named[i].0),
        new.get(named[i].0),
        node,
    ))) by {
        let name = named[i].0;
        assert(names_with_data(named).contains(name));
        lemma_part_is_idempotent(
            old.member(name),
            old.member(name),
            new.get(name),
            named[i].1->Some_0,
        );
    }
    if settled_named(old, new, named, but) {
        assert forall|name: Seq<char>| #[trigger]
            names_with_data(named).contains(name) && but != Some(name) implies once->Object_0[name]
            == twice->Object_0[name] by {
            lemma_counts(named, name);
            let i = choose|i: int| #[trigger] counts(named, i) && named[i].0 == name;
            assert(counts(named, i));
        }
    } else {
        let i = choose|i: int| #[trigger]
            counts(named, i) && but != Some(named[i].0) && !(named[i].1 matches Some(node)
                ==> settled_part(
                old.member(named[i].0),
                old.member(named[i].0),
                new.get(named[i].0),
                node,
            ));
        assert(names_with_data(named).contains(named[i].0));
    }
}

/// What the settings of the named parts are, name by name: each name with
/// data has one, and no other.
pub proof fn lemma_settings_named(
    cache: JsonView,
    named: Seq<(Seq<char>, Option<SchemaView>)>,
)
    ensures
        crate::settings::settings_named(cache, named).dom() == names_with_data(named),
        forall|i: int| #[trigger]
            counts(named, i) ==> (named[i].1 matches Some(node) && crate::settings::settings_named(
                cache,
                named,
            )[named[i].0] == crate::settings::settings_of(cache.member(named[i].0), node)),
    decreases named.len(),
{
    let result = crate::settings::settings_named(cache, named);
    if named.len() > 0 {
        let rest = named.drop_last();
        lemma_settings_named(cache, rest);
        lemma_names_of_rest(named);
        assert(result.dom() =~= names_with_data(named));
        assert forall|i: int| #[trigger] counts(named, i) implies (named[i].1 matches Some(node)
            && result[named[i].0] == crate::settings::settings_of(
            cache.member(named[i].0),
            node,
        )) by {
            if i < rest.len() {
                lemma_counts_in_rest(named, i);
            }
        }
    } else {
        assert(result.dom() =~= names_with_data(named));
    }
}

/// Whether no two entries of a section, and no two variants of a choice, have
/// the same name, and no variant with data is named like the member that says
/// which variant is chosen.
pub open spec fn well_named(schema: SchemaView) -> bool
    decreases schema, 0int,
{
    match schema {
        SchemaView::Section { entries } => well_named_all(entries),
        SchemaView::Choice { variants } => {
            &&& well_named_all(variants)
            &&& !names_with_data(variants).contains("variant"@)
        },
        SchemaView::Optional { content } => well_named(*content),
        SchemaView::Switch { content } => well_named(*content),
        SchemaView::Array(nodes) => forall|i: int|
            0 <= i < nodes.len() ==> well_named(#[trigger] nodes[i]),
        _ => true,
    }
}

/// Whether the names differ from each other, and each node is well named.
pub open spec fn well_named_all(named: Seq<(Seq<char>, Option<SchemaView>)>) -> bool
    decreases named, 0int,
{
    &&& forall|i: int, j: int|
        0 <= i < j < named.len() ==> (#[trigger] named[i]).0 != (#[trigger] named[j]).0
    &&& forall|i: int|
        0 <= i < named.len() ==> ((#[trigger] named[i]).1 matches Some(node) ==> well_named(node))
}

/// Whether the choices that are read name a variant of the schema.
pub open spec fn choices_known(cache: JsonView, schema: SchemaView) -> bool
    decreases schema, 0int,
{
    match schema {
        SchemaView::Section { entries } => choices_known_named(cache, entries),
        SchemaView::Choice { variants } => {
            ||| crate::settings::only_tags(variants)
            ||| {
                let variant = cache.member("variant"@)->String_0;
                let place = crate::settings::first_named(variants, variant);
                &&& 0 <= place < variants.len()
                &&& variants[place].1 matches Some(node) ==> choices_known(
                    cache.member(variant),
                    node,
                )
            }
        },
        SchemaView::Optional { content } => cache.member("set"@) == JsonView::Bool(true)
            ==> choices_known(cache.member("content"@), *content),
        SchemaView::Switch { content } => cache.member("enabled"@) == JsonView::Bool(true)
            ==> choices_known(cache.member("content"@), *content),
        SchemaView::Array(nodes) => choices_known_items(cache, nodes),
        _ => true,
    }
}

/// Whether the choices of each item of an array are known.
pub open spec fn choices_known_items(cache: JsonView, nodes: Seq<SchemaView>) -> bool
    decreases nodes, 0int,
{
    forall|i: int| 0 <= i < nodes.len() ==> choices_known(cache.item(i), #[trigger] nodes[i])
}

/// Whether the choices of each named part are known.
pub open spec fn choices_known_named(
    cache: JsonView,
    named: Seq<(Seq<char>, Option<SchemaView>)>,
) -> bool
    decreases named, 0int,
{
    forall|i: int|
        0 <= i < named.len() ==> ((#[trigger] named[i]).1 matches Some(node) ==> choices_known(
            cache.member(named[i].0),
            node,
        ))
}

/// The settings can be read off a cache that has the shape of the schema, if
/// and only if it chooses among the variants of the schema.
pub proof fn lemma_conforming_cache_is_readable(cache: JsonView, schema: SchemaView)
    requires
        well_named(schema),
        conforms(cache, schema),
    ensures
        crate::settings::readable(cache, schema) <==> choices_known(cache, schema),
    decreases schema,
{
    lemma_names_differ();
    match schema {
        SchemaView::Section { entries } => {
            lemma_conforming_parts_are_readable(cache, entries, None);
            assert(crate::settings::readable_named(cache, entries) <==> choices_known_named(
                cache,
                entries,
            ));
        },
        SchemaView::Choice { variants } => {
            lemma_conforming_parts_are_readable(cache, variants, Some("variant"@));
            let variant = cache.member("variant"@)->String_0;
            let place = crate::settings::first_named(variants, variant);
            lemma_first_named(variants, variant);
            if 0 <= place < variants.len() && variants[place].1 is Some {
                assert(variants[place].0 == variant);
                assert(names_with_data(variants).contains(variant));
            }
        },
        SchemaView::Optional { content } => {
            lemma_conforming_cache_is_readable(cache.member("content"@), *content);
        },
        SchemaView::Switch { content } => {
            lemma_conforming_cache_is_readable(cache.member("content"@), *content);
        },
        SchemaView::Array(nodes) => {
            assert(conforms_items(cache->Array_0, nodes));
            assert forall|i: int| 0 <= i < nodes.len() implies (crate::settings::readable(
                cache.item(i),
                #[trigger] nodes[i],
            ) <==> choices_known(cache.item(i), nodes[i])) by {
                assert(conforms(cache->Array_0[i], nodes[i]));
                lemma_conforming_cache_is_readable(cache.item(i), nodes[i]);
            }
            assert(crate::settings::readable_items(cache, nodes) <==> choices_known_items(
                cache,
                nodes,
            ));
        },
        _ => {},
    }
}

/// The same for each named part.
proof fn lemma_conforming_parts_are_readable(
    cache: JsonView,
    named: Seq<(Seq<char>, Option<SchemaView>)>,
    but: Option<Seq<char>>,
)
    requires
        cache is Object,
        names_with_data(named).subset_of(cache->Object_0.dom()),
        but matches Some(name) ==> !names_with_data(named).contains(name),
        well_named_all(named),
        conforms_named(cache->Object_0, named, but),
    ensures
        forall|i: int|
            0 <= i < named.len() ==> ((#[trigger] named[i]).1 matches Some(node) ==> (
            crate::settings::readable(cache.member(named[i].0), node) <==> choices_known(
                cache.member(named[i].0),
                node,
            ))),
    decreases named,
{
    assert forall|i: int| 0 <= i < named.len() implies ((#[trigger] named[i]).1 matches Some(node)
        ==> (crate::settings::readable(cache.member(named[i].0), node) <==> choices_known(
        cache.member(named[i].0),
        node,
    ))) by {
        if let Some(node) = named[i].1 {
            assert(names_with_data(named).contains(named[i].0));
            assert(counts(named, i));
            lemma_conforming_cache_is_readable(cache.member(named[i].0), node);
        }
    }
}

/// The first variant of a name has that name.
pub(crate) proof fn lemma_first_named(variants: Seq<(Seq<char>, Option<SchemaView>)>, name: Seq<char>)
    ensures
        0 <= crate::settings::first_named(variants, name) <= variants.len(),
        crate::settings::first_named(variants, name) < variants.len()
            ==> variants[crate::settings::first_named(variants, name)].0 == name,
    decreases variants.len(),
{
    if variants.len() > 0 {
        lemma_first_named(variants.drop_last(), name);
    }
}

/// Whether two caches select the same, and hold the same in what they select:
/// in the chosen variants, and in what is set or enabled. A vector or a
/// dictionary selects its default.
pub open spec fn select_alike(first: JsonView, second: JsonView, schema: SchemaView) -> bool
    decreases schema, 0int,
{
    match schema {
        SchemaView::Section { entries } => select_alike_named(first, second, entries),
        SchemaView::Choice { variants } => {
            &&& first.member("variant"@) == second.member("variant"@)
            &&& first.member("variant"@) matches JsonView::String(variant) ==> {
                let place = crate::settings::first_named(variants, variant);
                0 <= place < variants.len() ==> (variants[place].1 matches Some(node)
                    ==> select_alike(first.member(variant), second.member(variant), node))
            }
        },
        SchemaView::Optional { content } => {
            &&& first.member("set"@) == second.member("set"@)
            &&& first.member("set"@) == JsonView::Bool(true) ==> select_alike(
                first.member("content"@),
                second.member("content"@),
                *content,
            )
        },
        SchemaView::Switch { content } => {
            &&& first.member("enabled"@) == second.member("enabled"@)
            &&& first.member("enabled"@) == JsonView::Bool(true) ==> select_alike(
                first.member("content"@),
                second.member("content"@),
                *content,
            )
        },
        SchemaView::Array(nodes) => select_alike_items(first, second, nodes),
        SchemaView::Vector { .. } => first.member("default"@) == second.member("default"@),
        SchemaView::Dictionary { .. } => first.member("default"@) == second.member("default"@),
        _ => first == second,
    }
}

/// Whether each named part that has data selects alike.
pub open spec fn select_alike_named(
    first: JsonView,
    second: JsonView,
    named: Seq<(Seq<char>, Option<SchemaView>)>,
) -> bool
    decreases named, 0int,
{
    forall|i: int|
        0 <= i < named.len() ==> ((#[trigger] named[i]).1 matches Some(node) ==> select_alike(
            first.member(named[i].0),
            second.member(named[i].0),
            node,
        ))
}

/// Whether each item of an array selects alike.
pub open spec fn select_alike_items(
    first: JsonView,
    second: JsonView,
    nodes: Seq<SchemaView>,
) -> bool
    decreases nodes, 0int,
{
    forall|i: int|
        0 <= i < nodes.len() ==> select_alike(first.item(i), second.item(i), #[trigger] nodes[i])
}

/// What a cache does not select has no say: two caches that select alike are
/// readable alike, and where they are, they have the same settings.
pub proof fn lemma_unselected_parts_have_no_say(
    first: JsonView,
    second: JsonView,
    schema: SchemaView,
)
    requires
        select_alike(first, second, schema),
    ensures
        crate::settings::readable(first, schema) <==> crate::settings::readable(second, schema),
        crate::settings::readable(first, schema) ==> crate::settings::settings_of(first, schema)
            == crate::settings::settings_of(second, schema),
    decreases schema,
{
    match schema {
        SchemaView::Section { entries } => {
            assert(select_alike_named(first, second, entries));
            assert forall|i: int| 0 <= i < entries.len() implies ((
            #[trigger] entries[i]).1 matches Some(node) ==> {
                let name = entries[i].0;
                &&& crate::settings::readable(first.member(name), node)
                    <==> crate::settings::readable(second.member(name), node)
                &&& crate::settings::readable(first.member(name), node)
                    ==> crate::settings::settings_of(first.member(name), node)
                    == crate::settings::settings_of(second.member(name), node)
            }) by {
                if let Some(node) = entries[i].1 {
                    let name = entries[i].0;
                    lemma_unselected_parts_have_no_say(
                        first.member(name),
                        second.member(name),
                        node,
                    );
                }
            }
            assert(crate::settings::readable_named(first, entries)
                <==> crate::settings::readable_named(second, entries));
            if crate::settings::readable_named(first, entries) {
                lemma_settings_named(first, entries);
                lemma_settings_named(second, entries);
                let settings = crate::settings::settings_named(first, entries);
                let others = crate::settings::settings_named(second, entries);
                assert forall|name: Seq<char>| #[trigger]
                    settings.contains_key(name) implies settings[name] == others[name] by {
                    lemma_counts(entries, name);
                    let i = choose|i: int| #[trigger] counts(entries, i) && entries[i].0 == name;
                    assert(counts(entries, i));
                }
                assert(settings =~= others);
            }
        },
        SchemaView::Choice { variants } => {
            if let JsonView::String(variant) = first.member("variant"@) {
                let place = crate::settings::first_named(variants, variant);
                if 0 <= place < variants.len() {
                    if let Some(node) = variants[place].1 {
                        lemma_unselected_parts_have_no_say(
                            first.member(variant),
                            second.member(variant),
                            node,
                        );
                    }
                }
            }
        },
        SchemaView::Optional { content } => {
            if first.member("set"@) == JsonView::Bool(true) {
                lemma_unselected_parts_have_no_say(
                    first.member("content"@),
                    second.member("content"@),
                    *content,
                );
            }
        },
        SchemaView::Switch { content } => {
            if first.member("enabled"@) == JsonView::Bool(true) {
                lemma_unselected_parts_have_no_say(
                    first.member("content"@),
                    second.member("content"@),
                    *content,
                );
            }
        },
        SchemaView::Array(nodes) => {
            assert(select_alike_items(first, second, nodes));
            assert forall|i: int| 0 <= i < nodes.len() implies {
                &&& crate::settings::readable(first.item(i), #[trigger] nodes[i])
                    <==> crate::settings::readable(second.item(i), nodes[i])
                &&& crate::settings::readable(first.item(i), nodes[i])
                    ==> crate::settings::settings_of(first.item(i), nodes[i])
                    == crate::settings::settings_of(second.item(i), nodes[i])
            } by {
                lemma_unselected_parts_have_no_say(first.item(i), second.item(i), nodes[i]);
            }
            assert(crate::settings::readable_items(first, nodes)
                <==> crate::settings::readable_items(second, nodes));
            if crate::settings::readable_items(first, nodes) {
                assert(crate::settings::settings_of(first, schema)->Array_0
                    =~= crate::settings::settings_of(second, schema)->Array_0);
            }
        },
        _ => {},
    }
}

} // verus!
