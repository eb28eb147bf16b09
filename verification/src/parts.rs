//! The parts of JSON values, and the named nodes of a schema: the words in
//! which the laws of the library are told.

use crate::json::JsonView;
use crate::schema::SchemaNode;
use vstd::prelude::*;

verus! {

/// Whether a value is an object with a member of that name.
pub open spec fn has_member(whole: JsonView, name: Seq<char>) -> bool {
    whole is Object && whole->Object_0.dom().contains(name)
}

/// Whether this is the member of that name; null stands for one that is not
/// there.
pub open spec fn is_part(whole: JsonView, name: Seq<char>, part: JsonView) -> bool {
    if has_member(whole, name) {
        part == whole->Object_0[name]
    } else {
        part == JsonView::Null
    }
}

/// Whether a value is an array that reaches to that place.
pub open spec fn has_item(whole: JsonView, index: int) -> bool {
    whole is Array && 0 <= index < whole->Array_0.len()
}

/// Whether this is the item at that place; null stands for one that is not
/// there.
pub open spec fn is_item(whole: JsonView, index: int, item: JsonView) -> bool {
    if has_item(whole, index) {
        item == whole->Array_0[index]
    } else {
        item == JsonView::Null
    }
}

/// Whether a name has data: one of the nodes of that name is there.
pub open spec fn has_data(named: Seq<(String, Option<SchemaNode>)>, name: Seq<char>) -> bool {
    exists|i: int|
        0 <= i < named.len() && (#[trigger] named[i]).1 is Some && named[i].0@ == name
}

/// Whether the node at that place is the last one of its name.
pub open spec fn is_last_of_name(named: Seq<(String, Option<SchemaNode>)>, i: int) -> bool {
    &&& 0 <= i < named.len()
    &&& named[i].1 is Some
    &&& forall|j: int|
        i < j < named.len() && (#[trigger] named[j]).1 is Some ==> named[j].0@ != named[i].0@
}

/// The last node of a name is the one that counts.
pub(crate) proof fn lemma_last_counts(named: Seq<(String, Option<SchemaNode>)>, i: int)
    requires
        is_last_of_name(named, i),
    ensures
        crate::conformance::counts(crate::schema::named_view(named), i),
        crate::schema::named_view(named)[i].0 == named[i].0@,
        crate::schema::named_view(named)[i].1 == Some(named[i].1->Some_0@),
{
    let view = crate::schema::named_view(named);
    assert forall|j: int| i < j < view.len() && (#[trigger] view[j]).1 is Some implies view[j].0
        != view[i].0 by {
        assert(named[j].1 is Some);
    }
}

/// The names that have data are those of the nodes that are there.
pub(crate) proof fn lemma_names_with_data(named: Seq<(String, Option<SchemaNode>)>, name: Seq<char>)
    ensures
        crate::conformance::names_with_data(crate::schema::named_view(named)).contains(name)
            <==> has_data(named, name),
{
    let view = crate::schema::named_view(named);
    if crate::conformance::names_with_data(view).contains(name) {
        let i = choose|i: int|
            0 <= i < view.len() && (#[trigger] view[i]).1 is Some && view[i].0 == name;
        assert(named[i].1 is Some);
    }
    if has_data(named, name) {
        let i = choose|i: int|
            0 <= i < named.len() && (#[trigger] named[i]).1 is Some && named[i].0@ == name;
        assert(view[i].1 is Some);
    }
}

} // verus!
