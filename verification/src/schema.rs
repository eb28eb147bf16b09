//! The shape of the settings: which entries there are, and of what kind.

use vstd::prelude::*;

verus! {

/// A node of the settings schema.
#[derive(Debug)]
pub enum SchemaNode {
    /// Named entries. One without a node is known but has no data.
    Section { entries: Vec<(String, Option<SchemaNode>)> },
    /// One of the named variants. One without a node carries no data.
    Choice { variants: Vec<(String, Option<SchemaNode>)> },
    /// A value that may be left out.
    Optional { content: Box<SchemaNode> },
    /// A value that counts only while it is switched on.
    Switch { content: Box<SchemaNode> },
    Boolean,
    Integer,
    Float,
    Text,
    /// A fixed number of values, each of its own kind.
    Array(Vec<SchemaNode>),
    /// A list of values of one kind.
    Vector { default_element: Box<SchemaNode> },
    /// A list of named values of one kind.
    Dictionary { default_value: Box<SchemaNode> },
}

/// What a schema node is, whatever holds it.
pub enum SchemaView {
    Section { entries: Seq<(Seq<char>, Option<SchemaView>)> },
    Choice { variants: Seq<(Seq<char>, Option<SchemaView>)> },
    Optional { content: Box<SchemaView> },
    Switch { content: Box<SchemaView> },
    Boolean,
    Integer,
    Float,
    Text,
    Array(Seq<SchemaView>),
    Vector { default_element: Box<SchemaView> },
    Dictionary { default_value: Box<SchemaView> },
}

/// The model of a schema node.
pub open spec fn node_view(node: SchemaNode) -> SchemaView
    decreases node,
{
    match node {
        SchemaNode::Section { entries } => SchemaView::Section { entries: named_view(entries@) },
        SchemaNode::Choice { variants } => SchemaView::Choice { variants: named_view(variants@) },
        SchemaNode::Optional { content } => SchemaView::Optional {
            content: Box::new(node_view(*content)),
        },
        SchemaNode::Switch { content } => SchemaView::Switch {
            content: Box::new(node_view(*content)),
        },
        SchemaNode::Boolean => SchemaView::Boolean,
        SchemaNode::Integer => SchemaView::Integer,
        SchemaNode::Float => SchemaView::Float,
        SchemaNode::Text => SchemaView::Text,
        SchemaNode::Array(nodes) => SchemaView::Array(nodes_view(nodes@)),
        SchemaNode::Vector { default_element } => SchemaView::Vector {
            default_element: Box::new(node_view(*default_element)),
        },
        SchemaNode::Dictionary { default_value } => SchemaView::Dictionary {
            default_value: Box::new(node_view(*default_value)),
        },
    }
}

/// The models of named nodes.
pub open spec fn named_view(named: Seq<(String, Option<SchemaNode>)>) -> Seq<
    (Seq<char>, Option<SchemaView>),
>
    decreases named,
{
    Seq::new(
        named.len(),
        |i: int|
            if 0 <= i < named.len() {
                (
                    named[i].0@,
                    match named[i].1 {
                        Some(node) => Some(node_view(node)),
                        None => None,
                    },
                )
            } else {
                (Seq::empty(), None)
            },
    )
}

/// The models of a list of nodes.
pub open spec fn nodes_view(nodes: Seq<SchemaNode>) -> Seq<SchemaView>
    decreases nodes,
{
    Seq::new(
        nodes.len(),
        |i: int|
            if 0 <= i < nodes.len() {
                node_view(nodes[i])
            } else {
                SchemaView::Boolean
            },
    )
}

impl View for SchemaNode {
    type V = SchemaView;

    open spec fn view(&self) -> SchemaView {
        node_view(*self)
    }
}

} // verus!
