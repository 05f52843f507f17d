//! The value tree of one locale document.

use vstd::prelude::*;

verus! {

/// One node of a locale document.
pub enum Node {
    Null,
    Bool(bool),
    /// A number, held as its canonical decimal text.
    Number(String),
    String(String),
    Sequence(Vec<Node>),
    /// Key/value entries in document order.
    Mapping(Vec<(Node, Node)>),
}

/// The mathematical tree that a [`Node`] stands for.
pub ghost enum Tree {
    Null,
    Bool(bool),
    Number(Seq<char>),
    Text(Seq<char>),
    List(Seq<Tree>),
    Dict(Seq<(Tree, Tree)>),
}

/// The tree that `value` stands for.
pub open spec fn tree_of(value: Node) -> Tree
    decreases value,
{
    match value {
        Node::Null => Tree::Null,
        Node::Bool(b) => Tree::Bool(b),
        Node::Number(n) => Tree::Number(n@),
        Node::String(s) => Tree::Text(s@),
        Node::Sequence(items) => Tree::List(
            Seq::new(
                items@.len(),
                |i: int|
                    if 0 <= i < items@.len() {
                        tree_of(items@[i])
                    } else {
                        Tree::Null
                    },
            ),
        ),
        Node::Mapping(entries) => Tree::Dict(
            Seq::new(
                entries@.len(),
                |i: int|
                    if 0 <= i < entries@.len() {
                        (tree_of(entries@[i].0), tree_of(entries@[i].1))
                    } else {
                        (Tree::Null, Tree::Null)
                    },
            ),
        ),
    }
}

impl View for Node {
    type V = Tree;

    open spec fn view(&self) -> Tree {
        tree_of(*self)
    }
}

/// What the view of a mapping holds, entry by entry.
pub proof fn lemma_mapping_view(entries: Vec<(Node, Node)>)
    ensures
        Node::Mapping(entries)@ is Dict,
        Node::Mapping(entries)@->Dict_0.len() == entries@.len(),
        forall|i: int|
            0 <= i < entries@.len() ==> (#[trigger] Node::Mapping(entries)@->Dict_0[i]) == (
                entries@[i].0@,
                entries@[i].1@,
            ),
{
}

} // verus!
