//! Reading a YAML document into a value tree.

use crate::i18n::flatten::well_keyed;
use crate::i18n::value::{Node, Tree};
use vstd::prelude::*;

verus! {

/// A parsed YAML value of `serde_yaml`, carried through without looking inside.
#[verifier::external_type_specification]
#[verifier::external_body]
pub struct ExYamlValue(serde_yaml::Value);

/// The tree that `serde_yaml` reads from the document `text`, or, where it
/// reports an error, what its error says. Entries of a mapping stand in the
/// order of the document, and a number stands as the text that its `Display`
/// writes.
pub uninterp spec fn yaml_document(text: Seq<char>) -> Result<Tree, Seq<char>>;

/// Trusted: rebuilds a `serde_yaml::Value` as a [`Node`], variant for
/// variant. A number becomes what `Number`'s `Display` writes; the items of
/// a sequence and the entries of a mapping, walked with `Mapping::iter` in
/// the order of insertion, are rebuilt in turn.
#[verifier::external_body]
fn from_yaml(value: &serde_yaml::Value) -> Node {
    match value {
        serde_yaml::Value::Null => Node::Null,
        serde_yaml::Value::Bool(b) => Node::Bool(*b),
        serde_yaml::Value::Number(n) => Node::Number(n.to_string()),
        serde_yaml::Value::String(s) => Node::String(s.clone()),
        serde_yaml::Value::Sequence(items) => Node::Sequence(items.iter().map(from_yaml).collect()),
        serde_yaml::Value::Mapping(entries) => Node::Mapping(
            entries.iter().map(|(k, v)| (from_yaml(k), from_yaml(v))).collect(),
        ),
    }
}

/// Trusted: calls `serde_yaml::from_str` for a `serde_yaml::Value` and
/// rebuilds what it returns as a [`Node`], or, for an error, hands on what
/// the error's `Display` writes. The result is named by [`yaml_document`].
/// One thing more is claimed of it: a `serde_yaml::Mapping` is a map, which
/// holds each key once, so no mapping of the tree has the same string key
/// twice.
#[verifier::external_body]
pub(crate) fn parse_yaml(text: &str) -> (r: Result<Node, String>)
    ensures
        match r {
            Ok(value) => yaml_document(text@) == Ok::<Tree, Seq<char>>(value@) && well_keyed(
                value@,
            ),
            Err(message) => yaml_document(text@) == Err::<Tree, Seq<char>>(message@),
        },
{
    match serde_yaml::from_str::<serde_yaml::Value>(text) {
        Ok(value) => Ok(from_yaml(&value)),
        Err(e) => Err(e.to_string()),
    }
}

} // verus!
