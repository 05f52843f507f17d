//! Typed leaves: a mapping that carries a display value and how to format it.

use crate::i18n::value::{lemma_mapping_view, Tree, Node};
use crate::markdown::{markdown_html, render_markdown};
use crate::text::{compare_text, lemma_text_rank_same, Rank};
use vstd::prelude::*;

verus! {

/// How the value of a typed leaf becomes its display string.
#[derive(Clone, Copy, Debug, PartialEq, Eq, Structural)]
pub enum ValueFormat {
    /// Plain text, written `txt`: the value as it stands.
    Text,
    /// Markdown, written `md`: the value rendered to HTML.
    Markdown,
}

/// Why a node is not a well-formed typed leaf.
#[derive(Clone, Copy, Debug, PartialEq, Eq, Structural)]
pub enum TypedValueError {
    /// The node is not of the typed shape: it is neither a string nor a
    /// mapping with a string under `value`.
    NotTyped,
    /// The node is of the typed shape, but what stands under `format` is
    /// neither absent, null, `txt` nor `md`.
    UnknownFormat,
}

/// A leaf given as a mapping with a `value` and, if it likes, a `format`.
pub struct TypedValue {
    pub value: String,
    pub format: Option<ValueFormat>,
}

/// The mathematical value of a [`TypedValue`].
pub ghost struct TypedView {
    pub value: Seq<char>,
    pub format: Option<ValueFormat>,
}

impl View for TypedValue {
    type V = TypedView;

    open spec fn view(&self) -> TypedView {
        TypedView { value: self.value@, format: self.format }
    }
}

/// What stands under the string key `key` in `entries`, going by the first
/// entry with that key.
pub open spec fn lookup(entries: Seq<(Tree, Tree)>, key: Seq<char>) -> Option<Tree>
    decreases entries.len(),
{
    if entries.len() == 0 {
        None
    } else if entries[0].0 == Tree::Text(key) {
        Some(entries[0].1)
    } else {
        lookup(entries.drop_first(), key)
    }
}

/// The format that a `format` entry asks for, or `None` where it is not one
/// that is known.
pub open spec fn format_of(entry: Option<Tree>) -> Option<Option<ValueFormat>> {
    match entry {
        None => Some(None),
        Some(Tree::Null) => Some(None),
        Some(Tree::Text(f)) => if f == "txt"@ {
            Some(Some(ValueFormat::Text))
        } else if f == "md"@ {
            Some(Some(ValueFormat::Markdown))
        } else {
            None
        },
        Some(_) => None,
    }
}

/// How `tree` reads as a typed leaf. A string is a text leaf. A mapping with
/// a string under `value` is a typed leaf if its `format` is known, and an
/// error if not; its other entries are not looked at. Everything else is not
/// typed.
pub open spec fn typed(tree: Tree) -> Result<TypedView, TypedValueError> {
    match tree {
        Tree::Text(s) => Ok(TypedView { value: s, format: Some(ValueFormat::Text) }),
        Tree::Dict(entries) => match lookup(entries, "value"@) {
            Some(Tree::Text(v)) => match format_of(lookup(entries, "format"@)) {
                Some(format) => Ok(TypedView { value: v, format }),
                None => Err(TypedValueError::UnknownFormat),
            },
            _ => Err(TypedValueError::NotTyped),
        },
        _ => Err(TypedValueError::NotTyped),
    }
}

/// The display string of a typed leaf: the value itself for plain text and
/// where no format is given, its HTML rendering for Markdown.
pub open spec fn display(leaf: TypedView) -> Seq<char> {
    match leaf.format {
        Some(ValueFormat::Markdown) => markdown_html(leaf.value),
        _ => leaf.value,
    }
}

/// Finds the first entry of `entries` with the string key `key`.
pub fn find_entry<'a>(entries: &'a Vec<(Node, Node)>, key: &str) -> (r: Option<&'a Node>)
    ensures
        match r {
            Some(v) => lookup(Node::Mapping(*entries)@->Dict_0, key@) == Some(v@),
            None => lookup(Node::Mapping(*entries)@->Dict_0, key@) is None,
        },
{
    let ghost ev = Node::Mapping(*entries)@->Dict_0;
    proof {
        lemma_mapping_view(*entries);
    }
    let mut i: usize = 0;
    assert(ev.skip(0) =~= ev);
    while i < entries.len()
        invariant
            i <= entries.len(),
            ev == Node::Mapping(*entries)@->Dict_0,
            ev.len() == entries@.len(),
            forall|k: int| 0 <= k < entries@.len() ==> (#[trigger] ev[k]) == (
                entries@[k].0@,
                entries@[k].1@,
            ),
            lookup(ev, key@) == lookup(ev.skip(i as int), key@),
        decreases entries.len() - i,
    {
        let ghost rest = ev.skip(i as int);
        assert(rest[0] == ev[i as int]);
        assert(rest.drop_first() =~= ev.skip(i + 1));
        assert(rest[0].0 == entries@[i as int].0@);
        assert(rest[0].1 == entries@[i as int].1@);
        match &entries[i].0 {
            Node::String(s) => {
                proof {
                    lemma_text_rank_same(s@, key@);
                    assert(entries@[i as int].0@ == Tree::Text(s@));
                }
                match compare_text(s.as_str(), key) {
                    Rank::Same => {
                        assert(lookup(rest, key@) == Some(rest[0].1));
                        return Some(&entries[i].1);
                    },
                    _ => {},
                }
            },
            _ => {
                assert(!(entries@[i as int].0@ is Text));
            },
        }
        assert(lookup(rest, key@) == lookup(rest.drop_first(), key@));
        i = i + 1;
    }
    None
}

impl TypedValue {
    /// Reads `value` as a typed leaf.
    pub fn try_from(value: &Node) -> (r: Result<TypedValue, TypedValueError>)
        ensures
            match r {
                Ok(leaf) => typed(value@) == Ok::<TypedView, TypedValueError>(leaf@),
                Err(e) => typed(value@) == Err::<TypedView, TypedValueError>(e),
            },
    {
        match value {
            Node::String(s) => Ok(TypedValue { value: s.clone(), format: Some(ValueFormat::Text) }),
            Node::Mapping(entries) => {
                proof {
                    lemma_mapping_view(*entries);
                }
                let text = match find_entry(entries, "value") {
                    Some(Node::String(v)) => v,
                    _ => {
                        return Err(TypedValueError::NotTyped);
                    },
                };
                let format = match find_entry(entries, "format") {
                    None => None,
                    Some(Node::Null) => None,
                    Some(Node::String(f)) => {
                        proof {
                            lemma_text_rank_same(f@, "txt"@);
                            lemma_text_rank_same(f@, "md"@);
                        }
                        match compare_text(f.as_str(), "txt") {
                            Rank::Same => Some(ValueFormat::Text),
                            _ => match compare_text(f.as_str(), "md") {
                                Rank::Same => Some(ValueFormat::Markdown),
                                _ => {
                                    return Err(TypedValueError::UnknownFormat);
                                },
                            },
                        }
                    },
                    Some(_) => {
                        return Err(TypedValueError::UnknownFormat);
                    },
                };
                Ok(TypedValue { value: text.clone(), format })
            },
            _ => Err(TypedValueError::NotTyped),
        }
    }

    /// The display string of this leaf.
    pub fn to_string(&self) -> (r: String)
        ensures
            r@ == display(self@),
    {
        match self.format {
            Some(ValueFormat::Markdown) => render_markdown(self.value.as_str()),
            _ => self.value.clone(),
        }
    }
}

} // verus!
