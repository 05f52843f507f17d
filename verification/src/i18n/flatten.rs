//! Flattening a value tree into path/value pairs.

use crate::i18n::pair::{PairView, Source, StringValuePathPair};
use crate::i18n::path::clone_path;
use crate::i18n::typed::{display, typed, TypedValue, TypedValueError};
use crate::i18n::value::{lemma_mapping_view, Tree, Node};
use vstd::prelude::*;

verus! {

/// A typed leaf whose format is not one that is known.
pub struct TypeError {
    /// The path that leads to the leaf.
    pub path: Vec<String>,
}

impl View for TypeError {
    type V = Seq<Seq<char>>;

    open spec fn view(&self) -> Seq<Seq<char>> {
        self.path.deep_view()
    }
}

/// The pair of a locale's own string.
pub open spec fn own_pair(path: Seq<Seq<char>>, value: Seq<char>) -> PairView {
    PairView { path, value, source: Source::Own }
}

/// What the traversal of `tree`, reached by `path`, yields, in order: the
/// pair of each leaf, or the path of a typed leaf with an unknown format.
/// A boolean reads `true` or `false`, a number and a string read as they
/// stand, a typed leaf reads as its display string. A mapping that is not a
/// typed leaf yields what its entries with string keys yield, in their
/// order, each under the path extended by its key. Null values and sequences
/// yield nothing.
pub open spec fn leaves(path: Seq<Seq<char>>, tree: Tree) -> Seq<Result<PairView, Seq<Seq<char>>>>
    decreases tree, 0nat,
{
    match tree {
        Tree::Null => Seq::empty(),
        Tree::List(_) => Seq::empty(),
        Tree::Bool(b) => seq![
            Ok(
                own_pair(
                    path,
                    if b {
                        "true"@
                    } else {
                        "false"@
                    },
                ),
            ),
        ],
        Tree::Number(n) => seq![Ok(own_pair(path, n))],
        Tree::Text(s) => seq![Ok(own_pair(path, s))],
        Tree::Dict(entries) => match typed(tree) {
            Ok(leaf) => seq![Ok(own_pair(path, display(leaf)))],
            Err(TypedValueError::UnknownFormat) => seq![Err(path)],
            Err(TypedValueError::NotTyped) => entry_leaves(path, entries, 0),
        },
    }
}

/// What the entries of a mapping yield from entry `from` on.
pub open spec fn entry_leaves(path: Seq<Seq<char>>, entries: Seq<(Tree, Tree)>, from: int) -> Seq<
    Result<PairView, Seq<Seq<char>>>,
>
    decreases entries, entries.len() - from,
{
    if from < 0 || from >= entries.len() {
        Seq::empty()
    } else {
        (match entries[from].0 {
            Tree::Text(key) => leaves(path.push(key), entries[from].1),
            _ => Seq::empty(),
        }) + entry_leaves(path, entries, from + 1)
    }
}

/// The path of what a traversal yields: of the pair, or of the leaf in error.
pub open spec fn item_path(item: Result<PairView, Seq<Seq<char>>>) -> Seq<Seq<char>> {
    match item {
        Ok(pair) => pair.path,
        Err(path) => path,
    }
}

/// Every leaf of a tree lies at the path that leads to the tree, or below
/// it.
pub proof fn lemma_leaves_below(path: Seq<Seq<char>>, tree: Tree, i: int)
    requires
        0 <= i < leaves(path, tree).len(),
    ensures
        path.is_prefix_of(item_path(leaves(path, tree)[i])),
    decreases tree, 0nat,
{
    match tree {
        Tree::Dict(entries) => match typed(tree) {
            Err(TypedValueError::NotTyped) => {
                lemma_entry_leaves_below(path, entries, 0, i);
            },
            _ => {},
        },
        _ => {},
    }
}

/// Every leaf is reached by a path of its own: what the entries of a mapping
/// yield lies strictly below the path that leads to the mapping. The leaves
/// of a locale, whose root has the empty path, have paths of at least one
/// segment.
pub proof fn lemma_entry_leaves_below(
    path: Seq<Seq<char>>,
    entries: Seq<(Tree, Tree)>,
    from: int,
    i: int,
)
    requires
        0 <= i < entry_leaves(path, entries, from).len(),
    ensures
        path.is_prefix_of(item_path(entry_leaves(path, entries, from)[i])),
        item_path(entry_leaves(path, entries, from)[i]).len() > path.len(),
    decreases entries, entries.len() - from,
{
    if 0 <= from < entries.len() {
        let first = match entries[from].0 {
            Tree::Text(key) => leaves(path.push(key), entries[from].1),
            _ => Seq::empty(),
        };
        if i < first.len() {
            match entries[from].0 {
                Tree::Text(key) => {
                    lemma_leaves_below(path.push(key), entries[from].1, i);
                    let found = item_path(first[i]);
                    assert(path =~= path.push(key).subrange(0, path.len() as int));
                    assert(path.push(key) == found.subrange(0, path.len() + 1 as int));
                    assert(path =~= found.subrange(0, path.len() as int));
                },
                _ => {},
            }
        } else {
            lemma_entry_leaves_below(path, entries, from + 1, i - first.len());
        }
    }
}

/// No two entries have the same string key.
pub open spec fn keys_distinct(entries: Seq<(Tree, Tree)>) -> bool {
    forall|i: int, j: int|
        0 <= i < j < entries.len() && (#[trigger] entries[i]).0 is Text && (
        #[trigger] entries[j]).0 is Text ==> entries[i].0 != entries[j].0
}

/// In `tree` no mapping has the same string key twice.
pub open spec fn well_keyed(tree: Tree) -> bool
    decreases tree, 0nat,
{
    match tree {
        Tree::Dict(entries) => keys_distinct(entries) && entries_well_keyed(entries, 0),
        _ => true,
    }
}

/// The values of `entries` from entry `from` on are well keyed.
pub open spec fn entries_well_keyed(entries: Seq<(Tree, Tree)>, from: int) -> bool
    decreases entries, entries.len() - from,
{
    if from < 0 || from >= entries.len() {
        true
    } else {
        well_keyed(entries[from].1) && entries_well_keyed(entries, from + 1)
    }
}

/// What the entries of a mapping yield begins, below the path of the
/// mapping, with the key of one of the entries.
pub proof fn lemma_entry_leaves_key(
    path: Seq<Seq<char>>,
    entries: Seq<(Tree, Tree)>,
    from: int,
    i: int,
)
    requires
        0 <= from,
        0 <= i < entry_leaves(path, entries, from).len(),
    ensures
        item_path(entry_leaves(path, entries, from)[i]).len() > path.len(),
        exists|k: int|
            from <= k < entries.len() && (#[trigger] entries[k]).0 == Tree::Text(
                item_path(entry_leaves(path, entries, from)[i])[path.len() as int],
            ),
    decreases entries.len() - from,
{
    lemma_entry_leaves_below(path, entries, from, i);
    if from < entries.len() {
        let first = match entries[from].0 {
            Tree::Text(key) => leaves(path.push(key), entries[from].1),
            _ => Seq::empty(),
        };
        if i < first.len() {
            match entries[from].0 {
                Tree::Text(key) => {
                    lemma_leaves_below(path.push(key), entries[from].1, i);
                    let found = item_path(first[i]);
                    assert(found.subrange(0, path.len() + 1 as int)[path.len() as int] == key);
                    assert(entries[from].0 == Tree::Text(found[path.len() as int]));
                },
                _ => {},
            }
        } else {
            lemma_entry_leaves_key(path, entries, from + 1, i - first.len());
            let found = item_path(entry_leaves(path, entries, from + 1)[i - first.len()]);
            let k = choose|k: int|
                from + 1 <= k < entries.len() && (#[trigger] entries[k]).0 == Tree::Text(
                    found[path.len() as int],
                );
            assert(from <= k < entries.len() && entries[k].0 == Tree::Text(
                found[path.len() as int],
            ));
        }
    }
}

/// In a well-keyed tree no two leaves have the same path.
pub proof fn lemma_leaves_distinct(path: Seq<Seq<char>>, tree: Tree, i: int, j: int)
    requires
        well_keyed(tree),
        0 <= i < j < leaves(path, tree).len(),
    ensures
        item_path(leaves(path, tree)[i]) != item_path(leaves(path, tree)[j]),
    decreases tree, 0nat,
{
    match tree {
        Tree::Dict(entries) => match typed(tree) {
            Err(TypedValueError::NotTyped) => {
                lemma_entry_leaves_distinct(path, entries, 0, i, j);
            },
            _ => {},
        },
        _ => {},
    }
}

/// Every leaf is reached by a unique path: where no mapping has the same
/// string key twice, no two of the leaves that the entries of a mapping
/// yield have the same path.
pub proof fn lemma_entry_leaves_distinct(
    path: Seq<Seq<char>>,
    entries: Seq<(Tree, Tree)>,
    from: int,
    i: int,
    j: int,
)
    requires
        keys_distinct(entries),
        entries_well_keyed(entries, from),
        0 <= from,
        0 <= i < j < entry_leaves(path, entries, from).len(),
    ensures
        item_path(entry_leaves(path, entries, from)[i]) != item_path(
            entry_leaves(path, entries, from)[j],
        ),
    decreases entries, entries.len() - from,
{
    if from < entries.len() {
        let first = match entries[from].0 {
            Tree::Text(key) => leaves(path.push(key), entries[from].1),
            _ => Seq::empty(),
        };
        let rest = entry_leaves(path, entries, from + 1);
        if j < first.len() {
            match entries[from].0 {
                Tree::Text(key) => {
                    lemma_leaves_distinct(path.push(key), entries[from].1, i, j);
                },
                _ => {},
            }
        } else if i >= first.len() {
            lemma_entry_leaves_distinct(path, entries, from + 1, i - first.len(), j - first.len());
        } else {
            match entries[from].0 {
                Tree::Text(key) => {
                    lemma_leaves_below(path.push(key), entries[from].1, i);
                    let here = item_path(first[i]);
                    assert(here.subrange(0, path.len() + 1 as int)[path.len() as int] == key);
                    lemma_entry_leaves_key(path, entries, from + 1, j - first.len());
                    let there = item_path(rest[j - first.len()]);
                    let k = choose|k: int|
                        from + 1 <= k < entries.len() && (#[trigger] entries[k]).0 == Tree::Text(
                            there[path.len() as int],
                        );
                    assert(entries[from].0 != entries[k].0);
                    assert(here[path.len() as int] != there[path.len() as int]);
                },
                _ => {},
            }
        }
    }
}

/// A bound on the work that the traversal of `tree` takes.
pub open spec fn weight(tree: Tree) -> nat
    decreases tree, 0nat,
{
    match tree {
        Tree::Dict(entries) => 1 + entries_weight(entries, 0),
        _ => 1,
    }
}

/// The weights of the values of `entries` from entry `from` on, added up.
pub open spec fn entries_weight(entries: Seq<(Tree, Tree)>, from: int) -> nat
    decreases entries, entries.len() - from,
{
    if from < 0 || from >= entries.len() {
        0
    } else {
        weight(entries[from].1) + entries_weight(entries, from + 1)
    }
}

/// A value that is still to be traversed, with the path that leads to it.
pub struct ValuePathPairRef<'a> {
    value: &'a Node,
    path: Vec<String>,
}

/// What the values on `frames` yield, the last one first.
pub closed spec fn frames_pending(frames: Seq<ValuePathPairRef>) -> Seq<
    Result<PairView, Seq<Seq<char>>>,
>
    decreases frames.len(),
{
    if frames.len() == 0 {
        Seq::empty()
    } else {
        leaves(frames.last().path.deep_view(), frames.last().value@) + frames_pending(
            frames.drop_last(),
        )
    }
}

/// The weights of the values on `frames`, added up.
pub closed spec fn frames_weight(frames: Seq<ValuePathPairRef>) -> nat
    decreases frames.len(),
{
    if frames.len() == 0 {
        0
    } else {
        weight(frames.last().value@) + frames_weight(frames.drop_last())
    }
}

/// Puts the entries of a mapping that have a string key on `stack`, the
/// first entry on top.
fn push_children<'a>(
    stack: &mut Vec<ValuePathPairRef<'a>>,
    path: &Vec<String>,
    entries: &'a Vec<(Node, Node)>,
)
    ensures
        frames_pending(final(stack)@) == entry_leaves(
            path.deep_view(),
            Node::Mapping(*entries)@->Dict_0,
            0,
        ) + frames_pending(old(stack)@),
        frames_weight(final(stack)@) <= frames_weight(old(stack)@) + entries_weight(
            Node::Mapping(*entries)@->Dict_0,
            0,
        ),
{
    let ghost ev = Node::Mapping(*entries)@->Dict_0;
    let ghost pv = path.deep_view();
    let ghost base = stack@;
    proof {
        lemma_mapping_view(*entries);
    }
    let mut j: usize = entries.len();
    assert(entry_leaves(pv, ev, j as int) + frames_pending(base) =~= frames_pending(base));
    while j > 0
        invariant
            j <= entries.len(),
            pv == path.deep_view(),
            base == old(stack)@,
            ev == Node::Mapping(*entries)@->Dict_0,
            ev.len() == entries@.len(),
            forall|k: int| 0 <= k < entries@.len() ==> (#[trigger] ev[k]) == (
                entries@[k].0@,
                entries@[k].1@,
            ),
            frames_pending(stack@) == entry_leaves(pv, ev, j as int) + frames_pending(base),
            frames_weight(stack@) <= frames_weight(base) + entries_weight(ev, j as int),
        decreases j,
    {
        j = j - 1;
        let ghost below = stack@;
        assert(ev[j as int] == (entries@[j as int].0@, entries@[j as int].1@));
        match &entries[j].0 {
            Node::String(key) => {
                let mut child = clone_path(path);
                child.push(key.clone());
                assert(child.deep_view() =~= pv.push(key@));
                assert(entries@[j as int].0@ == Tree::Text(key@));
                let frame = ValuePathPairRef { value: &entries[j].1, path: child };
                stack.push(frame);
                assert(stack@.drop_last() =~= below);
                assert(stack@.last() == frame);
                assert(frames_pending(stack@) =~= leaves(pv.push(key@), ev[j as int].1)
                    + frames_pending(below));
                assert(frames_pending(stack@) =~= entry_leaves(pv, ev, j as int) + frames_pending(
                    base,
                ));
            },
            _ => {
                assert(!(entries@[j as int].0@ is Text));
                assert(entry_leaves(pv, ev, j as int) =~= entry_leaves(pv, ev, j + 1));
            },
        }
    }
}

/// Walks a value tree depth first and hands out its leaves one at a time.
pub struct ValueIter<'a> {
    stack: Vec<ValuePathPairRef<'a>>,
}

/// What a step of the traversal handed out, as a mathematical value.
pub open spec fn leaf_view(leaf: Result<StringValuePathPair, TypeError>) -> Result<
    PairView,
    Seq<Seq<char>>,
> {
    match leaf {
        Ok(pair) => Ok(pair@),
        Err(e) => Err(e@),
    }
}

impl<'a> ValueIter<'a> {
    /// What is still to come, in order.
    pub closed spec fn pending(&self) -> Seq<Result<PairView, Seq<Seq<char>>>> {
        frames_pending(self.stack@)
    }

    /// Starts a traversal of the entries of a locale's root mapping.
    pub fn new(values: &'a Vec<(Node, Node)>) -> (r: ValueIter<'a>)
        ensures
            r.pending() == entry_leaves(Seq::empty(), Node::Mapping(*values)@->Dict_0, 0),
    {
        let mut stack: Vec<ValuePathPairRef<'a>> = Vec::new();
        let root: Vec<String> = Vec::new();
        assert(root.deep_view() =~= Seq::<Seq<char>>::empty());
        push_children(&mut stack, &root, values);
        assert(frames_pending(stack@) =~= entry_leaves(
            Seq::empty(),
            Node::Mapping(*values)@->Dict_0,
            0,
        ));
        ValueIter { stack }
    }

    /// Hands out the next leaf, or `None` when the tree is exhausted.
    pub fn next(&mut self) -> (r: Option<Result<StringValuePathPair, TypeError>>)
        ensures
            old(self).pending().len() == 0 ==> r is None && final(self).pending() == old(
                self,
            ).pending(),
            old(self).pending().len() > 0 ==> r is Some && leaf_view(r->0) == old(self).pending()[0]
                && final(self).pending() == old(self).pending().drop_first(),
    {
        let ghost goal = self.pending();
        loop
            invariant
                goal == old(self).pending(),
                goal == frames_pending(self.stack@),
            decreases frames_weight(self.stack@),
        {
            let ghost above = self.stack@;
            let frame = match self.stack.pop() {
                None => {
                    return None;
                },
                Some(frame) => frame,
            };
            let ghost rest = self.stack@;
            assert(above.last() == frame);
            assert(above.drop_last() =~= rest);
            let ghost path = frame.path.deep_view();
            assert(goal == leaves(path, frame.value@) + frames_pending(rest));
            assert(frames_weight(above) == weight(frame.value@) + frames_weight(rest));
            match frame.value {
                Node::Null => {
                    assert(goal =~= frames_pending(rest));
                },
                Node::Sequence(_) => {
                    assert(goal =~= frames_pending(rest));
                },
                Node::Bool(b) => {
                    let text = if *b {
                        "true".to_owned()
                    } else {
                        "false".to_owned()
                    };
                    assert(goal.drop_first() =~= frames_pending(rest));
                    return Some(Ok(StringValuePathPair::new(frame.path, text)));
                },
                Node::Number(n) => {
                    assert(goal.drop_first() =~= frames_pending(rest));
                    return Some(Ok(StringValuePathPair::new(frame.path, n.clone())));
                },
                Node::String(s) => {
                    assert(goal.drop_first() =~= frames_pending(rest));
                    return Some(Ok(StringValuePathPair::new(frame.path, s.clone())));
                },
                Node::Mapping(entries) => {
                    proof {
                        lemma_mapping_view(*entries);
                    }
                    match TypedValue::try_from(frame.value) {
                        Ok(leaf) => {
                            assert(goal.drop_first() =~= frames_pending(rest));
                            let text = leaf.to_string();
                            return Some(Ok(StringValuePathPair::new(frame.path, text)));
                        },
                        Err(TypedValueError::UnknownFormat) => {
                            assert(goal.drop_first() =~= frames_pending(rest));
                            return Some(Err(TypeError { path: frame.path }));
                        },
                        Err(TypedValueError::NotTyped) => {
                            push_children(&mut self.stack, &frame.path, entries);
                        },
                    }
                },
            }
        }
    }
}

} // verus!
