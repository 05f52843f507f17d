//! The record types that mirror the key paths of the default locale.

use crate::i18n::names::{push_record_name, record_name, NamedPath, NamedPathView};
use vstd::prelude::*;

verus! {

/// The length of the longest path.
pub open spec fn deepest(names: Seq<NamedPathView>) -> nat
    decreases names.len(),
{
    if names.len() == 0 {
        0
    } else if names.last().path.len() > deepest(names.drop_last()) {
        names.last().path.len()
    } else {
        deepest(names.drop_last())
    }
}

/// The last path in front of path `i` that is longer than `layer`, or `-1`
/// where there is none.
pub open spec fn previous_deeper(names: Seq<NamedPathView>, i: int, layer: nat) -> int
    decreases i,
{
    if i <= 0 || i > names.len() {
        -1
    } else if names[i - 1].path.len() > layer {
        i - 1
    } else {
        previous_deeper(names, i - 1, layer)
    }
}

/// Path `i` is the first of its group at `layer`: below the root, and with
/// other leading `layer` segments than the path in front of it.
pub open spec fn opens_record(names: Seq<NamedPathView>, i: int, layer: nat) -> bool {
    let j = previous_deeper(names, i, layer);
    layer > 0 && (j < 0 || names[j].path.take(layer as int) != names[i].path.take(layer as int))
}

/// Path `i` goes on below segment `layer`, and the path in front of it does
/// not go on below the same segment of the same record.
pub open spec fn names_record(names: Seq<NamedPathView>, i: int, layer: nat) -> bool {
    let j = previous_deeper(names, i, layer);
    names[i].path.len() > layer + 1 && !(j >= 0 && names[j].path.len() > layer + 1
        && names[j].path.take(layer + 1 as int) == names[i].path.take(layer + 1 as int))
}

/// The line that ends the record before and begins the record whose name is
/// made of `parts`.
pub open spec fn record_head(parts: Seq<Seq<char>>) -> Seq<char> {
    "}\n\n"@ + "pub struct "@ + record_name(parts) + " {\n"@
}

/// The field `field` of a leaf.
pub open spec fn leaf_field(field: Seq<char>) -> Seq<char> {
    "    pub "@ + field + ": &'static str,\n"@
}

/// The field `field` that embeds the record whose name is made of `parts`.
pub open spec fn record_field(field: Seq<char>, parts: Seq<Seq<char>>) -> Seq<char> {
    "    pub "@ + field + ": "@ + record_name(parts) + ",\n"@
}

/// What path `i` adds to the text at `layer`: nothing where it is no longer
/// than `layer`; else the head of its record where it is the first of its
/// group, and then its field: a string where the path ends at this segment,
/// an embedded record where it is the first to go on below it.
pub open spec fn field_text(names: Seq<NamedPathView>, i: int, layer: nat) -> Seq<char> {
    if names[i].path.len() <= layer {
        Seq::empty()
    } else {
        (if opens_record(names, i, layer) {
            record_head(names[i].records.take(layer as int))
        } else {
            Seq::empty()
        }) + (if names[i].path.len() == layer + 1 {
            leaf_field(names[i].fields[layer as int])
        } else if names_record(names, i, layer) {
            record_field(names[i].fields[layer as int], names[i].records.take(layer + 1 as int))
        } else {
            Seq::empty()
        })
    }
}

/// What the first `n` paths add to the text at `layer`.
pub open spec fn layer_text(names: Seq<NamedPathView>, layer: nat, n: nat) -> Seq<char>
    decreases n,
{
    if n == 0 || n > names.len() {
        Seq::empty()
    } else {
        layer_text(names, layer, (n - 1) as nat) + field_text(names, n - 1, layer)
    }
}

/// The text of the first `layers` layers.
pub open spec fn layers_text(names: Seq<NamedPathView>, layers: nat) -> Seq<char>
    decreases layers,
{
    if layers == 0 {
        Seq::empty()
    } else {
        layers_text(names, (layers - 1) as nat) + layer_text(
            names,
            (layers - 1) as nat,
            names.len(),
        )
    }
}

/// The record types for the paths `names`, which are taken to be sorted:
/// the root record `Strings` first, then layer by layer one record for each
/// group of paths with the same leading segments, with one field for each
/// segment that follows them.
pub open spec fn struct_text(names: Seq<NamedPathView>) -> Seq<char> {
    "pub struct Strings {\n"@ + layers_text(names, deepest(names)) + "}\n"@
}

/// Every path has a name for each of its segments.
pub open spec fn all_named(names: Seq<NamedPathView>) -> bool {
    forall|i: int| 0 <= i < names.len() ==> (#[trigger] names[i]).wf()
}

/// Finds the length of the longest path.
pub fn find_deepest(names: &Vec<NamedPath>) -> (r: usize)
    ensures
        r == deepest(names.deep_view()),
{
    let ghost nv = names.deep_view();
    let mut r: usize = 0;
    let mut i: usize = 0;
    assert(nv.take(0) =~= Seq::<NamedPathView>::empty());
    while i < names.len()
        invariant
            i <= names.len(),
            nv == names.deep_view(),
            r == deepest(nv.take(i as int)),
        decreases names.len() - i,
    {
        assert(nv.take(i + 1).drop_last() =~= nv.take(i as int));
        assert(nv.take(i + 1).last() == nv[i as int]);
        assert(nv[i as int].path.len() == names@[i as int].path.len());
        if names[i].path.len() > r {
            r = names[i].path.len();
        }
        i = i + 1;
    }
    assert(nv.take(names.len() as int) =~= nv);
    r
}

/// Tells whether `a` and `b` have the same first `n` segments.
pub fn same_prefix(a: &Vec<String>, b: &Vec<String>, n: usize) -> (r: bool)
    requires
        n <= a.len(),
        n <= b.len(),
    ensures
        r == (a.deep_view().take(n as int) == b.deep_view().take(n as int)),
{
    let ghost av = a.deep_view();
    let ghost bv = b.deep_view();
    let mut i: usize = 0;
    assert(av.take(0) =~= bv.take(0));
    while i < n
        invariant
            i <= n,
            n <= a.len(),
            n <= b.len(),
            av == a.deep_view(),
            bv == b.deep_view(),
            av.take(i as int) == bv.take(i as int),
        decreases n - i,
    {
        if a[i] != b[i] {
            assert(av.take(n as int)[i as int] != bv.take(n as int)[i as int]);
            return false;
        }
        assert(av.take(i + 1) =~= av.take(i as int).push(av[i as int]));
        assert(bv.take(i + 1) =~= bv.take(i as int).push(bv[i as int]));
        i = i + 1;
    }
    true
}

/// Appends to `w` the head of the record of path `i` at `layer`, where the
/// path is the first of its group.
fn push_head(w: &mut String, names: &Vec<NamedPath>, i: usize, layer: usize, previous: Option<usize>)
    requires
        i < names.len(),
        names@[i as int].path.len() > layer,
        all_named(names.deep_view()),
        match previous {
            Some(j) => j < i && j == previous_deeper(names.deep_view(), i as int, layer as nat)
                && names@[j as int].path.len() > layer,
            None => previous_deeper(names.deep_view(), i as int, layer as nat) == -1,
        },
    ensures
        final(w)@ == old(w)@ + (if opens_record(names.deep_view(), i as int, layer as nat) {
            record_head(names.deep_view()[i as int].records.take(layer as int))
        } else {
            Seq::empty()
        }),
{
    let ghost nv = names.deep_view();
    let name = &names[i];
    assert(nv[i as int] == name@);
    assert(name@.wf());
    let same_record = match previous {
        Some(j) => {
            assert(nv[j as int] == names@[j as int]@);
            same_prefix(&names[j].path, &name.path, layer)
        },
        None => false,
    };
    if layer > 0 && !same_record {
        w.append("}\n\n");
        w.append("pub struct ");
        push_record_name(w, &name.records, layer);
        w.append(" {\n");
        assert(w@ =~= old(w)@ + record_head(nv[i as int].records.take(layer as int)));
    } else {
        assert(w@ =~= old(w)@ + Seq::<char>::empty());
    }
}

/// Appends to `w` the field of path `i` at `layer`.
fn push_field(w: &mut String, names: &Vec<NamedPath>, i: usize, layer: usize, previous: Option<usize>)
    requires
        i < names.len(),
        names@[i as int].path.len() > layer,
        all_named(names.deep_view()),
        match previous {
            Some(j) => j < i && j == previous_deeper(names.deep_view(), i as int, layer as nat)
                && names@[j as int].path.len() > layer,
            None => previous_deeper(names.deep_view(), i as int, layer as nat) == -1,
        },
    ensures
        final(w)@ == old(w)@ + (if names.deep_view()[i as int].path.len() == layer + 1 {
            leaf_field(names.deep_view()[i as int].fields[layer as int])
        } else if names_record(names.deep_view(), i as int, layer as nat) {
            record_field(
                names.deep_view()[i as int].fields[layer as int],
                names.deep_view()[i as int].records.take(layer + 1),
            )
        } else {
            Seq::empty()
        }),
{
    let ghost nv = names.deep_view();
    let name = &names[i];
    let ghost n = nv[i as int];
    assert(n == name@);
    assert(n.wf());
    assert(n.fields[layer as int] == name.fields@[layer as int]@);
    if name.path.len() == layer + 1 {
        w.append("    pub ");
        w.append(name.fields[layer].as_str());
        w.append(": &'static str,\n");
        assert(w@ =~= old(w)@ + leaf_field(n.fields[layer as int]));
    } else {
        let same_field = match previous {
            Some(j) => {
                assert(nv[j as int] == names@[j as int]@);
                names[j].path.len() > layer + 1 && same_prefix(
                    &names[j].path,
                    &name.path,
                    layer + 1,
                )
            },
            None => false,
        };
        assert(same_field == !names_record(nv, i as int, layer as nat));
        if !same_field {
            w.append("    pub ");
            w.append(name.fields[layer].as_str());
            w.append(": ");
            push_record_name(w, &name.records, layer + 1);
            w.append(",\n");
            assert(w@ =~= old(w)@ + record_field(
                n.fields[layer as int],
                n.records.take(layer + 1),
            ));
        } else {
            assert(w@ =~= old(w)@ + Seq::<char>::empty());
        }
    }
}

/// Appends to `w` what the paths add at `layer`.
pub fn push_layer(w: &mut String, names: &Vec<NamedPath>, layer: usize)
    requires
        all_named(names.deep_view()),
    ensures
        final(w)@ == old(w)@ + layer_text(names.deep_view(), layer as nat, names.len() as nat),
{
    let ghost nv = names.deep_view();
    let mut previous: Option<usize> = None;
    let mut i: usize = 0;
    assert(w@ =~= old(w)@ + layer_text(nv, layer as nat, 0));
    while i < names.len()
        invariant
            i <= names.len(),
            nv == names.deep_view(),
            all_named(nv),
            match previous {
                Some(j) => j < i && j == previous_deeper(nv, i as int, layer as nat)
                    && names@[j as int].path.len() > layer,
                None => previous_deeper(nv, i as int, layer as nat) == -1,
            },
            w@ == old(w)@ + layer_text(nv, layer as nat, i as nat),
        decreases names.len() - i,
    {
        let ghost before = w@;
        assert(nv[i as int].path.len() == names@[i as int].path.len());
        if names[i].path.len() > layer {
            push_head(w, names, i, layer, previous);
            push_field(w, names, i, layer, previous);
            assert(w@ =~= before + field_text(nv, i as int, layer as nat));
            previous = Some(i);
        } else {
            assert(w@ =~= before + field_text(nv, i as int, layer as nat));
        }
        assert(w@ =~= old(w)@ + layer_text(nv, layer as nat, (i + 1) as nat));
        i = i + 1;
    }
}

/// Appends to `w` the record types for the paths `names`.
pub fn generate_locales_strings_struct(w: &mut String, names: &Vec<NamedPath>)
    requires
        all_named(names.deep_view()),
    ensures
        final(w)@ == old(w)@ + struct_text(names.deep_view()),
{
    let ghost nv = names.deep_view();
    let layers = find_deepest(names);
    w.append("pub struct Strings {\n");
    let ghost head = old(w)@ + "pub struct Strings {\n"@;
    let mut layer: usize = 0;
    assert(w@ =~= head + layers_text(nv, 0));
    while layer < layers
        invariant
            layer <= layers,
            nv == names.deep_view(),
            all_named(nv),
            w@ == head + layers_text(nv, layer as nat),
        decreases layers - layer,
    {
        push_layer(w, names, layer);
        assert(w@ =~= head + layers_text(nv, (layer + 1) as nat));
        layer = layer + 1;
    }
    w.append("}\n");
    assert(w@ =~= old(w)@ + struct_text(nv));
}

} // verus!
