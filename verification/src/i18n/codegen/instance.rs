//! The constant of one locale: a literal of the root record.

use crate::i18n::merge::{lemma_merged_complete, merged};
use crate::i18n::names::{
    ascii_path, default_reference, is_ascii_path, name_path, named_path, push_default_reference,
    push_record_name, record_name, NamedPath, NamedPathView,
};
use crate::i18n::pair::{paths_of, PairView, Source, StringValuePathPair};
use crate::text::{push_repeated, repeated};
use vstd::prelude::*;

verus! {

/// One string of a locale, ready to be written: its path with the names of
/// its segments, and its value.
pub struct Entry {
    pub names: NamedPath,
    /// The locale's own string; empty for a reference to the default.
    pub value: String,
    pub source: Source,
}

/// The mathematical value of an [`Entry`].
pub ghost struct EntryView {
    pub names: NamedPathView,
    pub value: Seq<char>,
    pub source: Source,
}

impl View for Entry {
    type V = EntryView;

    open spec fn view(&self) -> EntryView {
        EntryView { names: self.names@, value: self.value@, source: self.source }
    }
}

impl DeepView for Entry {
    type V = EntryView;

    open spec fn deep_view(&self) -> EntryView {
        self.view()
    }
}

/// The indentation of a line that lies `level` records deep.
pub open spec fn indent(level: nat) -> Seq<char> {
    repeated("    "@, level)
}

/// How many records deep the leaf at `path` lies; the root counts as none.
pub open spec fn depth(path: Seq<Seq<char>>) -> nat {
    if path.len() == 0 {
        0
    } else {
        (path.len() - 1) as nat
    }
}

/// How many leading segments `a` and `b` have in common.
pub open spec fn common_prefix(a: Seq<Seq<char>>, b: Seq<Seq<char>>) -> nat
    decreases a.len(),
{
    if a.len() == 0 || b.len() == 0 || a[0] != b[0] {
        0
    } else {
        1 + common_prefix(a.drop_first(), b.drop_first())
    }
}

/// How many of the records that are open after the leaf at `previous` stay
/// open for the leaf at `path`: those of their common prefix, as far as both
/// leaves lie below them.
pub open spec fn overlap(previous: Seq<Seq<char>>, path: Seq<Seq<char>>) -> nat {
    let shared = common_prefix(previous, path);
    if shared <= depth(previous) && shared <= depth(path) {
        shared
    } else if depth(previous) <= depth(path) {
        depth(previous)
    } else {
        depth(path)
    }
}

/// The lines that close the open records from level `from` down to, but not
/// including, level `to`.
pub open spec fn closers(from: nat, to: nat) -> Seq<char>
    decreases from,
{
    if from <= to {
        Seq::empty()
    } else {
        indent(from) + "},\n"@ + closers((from - 1) as nat, to)
    }
}

/// The lines that open, along the path `names`, the records of levels
/// `from + 1` to `to`: each as the field of its segment and a literal of its
/// record type.
pub open spec fn openers(names: NamedPathView, from: nat, to: nat) -> Seq<char>
    decreases to - from,
{
    if from >= to || from >= names.path.len() {
        Seq::empty()
    } else {
        indent(from + 1) + names.fields[from as int] + ": "@ + record_name(
            names.records.take(from + 1 as int),
        ) + "{\n"@ + openers(names, from + 1, to)
    }
}

/// How the value of `entry` is written: a locale's own string as a raw
/// string literal, a reference to the default locale as the expression that
/// names the default's string at the same path.
pub open spec fn value_text(entry: EntryView) -> Seq<char> {
    match entry.source {
        Source::Own => "r################\""@ + entry.value + "\"################"@,
        Source::Default => default_reference(entry.names.fields),
    }
}

/// The line of the leaf itself.
pub open spec fn leaf_line(entry: EntryView) -> Seq<char> {
    indent(depth(entry.names.path) + 1) + entry.names.fields.last() + ": "@ + value_text(entry)
        + ",\n"@
}

/// The lines that `entry` adds after a leaf at `previous`: the records that
/// do not hold it are closed, those that lead to it are opened, and the leaf
/// is written.
pub open spec fn entry_text(previous: Seq<Seq<char>>, entry: EntryView) -> Seq<char> {
    closers(depth(previous), overlap(previous, entry.names.path)) + openers(
        entry.names,
        overlap(previous, entry.names.path),
        depth(entry.names.path),
    ) + leaf_line(entry)
}

/// The path of the entry in front of entry `i`, or the empty path for the
/// first entry.
pub open spec fn previous_path(entries: Seq<EntryView>, i: int) -> Seq<Seq<char>> {
    if 0 < i <= entries.len() {
        entries[i - 1].names.path
    } else {
        Seq::empty()
    }
}

/// The lines of the first `n` entries.
pub open spec fn body_text(entries: Seq<EntryView>, n: nat) -> Seq<char>
    decreases n,
{
    if n == 0 || n > entries.len() {
        Seq::empty()
    } else {
        body_text(entries, (n - 1) as nat) + entry_text(
            previous_path(entries, n - 1),
            entries[n - 1],
        )
    }
}

/// The constant `name` with the strings of `entries`: one literal of the
/// root record, in which every entry is a field of the record that its path
/// leads to, written in a single pass over the entries.
pub open spec fn instance_text(name: Seq<char>, entries: Seq<EntryView>) -> Seq<char> {
    "\nconst "@ + name + ": Strings = Strings{\n"@ + body_text(entries, entries.len()) + closers(
        depth(previous_path(entries, entries.len() as int)),
        0,
    ) + "};\n"@
}

/// Every entry has a path of at least one segment, and a name for each.
pub open spec fn emittable(entries: Seq<EntryView>) -> bool {
    forall|i: int|
        0 <= i < entries.len() ==> (#[trigger] entries[i]).names.wf() && entries[i].names.path.len()
            > 0
}

/// Names can be made for every pair: each has a path of at least one
/// segment, all of them ASCII text.
pub open spec fn nameable(pairs: Seq<PairView>) -> bool {
    forall|i: int|
        0 <= i < pairs.len() ==> (#[trigger] pairs[i]).path.len() > 0 && ascii_path(pairs[i].path)
}

/// The entries that stand for `pairs`: each pair with the names of its path.
pub open spec fn named_pairs(pairs: Seq<PairView>) -> Seq<EntryView> {
    Seq::new(
        pairs.len(),
        |i: int|
            EntryView {
                names: named_path(pairs[i].path),
                value: pairs[i].value,
                source: pairs[i].source,
            },
    )
}

/// The entries with their values blanked: what is left is the shape.
pub open spec fn skeleton(entries: Seq<EntryView>) -> Seq<EntryView> {
    Seq::new(
        entries.len(),
        |i: int| EntryView { names: entries[i].names, value: Seq::empty(), source: Source::Own },
    )
}

/// Shape sharing: the constant of a completed locale has the shape of the
/// default locale's constant: the same records open and close around the same
/// fields, whatever the locale holds.
pub proof fn lemma_shape_shared(name: Seq<char>, default: Seq<PairView>, locale: Seq<PairView>)
    ensures
        instance_text(name, skeleton(named_pairs(merged(default, locale)))) == instance_text(
            name,
            skeleton(named_pairs(default)),
        ),
{
    lemma_merged_complete(default, locale);
    let m = merged(default, locale);
    assert forall|i: int| 0 <= i < m.len() implies m[i].path == default[i].path by {
        assert(paths_of(m)[i] == paths_of(default)[i]);
    }
    assert(skeleton(named_pairs(m)) =~= skeleton(named_pairs(default)));
}

/// Names the paths of `pairs`, where names can be made for them all.
pub fn name_pairs(pairs: &Vec<StringValuePathPair>) -> (r: Option<Vec<Entry>>)
    ensures
        match r {
            Some(entries) => nameable(pairs.deep_view()) && entries.deep_view() == named_pairs(
                pairs.deep_view(),
            ) && emittable(entries.deep_view()),
            None => !nameable(pairs.deep_view()),
        },
{
    let ghost pv = pairs.deep_view();
    let mut out: Vec<Entry> = Vec::new();
    let mut i: usize = 0;
    while i < pairs.len()
        invariant
            i <= pairs.len(),
            pv == pairs.deep_view(),
            out.len() == i,
            forall|k: int|
                0 <= k < i ==> (#[trigger] pv[k]).path.len() > 0 && ascii_path(pv[k].path),
            forall|k: int| 0 <= k < i ==> (#[trigger] out@[k])@ == named_pairs(pv)[k],
        decreases pairs.len() - i,
    {
        assert(pv[i as int] == pairs@[i as int]@);
        if pairs[i].path.len() == 0 || !is_ascii_path(&pairs[i].path) {
            return None;
        }
        out.push(
            Entry {
                names: name_path(&pairs[i].path),
                value: pairs[i].value.clone(),
                source: pairs[i].source,
            },
        );
        i = i + 1;
    }
    assert(out.deep_view() =~= named_pairs(pv));
    Some(out)
}

/// Counts the leading segments that `a` and `b` have in common.
pub fn count_common_prefix(a: &Vec<String>, b: &Vec<String>) -> (n: usize)
    ensures
        n == common_prefix(a.deep_view(), b.deep_view()),
        n <= a.len(),
        n <= b.len(),
{
    let ghost av = a.deep_view();
    let ghost bv = b.deep_view();
    let mut n: usize = 0;
    assert(av.skip(0) =~= av);
    assert(bv.skip(0) =~= bv);
    while n < a.len() && n < b.len()
        invariant
            n <= a.len(),
            n <= b.len(),
            av == a.deep_view(),
            bv == b.deep_view(),
            common_prefix(av, bv) == n + common_prefix(av.skip(n as int), bv.skip(n as int)),
        decreases a.len() - n,
    {
        assert(av.skip(n as int)[0] == a@[n as int]@);
        assert(bv.skip(n as int)[0] == b@[n as int]@);
        assert(av.skip(n as int).drop_first() =~= av.skip(n + 1));
        assert(bv.skip(n as int).drop_first() =~= bv.skip(n + 1));
        if a[n] != b[n] {
            return n;
        }
        n = n + 1;
    }
    n
}

/// Appends the closing lines [`closers`]`(from, to)` to `w`.
pub fn push_closers(w: &mut String, from: usize, to: usize)
    ensures
        final(w)@ == old(w)@ + closers(from as nat, to as nat),
{
    let mut level: usize = from;
    assert(w@ =~= old(w)@ + Seq::<char>::empty());
    let ghost mut done: Seq<char> = Seq::empty();
    while level > to
        invariant
            level <= from,
            w@ == old(w)@ + done,
            done + closers(level as nat, to as nat) == closers(from as nat, to as nat),
        decreases level,
    {
        let ghost before = w@;
        push_repeated(w, "    ", level);
        w.append("},\n");
        proof {
            let line = indent(level as nat) + "},\n"@;
            assert(w@ =~= before + line);
            assert(closers(level as nat, to as nat) == line + closers((level - 1) as nat, to as nat));
            assert((done + line) + closers((level - 1) as nat, to as nat) =~= done + closers(
                level as nat,
                to as nat,
            ));
            done = done + line;
            assert(w@ =~= old(w)@ + done);
        }
        level = level - 1;
    }
    assert(closers(level as nat, to as nat) =~= Seq::<char>::empty());
    assert(done =~= closers(from as nat, to as nat));
}

/// Appends the opening lines [`openers`]`(names, from, to)` to `w`.
pub fn push_openers(w: &mut String, names: &NamedPath, from: usize, to: usize)
    requires
        names@.wf(),
        to <= names.path.len(),
    ensures
        final(w)@ == old(w)@ + openers(names@, from as nat, to as nat),
{
    let ghost nv = names@;
    let mut level: usize = from;
    let ghost mut done: Seq<char> = Seq::empty();
    assert(w@ =~= old(w)@ + done);
    while level < to
        invariant
            nv == names@,
            nv.wf(),
            to <= names.path.len(),
            from <= level,
            w@ == old(w)@ + done,
            done + openers(nv, level as nat, to as nat) == openers(nv, from as nat, to as nat),
        decreases to - level,
    {
        let ghost before = w@;
        assert(nv.fields[level as int] == names.fields@[level as int]@);
        push_repeated(w, "    ", level + 1);
        w.append(names.fields[level].as_str());
        w.append(": ");
        push_record_name(w, &names.records, level + 1);
        w.append("{\n");
        proof {
            let line = indent((level + 1) as nat) + nv.fields[level as int] + ": "@ + record_name(
                nv.records.take(level + 1),
            ) + "{\n"@;
            assert(w@ =~= before + line);
            assert(openers(nv, level as nat, to as nat) == line + openers(
                nv,
                (level + 1) as nat,
                to as nat,
            ));
            assert((done + line) + openers(nv, (level + 1) as nat, to as nat) =~= done + openers(
                nv,
                level as nat,
                to as nat,
            ));
            done = done + line;
            assert(w@ =~= old(w)@ + done);
        }
        level = level + 1;
    }
    assert(openers(nv, level as nat, to as nat) =~= Seq::<char>::empty());
    assert(done =~= openers(nv, from as nat, to as nat));
}

/// Appends the line of the leaf itself, [`leaf_line`], to `w`.
pub fn push_leaf_line(w: &mut String, entry: &Entry)
    requires
        entry@.names.wf(),
        entry@.names.path.len() > 0,
    ensures
        final(w)@ == old(w)@ + leaf_line(entry@),
{
    let last = entry.names.fields.len() - 1;
    assert(entry@.names.fields.last() == entry.names.fields@[last as int]@);
    push_repeated(w, "    ", entry.names.path.len());
    w.append(entry.names.fields[last].as_str());
    w.append(": ");
    match entry.source {
        Source::Own => {
            w.append("r################\"");
            w.append(entry.value.as_str());
            w.append("\"################");
        },
        Source::Default => {
            push_default_reference(w, &entry.names.fields);
        },
    }
    w.append(",\n");
    assert(w@ =~= old(w)@ + leaf_line(entry@));
}

/// Appends to `w` the lines that entry `i` adds after the entry in front of
/// it: [`entry_text`].
pub fn push_entry(w: &mut String, entries: &Vec<Entry>, i: usize)
    requires
        i < entries.len(),
        emittable(entries.deep_view()),
    ensures
        final(w)@ == old(w)@ + entry_text(
            previous_path(entries.deep_view(), i as int),
            entries.deep_view()[i as int],
        ),
{
    let ghost ev = entries.deep_view();
    let ghost prev = previous_path(ev, i as int);
    let entry = &entries[i];
    assert(entry@ == ev[i as int]);
    assert(entry@.names.wf() && entry@.names.path.len() > 0);
    let current_layer = entry.names.path.len() - 1;
    let mut previous_layer: usize = 0;
    let mut overlap_layer: usize = 0;
    if i > 0 {
        assert(entries[i - 1]@ == ev[i - 1]);
        assert(ev[i - 1].names.path.len() > 0);
        previous_layer = entries[i - 1].names.path.len() - 1;
        overlap_layer = count_common_prefix(&entries[i - 1].names.path, &entry.names.path);
    } else {
        assert(common_prefix(prev, entry@.names.path) == 0);
    }
    if overlap_layer > previous_layer {
        overlap_layer = previous_layer;
    }
    if overlap_layer > current_layer {
        overlap_layer = current_layer;
    }
    assert(previous_layer == depth(prev));
    assert(overlap_layer == overlap(prev, entry@.names.path));
    push_closers(w, previous_layer, overlap_layer);
    push_openers(w, &entry.names, overlap_layer, current_layer);
    push_leaf_line(w, entry);
    assert(w@ =~= old(w)@ + entry_text(prev, entry@));
}

/// Appends to `w` the constant `const_name` that holds the strings of
/// `entries`.
pub fn generate_locales_strings_instance(w: &mut String, const_name: &str, entries: &Vec<Entry>)
    requires
        emittable(entries.deep_view()),
    ensures
        final(w)@ == old(w)@ + instance_text(const_name@, entries.deep_view()),
{
    let ghost ev = entries.deep_view();
    w.append("\nconst ");
    w.append(const_name);
    w.append(": Strings = Strings{\n");
    let ghost head = old(w)@ + "\nconst "@ + const_name@ + ": Strings = Strings{\n"@;
    let mut i: usize = 0;
    assert(w@ =~= head + body_text(ev, 0));
    while i < entries.len()
        invariant
            i <= entries.len(),
            ev == entries.deep_view(),
            emittable(ev),
            w@ == head + body_text(ev, i as nat),
        decreases entries.len() - i,
    {
        push_entry(w, entries, i);
        assert(w@ =~= head + body_text(ev, (i + 1) as nat));
        i = i + 1;
    }
    let mut last_layer: usize = 0;
    if entries.len() > 0 {
        assert(entries[entries.len() - 1]@ == ev[entries.len() - 1]);
        assert(ev[entries.len() - 1].names.path.len() > 0);
        last_layer = entries[entries.len() - 1].names.path.len() - 1;
    }
    assert(last_layer == depth(previous_path(ev, ev.len() as int)));
    push_closers(w, last_layer, 0);
    w.append("};\n");
    assert(w@ =~= old(w)@ + instance_text(const_name@, ev));
}

} // verus!
