//! The names under which keys appear in the generated source.

use crate::casing::{cased, to_case, CaseStyle};
use crate::text::{lowercase, lowercased, trim, trimmed};
use vstd::prelude::*;
use vstd::utf8::is_ascii_chars;

verus! {

/// Every segment of `path` is ASCII text.
pub open spec fn ascii_path(path: Seq<Seq<char>>) -> bool {
    forall|i: int| 0 <= i < path.len() ==> is_ascii_chars(#[trigger] path[i])
}

/// Tells whether every segment of `path` is ASCII text.
pub fn is_ascii_path(path: &Vec<String>) -> (r: bool)
    ensures
        r == ascii_path(path.deep_view()),
{
    let ghost pv = path.deep_view();
    let mut i: usize = 0;
    while i < path.len()
        invariant
            i <= path.len(),
            pv == path.deep_view(),
            forall|k: int| 0 <= k < i ==> is_ascii_chars(#[trigger] pv[k]),
        decreases path.len() - i,
    {
        assert(pv[i as int] == path@[i as int]@);
        if !path[i].as_str().is_ascii() {
            return false;
        }
        i = i + 1;
    }
    true
}

/// The record field that stands for key `key`: the key in lowercase, without
/// surrounding white space.
pub open spec fn field_name(key: Seq<char>) -> Seq<char> {
    trimmed(lowercased(key))
}

/// Computes [`field_name`].
pub fn make_field_name(key: &str) -> (r: String)
    ensures
        r@ == field_name(key@),
{
    let lower = lowercase(key);
    let name = trim(lower.as_str());
    name.to_owned()
}

/// A key path with the names that its segments go by in the generated
/// source.
pub struct NamedPath {
    /// The segments as the locale document has them.
    pub path: Vec<String>,
    /// The field that stands for each segment.
    pub fields: Vec<String>,
    /// What each segment adds to the name of a record type.
    pub records: Vec<String>,
}

/// The mathematical value of a [`NamedPath`].
pub ghost struct NamedPathView {
    pub path: Seq<Seq<char>>,
    pub fields: Seq<Seq<char>>,
    pub records: Seq<Seq<char>>,
}

impl View for NamedPath {
    type V = NamedPathView;

    open spec fn view(&self) -> NamedPathView {
        NamedPathView {
            path: self.path.deep_view(),
            fields: self.fields.deep_view(),
            records: self.records.deep_view(),
        }
    }
}

impl DeepView for NamedPath {
    type V = NamedPathView;

    open spec fn deep_view(&self) -> NamedPathView {
        self.view()
    }
}

impl NamedPathView {
    /// Every segment has its field and its part of the record names.
    pub open spec fn wf(self) -> bool {
        self.fields.len() == self.path.len() && self.records.len() == self.path.len()
    }
}

/// The names that the segments of `path` go by: each segment's field is its
/// [`field_name`], and it adds itself in Pascal case to the names of the
/// record types.
pub open spec fn named_path(path: Seq<Seq<char>>) -> NamedPathView {
    NamedPathView {
        path,
        fields: Seq::new(path.len(), |i: int| field_name(path[i])),
        records: Seq::new(path.len(), |i: int| cased(path[i], CaseStyle::Pascal)),
    }
}

/// Names the segments of `path`.
pub fn name_path(path: &Vec<String>) -> (r: NamedPath)
    requires
        ascii_path(path.deep_view()),
    ensures
        r@ == named_path(path.deep_view()),
        r@.wf(),
{
    let ghost pv = path.deep_view();
    let mut raw: Vec<String> = Vec::new();
    let mut fields: Vec<String> = Vec::new();
    let mut records: Vec<String> = Vec::new();
    let mut i: usize = 0;
    while i < path.len()
        invariant
            i <= path.len(),
            pv == path.deep_view(),
            ascii_path(pv),
            raw.len() == i,
            fields.len() == i,
            records.len() == i,
            forall|k: int| 0 <= k < i ==> raw@[k]@ == pv[k],
            forall|k: int| 0 <= k < i ==> fields@[k]@ == field_name(pv[k]),
            forall|k: int| 0 <= k < i ==> records@[k]@ == cased(pv[k], CaseStyle::Pascal),
        decreases path.len() - i,
    {
        assert(pv[i as int] == path@[i as int]@);
        assert(is_ascii_chars(pv[i as int]));
        raw.push(path[i].clone());
        fields.push(make_field_name(path[i].as_str()));
        records.push(to_case(path[i].as_str(), CaseStyle::Pascal));
        i = i + 1;
    }
    let r = NamedPath { path: raw, fields, records };
    assert(r@.path =~= pv);
    assert(r@.fields =~= named_path(pv).fields);
    assert(r@.records =~= named_path(pv).records);
    r
}

/// The texts of `parts`, one after another.
pub open spec fn joined(parts: Seq<Seq<char>>) -> Seq<char>
    decreases parts.len(),
{
    if parts.len() == 0 {
        Seq::empty()
    } else {
        joined(parts.drop_last()) + parts.last()
    }
}

/// The record type that holds what lies under a prefix whose segments add
/// `parts` to its name: `Strings` for the root, and below it `Strings`
/// followed by the parts.
pub open spec fn record_name(parts: Seq<Seq<char>>) -> Seq<char> {
    "Strings"@ + joined(parts)
}

/// Appends [`record_name`] of the first `depth` of `records` to `out`.
pub fn push_record_name(out: &mut String, records: &Vec<String>, depth: usize)
    requires
        depth <= records.len(),
    ensures
        final(out)@ == old(out)@ + record_name(records.deep_view().take(depth as int)),
{
    let ghost rv = records.deep_view();
    out.append("Strings");
    let mut i: usize = 0;
    assert(rv.take(0) =~= Seq::<Seq<char>>::empty());
    assert(out@ =~= old(out)@ + "Strings"@ + joined(rv.take(0)));
    while i < depth
        invariant
            i <= depth <= records.len(),
            rv == records.deep_view(),
            out@ == old(out)@ + "Strings"@ + joined(rv.take(i as int)),
        decreases depth - i,
    {
        out.append(records[i].as_str());
        proof {
            assert(rv.take(i + 1).drop_last() =~= rv.take(i as int));
            assert(rv.take(i + 1).last() == records@[i as int]@);
            assert(out@ =~= old(out)@ + "Strings"@ + joined(rv.take(i + 1)));
        }
        i = i + 1;
    }
    assert(out@ =~= old(out)@ + record_name(rv.take(depth as int)));
}

/// The expression that names the default locale's string at the path whose
/// segments have the fields `fields`: the default constant, then one field
/// access for each segment.
pub open spec fn default_reference(fields: Seq<Seq<char>>) -> Seq<char>
    decreases fields.len(),
{
    if fields.len() == 0 {
        "STRINGS_DEFAULT"@
    } else {
        default_reference(fields.drop_last()) + "."@ + fields.last()
    }
}

/// Appends [`default_reference`] to `out`.
pub fn push_default_reference(out: &mut String, fields: &Vec<String>)
    ensures
        final(out)@ == old(out)@ + default_reference(fields.deep_view()),
{
    let ghost fv = fields.deep_view();
    out.append("STRINGS_DEFAULT");
    let mut i: usize = 0;
    assert(fv.take(0) =~= Seq::<Seq<char>>::empty());
    assert(out@ =~= old(out)@ + default_reference(fv.take(0)));
    while i < fields.len()
        invariant
            i <= fields.len(),
            fv == fields.deep_view(),
            out@ == old(out)@ + default_reference(fv.take(i as int)),
        decreases fields.len() - i,
    {
        out.append(".");
        out.append(fields[i].as_str());
        proof {
            assert(fv.take(i + 1).drop_last() =~= fv.take(i as int));
            assert(fv.take(i + 1).last() == fields@[i as int]@);
            assert(out@ =~= old(out)@ + default_reference(fv.take(i + 1)));
        }
        i = i + 1;
    }
    assert(fv.take(fields.len() as int) =~= fv);
}

} // verus!
