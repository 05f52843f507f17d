//! The generated locale module: the locale tags, the record types and one
//! constant for each locale.

use crate::casing::{cased, to_case, CaseStyle};
use crate::i18n::codegen::instance::{
    emittable, generate_locales_strings_instance, instance_text, name_pairs, nameable,
    named_pairs, Entry, EntryView,
};
use crate::i18n::codegen::record::{all_named, generate_locales_strings_struct, struct_text};
use crate::i18n::locales::{locale_pairs, names_of, position, Storage, StorageView};
use crate::i18n::merge::{lemma_merged_complete, merged, LocaleStringWithDefaultIter};
use crate::i18n::names::{ascii_path, field_name, make_field_name, NamedPath, NamedPathView};
use crate::i18n::pair::{paths_of, PairView, StringValuePathPair};
use crate::i18n::path::clone_path;
use crate::text::{compare_text, lemma_text_rank_same, sorted_texts, Rank};
use vstd::prelude::*;
use vstd::utf8::is_ascii_chars;

verus! {

/// A locale with the names that it goes by in the generated source.
pub struct LocaleName {
    /// The locale as it is configured.
    pub name: String,
    /// The variant of the locale tag.
    pub variant: String,
    /// The text that is read as this locale.
    pub key: String,
    /// What the locale adds to the name of its constant.
    pub constant: String,
}

/// The mathematical value of a [`LocaleName`].
pub ghost struct LocaleNameView {
    pub name: Seq<char>,
    pub variant: Seq<char>,
    pub key: Seq<char>,
    pub constant: Seq<char>,
}

impl View for LocaleName {
    type V = LocaleNameView;

    open spec fn view(&self) -> LocaleNameView {
        LocaleNameView {
            name: self.name@,
            variant: self.variant@,
            key: self.key@,
            constant: self.constant@,
        }
    }
}

impl DeepView for LocaleName {
    type V = LocaleNameView;

    open spec fn deep_view(&self) -> LocaleNameView {
        self.view()
    }
}

/// The names that the locale `name` goes by: its variant is the name in
/// Pascal case, it is read from the name in lowercase and trimmed, and it
/// adds the name in screaming snake case to the name of its constant.
pub open spec fn named_locale(name: Seq<char>) -> LocaleNameView {
    LocaleNameView {
        name,
        variant: cased(name, CaseStyle::Pascal),
        key: field_name(name),
        constant: cased(name, CaseStyle::ScreamingSnake),
    }
}

/// The names that the locales `names` go by.
pub open spec fn named_locales(names: Seq<Seq<char>>) -> Seq<LocaleNameView> {
    Seq::new(names.len(), |i: int| named_locale(names[i]))
}

/// Names the locale `name`.
pub fn name_locale(name: &str) -> (r: LocaleName)
    requires
        is_ascii_chars(name@),
    ensures
        r@ == named_locale(name@),
{
    LocaleName {
        name: name.to_owned(),
        variant: to_case(name, CaseStyle::Pascal),
        key: make_field_name(name),
        constant: to_case(name, CaseStyle::ScreamingSnake),
    }
}

/// Names the locales `names`, where they are all ASCII text.
pub fn name_locales(names: &Vec<String>) -> (r: Option<Vec<LocaleName>>)
    ensures
        match r {
            Some(locales) => ascii_path(names.deep_view()) && locales.deep_view() == named_locales(
                names.deep_view(),
            ),
            None => !ascii_path(names.deep_view()),
        },
{
    let ghost nv = names.deep_view();
    let mut out: Vec<LocaleName> = Vec::new();
    let mut i: usize = 0;
    while i < names.len()
        invariant
            i <= names.len(),
            nv == names.deep_view(),
            out.len() == i,
            forall|k: int| 0 <= k < i ==> is_ascii_chars(#[trigger] nv[k]),
            forall|k: int| 0 <= k < i ==> (#[trigger] out@[k])@ == named_locale(nv[k]),
        decreases names.len() - i,
    {
        assert(nv[i as int] == names@[i as int]@);
        if !names[i].as_str().is_ascii() {
            return None;
        }
        out.push(name_locale(names[i].as_str()));
        i = i + 1;
    }
    assert(out.deep_view() =~= named_locales(nv));
    Some(out)
}

/// The variants of the locale tag, one line for each of the first `n`
/// locales.
pub open spec fn variant_lines(locales: Seq<LocaleNameView>, n: nat) -> Seq<char>
    decreases n,
{
    if n == 0 || n > locales.len() {
        Seq::empty()
    } else {
        variant_lines(locales, (n - 1) as nat) + "    "@ + locales[n - 1].variant + ",\n"@
    }
}

/// The arms that read a locale tag from text, one line for each of the first
/// `n` locales: the key of a locale gives its variant.
pub open spec fn arm_lines(locales: Seq<LocaleNameView>, n: nat) -> Seq<char>
    decreases n,
{
    if n == 0 || n > locales.len() {
        Seq::empty()
    } else {
        arm_lines(locales, (n - 1) as nat) + "            \""@ + locales[n - 1].key
            + "\" => Self::"@ + locales[n - 1].variant + ",\n"@
    }
}

/// The locale tag: one variant for each of `locales`, the conversion from
/// text, which gives the default for text that names no locale, and the
/// default itself.
pub open spec fn enum_text(locales: Seq<LocaleNameView>, default: LocaleNameView) -> Seq<char> {
    "pub enum Locales {\n"@ + variant_lines(locales, locales.len()) + "}\n\n"@
        + "impl From<&str> for Locales {\n    fn from(s: &str) -> Self {\n        match s.to_lowercase().trim() {\n"@
        + arm_lines(locales, locales.len()) + "            _ => DEFAULT_LOCALE,\n"@
        + "        }\n    }\n}\n\n"@ + "pub const DEFAULT_LOCALE: Locales = Locales::"@
        + default.variant + ";\n\n"@
}

/// Appends to `w` the locale tag of `locales`, with `default` as the
/// default.
pub fn generate_locales_enum(w: &mut String, locales: &Vec<LocaleName>, default: &LocaleName)
    ensures
        final(w)@ == old(w)@ + enum_text(locales.deep_view(), default@),
{
    let ghost lv = locales.deep_view();
    w.append("pub enum Locales {\n");
    let ghost head = w@;
    let mut i: usize = 0;
    assert(w@ =~= head + variant_lines(lv, 0));
    while i < locales.len()
        invariant
            i <= locales.len(),
            lv == locales.deep_view(),
            w@ == head + variant_lines(lv, i as nat),
        decreases locales.len() - i,
    {
        assert(lv[i as int] == locales@[i as int]@);
        w.append("    ");
        w.append(locales[i].variant.as_str());
        w.append(",\n");
        assert(w@ =~= head + variant_lines(lv, (i + 1) as nat));
        i = i + 1;
    }
    w.append("}\n\n");
    w.append(
        "impl From<&str> for Locales {\n    fn from(s: &str) -> Self {\n        match s.to_lowercase().trim() {\n",
    );
    let ghost middle = w@;
    let mut j: usize = 0;
    assert(w@ =~= middle + arm_lines(lv, 0));
    while j < locales.len()
        invariant
            j <= locales.len(),
            lv == locales.deep_view(),
            w@ == middle + arm_lines(lv, j as nat),
        decreases locales.len() - j,
    {
        assert(lv[j as int] == locales@[j as int]@);
        w.append("            \"");
        w.append(locales[j].key.as_str());
        w.append("\" => Self::");
        w.append(locales[j].variant.as_str());
        w.append(",\n");
        assert(w@ =~= middle + arm_lines(lv, (j + 1) as nat));
        j = j + 1;
    }
    w.append("            _ => DEFAULT_LOCALE,\n");
    w.append("        }\n    }\n}\n\n");
    w.append("pub const DEFAULT_LOCALE: Locales = Locales::");
    w.append(default.variant.as_str());
    w.append(";\n\n");
    assert(w@ =~= old(w)@ + enum_text(lv, default@));
}

/// Why no locale module could be generated.
pub enum GenerateError {
    /// The storage holds no strings for this locale.
    Missing { locale: String },
    /// A typed leaf of this locale, at this path, has a format that is not
    /// known.
    Type { locale: String, path: Vec<String> },
    /// A locale or a key is not ASCII text, so that no identifier can be
    /// made of it.
    Identifier,
}

/// The mathematical value of a [`GenerateError`].
pub ghost enum GenerateErrorView {
    Missing { locale: Seq<char> },
    Type { locale: Seq<char>, path: Seq<Seq<char>> },
    Identifier,
}

impl View for GenerateError {
    type V = GenerateErrorView;

    open spec fn view(&self) -> GenerateErrorView {
        match self {
            GenerateError::Missing { locale } => GenerateErrorView::Missing { locale: locale@ },
            GenerateError::Type { locale, path } => GenerateErrorView::Type {
                locale: locale@,
                path: path.deep_view(),
            },
            GenerateError::Identifier => GenerateErrorView::Identifier,
        }
    }
}

/// The name of the constant of `locale`.
pub open spec fn constant_name(locale: LocaleNameView) -> Seq<char> {
    "STRINGS_"@ + locale.constant
}

/// The constants of the locales among the first `n` of `names` that are not
/// the default: each holds the locale's pairs completed against
/// `default_pairs`. The first locale without strings, or with a typed leaf of
/// unknown format, gives an error instead.
pub open spec fn constants_text(
    storage: StorageView,
    default_pairs: Seq<PairView>,
    names: Seq<Seq<char>>,
    n: nat,
) -> Result<Seq<char>, GenerateErrorView>
    decreases n,
{
    if n == 0 || n > names.len() {
        Ok(Seq::empty())
    } else {
        let name = names[n - 1];
        match constants_text(storage, default_pairs, names, (n - 1) as nat) {
            Err(e) => Err(e),
            Ok(text) => if name == storage.default_locale {
                Ok(text)
            } else if position(storage.locales, name) < 0 {
                Err(GenerateErrorView::Missing { locale: name })
            } else {
                match locale_pairs(storage.locales[position(storage.locales, name)].1) {
                    Err(path) => Err(GenerateErrorView::Type { locale: name, path }),
                    Ok(pairs) => Ok(
                        text + instance_text(
                            constant_name(named_locale(name)),
                            named_pairs(merged(default_pairs, pairs)),
                        ),
                    ),
                }
            },
        }
    }
}

/// The paths of `entries` with their names, in order.
pub open spec fn entry_names(entries: Seq<EntryView>) -> Seq<NamedPathView> {
    Seq::new(entries.len(), |i: int| entries[i].names)
}

/// The locale module for `storage`: the locale tag, the record types that
/// mirror the paths of the default locale, the constant of the default
/// locale, and, in the order of their names, the constant of every other
/// locale, completed against the default. An error instead where the default
/// locale has no strings, where a locale or a key of the default locale is
/// not ASCII text, or where a typed leaf has an unknown format.
#[verifier::opaque]
pub open spec fn locales_text(storage: StorageView) -> Result<Seq<char>, GenerateErrorView> {
    let names = sorted_texts(names_of(storage.locales));
    let at = position(storage.locales, storage.default_locale);
    if at < 0 {
        Err(GenerateErrorView::Missing { locale: storage.default_locale })
    } else if !ascii_path(names) || !is_ascii_chars(storage.default_locale) {
        Err(GenerateErrorView::Identifier)
    } else {
        match locale_pairs(storage.locales[at].1) {
            Err(path) => Err(GenerateErrorView::Type { locale: storage.default_locale, path }),
            Ok(default_pairs) => if !nameable(default_pairs) {
                Err(GenerateErrorView::Identifier)
            } else {
                match constants_text(storage, default_pairs, names, names.len()) {
                    Err(e) => Err(e),
                    Ok(constants) => Ok(
                        enum_text(named_locales(names), named_locale(storage.default_locale))
                            + struct_text(entry_names(named_pairs(default_pairs))) + instance_text(
                            "STRINGS_DEFAULT"@,
                            named_pairs(default_pairs),
                        ) + constants,
                    ),
                }
            },
        }
    }
}

/// A copy of the named paths of `entries`.
pub fn collect_names(entries: &Vec<Entry>) -> (r: Vec<NamedPath>)
    requires
        emittable(entries.deep_view()),
    ensures
        r.deep_view() == entry_names(entries.deep_view()),
        all_named(r.deep_view()),
{
    let ghost ev = entries.deep_view();
    let mut out: Vec<NamedPath> = Vec::new();
    let mut i: usize = 0;
    while i < entries.len()
        invariant
            i <= entries.len(),
            ev == entries.deep_view(),
            emittable(ev),
            out.len() == i,
            forall|k: int| 0 <= k < i ==> (#[trigger] out@[k])@ == ev[k].names,
        decreases entries.len() - i,
    {
        assert(ev[i as int] == entries@[i as int]@);
        out.push(
            NamedPath {
                path: clone_path(&entries[i].names.path),
                fields: clone_path(&entries[i].names.fields),
                records: clone_path(&entries[i].names.records),
            },
        );
        i = i + 1;
    }
    assert(out.deep_view() =~= entry_names(ev));
    assert(all_named(out.deep_view())) by {
        assert forall|k: int| 0 <= k < out.deep_view().len() implies (
        #[trigger] out.deep_view()[k]).wf() by {
            assert(out.deep_view()[k] == ev[k].names);
            assert(ev[k].names.wf());
        }
    }
    out
}

/// A copy of `pairs`.
pub fn clone_pairs(pairs: &Vec<StringValuePathPair>) -> (r: Vec<StringValuePathPair>)
    ensures
        r.deep_view() == pairs.deep_view(),
{
    let mut out: Vec<StringValuePathPair> = Vec::new();
    let mut i: usize = 0;
    while i < pairs.len()
        invariant
            i <= pairs.len(),
            out.len() == i,
            forall|k: int| 0 <= k < i ==> out@[k]@ == (#[trigger] pairs@[k])@,
        decreases pairs.len() - i,
    {
        out.push(pairs[i].duplicate());
        i = i + 1;
    }
    assert(out.deep_view() =~= pairs.deep_view());
    out
}

/// Names can be made for pairs with the paths of pairs for which they can.
pub proof fn lemma_nameable_by_paths(a: Seq<PairView>, b: Seq<PairView>)
    requires
        nameable(a),
        paths_of(a) == paths_of(b),
    ensures
        nameable(b),
{
    assert(paths_of(a).len() == a.len());
    assert(paths_of(b).len() == b.len());
    assert forall|i: int| 0 <= i < b.len() implies (#[trigger] b[i]).path.len() > 0 && ascii_path(
        b[i].path,
    ) by {
        assert(paths_of(a)[i] == a[i].path);
        assert(paths_of(b)[i] == b[i].path);
    }
}

/// Writes the constants of the locales other than the default.
fn generate_constants(
    storage: &Storage,
    default_pairs: &Vec<StringValuePathPair>,
    names: &Vec<String>,
) -> (r: Result<String, GenerateError>)
    requires
        nameable(default_pairs.deep_view()),
        ascii_path(names.deep_view()),
    ensures
        match r {
            Ok(text) => constants_text(
                storage@,
                default_pairs.deep_view(),
                names.deep_view(),
                names.len() as nat,
            ) == Ok::<Seq<char>, GenerateErrorView>(text@),
            Err(e) => constants_text(
                storage@,
                default_pairs.deep_view(),
                names.deep_view(),
                names.len() as nat,
            ) == Err::<Seq<char>, GenerateErrorView>(e@),
        },
{
    let ghost nv = names.deep_view();
    let ghost dv = default_pairs.deep_view();
    let mut w = String::new();
    let mut i: usize = 0;
    while i < names.len()
        invariant
            i <= names.len(),
            nv == names.deep_view(),
            dv == default_pairs.deep_view(),
            nameable(dv),
            ascii_path(nv),
            constants_text(storage@, dv, nv, i as nat) == Ok::<Seq<char>, GenerateErrorView>(w@),
        decreases names.len() - i,
    {
        let name = &names[i];
        assert(nv[i as int] == name@);
        assert(is_ascii_chars(name@));
        proof {
            lemma_text_rank_same(name@, storage@.default_locale);
        }
        let is_default = match compare_text(name.as_str(), storage.default_locale()) {
            Rank::Same => true,
            _ => false,
        };
        if !is_default {
            let locales = match storage.get(name.as_str()) {
                Some(locales) => locales,
                None => {
                    proof {
                        lemma_constants_error(storage@, dv, nv, (i + 1) as nat, nv.len());
                    }
                    return Err(GenerateError::Missing { locale: name.clone() });
                },
            };
            let pairs = match locales.iter() {
                Ok(pairs) => pairs,
                Err(e) => {
                    proof {
                        lemma_constants_error(storage@, dv, nv, (i + 1) as nat, nv.len());
                    }
                    return Err(GenerateError::Type { locale: name.clone(), path: e.path });
                },
            };
            let ghost lv = pairs.deep_view();
            let complete = LocaleStringWithDefaultIter::new(pairs, clone_pairs(default_pairs)).collect();
            proof {
                lemma_merged_complete(dv, lv);
                lemma_nameable_by_paths(dv, merged(dv, lv));
            }
            let entries = match name_pairs(&complete) {
                Some(entries) => entries,
                None => {
                    assert(false);
                    return Err(GenerateError::Identifier);
                },
            };
            let locale = name_locale(name.as_str());
            let mut const_name = "STRINGS_".to_owned();
            const_name.append(locale.constant.as_str());
            generate_locales_strings_instance(&mut w, const_name.as_str(), &entries);
        }
        i = i + 1;
    }
    Ok(w)
}

/// Once a locale has failed, going on to more locales gives the same error.
pub proof fn lemma_constants_error(
    storage: StorageView,
    default_pairs: Seq<PairView>,
    names: Seq<Seq<char>>,
    n: nat,
    m: nat,
)
    requires
        n <= m <= names.len(),
        constants_text(storage, default_pairs, names, n) is Err,
    ensures
        constants_text(storage, default_pairs, names, m) == constants_text(
            storage,
            default_pairs,
            names,
            n,
        ),
    decreases m,
{
    if n < m {
        lemma_constants_error(storage, default_pairs, names, n, (m - 1) as nat);
    }
}

/// Generates the locale module for `storage`.
pub fn generate_locales(storage: &Storage) -> (r: Result<String, GenerateError>)
    ensures
        match r {
            Ok(text) => locales_text(storage@) == Ok::<Seq<char>, GenerateErrorView>(text@),
            Err(e) => locales_text(storage@) == Err::<Seq<char>, GenerateErrorView>(e@),
        },
{
    reveal(locales_text);
    let default_locales = match storage.get_default() {
        Some(locales) => locales,
        None => {
            return Err(GenerateError::Missing { locale: storage.default_locale().to_owned() });
        },
    };
    let names = storage.all_locales();
    if !storage.default_locale().is_ascii() {
        return Err(GenerateError::Identifier);
    }
    let locales = match name_locales(&names) {
        Some(locales) => locales,
        None => {
            return Err(GenerateError::Identifier);
        },
    };
    let default = name_locale(storage.default_locale());
    let default_pairs = match default_locales.iter() {
        Ok(pairs) => pairs,
        Err(e) => {
            return Err(
                GenerateError::Type { locale: storage.default_locale().to_owned(), path: e.path },
            );
        },
    };
    let entries = match name_pairs(&default_pairs) {
        Some(entries) => entries,
        None => {
            return Err(GenerateError::Identifier);
        },
    };
    let constants = match generate_constants(storage, &default_pairs, &names) {
        Ok(constants) => constants,
        Err(e) => {
            return Err(e);
        },
    };
    let mut w = String::new();
    generate_locales_enum(&mut w, &locales, &default);
    generate_locales_strings_struct(&mut w, &collect_names(&entries));
    generate_locales_strings_instance(&mut w, "STRINGS_DEFAULT", &entries);
    w.append(constants.as_str());
    Ok(w)
}

} // verus!
