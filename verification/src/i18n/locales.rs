//! The strings of the configured locales, as loaded.

use crate::i18n::flatten::{
    entry_leaves, item_path, lemma_entry_leaves_distinct, well_keyed, TypeError, ValueIter,
};
use crate::i18n::pair::{
    is_strictly_sorted, lemma_sorted_strict, paths_distinct, sort_pairs, sorted_pairs, PairView,
    StringValuePathPair,
};
use crate::i18n::value::{lemma_mapping_view, Tree, Node};
use crate::i18n::yaml::{parse_yaml, yaml_document};
use crate::text::{compare_text, lemma_text_rank_same, sort_texts, sorted_texts, Rank};
use vstd::prelude::*;

verus! {

/// Why a locale's document could not be loaded.
#[derive(Debug)]
pub enum LoadFailure {
    /// The file is absent or could not be read.
    Unreadable,
    /// The file does not hold a well-formed document; with what the parser
    /// says of it.
    Malformed(String),
    /// The document is not a mapping with string keys.
    NotAMapping,
}

/// The mathematical value of a [`LoadFailure`].
pub ghost enum LoadFailureView {
    Unreadable,
    Malformed(Seq<char>),
    NotAMapping,
}

impl View for LoadFailure {
    type V = LoadFailureView;

    open spec fn view(&self) -> LoadFailureView {
        match self {
            LoadFailure::Unreadable => LoadFailureView::Unreadable,
            LoadFailure::Malformed(message) => LoadFailureView::Malformed(message@),
            LoadFailure::NotAMapping => LoadFailureView::NotAMapping,
        }
    }
}

/// A locale whose document could not be loaded.
pub struct LoadError {
    /// The file that was tried.
    pub path: String,
    pub failure: LoadFailure,
}

/// The mathematical value of a [`LoadError`].
pub ghost struct LoadErrorView {
    pub path: Seq<char>,
    pub failure: LoadFailureView,
}

impl View for LoadError {
    type V = LoadErrorView;

    open spec fn view(&self) -> LoadErrorView {
        LoadErrorView { path: self.path@, failure: self.failure@ }
    }
}

/// The file that holds the strings of `locale` below the directory `path`.
pub open spec fn locale_file(path: Seq<char>, locale: Seq<char>) -> Seq<char> {
    path + "/"@ + locale + ".yml"@
}

/// Computes [`locale_file`].
pub fn locale_file_path(path: &str, locale: &str) -> (r: String)
    ensures
        r@ == locale_file(path@, locale@),
{
    let mut file = path.to_owned();
    file.append("/");
    file.append(locale);
    file.append(".yml");
    file
}

/// Every key of `entries` is a string.
pub open spec fn string_keys(entries: Seq<(Tree, Tree)>) -> bool {
    forall|i: int| 0 <= i < entries.len() ==> (#[trigger] entries[i]).0 is Text
}

/// The entries of the root of a document that reads as `tree`, where that
/// is a mapping with string keys.
pub open spec fn root_entries(tree: Tree) -> Result<Seq<(Tree, Tree)>, LoadFailureView> {
    match tree {
        Tree::Dict(entries) => if string_keys(entries) {
            Ok(entries)
        } else {
            Err(LoadFailureView::NotAMapping)
        },
        _ => Err(LoadFailureView::NotAMapping),
    }
}

/// What loading the document `document` gives: the entries of its root
/// mapping, or the reason why there are none. `None` stands for a file that
/// could not be read.
pub open spec fn loaded_document(document: Option<Seq<char>>) -> Result<
    Seq<(Tree, Tree)>,
    LoadFailureView,
> {
    match document {
        None => Err(LoadFailureView::Unreadable),
        Some(text) => match yaml_document(text) {
            Err(message) => Err(LoadFailureView::Malformed(message)),
            Ok(tree) => root_entries(tree),
        },
    }
}

/// What a traversal yields when it is gathered up: all the pairs, or the
/// path of the first typed leaf with an unknown format.
pub open spec fn gathered(items: Seq<Result<PairView, Seq<Seq<char>>>>) -> Result<
    Seq<PairView>,
    Seq<Seq<char>>,
>
    decreases items.len(),
{
    if items.len() == 0 {
        Ok(Seq::empty())
    } else {
        match items[0] {
            Err(path) => Err(path),
            Ok(pair) => match gathered(items.drop_first()) {
                Ok(rest) => Ok(seq![pair] + rest),
                Err(path) => Err(path),
            },
        }
    }
}

/// The sorted pairs of a locale with the root entries `entries`, or the path
/// of its first typed leaf with an unknown format.
pub open spec fn locale_pairs(entries: Seq<(Tree, Tree)>) -> Result<Seq<PairView>, Seq<Seq<char>>> {
    match gathered(entry_leaves(Seq::empty(), entries, 0)) {
        Ok(pairs) => Ok(sorted_pairs(pairs)),
        Err(path) => Err(path),
    }
}

/// What was gathered up holds, one for one, the pairs that the traversal
/// yielded.
pub proof fn lemma_gathered(items: Seq<Result<PairView, Seq<Seq<char>>>>)
    requires
        gathered(items) is Ok,
    ensures
        gathered(items)->Ok_0.len() == items.len(),
        forall|i: int|
            0 <= i < items.len() ==> items[i] == Ok::<PairView, Seq<Seq<char>>>(
                #[trigger] gathered(items)->Ok_0[i],
            ),
    decreases items.len(),
{
    if items.len() > 0 {
        let rest = items.drop_first();
        lemma_gathered(rest);
        let pairs = gathered(items)->Ok_0;
        let tail = gathered(rest)->Ok_0;
        assert forall|i: int| 0 <= i < items.len() implies items[i] == Ok::<
            PairView,
            Seq<Seq<char>>,
        >(#[trigger] pairs[i]) by {
            if i > 0 {
                assert(pairs[i] == tail[i - 1]);
                assert(items[i] == rest[i - 1]);
            }
        }
    }
}

/// The pairs of a locale in which no mapping has the same string key twice
/// stand in strictly rising order: every path once.
pub proof fn lemma_locale_pairs_strict(entries: Seq<(Tree, Tree)>)
    requires
        well_keyed(Tree::Dict(entries)),
        locale_pairs(entries) is Ok,
    ensures
        is_strictly_sorted(locale_pairs(entries)->Ok_0),
{
    let items = entry_leaves(Seq::empty(), entries, 0);
    let pairs = gathered(items)->Ok_0;
    lemma_gathered(items);
    assert(paths_distinct(pairs)) by {
        assert forall|i: int, j: int| 0 <= i < j < pairs.len() implies (#[trigger] pairs[i]).path
            != (#[trigger] pairs[j]).path by {
            lemma_entry_leaves_distinct(Seq::empty(), entries, 0, i, j);
            assert(item_path(items[i]) == pairs[i].path);
            assert(item_path(items[j]) == pairs[j].path);
        }
    }
    lemma_sorted_strict(pairs);
}

/// The strings of one locale: the entries of the root mapping of its
/// document.
pub struct Locales {
    values: Vec<(Node, Node)>,
}

impl View for Locales {
    type V = Seq<(Tree, Tree)>;

    closed spec fn view(&self) -> Seq<(Tree, Tree)> {
        Node::Mapping(self.values)@->Dict_0
    }
}

/// Tells whether every key of `entries` is a string.
fn has_string_keys(entries: &Vec<(Node, Node)>) -> (r: bool)
    ensures
        r == string_keys(Node::Mapping(*entries)@->Dict_0),
{
    let ghost ev = Node::Mapping(*entries)@->Dict_0;
    proof {
        lemma_mapping_view(*entries);
    }
    let mut i: usize = 0;
    while i < entries.len()
        invariant
            i <= entries.len(),
            ev == Node::Mapping(*entries)@->Dict_0,
            ev.len() == entries@.len(),
            forall|k: int| 0 <= k < entries@.len() ==> (#[trigger] ev[k]) == (
                entries@[k].0@,
                entries@[k].1@,
            ),
            forall|k: int| 0 <= k < i ==> (#[trigger] ev[k]).0 is Text,
        decreases entries.len() - i,
    {
        assert(ev[i as int].0 == entries@[i as int].0@);
        match &entries[i].0 {
            Node::String(_) => {},
            _ => {
                assert(!(ev[i as int].0 is Text));
                return false;
            },
        }
        i = i + 1;
    }
    true
}

impl Locales {
    /// The strings with the root entries `values`.
    pub fn new(values: Vec<(Node, Node)>) -> (r: Locales)
        ensures
            r@ == Node::Mapping(values)@->Dict_0,
    {
        Locales { values }
    }

    /// The strings of a locale whose document reads as `value`: the
    /// entries of `value`, where it is a mapping with string keys.
    pub fn from_node(value: Node) -> (r: Result<Locales, LoadFailure>)
        ensures
            match r {
                Ok(locales) => root_entries(value@) == Ok::<Seq<(Tree, Tree)>, LoadFailureView>(
                    locales@,
                ),
                Err(e) => root_entries(value@) == Err::<Seq<(Tree, Tree)>, LoadFailureView>(e@),
            },
            r is Ok ==> value@ == Tree::Dict(r->Ok_0@),
    {
        match value {
            Node::Mapping(entries) => {
                if has_string_keys(&entries) {
                    Ok(Locales { values: entries })
                } else {
                    Err(LoadFailure::NotAMapping)
                }
            },
            _ => Err(LoadFailure::NotAMapping),
        }
    }

    /// Loads the strings of `locale` from what was read of its file below
    /// `path`: the text of the file, or `None` where it could not be read.
    pub fn load(path: &str, locale: &str, document: Option<&str>) -> (r: Result<Locales, LoadError>)
        ensures
            match r {
                Ok(locales) => loaded_document(
                    match document {
                        Some(text) => Some(text@),
                        None => None,
                    },
                ) == Ok::<Seq<(Tree, Tree)>, LoadFailureView>(locales@) && well_keyed(
                    Tree::Dict(locales@),
                ),
                Err(e) => e@.path == locale_file(path@, locale@) && loaded_document(
                    match document {
                        Some(text) => Some(text@),
                        None => None,
                    },
                ) == Err::<Seq<(Tree, Tree)>, LoadFailureView>(e@.failure),
            },
    {
        let text = match document {
            Some(text) => text,
            None => {
                return Err(
                    LoadError {
                        path: locale_file_path(path, locale),
                        failure: LoadFailure::Unreadable,
                    },
                );
            },
        };
        let value = match parse_yaml(text) {
            Ok(value) => value,
            Err(message) => {
                return Err(
                    LoadError {
                        path: locale_file_path(path, locale),
                        failure: LoadFailure::Malformed(message),
                    },
                );
            },
        };
        match Locales::from_node(value) {
            Ok(locales) => Ok(locales),
            Err(failure) => Err(LoadError { path: locale_file_path(path, locale), failure }),
        }
    }

    /// The pairs of this locale, sorted by path. Where no mapping of the
    /// locale has the same string key twice, as in every locale that was
    /// loaded, every path stands once.
    pub fn iter(&self) -> (r: Result<Vec<StringValuePathPair>, TypeError>)
        ensures
            match r {
                Ok(pairs) => locale_pairs(self@) == Ok::<Seq<PairView>, Seq<Seq<char>>>(
                    pairs.deep_view(),
                ) && (well_keyed(Tree::Dict(self@)) ==> is_strictly_sorted(pairs.deep_view())),
                Err(e) => locale_pairs(self@) == Err::<Seq<PairView>, Seq<Seq<char>>>(e@),
            },
    {
        let mut iter = ValueIter::new(&self.values);
        let ghost all = iter.pending();
        let mut out: Vec<StringValuePathPair> = Vec::new();
        assert(out.deep_view() =~= Seq::<PairView>::empty());
        loop
            invariant
                all == entry_leaves(Seq::empty(), self@, 0),
                gathered(all) == prepended(out.deep_view(), gathered(iter.pending())),
            decreases iter.pending().len(),
        {
            let ghost before = out.deep_view();
            let ghost rest = iter.pending();
            match iter.next() {
                None => {
                    assert(gathered(all) == Ok::<Seq<PairView>, Seq<Seq<char>>>(out.deep_view()));
                    proof {
                        if well_keyed(Tree::Dict(self@)) {
                            lemma_locale_pairs_strict(self@);
                        }
                    }
                    return Ok(sort_pairs(out));
                },
                Some(Err(e)) => {
                    return Err(e);
                },
                Some(Ok(pair)) => {
                    out.push(pair);
                    assert(out.deep_view() =~= before.push(pair@));
                    assert(before.push(pair@) =~= before + seq![pair@]);
                    proof {
                        let tail = gathered(rest.drop_first());
                        match tail {
                            Ok(t) => {
                                assert(before + (seq![pair@] + t) =~= (before + seq![pair@]) + t);
                            },
                            Err(_) => {},
                        }
                    }
                },
            }
        }
    }
}

/// `result` with `front` put before the pairs it holds.
pub open spec fn prepended(front: Seq<PairView>, result: Result<Seq<PairView>, Seq<Seq<char>>>)
    -> Result<Seq<PairView>, Seq<Seq<char>>> {
    match result {
        Ok(pairs) => Ok(front + pairs),
        Err(path) => Err(path),
    }
}

/// The loaded locales by name, as a mathematical value.
pub ghost struct StorageView {
    pub default_locale: Seq<char>,
    /// Name and root entries of each locale, in the order of loading.
    pub locales: Seq<(Seq<char>, Seq<(Tree, Tree)>)>,
}

/// The index of the first locale named `name`, or `-1` where there is none.
pub open spec fn position(locales: Seq<(Seq<char>, Seq<(Tree, Tree)>)>, name: Seq<char>) -> int
    decreases locales.len(),
{
    if locales.len() == 0 {
        -1
    } else if locales[0].0 == name {
        0
    } else if position(locales.drop_first(), name) < 0 {
        -1
    } else {
        position(locales.drop_first(), name) + 1
    }
}

/// `locales` with the entries of `name` set to `entries`: in its place where
/// the name is known, at the end where it is new.
pub open spec fn with_locale(
    locales: Seq<(Seq<char>, Seq<(Tree, Tree)>)>,
    name: Seq<char>,
    entries: Seq<(Tree, Tree)>,
) -> Seq<(Seq<char>, Seq<(Tree, Tree)>)> {
    if position(locales, name) < 0 {
        locales.push((name, entries))
    } else {
        locales.update(position(locales, name), (name, entries))
    }
}

/// No two locales have the same name.
pub open spec fn names_distinct(locales: Seq<(Seq<char>, Seq<(Tree, Tree)>)>) -> bool {
    forall|i: int, j: int|
        0 <= i < j < locales.len() ==> (#[trigger] locales[i]).0 != (#[trigger] locales[j]).0
}

/// What the position of a name tells.
pub proof fn lemma_position(locales: Seq<(Seq<char>, Seq<(Tree, Tree)>)>, name: Seq<char>)
    ensures
        -1 <= position(locales, name) < locales.len(),
        position(locales, name) >= 0 ==> locales[position(locales, name)].0 == name,
        forall|i: int|
            0 <= i < locales.len() && (position(locales, name) < 0 || i < position(locales, name))
                ==> (#[trigger] locales[i]).0 != name,
    decreases locales.len(),
{
    if locales.len() > 0 && locales[0].0 != name {
        let tail = locales.drop_first();
        lemma_position(tail, name);
        assert forall|i: int|
            0 <= i < locales.len() && (position(locales, name) < 0 || i < position(
                locales,
                name,
            )) implies (#[trigger] locales[i]).0 != name by {
            if i > 0 {
                assert(locales[i] == tail[i - 1]);
            }
        }
    }
}

/// Setting the entries of a locale keeps the names apart.
pub proof fn lemma_with_locale_distinct(
    locales: Seq<(Seq<char>, Seq<(Tree, Tree)>)>,
    name: Seq<char>,
    entries: Seq<(Tree, Tree)>,
)
    requires
        names_distinct(locales),
    ensures
        names_distinct(with_locale(locales, name, entries)),
{
    lemma_position(locales, name);
    let r = with_locale(locales, name, entries);
    let p = position(locales, name);
    assert forall|i: int, j: int| 0 <= i < j < r.len() implies (#[trigger] r[i]).0 != (
    #[trigger] r[j]).0 by {
        if p < 0 {
            if j < locales.len() {
                assert(r[i] == locales[i] && r[j] == locales[j]);
            } else {
                assert(r[i] == locales[i]);
            }
        } else {
            assert(r[i].0 == locales[i].0 && r[j].0 == locales[j].0);
        }
    }
}

/// The document read for locale `i`; a locale without one counts as not
/// read.
pub open spec fn document_at(documents: Seq<Option<Seq<char>>>, i: int) -> Option<Seq<char>> {
    if 0 <= i < documents.len() {
        documents[i]
    } else {
        None
    }
}

/// What loading the first `n` locales gives: the locales loaded, or the
/// error of the first one that fails.
pub open spec fn stored(
    path: Seq<char>,
    names: Seq<Seq<char>>,
    documents: Seq<Option<Seq<char>>>,
    n: nat,
) -> Result<Seq<(Seq<char>, Seq<(Tree, Tree)>)>, LoadErrorView>
    decreases n,
{
    if n == 0 || n > names.len() {
        Ok(Seq::empty())
    } else {
        match stored(path, names, documents, (n - 1) as nat) {
            Err(e) => Err(e),
            Ok(locales) => match loaded_document(document_at(documents, n - 1)) {
                Ok(entries) => Ok(with_locale(locales, names[n - 1], entries)),
                Err(failure) => Err(
                    LoadErrorView { path: locale_file(path, names[n - 1]), failure },
                ),
            },
        }
    }
}

/// The documents as mathematical values.
pub open spec fn document_views(documents: Seq<Option<String>>) -> Seq<Option<Seq<char>>> {
    Seq::new(
        documents.len(),
        |i: int|
            match documents[i] {
                Some(text) => Some(text@),
                None => None,
            },
    )
}

/// In no locale of `locales` has a mapping the same string key twice.
pub open spec fn all_well_keyed(locales: Seq<(Seq<char>, Seq<(Tree, Tree)>)>) -> bool {
    forall|i: int| 0 <= i < locales.len() ==> well_keyed(Tree::Dict((#[trigger] locales[i]).1))
}

/// The names of `locales`, in order.
pub open spec fn names_of(locales: Seq<(Seq<char>, Seq<(Tree, Tree)>)>) -> Seq<Seq<char>> {
    Seq::new(locales.len(), |i: int| locales[i].0)
}

/// The strings of every configured locale, and which locale is the default.
pub struct Storage {
    default_locale: String,
    locale_to_values_map: Vec<(String, Locales)>,
}

impl View for Storage {
    type V = StorageView;

    closed spec fn view(&self) -> StorageView {
        StorageView {
            default_locale: self.default_locale@,
            locales: map_view(self.locale_to_values_map@),
        }
    }
}

/// Name and root entries of each loaded locale.
pub closed spec fn map_view(map: Seq<(String, Locales)>) -> Seq<(Seq<char>, Seq<(Tree, Tree)>)> {
    Seq::new(map.len(), |i: int| (map[i].0@, map[i].1@))
}

/// Finds the first locale named `name`.
fn find_locale(map: &Vec<(String, Locales)>, name: &str) -> (r: Option<usize>)
    ensures
        match r {
            Some(i) => i < map.len() && i == position(map_view(map@), name@),
            None => position(map_view(map@), name@) == -1,
        },
{
    let ghost mv = map_view(map@);
    let mut i: usize = 0;
    assert(mv.skip(0) =~= mv);
    while i < map.len()
        invariant
            i <= map.len(),
            mv == map_view(map@),
            position(mv.skip(i as int), name@) < 0 ==> position(mv, name@) == -1,
            position(mv.skip(i as int), name@) >= 0 ==> position(mv, name@) == i + position(
                mv.skip(i as int),
                name@,
            ),
        decreases map.len() - i,
    {
        let ghost rest = mv.skip(i as int);
        assert(rest[0] == mv[i as int]);
        assert(rest.drop_first() =~= mv.skip(i + 1));
        proof {
            lemma_text_rank_same(map@[i as int].0@, name@);
        }
        match compare_text(map[i].0.as_str(), name) {
            Rank::Same => {
                return Some(i);
            },
            _ => {},
        }
        i = i + 1;
    }
    None
}

impl Storage {
    /// A storage without locales, of which `default_locale` is to be the
    /// default.
    pub fn new(default_locale: String) -> (r: Storage)
        ensures
            r@.default_locale == default_locale@,
            r@.locales.len() == 0,
    {
        let map: Vec<(String, Locales)> = Vec::new();
        assert(map_view(map@) =~= Seq::empty());
        Storage { default_locale, locale_to_values_map: map }
    }

    /// Sets the strings of the locale `name` to `locales`: in the place of
    /// the old ones where the locale is known, behind the other locales where
    /// it is new. Locales with names of their own keep names of their own.
    pub fn insert(&mut self, name: String, locales: Locales)
        ensures
            final(self)@.default_locale == old(self)@.default_locale,
            final(self)@.locales == with_locale(old(self)@.locales, name@, locales@),
            names_distinct(old(self)@.locales) ==> names_distinct(final(self)@.locales),
    {
        let ghost before = map_view(self.locale_to_values_map@);
        let ghost entry = (name@, locales@);
        proof {
            if names_distinct(before) {
                lemma_with_locale_distinct(before, name@, locales@);
            }
            lemma_position(before, name@);
        }
        match find_locale(&self.locale_to_values_map, name.as_str()) {
            Some(at) => {
                self.locale_to_values_map.push((name, locales));
                let ghost pushed = map_view(self.locale_to_values_map@);
                assert(pushed =~= before.push(entry));
                self.locale_to_values_map.swap_remove(at);
                assert(map_view(self.locale_to_values_map@) =~= before.update(at as int, entry));
            },
            None => {
                self.locale_to_values_map.push((name, locales));
                assert(map_view(self.locale_to_values_map@) =~= before.push(entry));
            },
        }
    }

    /// Loads every locale of `supported_locales`, the first of which is the
    /// default, from what was read of their files below `path`:
    /// `documents` holds, locale by locale, the text of the file, or `None`
    /// where it could not be read. A locale named twice keeps what was loaded
    /// last. The first locale that fails to load ends the loading.
    pub fn load(path: &str, supported_locales: &Vec<String>, documents: &Vec<Option<String>>) -> (r:
        Result<Storage, LoadError>)
        requires
            supported_locales.len() > 0,
        ensures
            match r {
                Ok(storage) => storage@.default_locale == supported_locales@[0]@ && stored(
                    path@,
                    supported_locales.deep_view(),
                    document_views(documents@),
                    supported_locales.len() as nat,
                ) == Ok::<Seq<(Seq<char>, Seq<(Tree, Tree)>)>, LoadErrorView>(storage@.locales)
                    && all_well_keyed(storage@.locales) && names_distinct(storage@.locales),
                Err(e) => stored(
                    path@,
                    supported_locales.deep_view(),
                    document_views(documents@),
                    supported_locales.len() as nat,
                ) == Err::<Seq<(Seq<char>, Seq<(Tree, Tree)>)>, LoadErrorView>(e@),
            },
    {
        let ghost names = supported_locales.deep_view();
        let ghost docs = document_views(documents@);
        let mut storage = Storage::new(supported_locales[0].clone());
        assert(storage@.locales =~= Seq::empty());
        let mut i: usize = 0;
        while i < supported_locales.len()
            invariant
                i <= supported_locales.len(),
                supported_locales.len() > 0,
                names == supported_locales.deep_view(),
                docs == document_views(documents@),
                storage@.default_locale == supported_locales@[0]@,
                stored(path@, names, docs, i as nat) == Ok::<
                    Seq<(Seq<char>, Seq<(Tree, Tree)>)>,
                    LoadErrorView,
                >(storage@.locales),
                all_well_keyed(storage@.locales),
                names_distinct(storage@.locales),
            decreases supported_locales.len() - i,
        {
            let name = &supported_locales[i];
            assert(names[i as int] == name@);
            let document = if i < documents.len() {
                match &documents[i] {
                    Some(text) => Some(text.as_str()),
                    None => None,
                }
            } else {
                None
            };
            assert(match document {
                Some(text) => Some(text@),
                None => None,
            } == document_at(docs, i as int));
            let locales = match Locales::load(path, name.as_str(), document) {
                Ok(locales) => locales,
                Err(e) => {
                    assert(stored(path@, names, docs, (i + 1) as nat) == Err::<
                        Seq<(Seq<char>, Seq<(Tree, Tree)>)>,
                        LoadErrorView,
                    >(e@));
                    proof {
                        lemma_stored_error(path@, names, docs, (i + 1) as nat, names.len());
                    }
                    return Err(e);
                },
            };
            proof {
                lemma_position(storage@.locales, name@);
            }
            storage.insert(name.clone(), locales);
            i = i + 1;
        }
        Ok(storage)
    }

    /// The default locale.
    pub fn default_locale(&self) -> (r: &str)
        ensures
            r@ == self@.default_locale,
    {
        self.default_locale.as_str()
    }

    /// The names of the loaded locales, sorted.
    pub fn all_locales(&self) -> (r: Vec<String>)
        ensures
            r.deep_view() == sorted_texts(names_of(self@.locales)),
    {
        let mut names: Vec<String> = Vec::new();
        let mut i: usize = 0;
        while i < self.locale_to_values_map.len()
            invariant
                i <= self.locale_to_values_map.len(),
                names.len() == i,
                forall|k: int|
                    0 <= k < i ==> names@[k]@ == (#[trigger] self.locale_to_values_map@[k]).0@,
            decreases self.locale_to_values_map.len() - i,
        {
            names.push(self.locale_to_values_map[i].0.clone());
            i = i + 1;
        }
        assert(names.deep_view() =~= names_of(self@.locales));
        sort_texts(names)
    }

    /// The strings of the default locale.
    pub fn get_default(&self) -> (r: Option<&Locales>)
        ensures
            match r {
                Some(locales) => position(self@.locales, self@.default_locale) >= 0
                    && locales@ == self@.locales[position(self@.locales, self@.default_locale)].1,
                None => position(self@.locales, self@.default_locale) == -1,
            },
    {
        self.get(self.default_locale.as_str())
    }

    /// The strings of `locale`.
    pub fn get(&self, locale: &str) -> (r: Option<&Locales>)
        ensures
            match r {
                Some(locales) => position(self@.locales, locale@) >= 0 && locales@
                    == self@.locales[position(self@.locales, locale@)].1,
                None => position(self@.locales, locale@) == -1,
            },
    {
        match find_locale(&self.locale_to_values_map, locale) {
            Some(i) => Some(&self.locale_to_values_map[i].1),
            None => None,
        }
    }
}

/// Once a locale has failed, loading more locales gives the same error.
pub proof fn lemma_stored_error(
    path: Seq<char>,
    names: Seq<Seq<char>>,
    documents: Seq<Option<Seq<char>>>,
    n: nat,
    m: nat,
)
    requires
        n <= m <= names.len(),
        stored(path, names, documents, n) is Err,
    ensures
        stored(path, names, documents, m) == stored(path, names, documents, n),
    decreases m,
{
    if n < m {
        lemma_stored_error(path, names, documents, n, (m - 1) as nat);
    }
}

} // verus!
