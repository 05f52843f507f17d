//! Path/value pairs, the flattened unit of a locale, and their sort.

use crate::i18n::path::{
    clone_path, compare_paths, lemma_path_rank_chain, lemma_path_rank_flip, lemma_path_rank_same,
    path_rank,
};
use crate::text::Rank;
use vstd::prelude::*;
use vstd::std_specs::cmp::PartialEqSpecImpl;
use vstd::seq_lib::{to_multiset_insert, to_multiset_remove};

verus! {

/// Where the value of a pair comes from.
#[derive(Clone, Copy, Debug, PartialEq, Eq, Structural)]
pub enum Source {
    /// The locale's own string; `value` is that string.
    Own,
    /// The default locale's string at the same path, by reference; `value`
    /// is empty.
    Default,
}

/// One leaf of a locale: the path that leads to it and its display string.
pub struct StringValuePathPair {
    pub value: String,
    pub path: Vec<String>,
    pub source: Source,
}

/// The mathematical value of a [`StringValuePathPair`].
pub ghost struct PairView {
    pub path: Seq<Seq<char>>,
    pub value: Seq<char>,
    pub source: Source,
}

impl View for StringValuePathPair {
    type V = PairView;

    open spec fn view(&self) -> PairView {
        PairView { path: self.path.deep_view(), value: self.value@, source: self.source }
    }
}

impl DeepView for StringValuePathPair {
    type V = PairView;

    open spec fn deep_view(&self) -> PairView {
        self.view()
    }
}

impl StringValuePathPair {
    /// A pair that holds the locale's own string.
    pub fn new(path: Vec<String>, value: String) -> (r: Self)
        ensures
            r@ == (PairView { path: path.deep_view(), value: value@, source: Source::Own }),
    {
        StringValuePathPair { value, path, source: Source::Own }
    }

    /// Where this pair stands relative to `other`, by path alone.
    pub fn compare(&self, other: &StringValuePathPair) -> (r: Rank)
        ensures
            r == path_rank(self@.path, other@.path),
    {
        compare_paths(&self.path, &other.path)
    }

    /// A copy of this pair.
    pub fn duplicate(&self) -> (r: Self)
        ensures
            r@ == self@,
    {
        StringValuePathPair {
            value: self.value.clone(),
            path: clone_path(&self.path),
            source: self.source,
        }
    }
}

impl PartialEq for StringValuePathPair {
    /// Two pairs are equal when their paths are, whatever their values.
    fn eq(&self, other: &StringValuePathPair) -> (r: bool) {
        proof {
            lemma_path_rank_same(self@.path, other@.path);
        }
        match compare_paths(&self.path, &other.path) {
            Rank::Same => true,
            _ => false,
        }
    }
}

impl PartialEqSpecImpl for StringValuePathPair {
    open spec fn obeys_eq_spec() -> bool {
        true
    }

    open spec fn eq_spec(&self, other: &StringValuePathPair) -> bool {
        self@.path == other@.path
    }
}

/// The paths of `s`, in order.
pub open spec fn paths_of(s: Seq<PairView>) -> Seq<Seq<Seq<char>>> {
    Seq::new(s.len(), |i: int| s[i].path)
}

/// No pair stands after a later one.
pub open spec fn is_sorted(s: Seq<PairView>) -> bool {
    forall|i: int, j: int|
        0 <= i < j < s.len() ==> path_rank(#[trigger] s[i].path, #[trigger] s[j].path)
            != Rank::After
}

/// Every pair stands before each later one: sorted, and no path twice.
pub open spec fn is_strictly_sorted(s: Seq<PairView>) -> bool {
    forall|i: int, j: int|
        0 <= i < j < s.len() ==> path_rank(#[trigger] s[i].path, #[trigger] s[j].path)
            == Rank::Before
}

/// How many pairs at the front of `s` stand before `x`.
pub open spec fn insert_point(s: Seq<PairView>, x: PairView) -> int
    decreases s.len(),
{
    if s.len() == 0 || path_rank(s[0].path, x.path) != Rank::Before {
        0
    } else {
        1 + insert_point(s.drop_first(), x)
    }
}

/// `x` placed in `s` in front of the first pair that does not stand before it.
pub open spec fn insert_sorted(s: Seq<PairView>, x: PairView) -> Seq<PairView> {
    s.insert(insert_point(s, x), x)
}

/// The pairs of `s` in path order; pairs with equal paths keep their order.
pub open spec fn sorted_pairs(s: Seq<PairView>) -> Seq<PairView>
    decreases s.len(),
{
    if s.len() == 0 {
        s
    } else {
        insert_sorted(sorted_pairs(s.drop_first()), s[0])
    }
}

/// The insert point is the one index with only earlier pairs in front of it
/// and no earlier pair at it.
pub proof fn lemma_insert_point(s: Seq<PairView>, x: PairView, p: int)
    requires
        0 <= p <= s.len(),
        forall|i: int| 0 <= i < p ==> path_rank(#[trigger] s[i].path, x.path) == Rank::Before,
        p < s.len() ==> path_rank(s[p].path, x.path) != Rank::Before,
    ensures
        insert_point(s, x) == p,
    decreases s.len(),
{
    if p > 0 {
        let t = s.drop_first();
        assert forall|i: int| 0 <= i < p - 1 implies path_rank(#[trigger] t[i].path, x.path)
            == Rank::Before by {
            assert(t[i] == s[i + 1]);
        }
        assert(path_rank(s[0].path, x.path) == Rank::Before);
        lemma_insert_point(t, x, p - 1);
    }
}

/// What holds at the insert point.
pub proof fn lemma_insert_point_bounds(s: Seq<PairView>, x: PairView)
    ensures
        0 <= insert_point(s, x) <= s.len(),
        forall|i: int|
            0 <= i < insert_point(s, x) ==> path_rank(#[trigger] s[i].path, x.path)
                == Rank::Before,
        insert_point(s, x) < s.len() ==> path_rank(s[insert_point(s, x)].path, x.path)
            != Rank::Before,
    decreases s.len(),
{
    if !(s.len() == 0 || path_rank(s[0].path, x.path) != Rank::Before) {
        let t = s.drop_first();
        lemma_insert_point_bounds(t, x);
        let q = insert_point(t, x);
        assert forall|i: int| 0 <= i < q + 1 implies path_rank(#[trigger] s[i].path, x.path)
            == Rank::Before by {
            if i > 0 {
                assert(s[i] == t[i - 1]);
            }
        }
        if q + 1 < s.len() {
            assert(s[q + 1] == t[q]);
        }
    }
}

/// Inserting keeps the order, and adds the new pair and nothing else.
pub proof fn lemma_insert_sorted(s: Seq<PairView>, x: PairView)
    requires
        is_sorted(s),
    ensures
        is_sorted(insert_sorted(s, x)),
        insert_sorted(s, x).len() == s.len() + 1,
        insert_sorted(s, x).to_multiset() == s.to_multiset().insert(x),
{
    let p = insert_point(s, x);
    let r = insert_sorted(s, x);
    lemma_insert_point_bounds(s, x);
    to_multiset_insert(s, p, x);
    assert forall|i: int, j: int| 0 <= i < j < r.len() implies path_rank(
        #[trigger] r[i].path,
        #[trigger] r[j].path,
    ) != Rank::After by {
        if j < p {
            assert(r[i] == s[i] && r[j] == s[j]);
        } else if j == p {
            assert(r[i] == s[i]);
        } else if i < p {
            assert(r[i] == s[i] && r[j] == s[j - 1]);
        } else if i == p {
            assert(r[j] == s[j - 1]);
            lemma_path_rank_flip(s[p].path, x.path);
            lemma_path_rank_flip(x.path, s[p].path);
            if j - 1 > p {
                assert(path_rank(s[p].path, s[j - 1].path) != Rank::After);
                lemma_path_rank_chain(x.path, s[p].path, s[j - 1].path);
            }
        } else {
            assert(r[i] == s[i - 1] && r[j] == s[j - 1]);
        }
    }
}

/// Sorting yields the same pairs, in path order.
pub proof fn lemma_sorted_pairs(s: Seq<PairView>)
    ensures
        is_sorted(sorted_pairs(s)),
        sorted_pairs(s).len() == s.len(),
        sorted_pairs(s).to_multiset() == s.to_multiset(),
    decreases s.len(),
{
    if s.len() > 0 {
        let t = s.drop_first();
        lemma_sorted_pairs(t);
        lemma_insert_sorted(sorted_pairs(t), s[0]);
        to_multiset_insert(t, 0, s[0]);
        assert(t.insert(0, s[0]) =~= s);
    }
}

/// The path tells the pair: pairs of `s` with the same path are the same.
pub open spec fn path_determines(s: Seq<PairView>) -> bool {
    forall|i: int, j: int|
        0 <= i < s.len() && 0 <= j < s.len() && (#[trigger] s[i]).path == (#[trigger] s[j]).path
            ==> s[i] == s[j]
}

/// Two sorted sequences of the same pairs, whose paths tell them apart, are
/// the same sequence.
pub proof fn lemma_sorted_unique(a: Seq<PairView>, b: Seq<PairView>)
    requires
        is_sorted(a),
        is_sorted(b),
        a.to_multiset() == b.to_multiset(),
        path_determines(a),
    ensures
        a == b,
    decreases a.len(),
{
    a.to_multiset_ensures();
    b.to_multiset_ensures();
    if a.len() == 0 {
        assert(a =~= b);
    } else {
        assert(a.contains(a[0]));
        assert(b.contains(b[0]));
        assert(b.to_multiset().count(a[0]) > 0);
        assert(a.to_multiset().count(b[0]) > 0);
        assert(b.contains(a[0]));
        assert(a.contains(b[0]));
        let i = choose|i: int| 0 <= i < a.len() && a[i] == b[0];
        let j = choose|j: int| 0 <= j < b.len() && b[j] == a[0];
        lemma_path_rank_same(a[0].path, a[0].path);
        lemma_path_rank_same(b[0].path, b[0].path);
        if i > 0 {
            assert(path_rank(a[0].path, a[i].path) != Rank::After);
        }
        if j > 0 {
            assert(path_rank(b[0].path, b[j].path) != Rank::After);
        }
        lemma_path_rank_flip(a[0].path, b[0].path);
        lemma_path_rank_flip(b[0].path, a[0].path);
        lemma_path_rank_same(a[0].path, b[0].path);
        assert(a[0].path == a[i].path);
        assert(a[0] == b[0]);
        let ta = a.drop_first();
        let tb = b.drop_first();
        assert(ta =~= a.remove(0));
        assert(tb =~= b.remove(0));
        to_multiset_remove(a, 0);
        to_multiset_remove(b, 0);
        assert(is_sorted(ta)) by {
            assert forall|x: int, y: int| 0 <= x < y < ta.len() implies path_rank(
                #[trigger] ta[x].path,
                #[trigger] ta[y].path,
            ) != Rank::After by {
                assert(ta[x] == a[x + 1] && ta[y] == a[y + 1]);
            }
        }
        assert(is_sorted(tb)) by {
            assert forall|x: int, y: int| 0 <= x < y < tb.len() implies path_rank(
                #[trigger] tb[x].path,
                #[trigger] tb[y].path,
            ) != Rank::After by {
                assert(tb[x] == b[x + 1] && tb[y] == b[y + 1]);
            }
        }
        assert(path_determines(ta)) by {
            assert forall|x: int, y: int|
                0 <= x < ta.len() && 0 <= y < ta.len() && (#[trigger] ta[x]).path == (
                #[trigger] ta[y]).path implies ta[x] == ta[y] by {
                assert(ta[x] == a[x + 1] && ta[y] == a[y + 1]);
            }
        }
        lemma_sorted_unique(ta, tb);
        assert(a =~= seq![a[0]] + ta);
        assert(b =~= seq![b[0]] + tb);
    }
}

/// Ordering stability: the sorted pairs do not depend on the order in which
/// the traversal came upon them. Two sequences of the same pairs, whose
/// paths tell them apart, sort to the same sequence.
pub proof fn lemma_order_stable(a: Seq<PairView>, b: Seq<PairView>)
    requires
        a.to_multiset() == b.to_multiset(),
        path_determines(a),
    ensures
        sorted_pairs(a) == sorted_pairs(b),
{
    lemma_sorted_pairs(a);
    lemma_sorted_pairs(b);
    let sa = sorted_pairs(a);
    a.to_multiset_ensures();
    sa.to_multiset_ensures();
    assert(path_determines(sa)) by {
        assert forall|x: int, y: int|
            0 <= x < sa.len() && 0 <= y < sa.len() && (#[trigger] sa[x]).path == (
            #[trigger] sa[y]).path implies sa[x] == sa[y] by {
            assert(sa.contains(sa[x]));
            assert(sa.contains(sa[y]));
            assert(a.to_multiset().count(sa[x]) > 0);
            assert(a.to_multiset().count(sa[y]) > 0);
            assert(a.contains(sa[x]));
            assert(a.contains(sa[y]));
            let i = choose|i: int| 0 <= i < a.len() && a[i] == sa[x];
            let j = choose|j: int| 0 <= j < a.len() && a[j] == sa[y];
            assert(a[i].path == a[j].path);
        }
    }
    lemma_sorted_unique(sa, sorted_pairs(b));
}

/// No two pairs of `s` have the same path.
pub open spec fn paths_distinct(s: Seq<PairView>) -> bool {
    forall|i: int, j: int|
        0 <= i < j < s.len() ==> (#[trigger] s[i]).path != (#[trigger] s[j]).path
}

/// Pairs with paths of their own sort into strictly rising order.
pub proof fn lemma_sorted_strict(s: Seq<PairView>)
    requires
        paths_distinct(s),
    ensures
        is_strictly_sorted(sorted_pairs(s)),
{
    lemma_sorted_pairs(s);
    let r = sorted_pairs(s);
    assert(s.no_duplicates()) by {
        assert forall|i: int, j: int| 0 <= i < s.len() && 0 <= j < s.len() && i != j implies s[i]
            != s[j] by {
            if i < j {
                assert(s[i].path != s[j].path);
            } else {
                assert(s[j].path != s[i].path);
            }
        }
    }
    s.lemma_multiset_has_no_duplicates();
    r.lemma_multiset_has_no_duplicates_conv();
    s.to_multiset_ensures();
    r.to_multiset_ensures();
    assert forall|x: int, y: int| 0 <= x < y < r.len() implies path_rank(
        #[trigger] r[x].path,
        #[trigger] r[y].path,
    ) == Rank::Before by {
        assert(r.contains(r[x]));
        assert(r.contains(r[y]));
        assert(s.to_multiset().count(r[x]) > 0);
        assert(s.to_multiset().count(r[y]) > 0);
        assert(s.contains(r[x]));
        assert(s.contains(r[y]));
        let p = choose|p: int| 0 <= p < s.len() && s[p] == r[x];
        let q = choose|q: int| 0 <= q < s.len() && s[q] == r[y];
        assert(r[x] != r[y]);
        assert(p != q);
        if p < q {
            assert(s[p].path != s[q].path);
        } else {
            assert(s[q].path != s[p].path);
        }
        lemma_path_rank_same(r[x].path, r[y].path);
        assert(path_rank(r[x].path, r[y].path) != Rank::After);
    }
}

/// Sorts pairs by path. Pairs with equal paths keep their order.
pub fn sort_pairs(pairs: Vec<StringValuePathPair>) -> (out: Vec<StringValuePathPair>)
    ensures
        out.deep_view() == sorted_pairs(pairs.deep_view()),
        is_sorted(out.deep_view()),
        out.len() == pairs.len(),
        out.deep_view().to_multiset() == pairs.deep_view().to_multiset(),
{
    let ghost orig = pairs.deep_view();
    let mut input = pairs;
    let mut out: Vec<StringValuePathPair> = Vec::new();
    assert(orig.skip(orig.len() as int) =~= Seq::<PairView>::empty());
    assert(out.deep_view() =~= Seq::<PairView>::empty());
    while input.len() > 0
        invariant
            input.len() <= orig.len(),
            input.deep_view() == orig.take(input.len() as int),
            out.deep_view() == sorted_pairs(orig.skip(input.len() as int)),
        decreases input.len(),
    {
        let ghost before = input.deep_view();
        let ghost k = input.len() as int;
        let x = input.pop().unwrap();
        assert(x@ == orig[k - 1]) by {
            assert(before[k - 1] == x@);
        }
        assert(input.deep_view() =~= orig.take(k - 1));
        let ghost sorted = out.deep_view();
        proof {
            lemma_sorted_pairs(orig.skip(k));
        }
        let mut p: usize = 0;
        let mut found = false;
        while p < out.len() && !found
            invariant
                p <= out.len(),
                sorted == out.deep_view(),
                forall|i: int| 0 <= i < p ==> path_rank(#[trigger] sorted[i].path, x@.path)
                    == Rank::Before,
                found ==> p < out.len() && path_rank(sorted[p as int].path, x@.path)
                    != Rank::Before,
            decreases out.len() - p + (if found { 0int } else { 1int }),
        {
            match compare_paths(&out[p].path, &x.path) {
                Rank::Before => {
                    p = p + 1;
                },
                _ => {
                    found = true;
                },
            }
        }
        proof {
            lemma_insert_point(sorted, x@, p as int);
            assert(orig.skip(k - 1).drop_first() =~= orig.skip(k));
        }
        out.insert(p, x);
        assert(out.deep_view() =~= sorted.insert(p as int, x@));
    }
    proof {
        assert(orig.skip(0) =~= orig);
        lemma_sorted_pairs(orig);
    }
    out
}

} // verus!
