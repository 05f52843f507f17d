//! Completing a locale against the default locale.

use crate::i18n::pair::{is_strictly_sorted, paths_of, PairView, Source, StringValuePathPair};
use crate::i18n::path::{
    clone_path, lemma_path_rank_flip, lemma_path_rank_same, lemma_path_rank_trans, path_rank,
};
use crate::text::Rank;
use vstd::prelude::*;

verus! {

/// The pair that stands in for a string the locale lacks: a reference to the
/// default locale's string at `path`. It holds no text of its own, and so no
/// copy of the default's.
pub open spec fn fallback_pair(path: Seq<Seq<char>>) -> PairView {
    PairView { path, value: Seq::empty(), source: Source::Default }
}

/// The complete pairs of a locale: one pair for each pair of `default`, in
/// the order of `default`. Both are read front to back. Where the locale's
/// next path is the default's next path, the locale's pair is taken. Where
/// the locale is past it, or has run out, a fallback stands in. A pair of the
/// locale that comes before the default's next path has no place and is left
/// out.
pub open spec fn merged(default: Seq<PairView>, locale: Seq<PairView>) -> Seq<PairView>
    decreases default.len(), locale.len(),
{
    if default.len() == 0 {
        Seq::empty()
    } else if locale.len() == 0 {
        seq![fallback_pair(default[0].path)] + merged(default.drop_first(), locale)
    } else {
        match path_rank(locale[0].path, default[0].path) {
            Rank::Same => seq![locale[0]] + merged(default.drop_first(), locale.drop_first()),
            Rank::After => seq![fallback_pair(default[0].path)] + merged(
                default.drop_first(),
                locale,
            ),
            Rank::Before => merged(default, locale.drop_first()),
        }
    }
}

/// The pairs of `locale` that [`merged`] leaves out: those whose path is
/// passed over because the default does not have it at that point.
pub open spec fn left_out(default: Seq<PairView>, locale: Seq<PairView>) -> Seq<PairView>
    decreases default.len(), locale.len(),
{
    if default.len() == 0 {
        locale
    } else if locale.len() == 0 {
        Seq::empty()
    } else {
        match path_rank(locale[0].path, default[0].path) {
            Rank::Same => left_out(default.drop_first(), locale.drop_first()),
            Rank::After => left_out(default.drop_first(), locale),
            Rank::Before => seq![locale[0]] + left_out(default, locale.drop_first()),
        }
    }
}

/// Completeness: the complete pairs of a locale have exactly the paths of the
/// default locale, in the same order, whatever the locale holds.
pub proof fn lemma_merged_complete(default: Seq<PairView>, locale: Seq<PairView>)
    ensures
        merged(default, locale).len() == default.len(),
        paths_of(merged(default, locale)) == paths_of(default),
    decreases default.len(), locale.len(),
{
    let m = merged(default, locale);
    if default.len() == 0 {
        assert(paths_of(m) =~= paths_of(default));
    } else if locale.len() == 0 {
        lemma_merged_complete(default.drop_first(), locale);
        let rest = merged(default.drop_first(), locale);
        assert(paths_of(rest) == paths_of(default.drop_first()));
        assert forall|i: int| 0 <= i < m.len() implies m[i].path == default[i].path by {
            if i > 0 {
                assert(m[i] == rest[i - 1]);
                assert(paths_of(rest)[i - 1] == paths_of(default.drop_first())[i - 1]);
            }
        }
        assert(paths_of(m) =~= paths_of(default));
    } else {
        match path_rank(locale[0].path, default[0].path) {
            Rank::Same => {
                lemma_path_rank_same(locale[0].path, default[0].path);
                lemma_merged_complete(default.drop_first(), locale.drop_first());
                let rest = merged(default.drop_first(), locale.drop_first());
                assert forall|i: int| 0 <= i < m.len() implies m[i].path == default[i].path by {
                    if i > 0 {
                        assert(m[i] == rest[i - 1]);
                        assert(paths_of(rest)[i - 1] == paths_of(default.drop_first())[i - 1]);
                    }
                }
                assert(paths_of(m) =~= paths_of(default));
            },
            Rank::After => {
                lemma_merged_complete(default.drop_first(), locale);
                let rest = merged(default.drop_first(), locale);
                assert forall|i: int| 0 <= i < m.len() implies m[i].path == default[i].path by {
                    if i > 0 {
                        assert(m[i] == rest[i - 1]);
                        assert(paths_of(rest)[i - 1] == paths_of(default.drop_first())[i - 1]);
                    }
                }
                assert(paths_of(m) =~= paths_of(default));
            },
            Rank::Before => {
                lemma_merged_complete(default, locale.drop_first());
            },
        }
    }
}

/// Fallback: where the locale has no pair with the path of `default[i]`, the
/// complete pairs hold at `i` the reference to the default locale's string.
pub proof fn lemma_merged_fallback(default: Seq<PairView>, locale: Seq<PairView>, i: int)
    requires
        0 <= i < default.len(),
        forall|j: int| 0 <= j < locale.len() ==> (#[trigger] locale[j]).path != default[i].path,
    ensures
        merged(default, locale).len() == default.len(),
        merged(default, locale)[i] == fallback_pair(default[i].path),
    decreases default.len(), locale.len(),
{
    lemma_merged_complete(default, locale);
    if locale.len() == 0 {
        if i > 0 {
            lemma_merged_complete(default.drop_first(), locale);
            lemma_merged_fallback(default.drop_first(), locale, i - 1);
        }
    } else {
        let tail = locale.drop_first();
        assert forall|j: int| 0 <= j < tail.len() implies (#[trigger] tail[j]).path
            != default[i].path by {
            assert(tail[j] == locale[j + 1]);
        }
        match path_rank(locale[0].path, default[0].path) {
            Rank::Same => {
                lemma_path_rank_same(locale[0].path, default[0].path);
                assert(locale[0].path != default[i].path);
                assert(i > 0);
                lemma_merged_complete(default.drop_first(), tail);
                lemma_merged_fallback(default.drop_first(), tail, i - 1);
            },
            Rank::After => {
                if i > 0 {
                    lemma_merged_complete(default.drop_first(), locale);
                    lemma_merged_fallback(default.drop_first(), locale, i - 1);
                }
            },
            Rank::Before => {
                lemma_merged_fallback(default, tail, i);
            },
        }
    }
}

/// A fallback holds nothing of the default locale's strings: two defaults
/// with the same paths complete a locale to the same pairs, so a changed
/// default string is seen through the reference and not through a copy.
pub proof fn lemma_merged_ignores_default_values(
    first: Seq<PairView>,
    second: Seq<PairView>,
    locale: Seq<PairView>,
)
    requires
        paths_of(first) == paths_of(second),
    ensures
        merged(first, locale) == merged(second, locale),
    decreases first.len(), locale.len(),
{
    assert(first.len() == paths_of(first).len());
    assert(second.len() == paths_of(second).len());
    if first.len() > 0 {
        assert(first[0].path == paths_of(first)[0]);
        assert(second[0].path == paths_of(second)[0]);
        assert(paths_of(first.drop_first()) =~= paths_of(second.drop_first())) by {
            assert forall|k: int| 0 <= k < first.len() - 1 implies first.drop_first()[k].path
                == second.drop_first()[k].path by {
                assert(first[k + 1].path == paths_of(first)[k + 1]);
                assert(second[k + 1].path == paths_of(second)[k + 1]);
            }
        }
        if locale.len() == 0 {
            lemma_merged_ignores_default_values(first.drop_first(), second.drop_first(), locale);
        } else {
            match path_rank(locale[0].path, first[0].path) {
                Rank::Same => {
                    lemma_merged_ignores_default_values(
                        first.drop_first(),
                        second.drop_first(),
                        locale.drop_first(),
                    );
                },
                Rank::After => {
                    lemma_merged_ignores_default_values(
                        first.drop_first(),
                        second.drop_first(),
                        locale,
                    );
                },
                Rank::Before => {
                    lemma_merged_ignores_default_values(first, second, locale.drop_first());
                },
            }
        }
    }
}

/// Fidelity: where both hold a path, and each is sorted without repeats, the
/// complete pairs hold the locale's own pair at that path, never the
/// default's.
pub proof fn lemma_merged_own(default: Seq<PairView>, locale: Seq<PairView>, i: int, j: int)
    requires
        is_strictly_sorted(default),
        is_strictly_sorted(locale),
        0 <= i < default.len(),
        0 <= j < locale.len(),
        default[i].path == locale[j].path,
    ensures
        merged(default, locale).len() == default.len(),
        merged(default, locale)[i] == locale[j],
    decreases default.len(), locale.len(),
{
    lemma_merged_complete(default, locale);
    let d_tail = default.drop_first();
    let l_tail = locale.drop_first();
    assert(is_strictly_sorted(d_tail)) by {
        assert forall|a: int, b: int| 0 <= a < b < d_tail.len() implies path_rank(
            #[trigger] d_tail[a].path,
            #[trigger] d_tail[b].path,
        ) == Rank::Before by {
            assert(d_tail[a] == default[a + 1] && d_tail[b] == default[b + 1]);
        }
    }
    assert(is_strictly_sorted(l_tail)) by {
        assert forall|a: int, b: int| 0 <= a < b < l_tail.len() implies path_rank(
            #[trigger] l_tail[a].path,
            #[trigger] l_tail[b].path,
        ) == Rank::Before by {
            assert(l_tail[a] == locale[a + 1] && l_tail[b] == locale[b + 1]);
        }
    }
    lemma_path_rank_same(locale[0].path, default[0].path);
    lemma_path_rank_same(locale[j].path, default[i].path);
    match path_rank(locale[0].path, default[0].path) {
        Rank::Same => {
            if i == 0 {
                if j > 0 {
                    assert(path_rank(locale[0].path, locale[j].path) == Rank::Before);
                    lemma_path_rank_same(locale[0].path, locale[j].path);
                }
            } else {
                if j == 0 {
                    assert(path_rank(default[0].path, default[i].path) == Rank::Before);
                    lemma_path_rank_same(default[0].path, default[i].path);
                }
                assert(d_tail[i - 1] == default[i]);
                assert(l_tail[j - 1] == locale[j]);
                lemma_merged_complete(d_tail, l_tail);
                lemma_merged_own(d_tail, l_tail, i - 1, j - 1);
            }
        },
        Rank::After => {
            // the locale is past `default[0]`, so the shared path lies further on
            if i == 0 {
                lemma_path_rank_flip(default[0].path, locale[0].path);
                if j > 0 {
                    assert(path_rank(locale[0].path, locale[j].path) == Rank::Before);
                    lemma_path_rank_trans(default[0].path, locale[0].path, locale[j].path);
                    lemma_path_rank_same(default[0].path, locale[j].path);
                }
            } else {
                assert(d_tail[i - 1] == default[i]);
                lemma_merged_complete(d_tail, locale);
                lemma_merged_own(d_tail, locale, i - 1, j);
            }
        },
        Rank::Before => {
            // `locale[0]` stands before every path of the default
            if j == 0 {
                if i > 0 {
                    assert(path_rank(default[0].path, default[i].path) == Rank::Before);
                    lemma_path_rank_trans(locale[0].path, default[0].path, default[i].path);
                    lemma_path_rank_same(locale[0].path, default[i].path);
                }
            } else {
                assert(l_tail[j - 1] == locale[j]);
                lemma_merged_own(default, l_tail, i, j - 1);
            }
        },
    }
}

/// Finds the pairs of a locale that completing it against the default
/// locale leaves out: an inconsistency of the locale, for its author to
/// mend.
pub fn find_left_out(pairs: &Vec<StringValuePathPair>, default_pairs: &Vec<StringValuePathPair>)
    -> (out: Vec<StringValuePathPair>)
    ensures
        out.deep_view() == left_out(default_pairs.deep_view(), pairs.deep_view()),
{
    let ghost dv = default_pairs.deep_view();
    let ghost lv = pairs.deep_view();
    let mut out: Vec<StringValuePathPair> = Vec::new();
    let mut nd: usize = 0;
    let mut np: usize = 0;
    assert(dv.skip(0) =~= dv);
    assert(lv.skip(0) =~= lv);
    assert(out.deep_view() + left_out(dv, lv) =~= left_out(dv, lv));
    while np < pairs.len()
        invariant
            nd <= default_pairs.len(),
            np <= pairs.len(),
            dv == default_pairs.deep_view(),
            lv == pairs.deep_view(),
            left_out(dv, lv) == out.deep_view() + left_out(dv.skip(nd as int), lv.skip(np as int)),
        decreases (default_pairs.len() - nd) + (pairs.len() - np),
    {
        let ghost before = out.deep_view();
        let ghost d_rest = dv.skip(nd as int);
        let ghost l_rest = lv.skip(np as int);
        assert(l_rest[0] == lv[np as int]);
        assert(l_rest.drop_first() =~= lv.skip(np + 1));
        if nd >= default_pairs.len() {
            out.push(pairs[np].duplicate());
            assert(out.deep_view() =~= before.push(lv[np as int]));
            assert(l_rest =~= seq![l_rest[0]] + lv.skip(np + 1));
            assert(left_out(d_rest, lv.skip(np + 1)) =~= lv.skip(np + 1));
            assert(left_out(dv, lv) =~= out.deep_view() + left_out(d_rest, lv.skip(np + 1)));
            np = np + 1;
        } else {
            assert(d_rest[0] == dv[nd as int]);
            assert(d_rest.drop_first() =~= dv.skip(nd + 1));
            match pairs[np].compare(&default_pairs[nd]) {
                Rank::Same => {
                    np = np + 1;
                    nd = nd + 1;
                },
                Rank::After => {
                    nd = nd + 1;
                },
                Rank::Before => {
                    out.push(pairs[np].duplicate());
                    assert(out.deep_view() =~= before.push(lv[np as int]));
                    assert(left_out(dv, lv) =~= out.deep_view() + left_out(
                        d_rest,
                        lv.skip(np + 1),
                    ));
                    np = np + 1;
                },
            }
        }
    }
    assert(left_out(dv.skip(nd as int), lv.skip(np as int)) =~= Seq::<PairView>::empty());
    assert(left_out(dv, lv) =~= out.deep_view());
    out
}

/// Walks a locale's sorted pairs and the default locale's sorted pairs side
/// by side and hands out the locale's complete pairs one at a time.
pub struct LocaleStringWithDefaultIter {
    pairs: Vec<StringValuePathPair>,
    default_pairs: Vec<StringValuePathPair>,
    next_pair: usize,
    next_default_pair: usize,
}

impl LocaleStringWithDefaultIter {
    /// The cursors lie within the two sequences.
    pub closed spec fn wf(&self) -> bool {
        &&& self.next_pair <= self.pairs.len()
        &&& self.next_default_pair <= self.default_pairs.len()
    }

    /// The pairs that are still to come.
    pub closed spec fn remaining(&self) -> Seq<PairView> {
        merged(
            self.default_pairs.deep_view().skip(self.next_default_pair as int),
            self.pairs.deep_view().skip(self.next_pair as int),
        )
    }

    /// Starts at the front of both sequences.
    pub fn new(pairs: Vec<StringValuePathPair>, default_pairs: Vec<StringValuePathPair>) -> (r:
        Self)
        ensures
            r.wf(),
            r.remaining() == merged(default_pairs.deep_view(), pairs.deep_view()),
    {
        assert(default_pairs.deep_view().skip(0) =~= default_pairs.deep_view());
        assert(pairs.deep_view().skip(0) =~= pairs.deep_view());
        LocaleStringWithDefaultIter { pairs, default_pairs, next_pair: 0, next_default_pair: 0 }
    }

    /// Hands out the next complete pair, or `None` when every path of the
    /// default locale has been served.
    pub fn next(&mut self) -> (r: Option<StringValuePathPair>)
        requires
            old(self).wf(),
        ensures
            final(self).wf(),
            old(self).remaining().len() == 0 ==> r is None && final(self).remaining() == old(
                self,
            ).remaining(),
            old(self).remaining().len() > 0 ==> r is Some && r->0@ == old(self).remaining()[0]
                && final(self).remaining() == old(self).remaining().drop_first(),
    {
        let ghost dv = self.default_pairs.deep_view();
        let ghost lv = self.pairs.deep_view();
        let ghost goal = self.remaining();
        if self.next_default_pair >= self.default_pairs.len() {
            return None;
        }
        let nd = self.next_default_pair;
        let ghost d_rest = dv.skip(nd as int);
        assert(d_rest[0] == dv[nd as int]);
        assert(d_rest.drop_first() =~= dv.skip(nd + 1));
        while self.next_pair < self.pairs.len()
            invariant
                self.wf(),
                self.next_default_pair == nd,
                nd < self.default_pairs.len(),
                dv == self.default_pairs.deep_view(),
                lv == self.pairs.deep_view(),
                d_rest == dv.skip(nd as int),
                d_rest.len() > 0,
                d_rest[0] == dv[nd as int],
                d_rest.drop_first() == dv.skip(nd + 1),
                goal == old(self).remaining(),
                goal == merged(d_rest, lv.skip(self.next_pair as int)),
            decreases self.pairs.len() - self.next_pair,
        {
            let np = self.next_pair;
            let ghost l_rest = lv.skip(np as int);
            assert(l_rest[0] == lv[np as int]);
            assert(l_rest.drop_first() =~= lv.skip(np + 1));
            match self.pairs[np].compare(&self.default_pairs[nd]) {
                Rank::Same => {
                    let own = self.pairs[np].duplicate();
                    self.next_pair = np + 1;
                    self.next_default_pair = nd + 1;
                    assert(goal == seq![l_rest[0]] + merged(
                        d_rest.drop_first(),
                        l_rest.drop_first(),
                    ));
                    assert(goal.drop_first() =~= merged(d_rest.drop_first(), l_rest.drop_first()));
                    return Some(own);
                },
                Rank::After => {
                    let path = clone_path(&self.default_pairs[nd].path);
                    let value = String::new();
                    self.next_default_pair = nd + 1;
                    assert(goal == seq![fallback_pair(d_rest[0].path)] + merged(
                        d_rest.drop_first(),
                        l_rest,
                    ));
                    assert(goal.drop_first() =~= merged(d_rest.drop_first(), l_rest));
                    return Some(StringValuePathPair { value, path, source: Source::Default });
                },
                Rank::Before => {
                    self.next_pair = np + 1;
                },
            }
        }
        let ghost l_rest = lv.skip(self.next_pair as int);
        assert(l_rest.len() == 0);
        let path = clone_path(&self.default_pairs[nd].path);
        let value = String::new();
        self.next_default_pair = nd + 1;
        assert(goal == seq![fallback_pair(d_rest[0].path)] + merged(d_rest.drop_first(), l_rest));
        assert(goal.drop_first() =~= merged(d_rest.drop_first(), l_rest));
        Some(StringValuePathPair { value, path, source: Source::Default })
    }

    /// Hands out all the pairs that are still to come.
    pub fn collect(self) -> (out: Vec<StringValuePathPair>)
        requires
            self.wf(),
        ensures
            out.deep_view() == self.remaining(),
    {
        let ghost goal = self.remaining();
        let mut iter = self;
        let mut out: Vec<StringValuePathPair> = Vec::new();
        assert(out.deep_view() =~= Seq::<PairView>::empty());
        loop
            invariant
                iter.wf(),
                goal == self.remaining(),
                goal == out.deep_view() + iter.remaining(),
            decreases iter.remaining().len(),
        {
            let ghost before = out.deep_view();
            let ghost rest = iter.remaining();
            match iter.next() {
                Some(pair) => {
                    out.push(pair);
                    assert(out.deep_view() =~= before.push(rest[0]));
                    assert(goal =~= out.deep_view() + iter.remaining());
                },
                None => {
                    assert(goal =~= out.deep_view());
                    return out;
                },
            }
        }
    }
}

} // verus!
