//! Key paths and their total order.

use crate::text::{compare_text, lemma_text_rank_flip, lemma_text_rank_same, lemma_text_rank_trans, text_rank, Rank};
use vstd::prelude::*;

verus! {

/// Lexicographic rank of path `a` against `b`, segment by segment; a strict
/// prefix stands before every one of its extensions.
pub open spec fn path_rank(a: Seq<Seq<char>>, b: Seq<Seq<char>>) -> Rank
    decreases a.len(),
{
    if a.len() == 0 {
        if b.len() == 0 {
            Rank::Same
        } else {
            Rank::Before
        }
    } else if b.len() == 0 {
        Rank::After
    } else {
        match text_rank(a[0], b[0]) {
            Rank::Same => path_rank(a.drop_first(), b.drop_first()),
            r => r,
        }
    }
}

/// Two paths rank the same exactly when they are equal.
pub proof fn lemma_path_rank_same(a: Seq<Seq<char>>, b: Seq<Seq<char>>)
    ensures
        path_rank(a, b) == Rank::Same <==> a == b,
    decreases a.len(),
{
    if a.len() == 0 || b.len() == 0 {
        if a.len() == 0 && b.len() == 0 {
            assert(a =~= b);
        }
    } else {
        lemma_text_rank_same(a[0], b[0]);
        lemma_path_rank_same(a.drop_first(), b.drop_first());
        if a[0] == b[0] && a.drop_first() == b.drop_first() {
            assert(a =~= seq![a[0]] + a.drop_first());
            assert(b =~= seq![b[0]] + b.drop_first());
        }
    }
}

/// Swapping the arguments swaps `Before` and `After`.
pub proof fn lemma_path_rank_flip(a: Seq<Seq<char>>, b: Seq<Seq<char>>)
    ensures
        path_rank(a, b) == Rank::Before <==> path_rank(b, a) == Rank::After,
        path_rank(a, b) == Rank::Same <==> path_rank(b, a) == Rank::Same,
    decreases a.len(),
{
    if a.len() != 0 && b.len() != 0 {
        lemma_text_rank_flip(a[0], b[0]);
        lemma_path_rank_flip(a.drop_first(), b.drop_first());
    }
}

/// `Before` is transitive on paths.
pub proof fn lemma_path_rank_trans(a: Seq<Seq<char>>, b: Seq<Seq<char>>, c: Seq<Seq<char>>)
    requires
        path_rank(a, b) == Rank::Before,
        path_rank(b, c) == Rank::Before,
    ensures
        path_rank(a, c) == Rank::Before,
    decreases a.len(),
{
    if a.len() != 0 && b.len() != 0 && c.len() != 0 {
        lemma_text_rank_same(a[0], b[0]);
        lemma_text_rank_same(b[0], c[0]);
        lemma_text_rank_same(a[0], c[0]);
        let ab = text_rank(a[0], b[0]);
        let bc = text_rank(b[0], c[0]);
        if ab == Rank::Same && bc == Rank::Same {
            lemma_path_rank_trans(a.drop_first(), b.drop_first(), c.drop_first());
        } else if ab == Rank::Before && bc == Rank::Before {
            lemma_text_rank_trans(a[0], b[0], c[0]);
        }
    }
}

/// A path that does not stand after a second, which does not stand after a
/// third, does not stand after the third.
pub proof fn lemma_path_rank_chain(a: Seq<Seq<char>>, b: Seq<Seq<char>>, c: Seq<Seq<char>>)
    requires
        path_rank(a, b) != Rank::After,
        path_rank(b, c) != Rank::After,
    ensures
        path_rank(a, c) != Rank::After,
        path_rank(a, b) == Rank::Before || path_rank(b, c) == Rank::Before ==> path_rank(a, c)
            == Rank::Before,
{
    lemma_path_rank_same(a, b);
    lemma_path_rank_same(b, c);
    if path_rank(a, b) == Rank::Before && path_rank(b, c) == Rank::Before {
        lemma_path_rank_trans(a, b, c);
    }
}

/// Skipping a common prefix of segments does not change the rank.
pub proof fn lemma_path_rank_skip(a: Seq<Seq<char>>, b: Seq<Seq<char>>, n: int)
    requires
        0 <= n <= a.len(),
        n <= b.len(),
        a.take(n) == b.take(n),
    ensures
        path_rank(a, b) == path_rank(a.skip(n), b.skip(n)),
    decreases n,
{
    if n == 0 {
        assert(a.skip(0) == a);
        assert(b.skip(0) == b);
    } else {
        assert(a[0] == a.take(n)[0]);
        assert(b[0] == b.take(n)[0]);
        lemma_text_rank_same(a[0], b[0]);
        assert(a.drop_first().take(n - 1) == a.take(n).drop_first());
        assert(b.drop_first().take(n - 1) == b.take(n).drop_first());
        lemma_path_rank_skip(a.drop_first(), b.drop_first(), n - 1);
        assert(a.drop_first().skip(n - 1) == a.skip(n));
        assert(b.drop_first().skip(n - 1) == b.skip(n));
    }
}

/// Compares two paths segment by segment.
pub fn compare_paths(a: &Vec<String>, b: &Vec<String>) -> (r: Rank)
    ensures
        r == path_rank(a.deep_view(), b.deep_view()),
{
    let ghost av = a.deep_view();
    let ghost bv = b.deep_view();
    let mut i: usize = 0;
    while i < a.len() && i < b.len()
        invariant
            i <= a.len(),
            i <= b.len(),
            av == a.deep_view(),
            bv == b.deep_view(),
            av.take(i as int) == bv.take(i as int),
        decreases a.len() - i,
    {
        proof {
            lemma_path_rank_skip(av, bv, i as int);
            assert(av.skip(i as int)[0] == a@[i as int]@);
            assert(bv.skip(i as int)[0] == b@[i as int]@);
        }
        let r = compare_text(a[i].as_str(), b[i].as_str());
        match r {
            Rank::Same => {},
            _ => {
                return r;
            },
        }
        proof {
            lemma_text_rank_same(av[i as int], bv[i as int]);
            assert(av.take(i + 1) == av.take(i as int).push(av[i as int]));
            assert(bv.take(i + 1) == bv.take(i as int).push(bv[i as int]));
        }
        i = i + 1;
    }
    proof {
        lemma_path_rank_skip(av, bv, i as int);
    }
    if i < b.len() {
        Rank::Before
    } else if i < a.len() {
        Rank::After
    } else {
        Rank::Same
    }
}

/// A copy of `path`.
pub fn clone_path(path: &Vec<String>) -> (r: Vec<String>)
    ensures
        r.deep_view() == path.deep_view(),
{
    let mut out: Vec<String> = Vec::new();
    let mut i: usize = 0;
    while i < path.len()
        invariant
            i <= path.len(),
            out.len() == i,
            forall|k: int| 0 <= k < i ==> out@[k]@ == path@[k]@,
        decreases path.len() - i,
    {
        out.push(path[i].clone());
        i = i + 1;
    }
    assert(out.deep_view() =~= path.deep_view());
    out
}

} // verus!
