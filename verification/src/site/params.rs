//! Query parameters: text keys with text values, kept in key order.

use crate::text::{
    compare_text, lemma_text_rank_flip, lemma_text_rank_same, lemma_text_rank_trans, text_rank,
    Rank,
};
use vstd::prelude::*;

verus! {

/// The keys of `s` stand in strictly rising order; no key stands twice.
pub open spec fn keys_rising(s: Seq<(Seq<char>, Seq<char>)>) -> bool {
    forall|i: int, j: int|
        0 <= i < j < s.len() ==> text_rank((#[trigger] s[i]).0, (#[trigger] s[j]).0)
            == Rank::Before
}

/// How many keys at the front of `s` stand before `key`.
pub open spec fn key_point(s: Seq<(Seq<char>, Seq<char>)>, key: Seq<char>) -> int
    decreases s.len(),
{
    if s.len() == 0 || text_rank(s[0].0, key) != Rank::Before {
        0
    } else {
        1 + key_point(s.drop_first(), key)
    }
}

/// The value that stands under `key` in `s`.
pub open spec fn value_of(s: Seq<(Seq<char>, Seq<char>)>, key: Seq<char>) -> Option<Seq<char>> {
    let p = key_point(s, key);
    if 0 <= p < s.len() && s[p].0 == key {
        Some(s[p].1)
    } else {
        None
    }
}

/// `s` with `value` under `key`: in the place of the old value where the key
/// is there, else at the place that keeps the keys in order.
pub open spec fn with_param(s: Seq<(Seq<char>, Seq<char>)>, key: Seq<char>, value: Seq<char>)
    -> Seq<(Seq<char>, Seq<char>)> {
    let p = key_point(s, key);
    if 0 <= p < s.len() && s[p].0 == key {
        s.update(p, (key, value))
    } else {
        s.insert(p, (key, value))
    }
}

/// The key point is the one index with only earlier keys in front of it and
/// no earlier key at it.
pub proof fn lemma_key_point(s: Seq<(Seq<char>, Seq<char>)>, key: Seq<char>, p: int)
    requires
        0 <= p <= s.len(),
        forall|i: int| 0 <= i < p ==> text_rank((#[trigger] s[i]).0, key) == Rank::Before,
        p < s.len() ==> text_rank(s[p].0, key) != Rank::Before,
    ensures
        key_point(s, key) == p,
    decreases s.len(),
{
    if p > 0 {
        let t = s.drop_first();
        assert forall|i: int| 0 <= i < p - 1 implies text_rank((#[trigger] t[i]).0, key)
            == Rank::Before by {
            assert(t[i] == s[i + 1]);
        }
        assert(text_rank(s[0].0, key) == Rank::Before);
        lemma_key_point(t, key, p - 1);
    }
}

/// What holds at the key point.
pub proof fn lemma_key_point_bounds(s: Seq<(Seq<char>, Seq<char>)>, key: Seq<char>)
    ensures
        0 <= key_point(s, key) <= s.len(),
        forall|i: int|
            0 <= i < key_point(s, key) ==> text_rank((#[trigger] s[i]).0, key) == Rank::Before,
        key_point(s, key) < s.len() ==> text_rank(s[key_point(s, key)].0, key) != Rank::Before,
    decreases s.len(),
{
    if !(s.len() == 0 || text_rank(s[0].0, key) != Rank::Before) {
        let t = s.drop_first();
        lemma_key_point_bounds(t, key);
        let q = key_point(t, key);
        assert forall|i: int| 0 <= i < q + 1 implies text_rank((#[trigger] s[i]).0, key)
            == Rank::Before by {
            if i > 0 {
                assert(s[i] == t[i - 1]);
            }
        }
        if q + 1 < s.len() {
            assert(s[q + 1] == t[q]);
        }
    }
}

/// Setting a parameter keeps the keys in strictly rising order.
pub proof fn lemma_with_param_rising(
    s: Seq<(Seq<char>, Seq<char>)>,
    key: Seq<char>,
    value: Seq<char>,
)
    requires
        keys_rising(s),
    ensures
        keys_rising(with_param(s, key, value)),
{
    let p = key_point(s, key);
    let r = with_param(s, key, value);
    lemma_key_point_bounds(s, key);
    if 0 <= p < s.len() && s[p].0 == key {
        assert forall|i: int, j: int| 0 <= i < j < r.len() implies text_rank(
            (#[trigger] r[i]).0,
            (#[trigger] r[j]).0,
        ) == Rank::Before by {
            assert(r[i].0 == s[i].0 && r[j].0 == s[j].0);
        }
    } else {
        assert forall|k: int| p <= k < s.len() implies text_rank(key, (#[trigger] s[k]).0)
            == Rank::Before by {
            lemma_text_rank_same(s[p].0, key);
            lemma_text_rank_flip(s[p].0, key);
            lemma_text_rank_flip(key, s[p].0);
            if k > p {
                assert(text_rank(s[p].0, s[k].0) == Rank::Before);
                lemma_text_rank_trans(key, s[p].0, s[k].0);
            }
        }
        assert forall|i: int, j: int| 0 <= i < j < r.len() implies text_rank(
            (#[trigger] r[i]).0,
            (#[trigger] r[j]).0,
        ) == Rank::Before by {
            if j < p {
                assert(r[i] == s[i] && r[j] == s[j]);
            } else if j == p {
                assert(r[i] == s[i]);
            } else if i < p {
                assert(r[i] == s[i] && r[j] == s[j - 1]);
            } else if i == p {
                assert(r[j] == s[j - 1]);
            } else {
                assert(r[i] == s[i - 1] && r[j] == s[j - 1]);
            }
        }
    }
}

/// Those of the first `n` parameters of `s` whose key is not among `ignored`.
pub open spec fn kept_params(
    s: Seq<(Seq<char>, Seq<char>)>,
    ignored: Seq<Seq<char>>,
    n: nat,
) -> Seq<(Seq<char>, Seq<char>)>
    decreases n,
{
    if n == 0 || n > s.len() {
        Seq::empty()
    } else if ignored.contains(s[n - 1].0) {
        kept_params(s, ignored, (n - 1) as nat)
    } else {
        kept_params(s, ignored, (n - 1) as nat).push(s[n - 1])
    }
}

/// Query parameters in the order of their keys, each key once.
pub struct PageQuery {
    params: Vec<(String, String)>,
}

impl View for PageQuery {
    type V = Seq<(Seq<char>, Seq<char>)>;

    closed spec fn view(&self) -> Seq<(Seq<char>, Seq<char>)> {
        Seq::new(self.params@.len(), |i: int| (self.params@[i].0@, self.params@[i].1@))
    }
}

impl PageQuery {
    /// The keys stand in strictly rising order, each key once, at all times.
    #[verifier::type_invariant]
    spec fn rising(self) -> bool {
        keys_rising(self@)
    }

    /// No parameters.
    pub fn new() -> (r: PageQuery)
        ensures
            r@ == Seq::<(Seq<char>, Seq<char>)>::empty(),
    {
        let params: Vec<(String, String)> = Vec::new();
        assert(Seq::new(params@.len(), |i: int| (params@[i].0@, params@[i].1@)) =~= Seq::<
            (Seq<char>, Seq<char>),
        >::empty());
        PageQuery { params }
    }


    /// How many parameters there are. Their keys stand in strictly rising
    /// order, as they do at all times.
    pub fn len(&self) -> (n: usize)
        ensures
            n == self@.len(),
            keys_rising(self@),
    {
        proof {
            use_type_invariant(self);
        }
        self.params.len()
    }

    /// The key of parameter `i`.
    pub fn key(&self, i: usize) -> (k: &str)
        requires
            i < self@.len(),
        ensures
            k@ == self@[i as int].0,
    {
        self.params[i].0.as_str()
    }

    /// The value of parameter `i`.
    pub fn value(&self, i: usize) -> (v: &str)
        requires
            i < self@.len(),
        ensures
            v@ == self@[i as int].1,
    {
        self.params[i].1.as_str()
    }

    /// Finds the key point of `key`, and tells whether the key stands there.
    fn find(&self, key: &str) -> (r: (usize, bool))
        ensures
            r.0 == key_point(self@, key@),
            r.0 <= self@.len(),
            r.1 == (r.0 < self@.len() && self@[r.0 as int].0 == key@),
    {
        let ghost s = self@;
        let mut p: usize = 0;
        let mut found = false;
        let mut same = false;
        while p < self.params.len() && !found
            invariant
                p <= self.params.len(),
                s == self@,
                forall|k: int| 0 <= k < p ==> text_rank((#[trigger] s[k]).0, key@) == Rank::Before,
                found ==> p < self.params.len() && text_rank(s[p as int].0, key@) != Rank::Before,
                found ==> same == (s[p as int].0 == key@),
                !found ==> !same,
            decreases self.params.len() - p + (if found { 0int } else { 1int }),
        {
            assert(s[p as int].0 == self.params@[p as int].0@);
            proof {
                lemma_text_rank_same(s[p as int].0, key@);
            }
            match compare_text(self.params[p].0.as_str(), key) {
                Rank::Before => {
                    p = p + 1;
                },
                Rank::Same => {
                    found = true;
                    same = true;
                },
                Rank::After => {
                    found = true;
                },
            }
        }
        proof {
            lemma_key_point(s, key@, p as int);
        }
        (p, same)
    }

    /// The value that stands under `key`.
    pub fn get(&self, key: &str) -> (r: Option<&str>)
        ensures
            match r {
                Some(v) => value_of(self@, key@) == Some(v@),
                None => value_of(self@, key@) is None,
            },
    {
        let (p, same) = self.find(key);
        if same {
            assert(self@[p as int].1 == self.params@[p as int].1@);
            Some(self.params[p].1.as_str())
        } else {
            None
        }
    }

    /// Sets the value under `key` to `value`, whether the key was there or
    /// not.
    pub fn insert(&mut self, key: String, value: String)
        ensures
            final(self)@ == with_param(old(self)@, key@, value@),
            keys_rising(final(self)@),
    {
        let ghost before = self@;
        proof {
            use_type_invariant(&*self);
            lemma_with_param_rising(before, key@, value@);
        }
        let (p, same) = self.find(key.as_str());
        let mut params: Vec<(String, String)> = Vec::new();
        let mut i: usize = 0;
        while i < self.params.len()
            invariant
                i <= self.params.len(),
                params@.len() == i,
                forall|k: int|
                    0 <= k < i ==> (#[trigger] params@[k]).0@ == self.params@[k].0@ && params@[k].1@
                        == self.params@[k].1@,
            decreases self.params.len() - i,
        {
            params.push((self.params[i].0.clone(), self.params[i].1.clone()));
            i = i + 1;
        }
        if same {
            params.remove(p);
        }
        params.insert(p, (key, value));
        let ghost after = Seq::new(params@.len(), |i: int| (params@[i].0@, params@[i].1@));
        proof {
            if same {
                assert(after =~= before.update(p as int, (key@, value@)));
            } else {
                assert(after =~= before.insert(p as int, (key@, value@)));
            }
        }
        self.params = params;
    }

    /// The parameters whose key is not among `ignored`.
    pub fn without(&self, ignored: &Vec<String>) -> (r: PageQuery)
        ensures
            r@ == kept_params(self@, ignored.deep_view(), self@.len()),
            keys_rising(r@),
    {
        let ghost iv = ignored.deep_view();
        let mut params: Vec<(String, String)> = Vec::new();
        let mut i: usize = 0;
        let ghost mut kept: Seq<(Seq<char>, Seq<char>)> = Seq::empty();
        while i < self.params.len()
            invariant
                i <= self.params.len(),
                iv == ignored.deep_view(),
                kept == kept_params(self@, iv, i as nat),
                kept.len() == params@.len(),
                forall|k: int|
                    0 <= k < params@.len() ==> (#[trigger] kept[k]) == (
                        params@[k].0@,
                        params@[k].1@,
                    ),
            decreases self.params.len() - i,
        {
            assert(self@[i as int] == (self.params@[i as int].0@, self.params@[i as int].1@));
            if !has_text(ignored, self.params[i].0.as_str()) {
                params.push((self.params[i].0.clone(), self.params[i].1.clone()));
                proof {
                    kept = kept.push(self@[i as int]);
                }
            }
            i = i + 1;
        }
        proof {
            use_type_invariant(self);
            lemma_kept_rising(self@, iv, self@.len());
            assert(Seq::new(params@.len(), |i: int| (params@[i].0@, params@[i].1@)) =~= kept);
        }
        PageQuery { params }
    }
}

/// Leaving parameters out keeps the keys in strictly rising order, and what
/// is kept is kept in place.
pub proof fn lemma_kept_rising(s: Seq<(Seq<char>, Seq<char>)>, ignored: Seq<Seq<char>>, n: nat)
    requires
        keys_rising(s),
        n <= s.len(),
    ensures
        keys_rising(kept_params(s, ignored, n)),
        forall|i: int|
            0 <= i < kept_params(s, ignored, n).len() ==> exists|k: int|
                0 <= k < n && s[k] == #[trigger] kept_params(s, ignored, n)[i],
    decreases n,
{
    if n > 0 {
        lemma_kept_rising(s, ignored, (n - 1) as nat);
        let before = kept_params(s, ignored, (n - 1) as nat);
        let r = kept_params(s, ignored, n);
        assert forall|i: int| 0 <= i < r.len() implies exists|k: int|
            0 <= k < n && s[k] == #[trigger] r[i] by {
            if i < before.len() {
                assert(r[i] == before[i]);
                let k = choose|k: int| 0 <= k < n - 1 && s[k] == before[i];
                assert(0 <= k < n && s[k] == r[i]);
            } else {
                assert(s[n - 1] == r[i]);
            }
        }
        if !ignored.contains(s[n - 1].0) {
            assert forall|i: int, j: int| 0 <= i < j < r.len() implies text_rank(
                (#[trigger] r[i]).0,
                (#[trigger] r[j]).0,
            ) == Rank::Before by {
                if j < before.len() {
                    assert(r[i] == before[i] && r[j] == before[j]);
                } else {
                    assert(r[i] == before[i]);
                    let k = choose|k: int| 0 <= k < n - 1 && s[k] == before[i];
                    assert(text_rank(s[k].0, s[n - 1].0) == Rank::Before);
                }
            }
        }
    }
}

/// Tells whether `text` is among `list`.
pub fn has_text(list: &Vec<String>, text: &str) -> (r: bool)
    ensures
        r == list.deep_view().contains(text@),
{
    let ghost lv = list.deep_view();
    let mut i: usize = 0;
    while i < list.len()
        invariant
            i <= list.len(),
            lv == list.deep_view(),
            forall|k: int| 0 <= k < i ==> lv[k] != text@,
        decreases list.len() - i,
    {
        assert(lv[i as int] == list@[i as int]@);
        proof {
            lemma_text_rank_same(lv[i as int], text@);
        }
        match compare_text(list[i].as_str(), text) {
            Rank::Same => {
                return true;
            },
            _ => {},
        }
        i = i + 1;
    }
    false
}

} // verus!
