//! Text: its order, which is the byte-wise order that `str` itself uses, and
//! what is needed to sort it, cut it, and write and read numbers in it.

use vstd::prelude::*;
use vstd::seq_lib::to_multiset_insert;
use vstd::string::StrSliceExecFns;
use vstd::utf8::*;

verus! {

/// Where one value stands relative to another in a total order.
#[derive(Clone, Copy, Debug, PartialEq, Eq, Structural)]
pub enum Rank {
    Before,
    Same,
    After,
}

/// Lexicographic rank of byte string `a` against `b`. A strict prefix stands
/// before every one of its extensions.
pub open spec fn bytes_rank(a: Seq<u8>, b: Seq<u8>) -> Rank
    decreases a.len(),
{
    if a.len() == 0 {
        if b.len() == 0 {
            Rank::Same
        } else {
            Rank::Before
        }
    } else if b.len() == 0 {
        Rank::After
    } else if a[0] < b[0] {
        Rank::Before
    } else if a[0] > b[0] {
        Rank::After
    } else {
        bytes_rank(a.drop_first(), b.drop_first())
    }
}

/// Rank of text `a` against `b`: the lexicographic rank of their UTF-8
/// encodings.
pub open spec fn text_rank(a: Seq<char>, b: Seq<char>) -> Rank {
    bytes_rank(encode_utf8(a), encode_utf8(b))
}

/// Skipping a common prefix does not change the rank.
pub proof fn lemma_bytes_rank_skip(a: Seq<u8>, b: Seq<u8>, n: int)
    requires
        0 <= n <= a.len(),
        n <= b.len(),
        a.take(n) == b.take(n),
    ensures
        bytes_rank(a, b) == bytes_rank(a.skip(n), b.skip(n)),
    decreases n,
{
    if n == 0 {
        assert(a.skip(0) == a);
        assert(b.skip(0) == b);
    } else {
        assert(a[0] == a.take(n)[0]);
        assert(b[0] == b.take(n)[0]);
        assert(a.drop_first().take(n - 1) == a.take(n).drop_first());
        assert(b.drop_first().take(n - 1) == b.take(n).drop_first());
        lemma_bytes_rank_skip(a.drop_first(), b.drop_first(), n - 1);
        assert(a.drop_first().skip(n - 1) == a.skip(n));
        assert(b.drop_first().skip(n - 1) == b.skip(n));
    }
}

/// Two byte strings rank the same exactly when they are equal.
pub proof fn lemma_bytes_rank_same(a: Seq<u8>, b: Seq<u8>)
    ensures
        bytes_rank(a, b) == Rank::Same <==> a == b,
    decreases a.len(),
{
    if a.len() == 0 || b.len() == 0 {
        if a.len() == 0 && b.len() == 0 {
            assert(a =~= b);
        }
    } else {
        lemma_bytes_rank_same(a.drop_first(), b.drop_first());
        if a[0] == b[0] && a.drop_first() == b.drop_first() {
            assert(a =~= seq![a[0]] + a.drop_first());
            assert(b =~= seq![b[0]] + b.drop_first());
        }
    }
}

/// Swapping the arguments swaps `Before` and `After`.
pub proof fn lemma_bytes_rank_flip(a: Seq<u8>, b: Seq<u8>)
    ensures
        bytes_rank(a, b) == Rank::Before <==> bytes_rank(b, a) == Rank::After,
        bytes_rank(a, b) == Rank::Same <==> bytes_rank(b, a) == Rank::Same,
    decreases a.len(),
{
    if a.len() != 0 && b.len() != 0 {
        lemma_bytes_rank_flip(a.drop_first(), b.drop_first());
    }
}

/// `Before` is transitive.
pub proof fn lemma_bytes_rank_trans(a: Seq<u8>, b: Seq<u8>, c: Seq<u8>)
    requires
        bytes_rank(a, b) == Rank::Before,
        bytes_rank(b, c) == Rank::Before,
    ensures
        bytes_rank(a, c) == Rank::Before,
    decreases a.len(),
{
    if a.len() != 0 && b.len() != 0 && c.len() != 0 {
        if a[0] == b[0] && b[0] == c[0] {
            lemma_bytes_rank_trans(a.drop_first(), b.drop_first(), c.drop_first());
        }
    }
}

/// Two texts rank the same exactly when they are equal.
pub proof fn lemma_text_rank_same(a: Seq<char>, b: Seq<char>)
    ensures
        text_rank(a, b) == Rank::Same <==> a == b,
{
    lemma_bytes_rank_same(encode_utf8(a), encode_utf8(b));
    encode_utf8_decode_utf8(a);
    encode_utf8_decode_utf8(b);
}

/// Swapping the arguments swaps `Before` and `After`.
pub proof fn lemma_text_rank_flip(a: Seq<char>, b: Seq<char>)
    ensures
        text_rank(a, b) == Rank::Before <==> text_rank(b, a) == Rank::After,
        text_rank(a, b) == Rank::Same <==> text_rank(b, a) == Rank::Same,
{
    lemma_bytes_rank_flip(encode_utf8(a), encode_utf8(b));
}

/// `Before` is transitive on texts.
pub proof fn lemma_text_rank_trans(a: Seq<char>, b: Seq<char>, c: Seq<char>)
    requires
        text_rank(a, b) == Rank::Before,
        text_rank(b, c) == Rank::Before,
    ensures
        text_rank(a, c) == Rank::Before,
{
    lemma_bytes_rank_trans(encode_utf8(a), encode_utf8(b), encode_utf8(c));
}

/// Compares two byte slices lexicographically.
pub fn compare_bytes(a: &[u8], b: &[u8]) -> (r: Rank)
    ensures
        r == bytes_rank(a@, b@),
{
    let mut i: usize = 0;
    while i < a.len() && i < b.len()
        invariant
            i <= a.len(),
            i <= b.len(),
            a@.take(i as int) == b@.take(i as int),
        decreases a.len() - i,
    {
        proof {
            lemma_bytes_rank_skip(a@, b@, i as int);
        }
        if a[i] < b[i] {
            return Rank::Before;
        }
        if a[i] > b[i] {
            return Rank::After;
        }
        assert(a@.take(i + 1) == a@.take(i as int).push(a@[i as int]));
        assert(b@.take(i + 1) == b@.take(i as int).push(b@[i as int]));
        i = i + 1;
    }
    proof {
        lemma_bytes_rank_skip(a@, b@, i as int);
    }
    if i < b.len() {
        Rank::Before
    } else if i < a.len() {
        Rank::After
    } else {
        Rank::Same
    }
}

/// Compares two strings as `str` orders them: by their bytes.
pub fn compare_text(a: &str, b: &str) -> (r: Rank)
    ensures
        r == text_rank(a@, b@),
{
    compare_bytes(a.as_bytes(), b.as_bytes())
}

/// The lowercase form that `str::to_lowercase` gives for `text`.
pub uninterp spec fn lowercased(text: Seq<char>) -> Seq<char>;

/// `text` without the white space that `str::trim` takes off its two ends.
pub uninterp spec fn trimmed(text: Seq<char>) -> Seq<char>;

/// Trusted: calls `str::to_lowercase`, which maps each character to its
/// Unicode lowercase form. The result is named by [`lowercased`].
#[verifier::external_body]
pub(crate) fn lowercase(text: &str) -> (r: String)
    ensures
        r@ == lowercased(text@),
{
    text.to_lowercase()
}

/// Trusted: calls `str::trim`, which returns the slice between the leading
/// and the trailing white space. The result is named by [`trimmed`].
#[verifier::external_body]
pub(crate) fn trim(text: &str) -> (r: &str)
    ensures
        r@ == trimmed(text@),
{
    text.trim()
}

/// Appends `count` copies of `unit` to `out`.
pub fn push_repeated(out: &mut String, unit: &str, count: usize)
    ensures
        final(out)@ == old(out)@ + repeated(unit@, count as nat),
{
    let mut i: usize = 0;
    assert(repeated(unit@, 0) =~= Seq::<char>::empty());
    assert(out@ =~= old(out)@ + repeated(unit@, 0));
    while i < count
        invariant
            i <= count,
            out@ == old(out)@ + repeated(unit@, i as nat),
        decreases count - i,
    {
        out.append(unit);
        i = i + 1;
        assert(out@ =~= old(out)@ + repeated(unit@, i as nat));
    }
}

/// `count` copies of `unit`, one after another.
pub open spec fn repeated(unit: Seq<char>, count: nat) -> Seq<char>
    decreases count,
{
    if count == 0 {
        Seq::empty()
    } else {
        repeated(unit, (count - 1) as nat) + unit
    }
}

/// No text stands after a later one.
pub open spec fn texts_sorted(s: Seq<Seq<char>>) -> bool {
    forall|i: int, j: int|
        0 <= i < j < s.len() ==> text_rank(#[trigger] s[i], #[trigger] s[j]) != Rank::After
}

/// How many texts at the front of `s` stand before `x`.
pub open spec fn text_insert_point(s: Seq<Seq<char>>, x: Seq<char>) -> int
    decreases s.len(),
{
    if s.len() == 0 || text_rank(s[0], x) != Rank::Before {
        0
    } else {
        1 + text_insert_point(s.drop_first(), x)
    }
}

/// The texts of `s` in order; equal texts keep their order.
pub open spec fn sorted_texts(s: Seq<Seq<char>>) -> Seq<Seq<char>>
    decreases s.len(),
{
    if s.len() == 0 {
        s
    } else {
        let rest = sorted_texts(s.drop_first());
        rest.insert(text_insert_point(rest, s[0]), s[0])
    }
}

/// The insert point is the one index with only earlier texts in front of it
/// and no earlier text at it.
pub proof fn lemma_text_insert_point(s: Seq<Seq<char>>, x: Seq<char>, p: int)
    requires
        0 <= p <= s.len(),
        forall|i: int| 0 <= i < p ==> text_rank(#[trigger] s[i], x) == Rank::Before,
        p < s.len() ==> text_rank(s[p], x) != Rank::Before,
    ensures
        text_insert_point(s, x) == p,
    decreases s.len(),
{
    if p > 0 {
        let t = s.drop_first();
        assert forall|i: int| 0 <= i < p - 1 implies text_rank(#[trigger] t[i], x)
            == Rank::Before by {
            assert(t[i] == s[i + 1]);
        }
        assert(text_rank(s[0], x) == Rank::Before);
        lemma_text_insert_point(t, x, p - 1);
    }
}

/// What holds at the insert point.
pub proof fn lemma_text_insert_point_bounds(s: Seq<Seq<char>>, x: Seq<char>)
    ensures
        0 <= text_insert_point(s, x) <= s.len(),
        forall|i: int|
            0 <= i < text_insert_point(s, x) ==> text_rank(#[trigger] s[i], x) == Rank::Before,
        text_insert_point(s, x) < s.len() ==> text_rank(s[text_insert_point(s, x)], x)
            != Rank::Before,
    decreases s.len(),
{
    if !(s.len() == 0 || text_rank(s[0], x) != Rank::Before) {
        let t = s.drop_first();
        lemma_text_insert_point_bounds(t, x);
        let q = text_insert_point(t, x);
        assert forall|i: int| 0 <= i < q + 1 implies text_rank(#[trigger] s[i], x)
            == Rank::Before by {
            if i > 0 {
                assert(s[i] == t[i - 1]);
            }
        }
        if q + 1 < s.len() {
            assert(s[q + 1] == t[q]);
        }
    }
}

/// Sorting yields the same texts, in order.
pub proof fn lemma_sorted_texts(s: Seq<Seq<char>>)
    ensures
        texts_sorted(sorted_texts(s)),
        sorted_texts(s).len() == s.len(),
        sorted_texts(s).to_multiset() == s.to_multiset(),
    decreases s.len(),
{
    if s.len() > 0 {
        let t = s.drop_first();
        lemma_sorted_texts(t);
        let u = sorted_texts(t);
        let x = s[0];
        let p = text_insert_point(u, x);
        let r = u.insert(p, x);
        lemma_text_insert_point_bounds(u, x);
        to_multiset_insert(u, p, x);
        to_multiset_insert(t, 0, x);
        assert(t.insert(0, x) =~= s);
        assert forall|i: int, j: int| 0 <= i < j < r.len() implies text_rank(
            #[trigger] r[i],
            #[trigger] r[j],
        ) != Rank::After by {
            if j < p {
                assert(r[i] == u[i] && r[j] == u[j]);
            } else if j == p {
                assert(r[i] == u[i]);
            } else if i < p {
                assert(r[i] == u[i] && r[j] == u[j - 1]);
            } else if i == p {
                assert(r[j] == u[j - 1]);
                lemma_text_rank_flip(u[p], x);
                lemma_text_rank_flip(x, u[p]);
                lemma_text_rank_same(x, u[p]);
                if j - 1 > p {
                    assert(text_rank(u[p], u[j - 1]) != Rank::After);
                    lemma_text_rank_same(u[p], u[j - 1]);
                    if text_rank(x, u[p]) == Rank::Before && text_rank(u[p], u[j - 1])
                        == Rank::Before {
                        lemma_text_rank_trans(x, u[p], u[j - 1]);
                    }
                }
            } else {
                assert(r[i] == u[i - 1] && r[j] == u[j - 1]);
            }
        }
    }
}

/// Sorts texts as `str` orders them. Equal texts keep their order.
pub fn sort_texts(texts: Vec<String>) -> (out: Vec<String>)
    ensures
        out.deep_view() == sorted_texts(texts.deep_view()),
        texts_sorted(out.deep_view()),
        out.len() == texts.len(),
        out.deep_view().to_multiset() == texts.deep_view().to_multiset(),
{
    let ghost orig = texts.deep_view();
    let mut input = texts;
    let mut out: Vec<String> = Vec::new();
    assert(orig.skip(orig.len() as int) =~= Seq::<Seq<char>>::empty());
    assert(out.deep_view() =~= Seq::<Seq<char>>::empty());
    while input.len() > 0
        invariant
            input.len() <= orig.len(),
            input.deep_view() == orig.take(input.len() as int),
            out.deep_view() == sorted_texts(orig.skip(input.len() as int)),
        decreases input.len(),
    {
        let ghost before = input.deep_view();
        let ghost k = input.len() as int;
        let x = input.pop().unwrap();
        assert(x@ == orig[k - 1]) by {
            assert(before[k - 1] == x@);
        }
        assert(input.deep_view() =~= orig.take(k - 1));
        let ghost sorted = out.deep_view();
        let mut p: usize = 0;
        let mut found = false;
        while p < out.len() && !found
            invariant
                p <= out.len(),
                sorted == out.deep_view(),
                forall|i: int| 0 <= i < p ==> text_rank(#[trigger] sorted[i], x@) == Rank::Before,
                found ==> p < out.len() && text_rank(sorted[p as int], x@) != Rank::Before,
            decreases out.len() - p + (if found { 0int } else { 1int }),
        {
            match compare_text(out[p].as_str(), x.as_str()) {
                Rank::Before => {
                    p = p + 1;
                },
                _ => {
                    found = true;
                },
            }
        }
        proof {
            lemma_text_insert_point(sorted, x@, p as int);
            assert(orig.skip(k - 1).drop_first() =~= orig.skip(k));
        }
        out.insert(p, x);
        assert(out.deep_view() =~= sorted.insert(p as int, x@));
    }
    proof {
        assert(orig.skip(0) =~= orig);
        lemma_sorted_texts(orig);
    }
    out
}

/// The numeral of the digit `d`.
pub open spec fn digit_text(d: nat) -> Seq<char> {
    if d == 0 {
        "0"@
    } else if d == 1 {
        "1"@
    } else if d == 2 {
        "2"@
    } else if d == 3 {
        "3"@
    } else if d == 4 {
        "4"@
    } else if d == 5 {
        "5"@
    } else if d == 6 {
        "6"@
    } else if d == 7 {
        "7"@
    } else if d == 8 {
        "8"@
    } else {
        "9"@
    }
}

/// The decimal numeral of `n`, without leading zeros.
pub open spec fn decimal_text(n: nat) -> Seq<char>
    decreases n,
{
    if n < 10 {
        digit_text(n)
    } else {
        decimal_text(n / 10) + digit_text(n % 10)
    }
}

/// The numeral of the digit `d`.
fn digit_str(d: u64) -> (r: &'static str)
    requires
        d < 10,
    ensures
        r@ == digit_text(d as nat),
{
    if d == 0 {
        "0"
    } else if d == 1 {
        "1"
    } else if d == 2 {
        "2"
    } else if d == 3 {
        "3"
    } else if d == 4 {
        "4"
    } else if d == 5 {
        "5"
    } else if d == 6 {
        "6"
    } else if d == 7 {
        "7"
    } else if d == 8 {
        "8"
    } else {
        "9"
    }
}

/// Appends the decimal numeral of `n` to `out`.
pub fn push_decimal(out: &mut String, n: u64)
    ensures
        final(out)@ == old(out)@ + decimal_text(n as nat),
    decreases n,
{
    if n >= 10 {
        push_decimal(out, n / 10);
    }
    out.append(digit_str(n % 10));
    assert(out@ =~= old(out)@ + decimal_text(n as nat));
}

/// The index of the first character of `s` at or after `from` that is among
/// `separators`, or the length of `s` where there is none.
pub open spec fn index_of_any(s: Seq<char>, separators: Seq<char>, from: int) -> int
    decreases s.len() - from,
{
    if from < 0 || from >= s.len() {
        s.len() as int
    } else if separators.contains(s[from]) {
        from
    } else {
        index_of_any(s, separators, from + 1)
    }
}

/// The index of the first `c` in `s` at or after `from`, or the length of
/// `s` where there is none.
pub open spec fn index_of(s: Seq<char>, c: char, from: int) -> int {
    index_of_any(s, seq![c], from)
}

/// Tells whether `c` is among `separators`.
pub fn is_among(separators: &Vec<char>, c: char) -> (r: bool)
    ensures
        r == separators@.contains(c),
{
    let mut i: usize = 0;
    while i < separators.len()
        invariant
            i <= separators.len(),
            forall|k: int| 0 <= k < i ==> separators@[k] != c,
        decreases separators.len() - i,
    {
        if separators[i] == c {
            return true;
        }
        i = i + 1;
    }
    false
}

/// Finds the first character of `s` at or after `from` that is among
/// `separators`; `len` is the length of `s`.
pub fn find_any(s: &str, separators: &Vec<char>, from: usize, len: usize) -> (r: usize)
    requires
        len == s@.len(),
        from <= len,
    ensures
        r == index_of_any(s@, separators@, from as int),
        from <= r <= len,
{
    let mut i: usize = from;
    while i < len
        invariant
            from <= i <= len,
            len == s@.len(),
            index_of_any(s@, separators@, from as int) == index_of_any(s@, separators@, i as int),
        decreases len - i,
    {
        if is_among(separators, s.get_char(i)) {
            return i;
        }
        i = i + 1;
    }
    i
}

/// Finds the first `c` in `s` at or after `from`; `len` is the length of `s`.
pub fn find_char(s: &str, c: char, from: usize, len: usize) -> (r: usize)
    requires
        len == s@.len(),
        from <= len,
    ensures
        r == index_of(s@, c, from as int),
        from <= r <= len,
{
    let mut only: Vec<char> = Vec::new();
    only.push(c);
    assert(only@ =~= seq![c]);
    find_any(s, &only, from, len)
}

/// The pieces of `s` from index `from` on, between the characters that are
/// among `separators`.
pub open spec fn pieces(s: Seq<char>, separators: Seq<char>, from: int) -> Seq<Seq<char>>
    decreases s.len() - from,
{
    let at = index_of_any(s, separators, from);
    if from < 0 || from > s.len() {
        Seq::empty()
    } else if at >= s.len() || at < from {
        seq![s.subrange(from, s.len() as int)]
    } else {
        seq![s.subrange(from, at)] + pieces(s, separators, at + 1)
    }
}

/// The pieces of `s` between the characters `c`, as `str::split` cuts them:
/// one more piece than there are `c` in `s`.
pub open spec fn split_text(s: Seq<char>, c: char) -> Seq<Seq<char>> {
    pieces(s, seq![c], 0)
}

/// Cuts `s` into the pieces between the characters that are among
/// `separators`.
pub fn split_any(s: &str, separators: &Vec<char>) -> (r: Vec<String>)
    ensures
        r.deep_view() == pieces(s@, separators@, 0),
{
    let len = s.unicode_len();
    let mut out: Vec<String> = Vec::new();
    let mut start: usize = 0;
    assert(out.deep_view() + pieces(s@, separators@, 0) =~= pieces(s@, separators@, 0));
    loop
        invariant
            len == s@.len(),
            start <= len,
            pieces(s@, separators@, 0) == out.deep_view() + pieces(s@, separators@, start as int),
        decreases len - start,
    {
        let ghost before = out.deep_view();
        let at = find_any(s, separators, start, len);
        let piece = s.substring_char(start, at);
        out.push(piece.to_owned());
        assert(out.deep_view() =~= before.push(piece@));
        if at >= len {
            assert(pieces(s@, separators@, 0) =~= out.deep_view());
            return out;
        }
        assert(pieces(s@, separators@, 0) =~= out.deep_view() + pieces(s@, separators@, at + 1));
        start = at + 1;
    }
}

/// Cuts `s` into the pieces between the characters `c`.
pub fn split(s: &str, c: char) -> (r: Vec<String>)
    ensures
        r.deep_view() == split_text(s@, c),
{
    let mut only: Vec<char> = Vec::new();
    only.push(c);
    assert(only@ =~= seq![c]);
    split_any(s, &only)
}

/// The value of the decimal digit `c`.
pub open spec fn digit_value(c: char) -> Option<nat> {
    if '0' <= c <= '9' {
        Some((c as nat - '0' as nat) as nat)
    } else {
        None
    }
}

/// The number that the first `n` characters of `s` spell in decimal digits,
/// or `None` where one of them is no digit.
pub open spec fn digits_value(s: Seq<char>, n: nat) -> Option<nat>
    decreases n,
{
    if n == 0 || n > s.len() {
        Some(0)
    } else {
        match (digits_value(s, (n - 1) as nat), digit_value(s[n - 1])) {
            (Some(v), Some(d)) => Some(v * 10 + d),
            _ => None,
        }
    }
}

/// The number that `s` spells as `u64` reads it: decimal digits, at least
/// one, after at most one plus sign, of a value that fits.
pub open spec fn parsed_u64(s: Seq<char>) -> Option<u64> {
    let from: nat = if s.len() > 0 && s[0] == '+' {
        1
    } else {
        0
    };
    let digits = s.subrange(from as int, s.len() as int);
    if digits.len() == 0 {
        None
    } else {
        match digits_value(digits, digits.len()) {
            Some(v) => if v <= u64::MAX {
                Some(v as u64)
            } else {
                None
            },
            None => None,
        }
    }
}

/// More digits never spell less, and digits after what is no digit spell
/// nothing.
pub proof fn lemma_digits_grow(s: Seq<char>, i: nat, n: nat)
    requires
        i <= n <= s.len(),
    ensures
        digits_value(s, n) is Some ==> digits_value(s, i) is Some && digits_value(s, i)->0
            <= digits_value(s, n)->0,
    decreases n,
{
    if i < n {
        lemma_digits_grow(s, i, (n - 1) as nat);
    }
}

/// Reads `s` as a `u64`.
pub fn parse_u64(s: &str) -> (r: Option<u64>)
    ensures
        r == parsed_u64(s@),
{
    let len = s.unicode_len();
    let from: usize = if len > 0 && s.get_char(0) == '+' {
        1
    } else {
        0
    };
    if from >= len {
        return None;
    }
    let ghost digits = s@.subrange(from as int, len as int);
    let mut acc: u64 = 0;
    let mut i: usize = from;
    while i < len
        invariant
            from <= i <= len,
            len == s@.len(),
            digits == s@.subrange(from as int, len as int),
            from == (if s@.len() > 0 && s@[0] == '+' {
                1nat
            } else {
                0nat
            }),
            digits_value(digits, (i - from) as nat) == Some(acc as nat),
        decreases len - i,
    {
        let c = s.get_char(i);
        assert(digits[i - from] == c);
        proof {
            lemma_digits_grow(digits, (i - from + 1) as nat, digits.len());
        }
        if c < '0' || c > '9' {
            assert(digits_value(digits, (i - from + 1) as nat) is None);
            return None;
        }
        let d = (c as u32 - '0' as u32) as u64;
        let next: u128 = acc as u128 * 10 + d as u128;
        assert(digits_value(digits, (i - from + 1) as nat) == Some(next as nat));
        if next > u64::MAX as u128 {
            return None;
        }
        acc = next as u64;
        i = i + 1;
    }
    Some(acc)
}

} // verus!
