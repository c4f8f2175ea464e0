//! Longest common prefix of a list of candidate words.
use vstd::prelude::*;

use crate::text::{chars_to_string, str_to_chars};
use crate::tokenize::views;

verus! {

/// The first index from `i` on at which `a` and `b` differ, or at which one of them ends.
pub open spec fn match_len(a: Seq<char>, b: Seq<char>, i: nat) -> nat
    decreases a.len() - i,
{
    if i < a.len() && i < b.len() && a[i as int] == b[i as int] {
        match_len(a, b, i + 1)
    } else {
        i
    }
}

/// The leading characters that `a` and `b` share, taken from `a`.
pub open spec fn common_of(a: Seq<char>, b: Seq<char>) -> Seq<char> {
    a.take(match_len(a, b, 0) as int)
}

/// The first word folded with the first `n` words by `common_of`, left to right.
pub open spec fn prefix_fold(words: Seq<Seq<char>>, n: nat) -> Seq<char>
    decreases n,
{
    if n == 0 {
        words[0]
    } else {
        common_of(words[n - 1], prefix_fold(words, (n - 1) as nat))
    }
}

/// The longest common prefix of `words`; empty when there are none.
pub open spec fn common_prefix_of(words: Seq<Seq<char>>) -> Seq<char> {
    if words.len() == 0 {
        seq![]
    } else {
        prefix_fold(words, words.len())
    }
}

proof fn lemma_match_len_bounds(a: Seq<char>, b: Seq<char>, i: nat)
    requires
        i <= a.len(),
        i <= b.len(),
        forall|j: int| 0 <= j < i ==> a[j] == b[j],
    ensures
        i <= match_len(a, b, i) <= a.len(),
        match_len(a, b, i) <= b.len(),
        forall|j: int| 0 <= j < match_len(a, b, i) ==> a[j] == b[j],
    decreases a.len() - i,
{
    if i < a.len() && i < b.len() && a[i as int] == b[i as int] {
        lemma_match_len_bounds(a, b, i + 1);
    }
}

/// What two words share keeps any prefix that both have.
proof fn lemma_common_keeps_prefix(a: Seq<char>, b: Seq<char>, p: Seq<char>)
    requires
        p.len() <= a.len(),
        p.len() <= b.len(),
        a.take(p.len() as int) == p,
        b.take(p.len() as int) == p,
    ensures
        common_of(a, b).len() >= p.len(),
        common_of(a, b).take(p.len() as int) == p,
{
    lemma_match_len_bounds(a, b, 0);
    assert forall|j: int| 0 <= j < p.len() implies a[j] == b[j] by {
        assert(a.take(p.len() as int)[j] == p[j]);
        assert(b.take(p.len() as int)[j] == p[j]);
    }
    lemma_match_len_from(a, b, 0, p.len());
    assert(common_of(a, b).take(p.len() as int) =~= p);
}

proof fn lemma_match_len_from(a: Seq<char>, b: Seq<char>, i: nat, k: nat)
    requires
        i <= k <= a.len(),
        k <= b.len(),
        forall|j: int| i <= j < k ==> a[j] == b[j],
    ensures
        match_len(a, b, i) >= k,
    decreases k - i,
{
    if i < k {
        lemma_match_len_from(a, b, i + 1, k);
    } else {
        lemma_match_len_ge(a, b, i);
    }
}

proof fn lemma_match_len_ge(a: Seq<char>, b: Seq<char>, i: nat)
    ensures
        match_len(a, b, i) >= i,
    decreases a.len() - i,
{
    if i < a.len() && i < b.len() && a[i as int] == b[i as int] {
        lemma_match_len_ge(a, b, i + 1);
    }
}

/// When every word starts with `p`, so does their common prefix.
pub proof fn lemma_prefix_of_all(words: Seq<Seq<char>>, p: Seq<char>, n: nat)
    requires
        words.len() >= 1,
        n <= words.len(),
        forall|i: int|
            0 <= i < words.len() ==> p.len() <= #[trigger] words[i].len() && words[i].take(
                p.len() as int,
            ) == p,
    ensures
        prefix_fold(words, n).len() >= p.len(),
        prefix_fold(words, n).take(p.len() as int) == p,
    decreases n,
{
    if n > 0 {
        lemma_prefix_of_all(words, p, (n - 1) as nat);
        let w = words[n - 1];
        lemma_common_keeps_prefix(w, prefix_fold(words, (n - 1) as nat), p);
    }
}

/// `p` is a prefix of `w`.
pub open spec fn starts_with(w: Seq<char>, p: Seq<char>) -> bool {
    p.len() <= w.len() && w.take(p.len() as int) == p
}

/// What two words share is a prefix of both.
proof fn lemma_common_is_prefix(a: Seq<char>, b: Seq<char>)
    ensures
        starts_with(a, common_of(a, b)),
        starts_with(b, common_of(a, b)),
{
    lemma_match_len_bounds(a, b, 0);
    let c = common_of(a, b);
    assert(a.take(c.len() as int) =~= c);
    assert(b.take(c.len() as int) =~= c);
}

proof fn lemma_fold_is_prefix(words: Seq<Seq<char>>, n: nat)
    requires
        1 <= words.len(),
        n <= words.len(),
    ensures
        starts_with(words[0], prefix_fold(words, n)),
        forall|i: int| 0 <= i < n ==> starts_with(#[trigger] words[i], prefix_fold(words, n)),
    decreases n,
{
    if n > 0 {
        let f = prefix_fold(words, (n - 1) as nat);
        lemma_fold_is_prefix(words, (n - 1) as nat);
        lemma_common_is_prefix(words[n - 1], f);
        let c = prefix_fold(words, n);
        assert forall|i: int| 0 <= i < n implies starts_with(#[trigger] words[i], c) by {
            if i < n - 1 {
                lemma_prefix_trans(words[i], f, c);
            }
        }
        lemma_prefix_trans(words[0], f, c);
    } else {
        assert(words[0].take(words[0].len() as int) =~= words[0]);
    }
}

proof fn lemma_prefix_trans(a: Seq<char>, b: Seq<char>, c: Seq<char>)
    requires
        starts_with(a, b),
        starts_with(b, c),
    ensures
        starts_with(a, c),
{
    assert(a.take(c.len() as int) =~= b.take(c.len() as int));
}

/// The common prefix of the words is a prefix of each of them.
pub proof fn lemma_common_prefix_is_prefix(words: Seq<Seq<char>>)
    ensures
        forall|i: int|
            0 <= i < words.len() ==> starts_with(#[trigger] words[i], common_prefix_of(words)),
{
    if words.len() > 0 {
        lemma_fold_is_prefix(words, words.len());
    }
}

/// Every prefix shared by all the words is a prefix of their common prefix:
/// no longer common prefix exists.
pub proof fn lemma_common_prefix_is_longest(words: Seq<Seq<char>>, p: Seq<char>)
    requires
        words.len() >= 1,
        forall|i: int| 0 <= i < words.len() ==> starts_with(#[trigger] words[i], p),
    ensures
        starts_with(common_prefix_of(words), p),
{
    assert forall|i: int| 0 <= i < words.len() implies p.len() <= #[trigger] words[i].len()
        && words[i].take(p.len() as int) == p by {
        assert(starts_with(words[i], p));
    }
    lemma_prefix_of_all(words, p, words.len());
}

/// The leading characters that `lstr` and `rstr` share, compared index by index.
pub fn common_chars(lstr: &Vec<char>, rstr: &Vec<char>) -> (r: Vec<char>)
    ensures
        r@ == common_of(lstr@, rstr@),
{
    let mut common: usize = 0;
    while common < lstr.len() && common < rstr.len() && lstr[common] == rstr[common]
        invariant
            common <= lstr@.len(),
            match_len(lstr@, rstr@, 0) == match_len(lstr@, rstr@, common as nat),
        decreases lstr@.len() - common,
    {
        common += 1;
    }
    let mut r: Vec<char> = Vec::new();
    let mut i: usize = 0;
    while i < common
        invariant
            common <= lstr@.len(),
            i <= common,
            r@ == lstr@.take(i as int),
        decreases common - i,
    {
        r.push(lstr[i]);
        i += 1;
        assert(r@ == lstr@.take(i as int));
    }
    r
}

/// The longest common prefix of `words`, folding `common_chars` over them from the first.
pub fn common_prefix(words: &Vec<String>) -> (r: String)
    ensures
        r@ == common_prefix_of(views(words@)),
{
    if words.len() == 0 {
        return String::new();
    }
    let ghost ws = views(words@);
    let mut common = str_to_chars(words[0].as_str());
    let mut i: usize = 0;
    while i < words.len()
        invariant
            ws == views(words@),
            ws.len() == words@.len() >= 1,
            i <= words@.len(),
            common@ == prefix_fold(ws, i as nat),
        decreases words@.len() - i,
    {
        let w = str_to_chars(words[i].as_str());
        common = common_chars(&w, &common);
        i += 1;
    }
    chars_to_string(&common)
}

} // verus!
