//! Presentation order of scored hits: higher score first, then title in
//! lexicographic order, ties kept in the order they were found.

use vstd::prelude::*;
use crate::text::{seq_lt, text_lt};

verus! {

/// A hit: its score in thousandths and the index of the entry it came from.
pub type Hit = (u16, usize);

/// The titles of the entries, as character sequences.
pub open spec fn views(s: Seq<String>) -> Seq<Seq<char>> {
    s.map_values(|t: String| t@)
}

pub proof fn lemma_views_push(s: Seq<String>, x: String)
    ensures
        views(s.push(x)) == views(s).push(x@),
{
    assert(views(s.push(x)) =~= views(s).push(x@));
}

/// `a` is presented strictly before `b`.
pub open spec fn before(titles: Seq<Seq<char>>, a: Hit, b: Hit) -> bool {
    a.0 > b.0 || (a.0 == b.0 && seq_lt(titles[a.1 as int], titles[b.1 as int]))
}

/// Where `x` goes in `s`: before the first hit that it is presented before.
pub open spec fn insert_pos(titles: Seq<Seq<char>>, s: Seq<Hit>, x: Hit) -> int
    decreases s.len(),
{
    if s.len() == 0 {
        0
    } else if before(titles, x, s[0]) {
        0
    } else {
        1 + insert_pos(titles, s.drop_first(), x)
    }
}

/// The hits in presentation order, each placed in turn among those found
/// before it.
pub open spec fn ranked(titles: Seq<Seq<char>>, s: Seq<Hit>) -> Seq<Hit>
    decreases s.len(),
{
    if s.len() == 0 {
        s
    } else {
        let r = ranked(titles, s.drop_last());
        r.insert(insert_pos(titles, r, s.last()), s.last())
    }
}

/// At most the first `k` entries of `s`.
pub open spec fn top(s: Seq<Hit>, k: int) -> Seq<Hit> {
    if s.len() <= k {
        s
    } else {
        s.take(k)
    }
}

proof fn lemma_insert_pos(titles: Seq<Seq<char>>, s: Seq<Hit>, x: Hit, i: int)
    requires
        0 <= i <= s.len(),
        forall|j: int| 0 <= j < i ==> !before(titles, x, #[trigger] s[j]),
        i == s.len() || before(titles, x, s[i]),
    ensures
        insert_pos(titles, s, x) == i,
    decreases i,
{
    if i > 0 {
        assert forall|j: int| 0 <= j < i - 1 implies !before(titles, x, #[trigger] s.drop_first()[j]) by {
            assert(s.drop_first()[j] == s[j + 1]);
        }
        lemma_insert_pos(titles, s.drop_first(), x, i - 1);
    }
}

proof fn lemma_insert_pos_bound(titles: Seq<Seq<char>>, s: Seq<Hit>, x: Hit)
    ensures
        0 <= insert_pos(titles, s, x) <= s.len(),
    decreases s.len(),
{
    if s.len() > 0 {
        lemma_insert_pos_bound(titles, s.drop_first(), x);
    }
}

/// Every hit of the ranking is one of the hits ranked, and there are as many.
pub proof fn lemma_ranked_members(titles: Seq<Seq<char>>, s: Seq<Hit>)
    ensures
        ranked(titles, s).len() == s.len(),
        forall|i: int| 0 <= i < s.len() ==> s.contains(#[trigger] ranked(titles, s)[i]),
    decreases s.len(),
{
    if s.len() > 0 {
        let p = s.drop_last();
        let r = ranked(titles, p);
        lemma_ranked_members(titles, p);
        lemma_insert_pos_bound(titles, r, s.last());
        let k = insert_pos(titles, r, s.last());
        assert forall|i: int| 0 <= i < s.len() implies s.contains(#[trigger] ranked(titles, s)[i]) by {
            if i < k {
                assert(p.contains(r[i]));
            } else if i == k {
                assert(s[s.len() - 1] == s.last());
            } else {
                assert(p.contains(r[i - 1]));
            }
            let w = choose|j: int| 0 <= j < p.len() && p[j] == ranked(titles, s)[i];
            if i != k {
                assert(s[w] == p[w]);
            }
        }
    }
}

/// Scores never increase along a sequence of hits.
pub open spec fn scores_descend(s: Seq<Hit>) -> bool {
    forall|i: int, j: int| 0 <= i < j < s.len() ==> (#[trigger] s[i]).0 >= (#[trigger] s[j]).0
}

proof fn lemma_insert_keeps_descent(titles: Seq<Seq<char>>, s: Seq<Hit>, x: Hit, k: int)
    requires
        scores_descend(s),
        0 <= k <= s.len(),
        k == insert_pos(titles, s, x),
    ensures
        scores_descend(s.insert(k, x)),
    decreases s.len(),
{
    if s.len() > 0 {
        lemma_insert_pos_bound(titles, s.drop_first(), x);
        if k == 0 {
            assert(before(titles, x, s[0]));
            let t = s.insert(0, x);
            assert forall|i: int, j: int| 0 <= i < j < t.len() implies (#[trigger] t[i]).0 >= (#[trigger] t[j]).0 by {
                if i == 0 {
                    assert(t[j] == s[j - 1]);
                    if j - 1 > 0 {
                        assert(s[0].0 >= s[j - 1].0);
                    }
                } else {
                    assert(t[i] == s[i - 1] && t[j] == s[j - 1]);
                }
            }
        } else {
            assert(!before(titles, x, s[0]));
            lemma_insert_keeps_descent(titles, s.drop_first(), x, k - 1);
            assert(s.insert(k, x) =~= seq![s[0]] + s.drop_first().insert(k - 1, x));
        }
    }
}

/// The ranking presents hits best first: scores never increase along it,
/// nor along the leading part of it that a search returns.
pub proof fn lemma_ranked_descends(titles: Seq<Seq<char>>, s: Seq<Hit>, k: int)
    requires
        0 <= k,
    ensures
        scores_descend(ranked(titles, s)),
        scores_descend(top(ranked(titles, s), k)),
    decreases s.len(),
{
    if s.len() > 0 {
        let r = ranked(titles, s.drop_last());
        lemma_ranked_descends(titles, s.drop_last(), k);
        lemma_insert_pos_bound(titles, r, s.last());
        lemma_insert_keeps_descent(titles, r, s.last(), insert_pos(titles, r, s.last()));
    }
    let full = ranked(titles, s);
    let t = top(full, k);
    assert forall|i: int, j: int| 0 <= i < j < t.len() implies (#[trigger] t[i]).0 >= (#[trigger] t[j]).0 by {
        assert(t[i] == full[i] && t[j] == full[j]);
    }
}

/// No two hits come from the same entry.
pub open spec fn distinct_idx(s: Seq<Hit>) -> bool {
    forall|i: int, j: int| 0 <= i < j < s.len() ==> (#[trigger] s[i]).1 != (#[trigger] s[j]).1
}

/// Ranking hits from distinct entries keeps them distinct, and so does
/// keeping the leading part.
pub proof fn lemma_ranked_distinct(titles: Seq<Seq<char>>, s: Seq<Hit>, k: int)
    requires
        distinct_idx(s),
        0 <= k,
    ensures
        distinct_idx(ranked(titles, s)),
        distinct_idx(top(ranked(titles, s), k)),
    decreases s.len(),
{
    if s.len() > 0 {
        let p = s.drop_last();
        let x = s.last();
        let r = ranked(titles, p);
        assert forall|i: int, j: int| 0 <= i < j < p.len() implies (#[trigger] p[i]).1 != (#[trigger] p[j]).1 by {
            assert(p[i] == s[i] && p[j] == s[j]);
        }
        lemma_ranked_distinct(titles, p, k);
        lemma_ranked_members(titles, p);
        lemma_insert_pos_bound(titles, r, x);
        let pos = insert_pos(titles, r, x);
        assert forall|i: int| 0 <= i < r.len() implies (#[trigger] r[i]).1 != x.1 by {
            assert(p.contains(r[i]));
            let w = choose|w: int| 0 <= w < p.len() && p[w] == r[i];
            assert(p[w] == s[w]);
            assert(x == s[s.len() - 1]);
        }
        let t = r.insert(pos, x);
        assert forall|i: int, j: int| 0 <= i < j < t.len() implies (#[trigger] t[i]).1 != (#[trigger] t[j]).1 by {
            if j < pos {
                assert(t[i] == r[i] && t[j] == r[j]);
            } else if j == pos {
                assert(t[i] == r[i]);
            } else if i < pos {
                assert(t[i] == r[i] && t[j] == r[j - 1]);
            } else if i == pos {
                assert(t[j] == r[j - 1]);
            } else {
                assert(t[i] == r[i - 1] && t[j] == r[j - 1]);
            }
        }
    }
    let full = ranked(titles, s);
    let t = top(full, k);
    assert forall|i: int, j: int| 0 <= i < j < t.len() implies (#[trigger] t[i]).1 != (#[trigger] t[j]).1 by {
        assert(t[i] == full[i] && t[j] == full[j]);
    }
}

/// Places `x` among the ranked hits `v`.
pub fn insert_ranked(v: &mut Vec<Hit>, x: Hit, titles: &Vec<String>)
    requires
        x.1 < titles.len(),
        forall|j: int| 0 <= j < old(v).len() ==> (#[trigger] old(v)[j]).1 < titles.len(),
    ensures
        0 <= insert_pos(views(titles@), old(v)@, x) <= old(v)@.len(),
        final(v)@ == old(v)@.insert(insert_pos(views(titles@), old(v)@, x), x),
{
    let ghost t = views(titles@);
    let mut i: usize = 0;
    let mut stop = false;
    while i < v.len() && !stop
        invariant
            t == views(titles@),
            stop ==> i < v.len() && before(t, x, v@[i as int]),
            x.1 < titles.len(),
            forall|j: int| 0 <= j < v.len() ==> (#[trigger] v[j]).1 < titles.len(),
            0 <= i <= v.len(),
            forall|j: int| 0 <= j < i ==> !before(t, x, #[trigger] v@[j]),
        decreases v.len() - i + (if stop { 0int } else { 1int }),
    {
        let y = v[i];
        let goes_first = x.0 > y.0 || (x.0 == y.0 && text_lt(
            titles[x.1].as_str(),
            titles[y.1].as_str(),
        ));
        if goes_first {
            stop = true;
        } else {
            i = i + 1;
        }
    }
    proof {
        lemma_insert_pos(t, v@, x, i as int);
    }
    v.insert(i, x);
}

/// The first `k` hits of `v`, or all of them when there are fewer.
pub fn top_hits(v: &Vec<Hit>, k: usize) -> (r: Vec<Hit>)
    ensures
        r@ == top(v@, k as int),
{
    let mut r: Vec<Hit> = Vec::new();
    let mut i: usize = 0;
    while i < v.len() && i < k
        invariant
            0 <= i <= v.len(),
            i <= k,
            r@ == v@.take(i as int),
        decreases v.len() - i,
    {
        r.push(v[i]);
        i = i + 1;
        assert(r@ =~= v@.take(i as int));
    }
    assert(v@.take(v@.len() as int) =~= v@);
    r
}

} // verus!
