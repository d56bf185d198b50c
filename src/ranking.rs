//! Stable descending order of scored entries, and the mean of their scores.

use vstd::prelude::*;
use crate::text::SCALE;

verus! {

/// An entry as integers: the position of a precedent in the corpus and its score.
pub open spec fn pairs_view(v: Seq<(usize, u32)>) -> Seq<(int, int)> {
    v.map_values(|p: (usize, u32)| (p.0 as int, p.1 as int))
}

/// `s` with `x` put after every entry scored at least as high, and before
/// the rest.
pub open spec fn insert_desc(s: Seq<(int, int)>, x: (int, int)) -> Seq<(int, int)>
    decreases s.len(),
{
    if s.len() == 0 {
        seq![x]
    } else if s.last().1 >= x.1 {
        s.push(x)
    } else {
        insert_desc(s.drop_last(), x).push(s.last())
    }
}

/// `s` ordered by descending score; entries with equal scores keep their order.
pub open spec fn sort_desc(s: Seq<(int, int)>) -> Seq<(int, int)>
    decreases s.len(),
{
    if s.len() == 0 {
        Seq::empty()
    } else {
        insert_desc(sort_desc(s.drop_last()), s.last())
    }
}

/// At most the first `n` entries of `s`.
pub open spec fn top_n(s: Seq<(int, int)>, n: int) -> Seq<(int, int)> {
    if s.len() <= n {
        s
    } else {
        s.take(n)
    }
}

/// Every entry names a position below `n` and carries a score.
pub open spec fn all_bounded(s: Seq<(int, int)>, n: int) -> bool {
    forall|k: int| 0 <= k < s.len() ==> 0 <= (#[trigger] s[k]).0 < n && 0 <= s[k].1 <= SCALE
}

/// Sum of the scores of a list of entries.
pub open spec fn score_sum(s: Seq<(int, int)>) -> int
    decreases s.len(),
{
    if s.len() == 0 {
        0
    } else {
        score_sum(s.drop_last()) + s.last().1
    }
}

/// Mean score of a list of entries, 0 for none.
pub open spec fn mean_score(s: Seq<(int, int)>) -> int {
    if s.len() == 0 {
        0
    } else {
        score_sum(s) / (s.len() as int)
    }
}

pub proof fn lemma_insert_desc_bounded(s: Seq<(int, int)>, x: (int, int), n: int)
    requires
        all_bounded(s, n),
        0 <= x.0 < n,
        0 <= x.1 <= SCALE,
    ensures
        all_bounded(insert_desc(s, x), n),
        insert_desc(s, x).len() == s.len() + 1,
    decreases s.len(),
{
    if s.len() > 0 && s.last().1 < x.1 {
        lemma_insert_desc_bounded(s.drop_last(), x, n);
        let t = insert_desc(s.drop_last(), x);
        assert(insert_desc(s, x) == t.push(s.last()));
        assert forall|k: int| 0 <= k < t.len() + 1 implies 0 <= (#[trigger] t.push(s.last())[k]).0
            < n && 0 <= t.push(s.last())[k].1 <= SCALE by {
            if k < t.len() {
                assert(t.push(s.last())[k] == t[k]);
            }
        }
    }
}

pub proof fn lemma_sort_desc_bounded(s: Seq<(int, int)>, n: int)
    requires
        all_bounded(s, n),
    ensures
        all_bounded(sort_desc(s), n),
        sort_desc(s).len() == s.len(),
    decreases s.len(),
{
    if s.len() > 0 {
        lemma_sort_desc_bounded(s.drop_last(), n);
        lemma_insert_desc_bounded(sort_desc(s.drop_last()), s.last(), n);
    }
}

/// Scores never rise along the list.
pub open spec fn descending(s: Seq<(int, int)>) -> bool {
    forall|i: int, j: int| 0 <= i < j < s.len() ==> s[i].1 >= s[j].1
}

/// Every score of the list is at least `v`.
pub open spec fn all_at_least(s: Seq<(int, int)>, v: int) -> bool {
    forall|k: int| 0 <= k < s.len() ==> (#[trigger] s[k]).1 >= v
}

proof fn lemma_insert_desc_at_least(s: Seq<(int, int)>, x: (int, int), v: int)
    requires
        all_at_least(s, v),
        x.1 >= v,
    ensures
        all_at_least(insert_desc(s, x), v),
    decreases s.len(),
{
    if s.len() > 0 && s.last().1 < x.1 {
        let d = s.drop_last();
        assert forall|k: int| 0 <= k < d.len() implies (#[trigger] d[k]).1 >= v by {
            assert(d[k] == s[k]);
        }
        lemma_insert_desc_at_least(d, x, v);
        let t = insert_desc(d, x);
        assert forall|k: int| 0 <= k < t.len() + 1 implies (#[trigger] t.push(s.last())[k]).1 >= v by {
            if k < t.len() {
                assert(t.push(s.last())[k] == t[k]);
            }
        }
    } else if s.len() > 0 {
        assert forall|k: int| 0 <= k < s.len() + 1 implies (#[trigger] s.push(x)[k]).1 >= v by {
            if k < s.len() {
                assert(s.push(x)[k] == s[k]);
            }
        }
    }
}

proof fn lemma_insert_desc_descending(s: Seq<(int, int)>, x: (int, int))
    requires
        descending(s),
    ensures
        descending(insert_desc(s, x)),
    decreases s.len(),
{
    if s.len() == 0 {
    } else if s.last().1 >= x.1 {
        let t = s.push(x);
        assert forall|i: int, j: int| 0 <= i < j < t.len() implies t[i].1 >= t[j].1 by {
            if j < s.len() {
                assert(t[i] == s[i]);
                assert(t[j] == s[j]);
            } else {
                assert(t[i] == s[i]);
                assert(s[i].1 >= s[s.len() - 1].1);
            }
        }
    } else {
        let d = s.drop_last();
        let l = s.last();
        assert forall|i: int, j: int| 0 <= i < j < d.len() implies d[i].1 >= d[j].1 by {
            assert(d[i] == s[i]);
            assert(d[j] == s[j]);
        }
        lemma_insert_desc_descending(d, x);
        assert forall|k: int| 0 <= k < d.len() implies (#[trigger] d[k]).1 >= l.1 by {
            assert(d[k] == s[k]);
        }
        lemma_insert_desc_at_least(d, x, l.1);
        let t = insert_desc(d, x);
        let u = t.push(l);
        assert forall|i: int, j: int| 0 <= i < j < u.len() implies u[i].1 >= u[j].1 by {
            assert(u[i] == t[i]);
            if j < t.len() {
                assert(u[j] == t[j]);
            } else {
                assert(t[i].1 >= l.1);
            }
        }
    }
}

/// Sorting leaves scores in descending order.
pub proof fn sort_desc_is_descending(s: Seq<(int, int)>)
    ensures
        descending(sort_desc(s)),
    decreases s.len(),
{
    if s.len() > 0 {
        sort_desc_is_descending(s.drop_last());
        lemma_insert_desc_descending(sort_desc(s.drop_last()), s.last());
    }
}

/// A prefix of a descending list is descending.
pub proof fn top_n_is_descending(s: Seq<(int, int)>, n: int)
    requires
        descending(s),
        n >= 0,
    ensures
        descending(top_n(s, n)),
{
    let t = top_n(s, n);
    assert forall|i: int, j: int| 0 <= i < j < t.len() implies t[i].1 >= t[j].1 by {
        assert(t[i] == s[i]);
        assert(t[j] == s[j]);
    }
}

/// `a` comes before `b` in a ranking: a higher score, or an equal score
/// and an earlier corpus position.
pub open spec fn ranks_before(a: (int, int), b: (int, int)) -> bool {
    a.1 > b.1 || (a.1 == b.1 && a.0 < b.0)
}

/// Entries in descending order of score, ties by ascending corpus position.
pub open spec fn ranked(s: Seq<(int, int)>) -> bool {
    forall|i: int, j: int| 0 <= i < j < s.len() ==> ranks_before(s[i], s[j])
}

/// Every entry names a corpus position below `b`.
pub open spec fn positions_below(s: Seq<(int, int)>, b: int) -> bool {
    forall|k: int| 0 <= k < s.len() ==> (#[trigger] s[k]).0 < b
}

/// Corpus positions strictly rise along the list.
pub open spec fn positions_increasing(s: Seq<(int, int)>) -> bool {
    forall|i: int, j: int| 0 <= i < j < s.len() ==> s[i].0 < s[j].0
}

/// Every entry ranks before `v`.
pub open spec fn all_rank_before(s: Seq<(int, int)>, v: (int, int)) -> bool {
    forall|k: int| 0 <= k < s.len() ==> ranks_before(#[trigger] s[k], v)
}

proof fn lemma_insert_below(s: Seq<(int, int)>, x: (int, int), b: int)
    requires
        positions_below(s, b),
        x.0 < b,
    ensures
        positions_below(insert_desc(s, x), b),
    decreases s.len(),
{
    if s.len() > 0 && s.last().1 < x.1 {
        let d = s.drop_last();
        assert forall|k: int| 0 <= k < d.len() implies (#[trigger] d[k]).0 < b by {
            assert(d[k] == s[k]);
        }
        lemma_insert_below(d, x, b);
        let t = insert_desc(d, x);
        assert forall|k: int| 0 <= k < t.len() + 1 implies (#[trigger] t.push(s.last())[k]).0 < b by {
            if k < t.len() {
                assert(t.push(s.last())[k] == t[k]);
            }
        }
    } else if s.len() > 0 {
        assert forall|k: int| 0 <= k < s.len() + 1 implies (#[trigger] s.push(x)[k]).0 < b by {
            if k < s.len() {
                assert(s.push(x)[k] == s[k]);
            }
        }
    }
}

proof fn lemma_sort_below(s: Seq<(int, int)>, b: int)
    requires
        positions_below(s, b),
    ensures
        positions_below(sort_desc(s), b),
    decreases s.len(),
{
    if s.len() > 0 {
        let d = s.drop_last();
        assert forall|k: int| 0 <= k < d.len() implies (#[trigger] d[k]).0 < b by {
            assert(d[k] == s[k]);
        }
        lemma_sort_below(d, b);
        lemma_insert_below(sort_desc(d), s.last(), b);
    }
}

proof fn lemma_insert_rank_before(s: Seq<(int, int)>, x: (int, int), v: (int, int))
    requires
        all_rank_before(s, v),
        ranks_before(x, v),
    ensures
        all_rank_before(insert_desc(s, x), v),
    decreases s.len(),
{
    if s.len() > 0 && s.last().1 < x.1 {
        let d = s.drop_last();
        assert forall|k: int| 0 <= k < d.len() implies ranks_before(#[trigger] d[k], v) by {
            assert(d[k] == s[k]);
        }
        lemma_insert_rank_before(d, x, v);
        let t = insert_desc(d, x);
        assert forall|k: int| 0 <= k < t.len() + 1 implies ranks_before(
            #[trigger] t.push(s.last())[k],
            v,
        ) by {
            if k < t.len() {
                assert(t.push(s.last())[k] == t[k]);
            }
        }
    } else if s.len() > 0 {
        assert forall|k: int| 0 <= k < s.len() + 1 implies ranks_before(#[trigger] s.push(x)[k], v) by {
            if k < s.len() {
                assert(s.push(x)[k] == s[k]);
            }
        }
    }
}

proof fn lemma_insert_ranked(s: Seq<(int, int)>, x: (int, int))
    requires
        ranked(s),
        positions_below(s, x.0),
    ensures
        ranked(insert_desc(s, x)),
    decreases s.len(),
{
    if s.len() == 0 {
    } else if s.last().1 >= x.1 {
        let t = s.push(x);
        let l = s.last();
        assert(l == s[s.len() - 1]);
        assert(l.0 < x.0);
        assert forall|i: int, j: int| 0 <= i < j < t.len() implies ranks_before(t[i], t[j]) by {
            assert(t[i] == s[i]);
            if j < s.len() {
                assert(t[j] == s[j]);
            } else if i < s.len() - 1 {
                assert(ranks_before(s[i], l));
            }
        }
    } else {
        let d = s.drop_last();
        let l = s.last();
        assert(l == s[s.len() - 1]);
        assert forall|i: int, j: int| 0 <= i < j < d.len() implies ranks_before(d[i], d[j]) by {
            assert(d[i] == s[i]);
            assert(d[j] == s[j]);
        }
        assert forall|k: int| 0 <= k < d.len() implies (#[trigger] d[k]).0 < x.0 by {
            assert(d[k] == s[k]);
        }
        lemma_insert_ranked(d, x);
        assert forall|k: int| 0 <= k < d.len() implies ranks_before(#[trigger] d[k], l) by {
            assert(d[k] == s[k]);
        }
        lemma_insert_rank_before(d, x, l);
        let t = insert_desc(d, x);
        let u = t.push(l);
        assert forall|i: int, j: int| 0 <= i < j < u.len() implies ranks_before(u[i], u[j]) by {
            assert(u[i] == t[i]);
            if j < t.len() {
                assert(u[j] == t[j]);
            }
        }
    }
}

/// Sorting a list in corpus order gives descending scores, ties by corpus
/// position.
pub proof fn sort_desc_is_ranked(s: Seq<(int, int)>)
    requires
        positions_increasing(s),
    ensures
        ranked(sort_desc(s)),
    decreases s.len(),
{
    if s.len() > 0 {
        let d = s.drop_last();
        let l = s.last();
        assert forall|i: int, j: int| 0 <= i < j < d.len() implies d[i].0 < d[j].0 by {
            assert(d[i] == s[i]);
            assert(d[j] == s[j]);
        }
        sort_desc_is_ranked(d);
        assert forall|k: int| 0 <= k < d.len() implies (#[trigger] d[k]).0 < l.0 by {
            assert(d[k] == s[k]);
            assert(l == s[s.len() - 1]);
        }
        lemma_sort_below(d, l.0);
        lemma_insert_ranked(sort_desc(d), l);
    }
}

/// A prefix of a ranked list is ranked.
pub proof fn top_n_is_ranked(s: Seq<(int, int)>, n: int)
    requires
        ranked(s),
        n >= 0,
    ensures
        ranked(top_n(s, n)),
{
    let t = top_n(s, n);
    assert forall|i: int, j: int| 0 <= i < j < t.len() implies ranks_before(t[i], t[j]) by {
        assert(t[i] == s[i]);
        assert(t[j] == s[j]);
    }
}

/// Number of entries for corpus position `k`.
pub open spec fn count_at(s: Seq<(int, int)>, k: int) -> int
    decreases s.len(),
{
    if s.len() == 0 {
        0
    } else {
        count_at(s.drop_last(), k) + if s.last().0 == k {
            1int
        } else {
            0
        }
    }
}

/// Every entry for corpus position `k` carries score `v`.
pub open spec fn scores_at(s: Seq<(int, int)>, k: int, v: int) -> bool {
    forall|i: int| 0 <= i < s.len() && (#[trigger] s[i]).0 == k ==> s[i].1 == v
}

proof fn lemma_insert_count(s: Seq<(int, int)>, x: (int, int), k: int)
    ensures
        count_at(insert_desc(s, x), k) == count_at(s, k) + if x.0 == k {
            1int
        } else {
            0
        },
    decreases s.len(),
{
    if s.len() == 0 {
        assert(seq![x].drop_last() =~= Seq::<(int, int)>::empty());
        assert(seq![x].last() == x);
        assert(count_at(Seq::<(int, int)>::empty(), k) == 0);
    } else if s.last().1 >= x.1 {
        assert(s.push(x).drop_last() =~= s);
        assert(s.push(x).last() == x);
    } else {
        lemma_insert_count(s.drop_last(), x, k);
        let t = insert_desc(s.drop_last(), x);
        assert(t.push(s.last()).drop_last() =~= t);
        assert(t.push(s.last()).last() == s.last());
    }
}

proof fn lemma_insert_scores_at(s: Seq<(int, int)>, x: (int, int), k: int, v: int)
    requires
        scores_at(s, k, v),
        x.0 == k ==> x.1 == v,
    ensures
        scores_at(insert_desc(s, x), k, v),
    decreases s.len(),
{
    if s.len() > 0 && s.last().1 < x.1 {
        let d = s.drop_last();
        assert forall|i: int| 0 <= i < d.len() && (#[trigger] d[i]).0 == k implies d[i].1 == v by {
            assert(d[i] == s[i]);
        }
        lemma_insert_scores_at(d, x, k, v);
        let t = insert_desc(d, x);
        assert forall|i: int| 0 <= i < t.len() + 1 && (#[trigger] t.push(s.last())[i]).0 == k implies t.push(
            s.last(),
        )[i].1 == v by {
            if i < t.len() {
                assert(t.push(s.last())[i] == t[i]);
            } else {
                assert(s.last() == s[s.len() - 1]);
            }
        }
    } else if s.len() > 0 {
        assert forall|i: int| 0 <= i < s.len() + 1 && (#[trigger] s.push(x)[i]).0 == k implies s.push(
            x,
        )[i].1 == v by {
            if i < s.len() {
                assert(s.push(x)[i] == s[i]);
            }
        }
    }
}

/// Sorting keeps the entries: as many for each corpus position, with the
/// same scores.
pub proof fn sort_desc_keeps_entries(s: Seq<(int, int)>, k: int, v: int)
    ensures
        count_at(sort_desc(s), k) == count_at(s, k),
        scores_at(s, k, v) ==> scores_at(sort_desc(s), k, v),
    decreases s.len(),
{
    if s.len() > 0 {
        let d = s.drop_last();
        sort_desc_keeps_entries(d, k, v);
        lemma_insert_count(sort_desc(d), s.last(), k);
        if scores_at(s, k, v) {
            assert forall|i: int| 0 <= i < d.len() && (#[trigger] d[i]).0 == k implies d[i].1 == v by {
                assert(d[i] == s[i]);
            }
            assert(s.last() == s[s.len() - 1]);
            lemma_insert_scores_at(sort_desc(d), s.last(), k, v);
        }
    }
}

proof fn lemma_insert_at(s: Seq<(int, int)>, x: (int, int), p: int, q: int)
    requires
        0 <= p <= q <= s.len(),
        forall|k: int| p <= k < q ==> (#[trigger] s[k]).1 < x.1,
        p == 0 || s[p - 1].1 >= x.1,
    ensures
        insert_desc(s.take(q), x) == s.take(p).push(x) + s.subrange(p, q),
    decreases q - p,
{
    if q == p {
        if p == 0 {
            assert(s.take(0) =~= Seq::<(int, int)>::empty());
        } else {
            assert(s.take(p).last() == s[p - 1]);
        }
        assert(s.take(p).push(x) + s.subrange(p, q) =~= s.take(p).push(x));
    } else {
        lemma_insert_at(s, x, p, q - 1);
        assert(s.take(q).drop_last() =~= s.take(q - 1));
        assert(s.take(q).last() == s[q - 1]);
        assert((s.take(p).push(x) + s.subrange(p, q - 1)).push(s[q - 1]) =~= s.take(p).push(x)
            + s.subrange(p, q));
    }
}

/// Puts `x` into a list ordered by descending score, after its equals.
#[verifier::rlimit(30)]
pub fn insert_ranked(v: &mut Vec<(usize, u32)>, x: (usize, u32))
    ensures
        pairs_view(final(v)@) == insert_desc(pairs_view(old(v)@), (x.0 as int, x.1 as int)),
{
    let ghost s = pairs_view(v@);
    let ghost xv = (x.0 as int, x.1 as int);
    let mut p: usize = v.len();
    while p > 0 && v[p - 1].1 < x.1
        invariant
            p <= v@.len(),
            s == pairs_view(v@),
            v@ == old(v)@,
            forall|k: int| p <= k < v@.len() ==> (#[trigger] v@[k]).1 < x.1,
        decreases p,
    {
        p = p - 1;
    }
    assert(p > 0 ==> s[p - 1] == (v@[p - 1].0 as int, v@[p - 1].1 as int));
    assert forall|k: int| p <= k < s.len() implies (#[trigger] s[k]).1 < xv.1 by {
        assert(s[k] == (v@[k].0 as int, v@[k].1 as int));
    }
    proof {
        lemma_insert_at(s, xv, p as int, s.len() as int);
        assert(s.take(s.len() as int) =~= s);
    }
    v.insert(p, x);
    assert(pairs_view(v@) =~= s.take(p as int).push(xv) + s.subrange(p as int, s.len() as int));
}

/// A copy of `v` in descending order of score, ties in their order in `v`.
pub fn sort_ranked(v: &Vec<(usize, u32)>) -> (r: Vec<(usize, u32)>)
    ensures
        pairs_view(r@) == sort_desc(pairs_view(v@)),
{
    let ghost pv = pairs_view(v@);
    let mut out: Vec<(usize, u32)> = Vec::new();
    let mut i: usize = 0;
    assert(pv.take(0) =~= Seq::<(int, int)>::empty());
    assert(pairs_view(out@) =~= Seq::<(int, int)>::empty());
    while i < v.len()
        invariant
            i <= v@.len(),
            pv == pairs_view(v@),
            pairs_view(out@) == sort_desc(pv.take(i as int)),
        decreases v@.len() - i,
    {
        assert(pv.take(i + 1).drop_last() =~= pv.take(i as int));
        insert_ranked(&mut out, v[i]);
        i = i + 1;
    }
    assert(pv.take(i as int) =~= pv);
    out
}

/// Mean score of a list of entries, 0 for an empty list.
pub fn mean_ranked(v: &Vec<(usize, u32)>, n: Ghost<int>) -> (r: u32)
    requires
        all_bounded(pairs_view(v@), n@),
    ensures
        r == mean_score(pairs_view(v@)),
        r <= SCALE,
{
    let ghost pv = pairs_view(v@);
    let mut sum: u128 = 0;
    let mut i: usize = 0;
    while i < v.len()
        invariant
            i <= v@.len(),
            pv == pairs_view(v@),
            all_bounded(pv, n@),
            sum == score_sum(pv.take(i as int)),
            sum <= (SCALE as int) * i,
        decreases v@.len() - i,
    {
        assert(pv.take(i + 1).drop_last() =~= pv.take(i as int));
        assert(pv[i as int].1 <= SCALE);
        sum = sum + v[i].1 as u128;
        i = i + 1;
    }
    assert(pv.take(i as int) =~= pv);
    if i == 0 {
        0
    } else {
        proof {
            let s = sum as int;
            let m = i as int;
            assert(s / m <= 10000) by (nonlinear_arith)
                requires
                    s <= 10000 * m,
                    m > 0,
                    s >= 0,
            ;
        }
        (sum / (i as u128)) as u32
    }
}

} // verus!
