//! Ranking: the best few entries of a scored catalog, best first.

use vstd::prelude::*;
use crate::score::{score, score_of};
use crate::text::texts;

verus! {

/// One ranked entry: its position in the catalog and its score.
#[derive(Clone, Copy, Debug, PartialEq, Eq, Structural)]
pub struct RankedMatch {
    pub index: usize,
    pub score: isize,
}

/// `a` is shown before `b`: it scores higher, or scores the same and comes
/// earlier in the catalog.
pub open spec fn outranks(a: RankedMatch, b: RankedMatch) -> bool {
    a.score > b.score || (a.score == b.score && a.index < b.index)
}

/// The entry at catalog position `i` appears in `r`.
pub open spec fn listed(r: Seq<RankedMatch>, i: int) -> bool {
    exists|k: int| 0 <= k < r.len() && #[trigger] r[k].index == i
}

/// `r` is the ranking of the first `n` scores within a window of `window`
/// rows: it lists only entries with a positive score, best first, and every
/// positive entry it leaves out is outranked by a full window.
pub open spec fn is_ranking_of_prefix(
    scores: Seq<isize>,
    n: int,
    window: int,
    r: Seq<RankedMatch>,
) -> bool {
    &&& r.len() <= window
    &&& forall|k: int|
        0 <= k < r.len() ==> {
            &&& 0 <= (#[trigger] r[k]).index < n
            &&& r[k].score == scores[r[k].index as int]
            &&& r[k].score > 0
        }
    &&& forall|k: int, l: int| 0 <= k < l < r.len() ==> outranks(#[trigger] r[k], #[trigger] r[l])
    &&& forall|i: int|
        0 <= i < n && #[trigger] scores[i] > 0 ==> listed(r, i) || {
            &&& r.len() == window
            &&& forall|k: int|
                0 <= k < r.len() ==> outranks(
                    #[trigger] r[k],
                    RankedMatch { index: i as usize, score: scores[i] },
                )
        }
}

/// `r` is the ranking of `scores` within a window of `window` rows.
pub open spec fn is_ranking(scores: Seq<isize>, window: int, r: Seq<RankedMatch>) -> bool {
    is_ranking_of_prefix(scores, scores.len() as int, window, r)
}

/// The ranking of `scores`: at most `window` entries with a positive score,
/// in descending order of score, equal scores in catalog order.
pub fn top_matches(scores: &Vec<isize>, window: usize) -> (r: Vec<RankedMatch>)
    ensures
        is_ranking(scores@, window as int, r@),
{
    let mut out: Vec<RankedMatch> = Vec::new();
    let mut i: usize = 0;
    while i < scores.len()
        invariant
            0 <= i <= scores.len(),
            is_ranking_of_prefix(scores@, i as int, window as int, out@),
        decreases scores.len() - i,
    {
        let s: isize = scores[i];
        if s > 0 {
            let mut p: usize = out.len();
            while p > 0 && out[p - 1].score < s
                invariant
                    0 <= p <= out.len(),
                    forall|k: int| p <= k < out.len() ==> (#[trigger] out@[k]).score < s,
                decreases p,
            {
                p -= 1;
            }
            let ghost before = out@;
            let e = RankedMatch { index: i, score: s };
            proof {
                assert forall|k: int| 0 <= k < p implies outranks(#[trigger] before[k], e) by {
                    if k < p - 1 {
                        assert(outranks(before[k], before[p - 1]));
                    }
                }
            }
            if p < window {
                out.insert(p, e);
                if out.len() > window {
                    out.pop();
                }
                proof {
                    lemma_insert_keeps_ranking(scores@, i as int, window as int, before, p as int, out@);
                }
            }
        }
        i += 1;
    }
    out
}

/// Inserting the entry at position `i` of the catalog into the ranking of the
/// entries before it, at the place its score gives it, and dropping what then
/// falls out of the window, gives the ranking of the entries up to `i`.
proof fn lemma_insert_keeps_ranking(
    scores: Seq<isize>,
    i: int,
    window: int,
    before: Seq<RankedMatch>,
    p: int,
    after: Seq<RankedMatch>,
)
    requires
        0 <= i < scores.len(),
        i <= usize::MAX,
        scores[i] > 0,
        is_ranking_of_prefix(scores, i, window, before),
        0 <= p <= before.len(),
        p < window,
        forall|k: int| 0 <= k < p ==> outranks(#[trigger] before[k], RankedMatch { index: i as usize, score: scores[i] }),
        forall|k: int| p <= k < before.len() ==> (#[trigger] before[k]).score < scores[i],
        after == if before.len() + 1 > window {
            before.insert(p, RankedMatch { index: i as usize, score: scores[i] }).drop_last()
        } else {
            before.insert(p, RankedMatch { index: i as usize, score: scores[i] })
        },
    ensures
        is_ranking_of_prefix(scores, i + 1, window, after),
{
    let e = RankedMatch { index: i as usize, score: scores[i] };
    let full = before.insert(p, e);
    assert(forall|k: int| 0 <= k < p ==> full[k] == before[k]);
    assert(full[p] == e);
    assert(forall|k: int| p < k < full.len() ==> full[k] == before[k - 1]);
    assert(forall|k: int| 0 <= k < after.len() ==> after[k] == full[k]);
    assert forall|k: int, l: int| 0 <= k < l < full.len() implies outranks(
        #[trigger] full[k],
        #[trigger] full[l],
    ) by {
        if l < p {
        } else if l == p {
        } else if k < p {
            assert(outranks(before[k], before[l - 1]));
        } else if k == p {
        } else {
            assert(outranks(before[k - 1], before[l - 1]));
        }
    }
    assert forall|j: int| 0 <= j < i + 1 && #[trigger] scores[j] > 0 implies listed(after, j) || {
        &&& after.len() == window
        &&& forall|k: int|
            0 <= k < after.len() ==> outranks(
                #[trigger] after[k],
                RankedMatch { index: j as usize, score: scores[j] },
            )
    } by {
        let ej = RankedMatch { index: j as usize, score: scores[j] };
        if j == i {
            assert(after[p].index == j);
        } else if listed(before, j) {
            let k0 = choose|k: int| 0 <= k < before.len() && #[trigger] before[k].index == j;
            let k1 = if k0 < p { k0 } else { k0 + 1 };
            assert(full[k1] == before[k0]);
            if k1 < after.len() {
                assert(after[k1].index == j);
            } else {
                assert(full[k1] == ej);
                assert forall|k: int| 0 <= k < after.len() implies outranks(#[trigger] after[k], ej) by {
                    assert(outranks(full[k], full[k1]));
                }
            }
        } else {
            assert(before.len() == window);
            let last = full[full.len() - 1];
            assert(last == before[before.len() - 1]);
            assert(outranks(last, ej));
            assert forall|k: int| 0 <= k < after.len() implies outranks(#[trigger] after[k], ej) by {
                assert(outranks(full[k], full[full.len() - 1]));
            }
        }
    }
}

/// `name` is one of `names`.
pub open spec fn has_name(names: Seq<Seq<char>>, name: Seq<char>) -> bool {
    exists|j: int| 0 <= j < names.len() && #[trigger] names[j] == name
}

/// Whether `name` is one of `names`.
pub fn contains_name(names: &Vec<String>, name: &String) -> (r: bool)
    ensures
        r == has_name(texts(names@), name@),
{
    let mut j: usize = 0;
    while j < names.len()
        invariant
            0 <= j <= names.len(),
            forall|k: int| 0 <= k < j ==> #[trigger] texts(names@)[k] != name@,
        decreases names.len() - j,
    {
        if names[j] == *name {
            assert(texts(names@)[j as int] == name@);
            return true;
        }
        assert(texts(names@)[j as int] == names@[j as int]@);
        j += 1;
    }
    false
}

/// The score with which the catalog entry `name` takes part in the ranking
/// for `query`: zero, which keeps it out, while nothing is typed or where it
/// is excluded; its fuzzy score otherwise.
pub open spec fn effective_score(
    query: Seq<char>,
    exclude: Seq<Seq<char>>,
    name: Seq<char>,
) -> isize {
    if query.len() == 0 || has_name(exclude, name) {
        0
    } else {
        score_of(query, name)
    }
}

/// The effective scores of a whole catalog, entry by entry.
pub open spec fn effective_scores(
    catalog: Seq<Seq<char>>,
    query: Seq<char>,
    exclude: Seq<Seq<char>>,
) -> Seq<isize> {
    Seq::new(catalog.len(), |i: int| effective_score(query, exclude, catalog[i]))
}

/// Scores every catalog entry against `query`, leaving out the excluded.
pub fn score_catalog(catalog: &Vec<String>, query: &str, exclude: &Vec<String>) -> (r: Vec<isize>)
    ensures
        r@ == effective_scores(texts(catalog@), query@, texts(exclude@)),
{
    let mut scores: Vec<isize> = Vec::new();
    let blank = query.is_empty();
    let mut i: usize = 0;
    while i < catalog.len()
        invariant
            0 <= i <= catalog.len(),
            blank == (query@.len() == 0),
            scores@.len() == i,
            forall|k: int|
                0 <= k < i ==> #[trigger] scores@[k] == effective_score(
                    query@,
                    texts(exclude@),
                    catalog@[k]@,
                ),
        decreases catalog.len() - i,
    {
        let s: isize = if blank || contains_name(exclude, &catalog[i]) {
            0
        } else {
            score(query, catalog[i].as_str())
        };
        scores.push(s);
        i += 1;
    }
    assert(scores@ =~= effective_scores(texts(catalog@), query@, texts(exclude@)));
    scores
}

/// The visible results for `query`: the best `window` catalog entries that
/// match it and are not excluded, best first; none while `query` is empty.
pub fn rank(catalog: &Vec<String>, query: &str, exclude: &Vec<String>, window: usize) -> (r: Vec<
    RankedMatch,
>)
    ensures
        is_ranking(
            effective_scores(texts(catalog@), query@, texts(exclude@)),
            window as int,
            r@,
        ),
        r@.len() <= window,
        query@.len() == 0 ==> r@.len() == 0,
        forall|k: int|
            0 <= k < r@.len() ==> (#[trigger] r@[k]).index < catalog@.len() && !has_name(
                texts(exclude@),
                catalog@[r@[k].index as int]@,
            ),
{
    if query.is_empty() {
        let none: Vec<RankedMatch> = Vec::new();
        return none;
    }
    let scores = score_catalog(catalog, query, exclude);
    let r = top_matches(&scores, window);
    assert forall|k: int| 0 <= k < r@.len() implies (#[trigger] r@[k]).index < catalog@.len()
        && !has_name(texts(exclude@), catalog@[r@[k].index as int]@) by {
        assert(scores@[r@[k].index as int] > 0);
        assert(texts(catalog@)[r@[k].index as int] == catalog@[r@[k].index as int]@);
    }
    r
}

/// Where two rankings of the same scores agree below `j`, the entry that
/// the second holds at `j` does not outrank the first's.
proof fn lemma_no_better_entry(
    scores: Seq<isize>,
    window: int,
    a: Seq<RankedMatch>,
    b: Seq<RankedMatch>,
    j: int,
)
    requires
        is_ranking(scores, window, a),
        is_ranking(scores, window, b),
        0 <= j < a.len(),
        j < b.len(),
        forall|m: int| 0 <= m < j ==> a[m] == b[m],
    ensures
        !outranks(b[j], a[j]),
{
    let y = b[j];
    let iy = y.index as int;
    assert(scores[iy] > 0);
    if !outranks(b[j], a[j]) {
    } else if listed(a, iy) {
        let m = choose|m: int| 0 <= m < a.len() && #[trigger] a[m].index == iy;
        assert(a[m] == y);
        if m < j {
            assert(a[m] == b[m]);
            assert(outranks(b[m], b[j]));
        } else if m > j {
            assert(outranks(a[j], a[m]));
        }
    } else {
        assert(outranks(a[j], RankedMatch { index: iy as usize, score: scores[iy] }));
    }
}

/// Two rankings of the same scores that agree below `j` agree at `j` too.
proof fn lemma_next_agrees(
    scores: Seq<isize>,
    window: int,
    a: Seq<RankedMatch>,
    b: Seq<RankedMatch>,
    j: int,
)
    requires
        is_ranking(scores, window, a),
        is_ranking(scores, window, b),
        0 <= j < a.len(),
        j <= b.len(),
        forall|m: int| 0 <= m < j ==> a[m] == b[m],
    ensures
        j < b.len(),
        a[j] == b[j],
{
    let x = a[j];
    let ix = x.index as int;
    assert(scores[ix] > 0);
    if listed(b, ix) {
        let m = choose|m: int| 0 <= m < b.len() && #[trigger] b[m].index == ix;
        assert(b[m] == x);
        if m < j {
            assert(a[m] == b[m]);
            assert(outranks(a[m], a[j]));
        } else if m > j {
            assert(outranks(b[j], b[m]));
            lemma_no_better_entry(scores, window, a, b, j);
        }
    } else {
        assert(b.len() == window);
        assert(outranks(b[j], RankedMatch { index: ix as usize, score: scores[ix] }));
        lemma_no_better_entry(scores, window, a, b, j);
    }
}

/// Every ranking of the same scores starts with the first `k` entries of `a`.
proof fn lemma_ranking_prefix(
    scores: Seq<isize>,
    window: int,
    a: Seq<RankedMatch>,
    b: Seq<RankedMatch>,
    k: int,
)
    requires
        is_ranking(scores, window, a),
        is_ranking(scores, window, b),
        0 <= k <= a.len(),
    ensures
        k <= b.len(),
        forall|m: int| 0 <= m < k ==> a[m] == b[m],
    decreases k,
{
    if k > 0 {
        lemma_ranking_prefix(scores, window, a, b, k - 1);
        lemma_next_agrees(scores, window, a, b, k - 1);
    }
}

/// The scores and the window determine the ranking: two sequences that both
/// are rankings of the same scores within the same window are equal.
pub proof fn lemma_ranking_unique(
    scores: Seq<isize>,
    window: int,
    a: Seq<RankedMatch>,
    b: Seq<RankedMatch>,
)
    requires
        is_ranking(scores, window, a),
        is_ranking(scores, window, b),
    ensures
        a == b,
{
    lemma_ranking_prefix(scores, window, a, b, a.len() as int);
    lemma_ranking_prefix(scores, window, b, a, b.len() as int);
    assert(a =~= b);
}

/// In a ranking no entry comes before one that scores higher, and no entry
/// appears twice.
pub proof fn lemma_ranking_descends(scores: Seq<isize>, window: int, r: Seq<RankedMatch>)
    requires
        is_ranking(scores, window, r),
    ensures
        forall|k: int, l: int| 0 <= k < l < r.len() ==> (#[trigger] r[k]).score >= (#[trigger] r[l]).score,
        forall|k: int, l: int| 0 <= k < l < r.len() ==> (#[trigger] r[k]).index != (#[trigger] r[l]).index,
{
    assert forall|k: int, l: int| 0 <= k < l < r.len() implies (#[trigger] r[k]).score >= (#[trigger] r[l]).score
        && r[k].index != r[l].index by {
        assert(outranks(r[k], r[l]));
    }
}

/// Where no score is positive the ranking is empty.
pub proof fn lemma_ranking_of_nothing(scores: Seq<isize>, window: int, r: Seq<RankedMatch>)
    requires
        is_ranking(scores, window, r),
        forall|i: int| 0 <= i < scores.len() ==> #[trigger] scores[i] <= 0,
    ensures
        r.len() == 0,
{
    if r.len() > 0 {
        assert(scores[r[0].index as int] > 0);
    }
}

} // verus!
