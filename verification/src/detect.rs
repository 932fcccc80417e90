//! Enumeration of the overlapping pairs in a scene of rectangles.

use vstd::prelude::*;

use crate::overlap::{compute_overlap, spec_overlap};
use crate::rect::{RectModel, RectObj};

verus! {

/// The models of an ordered sequence of rectangle records.
pub open spec fn models(rects: Seq<RectObj>) -> Seq<RectModel> {
    rects.map_values(|r: RectObj| r@)
}

/// The index pairs `(i, j)` with first index fixed at `i` and second index
/// running from `j` to the end of the scene, restricted to those whose
/// rectangles overlap, in ascending order of `j`.
pub open spec fn row_pairs(s: Seq<RectModel>, i: int, j: int) -> Seq<(int, int)>
    decreases s.len() - j,
{
    if j < 0 || j >= s.len() {
        Seq::empty()
    } else if spec_overlap(s[i], s[j]) > 0 {
        seq![(i, j)] + row_pairs(s, i, j + 1)
    } else {
        row_pairs(s, i, j + 1)
    }
}

/// The index pairs `(a, b)` with `i <= a < b < s.len()` whose rectangles
/// overlap, in ascending lexicographic order.
pub open spec fn pairs_from(s: Seq<RectModel>, i: int) -> Seq<(int, int)>
    decreases s.len() - i,
{
    if i < 0 || i >= s.len() {
        Seq::empty()
    } else {
        row_pairs(s, i, i + 1) + pairs_from(s, i + 1)
    }
}

/// Every unordered pair of distinct indices whose rectangles overlap,
/// listed exactly once as `(i, j)` with `i < j`, in ascending
/// lexicographic order.
pub open spec fn overlap_index_pairs(s: Seq<RectModel>) -> Seq<(int, int)> {
    pairs_from(s, 0)
}

/// Strict lexicographic order on index pairs.
pub open spec fn pair_lex_lt(p: (int, int), q: (int, int)) -> bool {
    p.0 < q.0 || (p.0 == q.0 && p.1 < q.1)
}

/// Two index pairs denote the same unordered pair when they are equal or
/// each other's reversal.
pub open spec fn same_unordered_pair(p: (int, int), q: (int, int)) -> bool {
    (p.0 == q.0 && p.1 == q.1) || (p.0 == q.1 && p.1 == q.0)
}

proof fn lemma_row_pairs_props(s: Seq<RectModel>, i: int, j: int)
    requires
        0 <= j,
    ensures
        j <= s.len() ==> row_pairs(s, i, j).len() <= s.len() - j,
        j > s.len() ==> row_pairs(s, i, j).len() == 0,
        forall|k: int|
            0 <= k < row_pairs(s, i, j).len() ==> (#[trigger] row_pairs(s, i, j)[k]).0 == i && j
                <= row_pairs(s, i, j)[k].1 < s.len(),
        forall|k1: int, k2: int|
            0 <= k1 < k2 < row_pairs(s, i, j).len() ==> row_pairs(s, i, j)[k1].1 < row_pairs(
                s,
                i,
                j,
            )[k2].1,
        forall|k: int|
            0 <= k < row_pairs(s, i, j).len() ==> spec_overlap(
                s[(#[trigger] row_pairs(s, i, j)[k]).0],
                s[row_pairs(s, i, j)[k].1],
            ) > 0,
    decreases s.len() - j,
{
    if j < s.len() {
        lemma_row_pairs_props(s, i, j + 1);
        let row = row_pairs(s, i, j);
        let rest = row_pairs(s, i, j + 1);
        if spec_overlap(s[i], s[j]) > 0 {
            assert(row == seq![(i, j)] + rest);
            assert forall|k: int| 0 <= k < row.len() implies (#[trigger] row[k]).0 == i && j
                <= row[k].1 < s.len() by {
                if k == 0 {
                    assert(row[0] == (i, j));
                } else {
                    assert(row[k] == rest[k - 1]);
                }
            }
            assert forall|k1: int, k2: int| 0 <= k1 < k2 < row.len() implies row[k1].1
                < row[k2].1 by {
                assert(row[k2] == rest[k2 - 1]);
                if k1 == 0 {
                    assert(row[0] == (i, j));
                } else {
                    assert(row[k1] == rest[k1 - 1]);
                }
            }
            assert forall|k: int| 0 <= k < row.len() implies spec_overlap(
                s[(#[trigger] row[k]).0],
                s[row[k].1],
            ) > 0 by {
                if k == 0 {
                    assert(row[0] == (i, j));
                } else {
                    assert(row[k] == rest[k - 1]);
                }
            }
        }
    }
}

proof fn lemma_pairs_from_props(s: Seq<RectModel>, i: int)
    requires
        0 <= i,
    ensures
        2 * pairs_from(s, i).len() <= (s.len() - i) * (s.len() - i - 1),
        forall|k: int|
            0 <= k < pairs_from(s, i).len() ==> i <= (#[trigger] pairs_from(s, i)[k]).0
                < pairs_from(s, i)[k].1 < s.len(),
        forall|k1: int, k2: int|
            0 <= k1 < k2 < pairs_from(s, i).len() ==> pair_lex_lt(
                pairs_from(s, i)[k1],
                pairs_from(s, i)[k2],
            ),
        forall|k: int|
            0 <= k < pairs_from(s, i).len() ==> spec_overlap(
                s[(#[trigger] pairs_from(s, i)[k]).0],
                s[pairs_from(s, i)[k].1],
            ) > 0,
    decreases s.len() - i,
{
    let n = s.len() as int;
    if i >= n {
        assert((n - i) * (n - i - 1) >= 0) by (nonlinear_arith)
            requires
                n - i <= 0,
        ;
    } else {
        lemma_pairs_from_props(s, i + 1);
        lemma_row_pairs_props(s, i, i + 1);
        let pf = pairs_from(s, i);
        let row = row_pairs(s, i, i + 1);
        let rest = pairs_from(s, i + 1);
        assert(pf == row + rest);
        assert(2 * pf.len() <= (n - i) * (n - i - 1)) by (nonlinear_arith)
            requires
                pf.len() == row.len() + rest.len(),
                row.len() <= n - i - 1,
                2 * rest.len() <= (n - i - 1) * (n - i - 2),
        ;
        assert forall|k: int| 0 <= k < pf.len() implies i <= (#[trigger] pf[k]).0 < pf[k].1
            < s.len() by {
            if k < row.len() {
                assert(pf[k] == row[k]);
            } else {
                assert(pf[k] == rest[k - row.len()]);
            }
        }
        assert forall|k: int| 0 <= k < pf.len() implies spec_overlap(
            s[(#[trigger] pf[k]).0],
            s[pf[k].1],
        ) > 0 by {
            if k < row.len() {
                assert(pf[k] == row[k]);
            } else {
                assert(pf[k] == rest[k - row.len()]);
            }
        }
        assert forall|k1: int, k2: int| 0 <= k1 < k2 < pf.len() implies pair_lex_lt(
            pf[k1],
            pf[k2],
        ) by {
            if k1 < row.len() {
                assert(pf[k1] == row[k1]);
            } else {
                assert(pf[k1] == rest[k1 - row.len()]);
            }
            if k2 < row.len() {
                assert(pf[k2] == row[k2]);
            } else {
                assert(pf[k2] == rest[k2 - row.len()]);
            }
        }
    }
}

/// The listed index pairs are well formed and come in strictly ascending
/// lexicographic order: each names two distinct rectangles of the scene
/// by ascending indices, and no pair is listed twice.
pub proof fn lemma_overlap_index_pairs_sorted(s: Seq<RectModel>)
    ensures
        forall|k: int|
            0 <= k < overlap_index_pairs(s).len() ==> 0 <= (#[trigger] overlap_index_pairs(
                s,
            )[k]).0 < overlap_index_pairs(s)[k].1 < s.len(),
        forall|k1: int, k2: int|
            0 <= k1 < k2 < overlap_index_pairs(s).len() ==> pair_lex_lt(
                overlap_index_pairs(s)[k1],
                overlap_index_pairs(s)[k2],
            ),
{
    lemma_pairs_from_props(s, 0);
}

/// No double-reporting: a scene of `n` rectangles yields at most
/// `n * (n - 1) / 2` index pairs, and no two listed pairs name the same
/// unordered pair of indices — neither repeated nor reversed.
pub proof fn lemma_no_double_reporting(s: Seq<RectModel>)
    ensures
        2 * overlap_index_pairs(s).len() <= s.len() * (s.len() - 1),
        overlap_index_pairs(s).len() <= s.len() * (s.len() - 1) / 2,
        forall|k1: int, k2: int|
            0 <= k1 < k2 < overlap_index_pairs(s).len() ==> !same_unordered_pair(
                #[trigger] overlap_index_pairs(s)[k1],
                #[trigger] overlap_index_pairs(s)[k2],
            ),
{
    lemma_pairs_from_props(s, 0);
    lemma_overlap_index_pairs_sorted(s);
    let n = s.len() as int;
    let m = n * (n - 1);
    let len = overlap_index_pairs(s).len() as int;
    assert(m >= 0) by (nonlinear_arith)
        requires
            n >= 0,
            m == n * (n - 1),
    ;
    assert(len <= m / 2) by (nonlinear_arith)
        requires
            2 * len <= m,
            m >= 0,
            len >= 0,
    ;
    let ps = overlap_index_pairs(s);
    assert forall|k1: int, k2: int| 0 <= k1 < k2 < ps.len() implies !same_unordered_pair(
        #[trigger] ps[k1],
        #[trigger] ps[k2],
    ) by {
        assert(pair_lex_lt(ps[k1], ps[k2]));
        assert(ps[k1].0 < ps[k1].1);
        assert(ps[k2].0 < ps[k2].1);
    }
}

proof fn lemma_row_pairs_contains(s: Seq<RectModel>, i: int, j: int, q: int)
    requires
        0 <= j,
    ensures
        row_pairs(s, i, j).contains((i, q)) <==> (j <= q < s.len() && spec_overlap(s[i], s[q])
            > 0),
    decreases s.len() - j,
{
    let row = row_pairs(s, i, j);
    if j >= s.len() {
        assert(!row.contains((i, q)));
    } else {
        lemma_row_pairs_contains(s, i, j + 1, q);
        let rest = row_pairs(s, i, j + 1);
        if spec_overlap(s[i], s[j]) > 0 {
            assert(row == seq![(i, j)] + rest);
            if q == j {
                assert(row[0] == (i, q));
                assert(row.contains((i, q)));
            } else {
                if rest.contains((i, q)) {
                    let idx = choose|idx: int| 0 <= idx < rest.len() && rest[idx] == (i, q);
                    assert(row[idx + 1] == (i, q));
                    assert(row.contains((i, q)));
                }
                if row.contains((i, q)) {
                    let idx = choose|idx: int| 0 <= idx < row.len() && row[idx] == (i, q);
                    assert(idx != 0);
                    assert(rest[idx - 1] == (i, q));
                    assert(rest.contains((i, q)));
                }
            }
        } else {
            assert(row == rest);
        }
    }
}

proof fn lemma_pairs_from_contains(s: Seq<RectModel>, i: int, a: int, b: int)
    requires
        0 <= i,
    ensures
        pairs_from(s, i).contains((a, b)) <==> (i <= a < b < s.len() && spec_overlap(s[a], s[b])
            > 0),
    decreases s.len() - i,
{
    let pf = pairs_from(s, i);
    if i >= s.len() {
        assert(!pf.contains((a, b)));
    } else {
        lemma_pairs_from_contains(s, i + 1, a, b);
        lemma_row_pairs_contains(s, i, i + 1, b);
        lemma_row_pairs_props(s, i, i + 1);
        let row = row_pairs(s, i, i + 1);
        let rest = pairs_from(s, i + 1);
        assert(pf == row + rest);
        if row.contains((a, b)) {
            let idx = choose|idx: int| 0 <= idx < row.len() && row[idx] == (a, b);
            assert(row[idx].0 == i);
            assert(a == i);
            assert(pf[idx] == (a, b));
            assert(pf.contains((a, b)));
        }
        if rest.contains((a, b)) {
            let idx = choose|idx: int| 0 <= idx < rest.len() && rest[idx] == (a, b);
            assert(pf[row.len() + idx] == (a, b));
            assert(pf.contains((a, b)));
        }
        if pf.contains((a, b)) {
            let idx = choose|idx: int| 0 <= idx < pf.len() && pf[idx] == (a, b);
            if idx < row.len() {
                assert(row[idx] == (a, b));
                assert(row.contains((a, b)));
            } else {
                assert(rest[idx - row.len()] == (a, b));
                assert(rest.contains((a, b)));
            }
        }
        if a == i {
            assert(!rest.contains((a, b))) by {
                if rest.contains((a, b)) {
                    lemma_pairs_from_props(s, i + 1);
                    let idx = choose|idx: int| 0 <= idx < rest.len() && rest[idx] == (a, b);
                    assert(i + 1 <= rest[idx].0);
                }
            }
        } else {
            assert(!row.contains((a, b))) by {
                if row.contains((a, b)) {
                    let idx = choose|idx: int| 0 <= idx < row.len() && row[idx] == (a, b);
                    assert(row[idx].0 == i);
                }
            }
        }
    }
}

/// Completeness and soundness of the enumeration: an index pair `(a, b)`
/// with `a < b` is listed exactly when the rectangles at `a` and `b`
/// overlap; no other pair is ever listed.
pub proof fn lemma_overlap_index_pairs_complete(s: Seq<RectModel>, a: int, b: int)
    ensures
        overlap_index_pairs(s).contains((a, b)) <==> (0 <= a < b < s.len() && spec_overlap(
            s[a],
            s[b],
        ) > 0),
{
    lemma_pairs_from_contains(s, 0, a, b);
}

/// A reported triple matches an index pair when it holds copies of the two
/// rectangles at those indices together with their exact overlap area.
pub open spec fn entry_matches(
    e: (RectObj, RectObj, i128),
    p: (int, int),
    s: Seq<RectModel>,
) -> bool {
    &&& 0 <= p.0 < s.len()
    &&& 0 <= p.1 < s.len()
    &&& e.0@ == s[p.0]
    &&& e.1@ == s[p.1]
    &&& e.2 as int == spec_overlap(s[p.0], s[p.1])
}

/// The reported triples correspond one to one, in order, to the index
/// pairs `ps` over the scene `s`.
pub open spec fn reports_pairs(
    res: Seq<(RectObj, RectObj, i128)>,
    ps: Seq<(int, int)>,
    s: Seq<RectModel>,
) -> bool {
    &&& res.len() == ps.len()
    &&& forall|k: int| 0 <= k < res.len() ==> entry_matches(#[trigger] res[k], ps[k], s)
}

/// Detects the pairs of distinct rectangles in the scene whose
/// intersection area is positive and returns one triple per such pair:
/// copies of the two rectangles and their overlap area.
///
/// Each unordered pair of distinct indices is considered exactly once;
/// pairs with zero overlap are dropped, not reported as zero-area entries.
/// The triples come in the natural enumeration order of the input:
/// ascending first index, then ascending second index.
pub fn detect_overlapping_pairs(rects: &Vec<RectObj>) -> (result: Vec<(RectObj, RectObj, i128)>)
    ensures
        reports_pairs(result@, overlap_index_pairs(models(rects@)), models(rects@)),
        forall|k: int| 0 <= k < result@.len() ==> (#[trigger] result@[k]).2 > 0,
{
    let ghost s = models(rects@);
    let rlen = rects.len();
    let mut result: Vec<(RectObj, RectObj, i128)> = Vec::new();
    let ghost mut taken = Seq::<(int, int)>::empty();
    proof {
        assert(taken + pairs_from(s, 0) =~= pairs_from(s, 0));
    }
    let mut i: usize = 0;
    while i < rlen
        invariant
            s == models(rects@),
            rlen == rects@.len(),
            i <= rlen,
            reports_pairs(result@, taken, s),
            taken + pairs_from(s, i as int) == overlap_index_pairs(s),
        decreases rlen - i,
    {
        let mut j: usize = i + 1;
        proof {
            assert(taken + row_pairs(s, i as int, i as int + 1) + pairs_from(s, i as int + 1)
                =~= taken + pairs_from(s, i as int));
        }
        while j < rlen
            invariant
                s == models(rects@),
                rlen == rects@.len(),
                i < rlen,
                i < j <= rlen,
                reports_pairs(result@, taken, s),
                taken + row_pairs(s, i as int, j as int) + pairs_from(s, i as int + 1)
                    == overlap_index_pairs(s),
            decreases rlen - j,
        {
            let area = compute_overlap(&rects[i], &rects[j]);
            if area > 0 {
                result.push((rects[i].clone(), rects[j].clone(), area));
                proof {
                    assert(s[i as int] == rects@[i as int]@);
                    assert(s[j as int] == rects@[j as int]@);
                    assert(row_pairs(s, i as int, j as int) == seq![(i as int, j as int)]
                        + row_pairs(s, i as int, j as int + 1));
                    assert(taken.push((i as int, j as int)) + row_pairs(s, i as int, j as int + 1)
                        =~= taken + row_pairs(s, i as int, j as int));
                    taken = taken.push((i as int, j as int));
                }
            } else {
                proof {
                    assert(row_pairs(s, i as int, j as int) == row_pairs(
                        s,
                        i as int,
                        j as int + 1,
                    ));
                }
            }
            j += 1;
        }
        proof {
            assert(row_pairs(s, i as int, rlen as int) =~= Seq::<(int, int)>::empty());
            assert(taken + row_pairs(s, i as int, rlen as int) =~= taken);
        }
        i += 1;
    }
    proof {
        assert(pairs_from(s, rlen as int) =~= Seq::<(int, int)>::empty());
        assert(taken + pairs_from(s, rlen as int) =~= taken);
        lemma_pairs_from_props(s, 0);
        let ps = overlap_index_pairs(s);
        assert forall|k: int| 0 <= k < result@.len() implies (#[trigger] result@[k]).2 > 0 by {
            assert(entry_matches(result@[k], ps[k], s));
            assert(spec_overlap(s[ps[k].0], s[ps[k].1]) > 0);
        }
    }
    result
}

} // verus!
