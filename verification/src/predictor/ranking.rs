use super::knn_regressor::{
    clean_cut, closer, closer_set, distance, lemma_clean_cut_nearest, nearest, rank, within, Sample,
};
use super::tally::{
    count_in, lemma_count_all, lemma_count_bound, lemma_count_full, lemma_total_insert,
    lemma_total_none, lemma_total_same, lemma_total_strict, units,
};
use vstd::prelude::*;

verus! {

/// Whether the choice of neighbours splits no tie: no sample that is left out
/// lies exactly as near to the target as one that is taken.
pub open spec fn splits_no_tie(samples: Seq<Sample>, target: int, k: nat) -> bool {
    forall|i: int, j: int|
        #![trigger nearest(samples, target, k).contains(i), nearest(samples, target, k).contains(j)]
        0 <= i < samples.len() && 0 <= j < samples.len() && nearest(samples, target, k).contains(i)
            && !nearest(samples, target, k).contains(j) ==> distance(
            samples[i].time as int,
            target,
        ) != distance(samples[j].time as int, target)
}

/// A sample that is preferred to another has the lower rank.
pub proof fn lemma_rank_grows(samples: Seq<Sample>, target: int, i: int, j: int)
    requires
        0 <= i < samples.len(),
        0 <= j < samples.len(),
        closer(samples, target, i, j),
    ensures
        rank(samples, target, i) < rank(samples, target, j),
{
    let n = samples.len();
    lemma_total_strict(
        units(n),
        closer_set(samples, target, i),
        closer_set(samples, target, j),
        n,
        i,
    );
}

/// The rank of a sample is less than the number of samples.
pub proof fn lemma_rank_below(samples: Seq<Sample>, target: int, i: int)
    requires
        0 <= i < samples.len(),
    ensures
        rank(samples, target, i) < samples.len(),
{
    let n = samples.len();
    let all = Set::new(|j: int| true);
    lemma_total_strict(units(n), closer_set(samples, target, i), all, n, i);
    lemma_count_bound(all, n);
}

/// Among the first `m` samples, those of a choice that is not empty have one
/// that is preferred to all the others.
proof fn lemma_least(samples: Seq<Sample>, target: int, among: Set<int>, m: nat) -> (x: int)
    requires
        m <= samples.len(),
        exists|i: int| 0 <= i < m && among.contains(i),
    ensures
        0 <= x < m,
        among.contains(x),
        forall|y: int| 0 <= y < m && among.contains(y) && y != x ==> closer(samples, target, x, y),
    decreases m,
{
    let last = m - 1;
    if exists|i: int| 0 <= i < last && among.contains(i) {
        let x = lemma_least(samples, target, among, last as nat);
        if among.contains(last) && closer(samples, target, last, x) {
            last
        } else {
            x
        }
    } else {
        last
    }
}

/// Every rank below the number of samples is the rank of a sample.
pub proof fn lemma_ranked(samples: Seq<Sample>, target: int, r: nat) -> (x: int)
    requires
        r < samples.len(),
    ensures
        0 <= x < samples.len(),
        rank(samples, target, x) == r,
    decreases r, 2nat,
{
    let n = samples.len();
    let taken = nearest(samples, target, r);
    let left = Set::new(|i: int| 0 <= i < n && rank(samples, target, i) >= r);
    lemma_count_nearest(samples, target, r);
    if forall|i: int| 0 <= i < n ==> !left.contains(i) {
        assert forall|i: int| 0 <= i < n implies taken.contains(i) by {
            assert(!left.contains(i));
        }
        lemma_count_all(taken, n);
    }
    let x = lemma_least(samples, target, left, n);
    assert forall|j: int| 0 <= j < n implies closer_set(samples, target, x).contains(j)
        == taken.contains(j) by {
        if taken.contains(j) {
            if !closer(samples, target, j, x) {
                lemma_rank_grows(samples, target, x, j);
            }
        } else {
            assert(left.contains(j));
        }
    }
    lemma_total_same(units(n), closer_set(samples, target, x), taken, n);
    x
}

/// There are `k` neighbours, or as many as there are samples where these are
/// fewer.
pub proof fn lemma_count_nearest(samples: Seq<Sample>, target: int, k: nat)
    ensures
        count_in(nearest(samples, target, k), samples.len()) == if samples.len() <= k {
            samples.len()
        } else {
            k
        },
    decreases k, 1nat,
{
    let n = samples.len();
    let taken = nearest(samples, target, k);
    if k == 0 {
        lemma_total_none(units(n), taken, n);
    } else {
        let before = nearest(samples, target, (k - 1) as nat);
        lemma_count_nearest(samples, target, (k - 1) as nat);
        if n <= k - 1 {
            lemma_count_full(before, n);
            assert forall|i: int| 0 <= i < n implies taken.contains(i) by {
                assert(before.contains(i));
            }
            lemma_count_all(taken, n);
        } else {
            let x = lemma_ranked(samples, target, (k - 1) as nat);
            assert forall|i: int| 0 <= i < n && i != x implies before.contains(i)
                == taken.contains(i) by {
                if rank(samples, target, i) == k - 1 {
                    if closer(samples, target, i, x) {
                        lemma_rank_grows(samples, target, i, x);
                    } else {
                        lemma_rank_grows(samples, target, x, i);
                    }
                }
            }
            lemma_total_insert(units(n), before, taken, n, x);
        }
    }
}

/// Where the choice of neighbours splits no tie, some distance holds exactly
/// the neighbours within it.
pub proof fn lemma_no_tie_cuts_cleanly(samples: Seq<Sample>, target: int, k: nat)
    requires
        splits_no_tie(samples, target, k),
    ensures
        clean_cut(samples, target, k),
{
    let n = samples.len();
    let taken = nearest(samples, target, k);
    let many: nat = if n <= k {
        n
    } else {
        k
    };
    lemma_count_nearest(samples, target, k);
    if many == 0 {
        lemma_total_none(units(n), within(samples, target, -1), n);
        assert(count_in(within(samples, target, -1), n) == many);
    } else {
        let x = lemma_ranked(samples, target, (many - 1) as nat);
        let bound = distance(samples[x].time as int, target);
        assert(taken.contains(x));
        assert forall|i: int| 0 <= i < n implies within(samples, target, bound).contains(i)
            == taken.contains(i) by {
            if i != x {
                lemma_rank_below(samples, target, i);
                if closer(samples, target, i, x) {
                    lemma_rank_grows(samples, target, i, x);
                } else {
                    lemma_rank_grows(samples, target, x, i);
                }
            }
        }
        lemma_total_same(units(n), within(samples, target, bound), taken, n);
        assert(count_in(within(samples, target, bound), n) == many);
    }
}

/// Where some distance holds exactly the neighbours within it, the choice of
/// neighbours splits no tie.
pub proof fn lemma_clean_cut_splits_no_tie(samples: Seq<Sample>, target: int, k: nat)
    requires
        clean_cut(samples, target, k),
    ensures
        splits_no_tie(samples, target, k),
{
    let bound = choose|bound: int| #[trigger]
        count_in(within(samples, target, bound), samples.len()) == if samples.len() <= k {
            samples.len()
        } else {
            k
        };
    lemma_clean_cut_nearest(samples, target, k, bound);
}

} // verus!
