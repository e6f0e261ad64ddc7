use super::ranking::{lemma_no_tie_cuts_cleanly, splits_no_tie};
use super::tally::{
    count_in, lemma_count_bound, lemma_count_full, lemma_count_of_picks, lemma_total_monotone,
    lemma_total_of_picks, lemma_total_same, lemma_total_strict, picked, picked_total, total, units,
};
use vstd::prelude::*;

verus! {

/// One historical reading as the forecaster sees it.
#[derive(Copy, Clone, Debug, PartialEq, Eq, Structural)]
pub struct Sample {
    /// How much the reading counts in an average; zero means not at all.
    pub weight: u32,
    /// When the reading was taken, in the unit of the query (seconds since
    /// midnight in a forecast of one day).
    pub time: u32,
    /// The occupancy read, in percent.
    pub occupancy: u16,
}

/// How far a time lies from the target time.
pub open spec fn distance(time: int, target: int) -> int {
    if time >= target {
        time - target
    } else {
        target - time
    }
}

/// Whether sample `i` is preferred to sample `j` as a neighbour of `target`:
/// it lies nearer, or as near and earlier in the list.
pub open spec fn closer(samples: Seq<Sample>, target: int, i: int, j: int) -> bool {
    let di = distance(samples[i].time as int, target);
    let dj = distance(samples[j].time as int, target);
    di < dj || (di == dj && i < j)
}

/// The indices of the samples that are preferred to sample `i`.
pub open spec fn closer_set(samples: Seq<Sample>, target: int, i: int) -> Set<int> {
    Set::new(|j: int| closer(samples, target, j, i))
}

/// How many samples are preferred to sample `i`.
pub open spec fn rank(samples: Seq<Sample>, target: int, i: int) -> nat {
    count_in(closer_set(samples, target, i), samples.len())
}

/// The indices of the neighbours of `target`: the samples to which fewer than
/// `k` others are preferred. These are the `k` nearest samples, or all of
/// them where there are no more than `k`.
pub open spec fn nearest(samples: Seq<Sample>, target: int, k: nat) -> Set<int> {
    Set::new(|i: int| 0 <= i < samples.len() && rank(samples, target, i) < k)
}

/// The weight of each sample.
pub open spec fn weights(samples: Seq<Sample>) -> Seq<nat> {
    Seq::new(samples.len(), |i: int| samples[i].weight as nat)
}

/// The weight of each sample times its occupancy.
pub open spec fn weighted(samples: Seq<Sample>) -> Seq<nat> {
    Seq::new(samples.len(), |i: int| (samples[i].weight * samples[i].occupancy) as nat)
}

/// The weighted average of the occupancies of the chosen samples, rounded
/// down; zero where their weights add up to zero.
pub open spec fn weighted_average(samples: Seq<Sample>, chosen: Set<int>) -> nat {
    let weight = total(weights(samples), chosen, samples.len());
    if weight == 0 {
        0
    } else {
        total(weighted(samples), chosen, samples.len()) / weight
    }
}

/// The occupancy forecast at `target`: the weighted average over the
/// neighbours of `target`.
pub open spec fn prediction(samples: Seq<Sample>, target: int, k: nat) -> nat {
    weighted_average(samples, nearest(samples, target, k))
}

/// A list of sample indices as mathematical integers.
pub open spec fn indices(picks: Seq<usize>) -> Seq<int> {
    Seq::new(picks.len(), |p: int| picks[p] as int)
}

/// Whether `picks` lists each neighbour of `target` exactly once, and nothing
/// else.
pub open spec fn lists_nearest(samples: Seq<Sample>, target: int, k: nat, picks: Seq<usize>) -> bool {
    &&& indices(picks).no_duplicates()
    &&& forall|p: int| 0 <= p < picks.len() ==> 0 <= #[trigger] indices(picks)[p] < samples.len()
    &&& forall|i: int|
        0 <= i < samples.len() ==> (indices(picks).contains(i) <==> nearest(
            samples,
            target,
            k,
        ).contains(i))
}

/// Whether every listed sample is preferred to every sample among the first
/// `m` that is not listed.
spec fn separates(samples: Seq<Sample>, target: int, picks: Seq<usize>, m: int) -> bool {
    forall|p: int, j: int|
        #![trigger indices(picks)[p], indices(picks).contains(j)]
        0 <= p < picks.len() && 0 <= j < m && !indices(picks).contains(j) ==> closer(
            samples,
            target,
            indices(picks)[p],
            j,
        )
}

/// A list without repeats that is as long as the neighbourhood and separates
/// the samples is a list of the neighbours.
proof fn lemma_separated_is_nearest(samples: Seq<Sample>, target: int, k: nat, picks: Seq<usize>)
    requires
        indices(picks).no_duplicates(),
        forall|p: int| 0 <= p < picks.len() ==> 0 <= #[trigger] indices(picks)[p] < samples.len(),
        picks.len() == if samples.len() <= k {
            samples.len()
        } else {
            k
        },
        separates(samples, target, picks, samples.len() as int),
    ensures
        lists_nearest(samples, target, k, picks),
{
    let n = samples.len();
    let list = indices(picks);
    let held = picked(list);
    lemma_count_of_picks(list, n);
    assert forall|i: int| 0 <= i < n implies (list.contains(i) <==> nearest(
        samples,
        target,
        k,
    ).contains(i)) by {
        let before = closer_set(samples, target, i);
        if list.contains(i) {
            let at = choose|p: int| 0 <= p < list.len() && list[p] == i;
            assert forall|j: int| 0 <= j < n && before.contains(j) implies held.contains(j) by {
                if !list.contains(j) {
                    assert(closer(samples, target, list[at], j));
                }
            }
            lemma_total_strict(units(n), before, held, n, i);
        } else {
            assert forall|j: int| 0 <= j < n && held.contains(j) implies before.contains(j) by {
                let p = choose|p: int| 0 <= p < list.len() && list[p] == j;
                assert(closer(samples, target, list[p], i));
            }
            lemma_total_monotone(units(n), held, before, n);
            if picks.len() != k {
                lemma_count_full(held, n);
                assert(held.contains(i));
            }
        }
    }
}

/// The forecaster: a nearest-neighbour estimate in which each neighbour
/// counts by its weight.
pub struct KNNRegressor {}

impl KNNRegressor {
    /// How far `time` lies from `target`.
    pub fn gap(time: u32, target: u32) -> (gap: u32)
        ensures
            gap == distance(time as int, target as int),
    {
        if time >= target {
            time - target
        } else {
            target - time
        }
    }

    /// Picks the neighbours of `target` among the samples: the `k` nearest in
    /// time, an earlier sample winning a tie, or all samples where there are
    /// no more than `k`. The list holds their indices, each once, in no
    /// particular order.
    ///
    /// The samples are read once in order, and no more than `k` indices are
    /// held at any time: a sample enters when it lies strictly nearer than the
    /// farthest one held, which then leaves.
    pub fn select_nearest(samples: &Vec<Sample>, target: u32, k: usize) -> (picks: Vec<usize>)
        ensures
            lists_nearest(samples@, target as int, k as nat, picks@),
            picks.len() == if samples.len() <= k {
                samples.len()
            } else {
                k
            },
    {
        let n: usize = samples.len();
        let mut picks: Vec<usize> = Vec::new();
        let mut m: usize = 0;
        while m < n
            invariant
                m <= n,
                n == samples.len(),
                picks.len() == if m <= k {
                    m
                } else {
                    k
                },
                m <= k ==> forall|p: int| 0 <= p < picks.len() ==> picks[p] == p,
                forall|p: int| 0 <= p < picks.len() ==> picks[p] < m,
                forall|p: int, q: int| 0 <= p < q < picks.len() ==> picks[p] != picks[q],
                separates(samples@, target as int, picks@, m as int),
            decreases n - m,
        {
            let ghost before = picks@;
            if picks.len() < k {
                picks.push(m);
                proof {
                    assert forall|p: int, j: int|
                        #![trigger indices(picks@)[p], indices(picks@).contains(j)]
                        0 <= p < picks.len() && 0 <= j < m + 1 && !indices(picks@).contains(
                            j,
                        ) implies closer(samples@, target as int, indices(picks@)[p], j) by {
                        assert(indices(picks@)[j] == j);
                    }
                }
            } else if k > 0 {
                let far: usize = Self::farthest(samples, target, &picks);
                let held: usize = picks[far];
                if Self::gap(samples[m].time, target) < Self::gap(samples[held].time, target) {
                    picks.set(far, m);
                    proof {
                        assert forall|p: int, j: int|
                            #![trigger indices(picks@)[p], indices(picks@).contains(j)]
                            0 <= p < picks.len() && 0 <= j < m + 1 && !indices(picks@).contains(
                                j,
                            ) implies closer(samples@, target as int, indices(picks@)[p], j) by {
                            assert(indices(picks@)[far as int] == m);
                            if j != held {
                                if indices(before).contains(j) {
                                    let q = choose|q: int|
                                        0 <= q < before.len() && indices(before)[q] == j;
                                    assert(indices(picks@)[q] == j);
                                }
                                assert(closer(
                                    samples@,
                                    target as int,
                                    indices(before)[far as int],
                                    j,
                                ));
                                if p != far {
                                    assert(indices(before)[p] == indices(picks@)[p]);
                                }
                            } else {
                                if p != far {
                                    assert(indices(before)[p] == indices(picks@)[p]);
                                }
                            }
                        }
                    }
                } else {
                    proof {
                        assert forall|p: int, j: int|
                            #![trigger indices(picks@)[p], indices(picks@).contains(j)]
                            0 <= p < picks.len() && 0 <= j < m + 1 && !indices(picks@).contains(
                                j,
                            ) implies closer(samples@, target as int, indices(picks@)[p], j) by {
                            if j == m {
                                assert(indices(picks@)[p] == picks[p]);
                            }
                        }
                    }
                }
            }
            m += 1;
        }
        proof {
            assert(indices(picks@).no_duplicates()) by {
                assert forall|p: int, q: int|
                    0 <= p < indices(picks@).len() && 0 <= q < indices(picks@).len() && p
                        != q implies indices(picks@)[p] != indices(picks@)[q] by {
                    if p < q {
                        assert(picks[p] != picks[q]);
                    } else {
                        assert(picks[q] != picks[p]);
                    }
                }
            }
            lemma_separated_is_nearest(samples@, target as int, k as nat, picks@);
        }
        picks
    }

    /// The position in `picks` of the sample that is least preferred.
    fn farthest(samples: &Vec<Sample>, target: u32, picks: &Vec<usize>) -> (far: usize)
        requires
            picks.len() > 0,
            forall|p: int| 0 <= p < picks.len() ==> picks[p] < samples.len(),
            forall|p: int, q: int| 0 <= p < q < picks.len() ==> picks[p] != picks[q],
        ensures
            far < picks.len(),
            forall|q: int|
                0 <= q < picks.len() && q != far ==> closer(
                    samples@,
                    target as int,
                    #[trigger] picks[q] as int,
                    picks[far as int] as int,
                ),
    {
        let mut far: usize = 0;
        let mut p: usize = 1;
        while p < picks.len()
            invariant
                1 <= p <= picks.len(),
                far < p,
                forall|q: int| 0 <= q < picks.len() ==> picks[q] < samples.len(),
                forall|a: int, b: int| 0 <= a < b < picks.len() ==> picks[a] != picks[b],
                forall|q: int|
                    0 <= q < p && q != far ==> closer(
                        samples@,
                        target as int,
                        #[trigger] picks[q] as int,
                        picks[far as int] as int,
                    ),
            decreases picks.len() - p,
        {
            let here: usize = picks[p];
            let held: usize = picks[far];
            let here_gap: u32 = Self::gap(samples[here].time, target);
            let held_gap: u32 = Self::gap(samples[held].time, target);
            if held_gap < here_gap || (held_gap == here_gap && held < here) {
                far = p;
            }
            p += 1;
        }
        far
    }

    /// Forecasts the occupancy at `target` from the `k` samples nearest in
    /// time: their average occupancy, each counted by its weight and the
    /// result rounded down. With fewer than `k` samples all of them take
    /// part; where the weights of the neighbours add up to zero (no sample,
    /// `k` zero, or weights all zero) the forecast is 0.
    pub fn predict_one(samples: &Vec<Sample>, target: u32, k: usize) -> (occupancy: u16)
        ensures
            occupancy == prediction(samples@, target as int, k as nat),
            total(weights(samples@), nearest(samples@, target as int, k as nat), samples@.len())
                == 0 ==> occupancy == 0,
            samples.len() <= k ==> occupancy == weighted_average(
                samples@,
                Set::new(|i: int| 0 <= i < samples@.len()),
            ),
    {
        proof {
            if samples.len() <= k {
                lemma_few_samples_all_take_part(samples@, target as int, k as nat);
            }
        }
        let picks: Vec<usize> = Self::select_nearest(samples, target, k);
        let ghost list = indices(picks@);
        let ghost ws = weights(samples@);
        let ghost os = weighted(samples@);
        let mut weight_sum: u128 = 0;
        let mut weighted_sum: u128 = 0;
        let mut p: usize = 0;
        while p < picks.len()
            invariant
                p <= picks.len(),
                list == indices(picks@),
                ws == weights(samples@),
                os == weighted(samples@),
                forall|q: int| 0 <= q < picks.len() ==> 0 <= #[trigger] list[q] < samples.len(),
                weight_sum == picked_total(ws, list.take(p as int)),
                weighted_sum == picked_total(os, list.take(p as int)),
                weight_sum <= p * 0xFFFF_FFFF,
                weighted_sum <= 0xFFFF * weight_sum,
            decreases picks.len() - p,
        {
            assert(list[p as int] == picks[p as int]);
            let sample: Sample = samples[picks[p]];
            proof {
                assert(list.take(p + 1).drop_last() == list.take(p as int));
                assert(sample.weight * sample.occupancy <= 0xFFFF * sample.weight)
                    by (nonlinear_arith)
                    requires
                        sample.occupancy <= 0xFFFF,
                        sample.weight >= 0,
                ;
            }
            weight_sum = weight_sum + sample.weight as u128;
            weighted_sum = weighted_sum + sample.weight as u128 * sample.occupancy as u128;
            p += 1;
        }
        proof {
            let n = samples@.len();
            let near = nearest(samples@, target as int, k as nat);
            assert(list.take(picks.len() as int) == list);
            lemma_total_of_picks(ws, list, n);
            lemma_total_of_picks(os, list, n);
            lemma_total_same(ws, picked(list), near, n);
            lemma_total_same(os, picked(list), near, n);
        }
        if weight_sum == 0 {
            0
        } else {
            let average: u128 = weighted_sum / weight_sum;
            proof {
                assert(weighted_sum / weight_sum <= 0xFFFF) by (nonlinear_arith)
                    requires
                        weighted_sum <= 0xFFFF * weight_sum,
                        weight_sum > 0,
                ;
            }
            average as u16
        }
    }

    /// Forecasts the occupancy at `start`, `start + resolution`,
    /// `start + 2 * resolution` and so on, up to and including `end` where a
    /// step falls on it. Each entry holds the time and the forecast of
    /// `predict_one` for it.
    pub fn predict_range(
        samples: &Vec<Sample>,
        start: u32,
        end: u32,
        resolution: u32,
        k: usize,
    ) -> (series: Vec<(u32, u16)>)
        requires
            start < end,
            resolution > 0,
        ensures
            series.len() == (end - start) / (resolution as int) + 1,
            forall|i: int|
                0 <= i < series.len() ==> (#[trigger] series[i]).0 == start + i * resolution,
            forall|i: int|
                0 <= i < series.len() ==> (#[trigger] series[i]).1 == prediction(
                    samples@,
                    start + i * resolution,
                    k as nat,
                ),
            forall|i: int| 0 <= i < series.len() ==> (#[trigger] series[i]).0 <= end,
    {
        let count: u32 = (end - start) / resolution;
        let mut series: Vec<(u32, u16)> = Vec::new();
        series.push((start, Self::predict_one(samples, start, k)));
        let mut i: u32 = 0;
        proof {
            assert(count * resolution <= end - start) by (nonlinear_arith)
                requires
                    count == (end - start) / (resolution as int),
                    resolution > 0,
                    end - start >= 0,
            ;
        }
        assert(series[0].0 == start + 0 * resolution) by (nonlinear_arith)
            requires
                series[0].0 == start,
        ;
        while i < count
            invariant
                i <= count,
                resolution > 0,
                count * resolution <= end - start,
                series.len() == i + 1,
                forall|j: int|
                    0 <= j < series.len() ==> (#[trigger] series[j]).0 == start + j * resolution,
                forall|j: int|
                    0 <= j < series.len() ==> (#[trigger] series[j]).1 == prediction(
                        samples@,
                        start + j * resolution,
                        k as nat,
                    ),
                forall|j: int| 0 <= j < series.len() ==> (#[trigger] series[j]).0 <= end,
            decreases count - i,
        {
            i += 1;
            proof {
                assert(i * resolution <= count * resolution) by (nonlinear_arith)
                    requires
                        i <= count,
                        resolution > 0,
                ;
            }
            let time: u32 = start + i * resolution;
            series.push((time, Self::predict_one(samples, time, k)));
        }
        series
    }
}

/// The samples that lie within `bound` of the target.
pub open spec fn within(samples: Seq<Sample>, target: int, bound: int) -> Set<int> {
    Set::new(|i: int| distance(samples[i].time as int, target) <= bound)
}

/// Whether some distance holds exactly as many samples within it as there
/// are neighbours. The samples within it are then the neighbours, in whatever
/// order the samples come.
pub open spec fn clean_cut(samples: Seq<Sample>, target: int, k: nat) -> bool {
    exists|bound: int| #[trigger]
        count_in(within(samples, target, bound), samples.len()) == if samples.len() <= k {
            samples.len()
        } else {
            k
        }
}

/// Sum of `value` over the samples.
pub open spec fn sum_of(samples: Seq<Sample>, value: spec_fn(Sample) -> nat) -> nat
    decreases samples.len(),
{
    if samples.len() == 0 {
        0
    } else {
        sum_of(samples.drop_last(), value) + value(samples.last())
    }
}

/// With no more than `k` samples every one of them is a neighbour, and the
/// forecast is the weighted average over the samples and nothing else.
pub proof fn lemma_few_samples_all_take_part(samples: Seq<Sample>, target: int, k: nat)
    requires
        samples.len() <= k,
    ensures
        forall|i: int| 0 <= i < samples.len() ==> nearest(samples, target, k).contains(i),
        prediction(samples, target, k) == weighted_average(
            samples,
            Set::new(|i: int| 0 <= i < samples.len()),
        ),
{
    let n = samples.len();
    let all = Set::new(|i: int| 0 <= i < samples.len());
    assert forall|i: int| 0 <= i < n implies nearest(samples, target, k).contains(i) by {
        lemma_total_strict(units(n), closer_set(samples, target, i), Set::new(|j: int| true), n, i);
        lemma_count_bound(Set::new(|j: int| true), n);
    }
    lemma_total_same(weights(samples), nearest(samples, target, k), all, n);
    lemma_total_same(weighted(samples), nearest(samples, target, k), all, n);
}

/// Bounds on the occupancies of the chosen samples of positive weight bound
/// the weighted total by the total weight.
proof fn lemma_totals_within_bounds(
    samples: Seq<Sample>,
    chosen: Set<int>,
    low: nat,
    high: nat,
    n: nat,
)
    requires
        n <= samples.len(),
        forall|i: int|
            0 <= i < samples.len() && chosen.contains(i) && samples[i].weight > 0 ==> low
                <= samples[i].occupancy <= high,
    ensures
        low * total(weights(samples), chosen, n) <= total(weighted(samples), chosen, n),
        total(weighted(samples), chosen, n) <= high * total(weights(samples), chosen, n),
    decreases n,
{
    if n > 0 {
        lemma_totals_within_bounds(samples, chosen, low, high, (n - 1) as nat);
        let w = samples[n - 1].weight as int;
        let o = samples[n - 1].occupancy as int;
        let weight_before = total(weights(samples), chosen, (n - 1) as nat) as int;
        let mass_before = total(weighted(samples), chosen, (n - 1) as nat) as int;
        let weight_now = total(weights(samples), chosen, n) as int;
        let mass_now = total(weighted(samples), chosen, n) as int;
        if chosen.contains(n - 1) {
            assert(w * o >= 0) by (nonlinear_arith)
                requires
                    w >= 0,
                    o >= 0,
            ;
            if w > 0 {
                assert(low * weight_now <= mass_now && mass_now <= high * weight_now)
                    by (nonlinear_arith)
                    requires
                        low <= o <= high,
                        w > 0,
                        weight_now == weight_before + w,
                        mass_now == mass_before + w * o,
                        low * weight_before <= mass_before,
                        mass_before <= high * weight_before,
                ;
            } else {
                assert(w * o == 0) by (nonlinear_arith)
                    requires
                        w == 0,
                ;
            }
        }
    } else {
        assert(low * 0 == 0 && high * 0 == 0) by (nonlinear_arith);
    }
}

/// A forecast lies within the range of the occupancies that it averages: no
/// lower than the lowest and no higher than the highest occupancy of a
/// neighbour of positive weight.
pub proof fn lemma_prediction_within_hull(
    samples: Seq<Sample>,
    target: int,
    k: nat,
    low: nat,
    high: nat,
)
    requires
        total(weights(samples), nearest(samples, target, k), samples.len()) > 0,
        forall|i: int|
            0 <= i < samples.len() && nearest(samples, target, k).contains(i) && samples[i].weight
                > 0 ==> low <= samples[i].occupancy <= high,
    ensures
        low <= prediction(samples, target, k) <= high,
{
    let near = nearest(samples, target, k);
    lemma_totals_within_bounds(samples, near, low, high, samples.len());
    let weight = total(weights(samples), near, samples.len()) as int;
    let mass = total(weighted(samples), near, samples.len()) as int;
    assert(low <= mass / weight <= high) by (nonlinear_arith)
        requires
            weight > 0,
            low * weight <= mass,
            mass <= high * weight,
            low >= 0,
    ;
}

/// A total over chosen indices is a sum over the samples, where what each
/// index adds depends on its sample alone.
proof fn lemma_total_by_value(
    samples: Seq<Sample>,
    values: Seq<nat>,
    chosen: Set<int>,
    value: spec_fn(Sample) -> nat,
    n: nat,
)
    requires
        n <= samples.len(),
        forall|i: int|
            0 <= i < n ==> value(#[trigger] samples[i]) == if chosen.contains(i) {
                values[i]
            } else {
                0
            },
    ensures
        total(values, chosen, n) == sum_of(samples.take(n as int), value),
    decreases n,
{
    if n > 0 {
        lemma_total_by_value(samples, values, chosen, value, (n - 1) as nat);
        assert(samples.take(n as int).drop_last() == samples.take(n - 1));
    }
}

/// Taking one sample out of a list takes its value out of the sum.
proof fn lemma_sum_of_remove(samples: Seq<Sample>, value: spec_fn(Sample) -> nat, at: int)
    requires
        0 <= at < samples.len(),
    ensures
        sum_of(samples, value) == sum_of(samples.remove(at), value) + value(samples[at]),
    decreases samples.len(),
{
    if at == samples.len() - 1 {
    } else {
        lemma_sum_of_remove(samples.drop_last(), value, at);
        assert(samples.drop_last().remove(at) == samples.remove(at).drop_last());
    }
}

/// A sum over the samples does not depend on their order.
proof fn lemma_sum_of_rearranged(a: Seq<Sample>, b: Seq<Sample>, value: spec_fn(Sample) -> nat)
    requires
        a.to_multiset() == b.to_multiset(),
    ensures
        sum_of(a, value) == sum_of(b, value),
    decreases a.len(),
{
    a.to_multiset_ensures();
    b.to_multiset_ensures();
    if a.len() > 0 {
        let x = a.last();
        assert(a[a.len() - 1] == x);
        assert(a.contains(x));
        assert(a.to_multiset().count(x) > 0);
        assert(b.to_multiset().count(x) > 0);
        assert(b.contains(x));
        let at = choose|at: int| 0 <= at < b.len() && b[at] == x;
        assert(a.drop_last() == a.remove(a.len() - 1));
        assert(a.drop_last().to_multiset() == b.remove(at).to_multiset());
        lemma_sum_of_rearranged(a.drop_last(), b.remove(at), value);
        lemma_sum_of_remove(b, value, at);
    } else {
        assert(b.len() == 0);
    }
}

/// Where exactly as many samples lie within `bound` as there are neighbours,
/// the neighbours are the samples within `bound`.
pub proof fn lemma_clean_cut_nearest(samples: Seq<Sample>, target: int, k: nat, bound: int)
    requires
        count_in(within(samples, target, bound), samples.len()) == if samples.len() <= k {
            samples.len()
        } else {
            k
        },
    ensures
        forall|i: int|
            0 <= i < samples.len() ==> (nearest(samples, target, k).contains(i) <==> distance(
                samples[i].time as int,
                target,
            ) <= bound),
{
    let n = samples.len();
    let inside = within(samples, target, bound);
    if n <= k {
        lemma_count_full(inside, n);
        lemma_few_samples_all_take_part(samples, target, k);
        assert forall|i: int| 0 <= i < n implies (nearest(samples, target, k).contains(i)
            <==> distance(samples[i].time as int, target) <= bound) by {
            assert(inside.contains(i));
        }
    } else {
        assert forall|i: int| 0 <= i < n implies (nearest(samples, target, k).contains(i)
            <==> distance(samples[i].time as int, target) <= bound) by {
            let before = closer_set(samples, target, i);
            if distance(samples[i].time as int, target) <= bound {
                lemma_total_strict(units(n), before, inside, n, i);
            } else {
                lemma_total_monotone(units(n), inside, before, n);
            }
        }
    }
}

/// With no more than `k` samples the forecast does not depend on their order.
pub proof fn lemma_prediction_of_few_ignores_order(
    a: Seq<Sample>,
    b: Seq<Sample>,
    target: int,
    k: nat,
)
    requires
        a.to_multiset() == b.to_multiset(),
        a.len() <= k,
    ensures
        prediction(a, target, k) == prediction(b, target, k),
{
    a.to_multiset_ensures();
    b.to_multiset_ensures();
    let n = a.len();
    let weight = |x: Sample| x.weight as nat;
    let mass = |x: Sample| (x.weight * x.occupancy) as nat;
    lemma_few_samples_all_take_part(a, target, k);
    lemma_few_samples_all_take_part(b, target, k);
    assert(a.take(n as int) == a);
    assert(b.take(n as int) == b);
    lemma_total_by_value(a, weights(a), nearest(a, target, k), weight, n);
    lemma_total_by_value(b, weights(b), nearest(b, target, k), weight, n);
    lemma_sum_of_rearranged(a, b, weight);
    lemma_total_by_value(a, weighted(a), nearest(a, target, k), mass, n);
    lemma_total_by_value(b, weighted(b), nearest(b, target, k), mass, n);
    lemma_sum_of_rearranged(a, b, mass);
}

/// The forecast does not depend on the order of the samples, as long as the
/// choice of neighbours splits no tie: no sample that is left out lies exactly
/// as near to the target as one that is taken. (Where it does, the earlier of
/// the two is taken, and so the order decides.)
pub proof fn lemma_prediction_ignores_order(
    a: Seq<Sample>,
    b: Seq<Sample>,
    target: int,
    k: nat,
)
    requires
        a.to_multiset() == b.to_multiset(),
        splits_no_tie(a, target, k),
    ensures
        prediction(a, target, k) == prediction(b, target, k),
{
    a.to_multiset_ensures();
    b.to_multiset_ensures();
    lemma_no_tie_cuts_cleanly(a, target, k);
    let n = a.len();
    let bound = choose|bound: int| #[trigger]
        count_in(within(a, target, bound), a.len()) == if a.len() <= k {
            a.len()
        } else {
            k
        };
    let one = |x: Sample|
        if distance(x.time as int, target) <= bound {
            1nat
        } else {
            0nat
        };
    let weight = |x: Sample|
        if distance(x.time as int, target) <= bound {
            x.weight as nat
        } else {
            0nat
        };
    let mass = |x: Sample|
        if distance(x.time as int, target) <= bound {
            (x.weight * x.occupancy) as nat
        } else {
            0nat
        };
    assert(a.take(n as int) == a);
    assert(b.take(n as int) == b);
    lemma_total_by_value(a, units(n), within(a, target, bound), one, n);
    lemma_total_by_value(b, units(n), within(b, target, bound), one, n);
    lemma_sum_of_rearranged(a, b, one);
    lemma_clean_cut_nearest(a, target, k, bound);
    lemma_clean_cut_nearest(b, target, k, bound);
    lemma_total_by_value(a, weights(a), nearest(a, target, k), weight, n);
    lemma_total_by_value(b, weights(b), nearest(b, target, k), weight, n);
    lemma_sum_of_rearranged(a, b, weight);
    lemma_total_by_value(a, weighted(a), nearest(a, target, k), mass, n);
    lemma_total_by_value(b, weighted(b), nearest(b, target, k), mass, n);
    lemma_sum_of_rearranged(a, b, mass);
}

} // verus!
