use vstd::prelude::*;

verus! {

/// Sum of `values[i]` over the indices `i` below `n` that lie in `chosen`.
pub open spec fn total(values: Seq<nat>, chosen: Set<int>, n: nat) -> nat
    decreases n,
{
    if n == 0 {
        0
    } else {
        total(values, chosen, (n - 1) as nat) + if chosen.contains(n - 1) {
            values[n - 1]
        } else {
            0
        }
    }
}

/// The sequence of `n` ones.
pub open spec fn units(n: nat) -> Seq<nat> {
    Seq::new(n, |i: int| 1nat)
}

/// How many of the indices below `n` lie in `chosen`.
pub open spec fn count_in(chosen: Set<int>, n: nat) -> nat {
    total(units(n), chosen, n)
}

/// Sum of `values[picks[p]]` over the positions `p` of `picks`.
pub open spec fn picked_total(values: Seq<nat>, picks: Seq<int>) -> nat
    decreases picks.len(),
{
    if picks.len() == 0 {
        0
    } else {
        picked_total(values, picks.drop_last()) + values[picks.last()]
    }
}

/// The indices that occur in `picks`.
pub open spec fn picked(picks: Seq<int>) -> Set<int> {
    Set::new(|i: int| picks.contains(i))
}

/// A larger choice of indices has a total at least as large.
pub proof fn lemma_total_monotone(values: Seq<nat>, a: Set<int>, b: Set<int>, n: nat)
    requires
        forall|i: int| 0 <= i < n && a.contains(i) ==> b.contains(i),
    ensures
        total(values, a, n) <= total(values, b, n),
    decreases n,
{
    if n > 0 {
        lemma_total_monotone(values, a, b, (n - 1) as nat);
    }
}

/// Two choices that agree below `n` have the same total.
pub proof fn lemma_total_same(values: Seq<nat>, a: Set<int>, b: Set<int>, n: nat)
    requires
        forall|i: int| 0 <= i < n ==> a.contains(i) == b.contains(i),
    ensures
        total(values, a, n) == total(values, b, n),
    decreases n,
{
    if n > 0 {
        lemma_total_same(values, a, b, (n - 1) as nat);
    }
}

/// A choice that holds no index below `n` has total zero.
pub proof fn lemma_total_none(values: Seq<nat>, a: Set<int>, n: nat)
    requires
        forall|i: int| 0 <= i < n ==> !a.contains(i),
    ensures
        total(values, a, n) == 0,
    decreases n,
{
    if n > 0 {
        lemma_total_none(values, a, (n - 1) as nat);
    }
}

/// Adding one index `x` to a choice adds `values[x]` to its total.
pub proof fn lemma_total_insert(values: Seq<nat>, a: Set<int>, b: Set<int>, n: nat, x: int)
    requires
        0 <= x < n,
        !a.contains(x),
        b.contains(x),
        forall|i: int| 0 <= i < n && i != x ==> a.contains(i) == b.contains(i),
    ensures
        total(values, b, n) == total(values, a, n) + values[x],
    decreases n,
{
    if n - 1 == x {
        lemma_total_same(values, a, b, (n - 1) as nat);
    } else {
        lemma_total_insert(values, a, b, (n - 1) as nat, x);
    }
}

/// A larger choice that holds one more index of positive value has a strictly
/// larger total.
pub proof fn lemma_total_strict(values: Seq<nat>, a: Set<int>, b: Set<int>, n: nat, x: int)
    requires
        forall|i: int| 0 <= i < n && a.contains(i) ==> b.contains(i),
        0 <= x < n,
        !a.contains(x),
        b.contains(x),
        values[x] > 0,
    ensures
        total(values, a, n) < total(values, b, n),
    decreases n,
{
    if n - 1 == x {
        lemma_total_monotone(values, a, b, (n - 1) as nat);
    } else {
        lemma_total_strict(values, a, b, (n - 1) as nat, x);
    }
}

/// No more than `n` indices below `n` lie in a choice.
pub proof fn lemma_count_bound(a: Set<int>, n: nat)
    ensures
        count_in(a, n) <= n,
{
    lemma_unit_total_bound(a, n, n);
}

proof fn lemma_unit_total_bound(a: Set<int>, len: nat, n: nat)
    requires
        n <= len,
    ensures
        total(units(len), a, n) <= n,
    decreases n,
{
    if n > 0 {
        lemma_unit_total_bound(a, len, (n - 1) as nat);
    }
}

/// A choice that holds every index below `n` counts `n` of them.
pub proof fn lemma_count_all(a: Set<int>, n: nat)
    requires
        forall|i: int| 0 <= i < n ==> a.contains(i),
    ensures
        count_in(a, n) == n,
{
    lemma_unit_total_all(a, n, n);
}

proof fn lemma_unit_total_all(a: Set<int>, len: nat, n: nat)
    requires
        n <= len,
        forall|i: int| 0 <= i < n ==> a.contains(i),
    ensures
        total(units(len), a, n) == n,
    decreases n,
{
    if n > 0 {
        lemma_unit_total_all(a, len, (n - 1) as nat);
    }
}

/// A choice that counts `n` indices below `n` holds all of them.
pub proof fn lemma_count_full(a: Set<int>, n: nat)
    requires
        count_in(a, n) == n,
    ensures
        forall|i: int| 0 <= i < n ==> a.contains(i),
{
    assert forall|i: int| 0 <= i < n implies a.contains(i) by {
        if !a.contains(i) {
            let all = Set::new(|j: int| true);
            lemma_total_strict(units(n), a, all, n, i);
            lemma_count_bound(all, n);
        }
    }
}

/// The total over the indices of a list without repeats is the sum along the
/// list.
pub proof fn lemma_total_of_picks(values: Seq<nat>, picks: Seq<int>, n: nat)
    requires
        picks.no_duplicates(),
        forall|p: int| 0 <= p < picks.len() ==> 0 <= #[trigger] picks[p] < n,
    ensures
        total(values, picked(picks), n) == picked_total(values, picks),
    decreases picks.len(),
{
    if picks.len() == 0 {
        lemma_total_none(values, picked(picks), n);
    } else {
        let init = picks.drop_last();
        let x = picks.last();
        assert(picks[picks.len() - 1] == x);
        assert forall|i: int| 0 <= i < n && i != x implies picked(init).contains(i) == picked(
            picks,
        ).contains(i) by {
            if picks.contains(i) {
                let p = choose|p: int| 0 <= p < picks.len() && picks[p] == i;
                assert(init[p] == i);
            }
            if init.contains(i) {
                let p = choose|p: int| 0 <= p < init.len() && init[p] == i;
                assert(picks[p] == i);
            }
        }
        if init.contains(x) {
            let p = choose|p: int| 0 <= p < init.len() && init[p] == x;
            assert(picks[p] == x);
        }
        lemma_total_of_picks(values, init, n);
        lemma_total_insert(values, picked(init), picked(picks), n, x);
    }
}

/// A list of indices below `n` without repeats counts as many indices as it is
/// long.
pub proof fn lemma_count_of_picks(picks: Seq<int>, n: nat)
    requires
        picks.no_duplicates(),
        forall|p: int| 0 <= p < picks.len() ==> 0 <= #[trigger] picks[p] < n,
    ensures
        count_in(picked(picks), n) == picks.len(),
{
    lemma_total_of_picks(units(n), picks, n);
    lemma_unit_picked_total(picks, n);
}

proof fn lemma_unit_picked_total(picks: Seq<int>, n: nat)
    requires
        forall|p: int| 0 <= p < picks.len() ==> 0 <= #[trigger] picks[p] < n,
    ensures
        picked_total(units(n), picks) == picks.len(),
    decreases picks.len(),
{
    if picks.len() > 0 {
        lemma_unit_picked_total(picks.drop_last(), n);
    }
}

} // verus!
