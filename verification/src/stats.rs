//! Order statistics of a window of samples.
//!
//! The k-th smallest sample is described by two counts rather than by a
//! sorted copy: fewer than k samples lie below it, and at least k samples
//! are no larger. Exactly one value meets both for each k from 1 to the
//! number of samples.

use crate::config::LOAD_PERCENTILE;
use vstd::prelude::*;

verus! {

/// How many samples of `s` are smaller than `v`.
pub open spec fn count_below(s: Seq<u64>, v: u64) -> nat
    decreases s.len(),
{
    if s.len() == 0 {
        0
    } else {
        count_below(s.drop_last(), v) + if s.last() < v {
            1nat
        } else {
            0nat
        }
    }
}

/// How many samples of `s` are `v` or smaller.
pub open spec fn count_at_most(s: Seq<u64>, v: u64) -> nat
    decreases s.len(),
{
    if s.len() == 0 {
        0
    } else {
        count_at_most(s.drop_last(), v) + if s.last() <= v {
            1nat
        } else {
            0nat
        }
    }
}

/// The sum of the samples of `s`.
pub open spec fn total(s: Seq<u64>) -> nat
    decreases s.len(),
{
    if s.len() == 0 {
        0
    } else {
        total(s.drop_last()) + s.last() as nat
    }
}

/// Whether `v` stands at place `k`, counted from 1, when `s` is put in
/// ascending order.
pub open spec fn is_kth_smallest(s: Seq<u64>, k: nat, v: u64) -> bool {
    count_below(s, v) < k <= count_at_most(s, v)
}

/// The sample at place `k`, counted from 1, of `s` in ascending order.
/// Meaningful for `1 <= k <= s.len()`.
pub open spec fn kth_smallest(s: Seq<u64>, k: nat) -> u64 {
    choose|v: u64| is_kth_smallest(s, k, v)
}

/// The place, counted from 1, of the `pct`-th percentile among `n` samples
/// in ascending order, by the nearest-rank rule: `pct * n / 100`, rounded up.
pub open spec fn nearest_rank(n: nat, pct: nat) -> nat {
    (pct * n + 99) / 100
}

/// The `pct`-th percentile of `s` by the nearest-rank rule, and 0 for an
/// empty window.
pub open spec fn percentile(s: Seq<u64>, pct: nat) -> u64 {
    if s.len() == 0 {
        0
    } else {
        kth_smallest(s, nearest_rank(s.len(), pct))
    }
}

/// The mean of `s`, rounded down, and 0 for an empty window.
pub open spec fn mean(s: Seq<u64>) -> nat {
    if s.len() == 0 {
        0
    } else {
        total(s) / s.len()
    }
}

/// Both counts grow with the value they are taken at, and a sample that
/// is at most `u` lies below every `v` above `u`.
pub proof fn lemma_count_monotone(s: Seq<u64>, u: u64, v: u64)
    requires
        u <= v,
    ensures
        count_below(s, u) <= count_below(s, v),
        count_at_most(s, u) <= count_at_most(s, v),
        u < v ==> count_at_most(s, u) <= count_below(s, v),
    decreases s.len(),
{
    if s.len() > 0 {
        lemma_count_monotone(s.drop_last(), u, v);
    }
}

/// A value that more samples are at most than lie below is itself a sample.
pub proof fn lemma_count_gap(s: Seq<u64>, v: u64)
    requires
        count_below(s, v) < count_at_most(s, v),
    ensures
        s.contains(v),
    decreases s.len(),
{
    if s.len() > 0 {
        if s.last() == v {
            assert(s[s.len() - 1] == v);
        } else {
            lemma_count_gap(s.drop_last(), v);
            let i = choose|i: int| 0 <= i < s.drop_last().len() && s.drop_last()[i] == v;
            assert(s[i] == v);
        }
    }
}

/// Over integers, to lie below `v` is to be at most `v - 1`.
pub proof fn lemma_below_is_at_most_pred(s: Seq<u64>, v: u64)
    requires
        v > 0,
    ensures
        count_below(s, v) == count_at_most(s, (v - 1) as u64),
    decreases s.len(),
{
    if s.len() > 0 {
        lemma_below_is_at_most_pred(s.drop_last(), v);
    }
}

/// No sample lies below 0.
pub proof fn lemma_none_below_zero(s: Seq<u64>)
    ensures
        count_below(s, 0) == 0,
    decreases s.len(),
{
    if s.len() > 0 {
        lemma_none_below_zero(s.drop_last());
    }
}

/// Every sample is at most the largest 64-bit number.
pub proof fn lemma_all_at_most_max(s: Seq<u64>)
    ensures
        count_at_most(s, u64::MAX) == s.len(),
    decreases s.len(),
{
    if s.len() > 0 {
        lemma_all_at_most_max(s.drop_last());
    }
}

/// At most one value stands at place `k`.
pub proof fn lemma_kth_unique(s: Seq<u64>, k: nat, u: u64, v: u64)
    requires
        is_kth_smallest(s, k, u),
        is_kth_smallest(s, k, v),
    ensures
        u == v,
{
    if u < v {
        lemma_count_monotone(s, u, v);
    } else if v < u {
        lemma_count_monotone(s, v, u);
    }
}

proof fn lemma_kth_exists_from(s: Seq<u64>, k: nat, v: u64)
    requires
        1 <= k <= count_at_most(s, v),
    ensures
        exists|w: u64| is_kth_smallest(s, k, w),
    decreases v,
{
    if v == 0 {
        lemma_none_below_zero(s);
        assert(is_kth_smallest(s, k, 0));
    } else {
        lemma_below_is_at_most_pred(s, v);
        if count_at_most(s, (v - 1) as u64) >= k {
            lemma_kth_exists_from(s, k, (v - 1) as u64);
        } else {
            assert(is_kth_smallest(s, k, v));
        }
    }
}

/// Every place from 1 to the number of samples is taken by a sample, and
/// `kth_smallest` names it.
pub proof fn lemma_kth_exists(s: Seq<u64>, k: nat)
    requires
        1 <= k <= s.len(),
    ensures
        is_kth_smallest(s, k, kth_smallest(s, k)),
        s.contains(kth_smallest(s, k)),
{
    lemma_all_at_most_max(s);
    lemma_kth_exists_from(s, k, u64::MAX);
    lemma_count_gap(s, kth_smallest(s, k));
}

/// The nearest rank of a percentile from 1 to 100 is a place of the window.
pub proof fn lemma_nearest_rank_in_range(n: nat, pct: nat)
    requires
        n >= 1,
        1 <= pct <= 100,
    ensures
        1 <= nearest_rank(n, pct) <= n,
{
    assert(pct * n >= n) by (nonlinear_arith)
        requires
            pct >= 1,
    ;
    assert(pct * n <= 100 * n) by (nonlinear_arith)
        requires
            pct <= 100,
    ;
}

/// The sum of a window is at most as many times the largest 64-bit number
/// as it has samples.
pub proof fn lemma_total_bound(s: Seq<u64>)
    ensures
        total(s) <= s.len() * u64::MAX,
    decreases s.len(),
{
    if s.len() > 0 {
        lemma_total_bound(s.drop_last());
        assert(s.drop_last().len() * u64::MAX + u64::MAX == s.len() * u64::MAX)
            by (nonlinear_arith)
            requires
                s.drop_last().len() + 1 == s.len(),
        ;
    }
}

/// The counts of a window that is made of two parts are the sums of the
/// counts of the parts.
pub proof fn lemma_count_concat(a: Seq<u64>, b: Seq<u64>, v: u64)
    ensures
        count_below(a + b, v) == count_below(a, v) + count_below(b, v),
        count_at_most(a + b, v) == count_at_most(a, v) + count_at_most(b, v),
    decreases b.len(),
{
    if b.len() == 0 {
        assert(a + b =~= a);
    } else {
        assert((a + b).drop_last() =~= a + b.drop_last());
        lemma_count_concat(a, b.drop_last(), v);
    }
}

/// One more sample adds one to each count that it falls under.
pub proof fn lemma_count_push(s: Seq<u64>, x: u64, v: u64)
    ensures
        count_below(s.push(x), v) == count_below(s, v) + if x < v {
            1nat
        } else {
            0nat
        },
        count_at_most(s.push(x), v) == count_at_most(s, v) + if x <= v {
            1nat
        } else {
            0nat
        },
{
    assert(s.push(x).drop_last() =~= s);
}

/// The later part of a window counts no more than the whole window.
pub proof fn lemma_count_skip(s: Seq<u64>, n: int, v: u64)
    requires
        0 <= n <= s.len(),
    ensures
        count_below(s.skip(n), v) <= count_below(s, v),
        count_at_most(s.skip(n), v) <= count_at_most(s, v),
{
    assert(s.take(n) + s.skip(n) =~= s);
    lemma_count_concat(s.take(n), s.skip(n), v);
}

/// The sample at a place lies between the smallest and the largest sample:
/// where every sample is at least `lo` and at most `hi`, so is it.
pub proof fn lemma_kth_within(s: Seq<u64>, k: nat, lo: u64, hi: u64)
    requires
        1 <= k <= s.len(),
        forall|i: int| 0 <= i < s.len() ==> lo <= #[trigger] s[i] <= hi,
    ensures
        lo <= kth_smallest(s, k) <= hi,
{
    lemma_kth_exists(s, k);
    let v = kth_smallest(s, k);
    let i = choose|i: int| 0 <= i < s.len() && s[i] == v;
    assert(lo <= s[i] <= hi);
}

/// The nearest rank of a percentile does not fall when the window grows.
pub proof fn lemma_nearest_rank_monotone(n: nat, m: nat, pct: nat)
    requires
        n <= m,
    ensures
        nearest_rank(n, pct) <= nearest_rank(m, pct),
{
    assert(pct * n <= pct * m) by (nonlinear_arith)
        requires
            n <= m,
    ;
}

/// Counts the samples of `w` that are smaller than `v`.
pub fn count_below_in(w: &Vec<u64>, v: u64) -> (c: usize)
    ensures
        c == count_below(w@, v),
{
    let mut c: usize = 0;
    let mut i: usize = 0;
    while i < w.len()
        invariant
            i <= w.len(),
            c <= i,
            c == count_below(w@.take(i as int), v),
        decreases w.len() - i,
    {
        assert(w@.take(i + 1).drop_last() =~= w@.take(i as int));
        if w[i] < v {
            c += 1;
        }
        i += 1;
    }
    assert(w@.take(i as int) =~= w@);
    c
}

/// Counts the samples of `w` that are `v` or smaller.
pub fn count_at_most_in(w: &Vec<u64>, v: u64) -> (c: usize)
    ensures
        c == count_at_most(w@, v),
{
    let mut c: usize = 0;
    let mut i: usize = 0;
    while i < w.len()
        invariant
            i <= w.len(),
            c <= i,
            c == count_at_most(w@.take(i as int), v),
        decreases w.len() - i,
    {
        assert(w@.take(i + 1).drop_last() =~= w@.take(i as int));
        if w[i] <= v {
            c += 1;
        }
        i += 1;
    }
    assert(w@.take(i as int) =~= w@);
    c
}

/// The sample at place `k`, counted from 1, of `w` in ascending order, or
/// `None` where `w` has no such place.
pub fn select_kth(w: &Vec<u64>, k: usize) -> (r: Option<u64>)
    ensures
        r is Some <==> 1 <= k <= w.len(),
        r matches Some(v) ==> is_kth_smallest(w@, k as nat, v) && v == kth_smallest(w@, k as nat),
{
    if k == 0 || k > w.len() {
        return None;
    }
    let mut i: usize = 0;
    while i < w.len()
        invariant
            i <= w.len(),
            1 <= k <= w.len(),
            forall|j: int| 0 <= j < i ==> !is_kth_smallest(w@, k as nat, #[trigger] w@[j]),
        decreases w.len() - i,
    {
        let v = w[i];
        let below = count_below_in(w, v);
        let at_most = count_at_most_in(w, v);
        if below < k && k <= at_most {
            proof {
                lemma_kth_exists(w@, k as nat);
                lemma_kth_unique(w@, k as nat, v, kth_smallest(w@, k as nat));
            }
            return Some(v);
        }
        i += 1;
    }
    proof {
        lemma_kth_exists(w@, k as nat);
        let v = kth_smallest(w@, k as nat);
        let j = choose|j: int| 0 <= j < w@.len() && w@[j] == v;
        assert(!is_kth_smallest(w@, k as nat, w@[j]));
    }
    None
}

/// The place of the upper percentile among `n` samples.
fn upper_rank(n: usize) -> (r: usize)
    ensures
        r == nearest_rank(n as nat, LOAD_PERCENTILE as nat),
        r <= n,
{
    assert(0 <= LOAD_PERCENTILE * n <= 100 * n) by (nonlinear_arith)
        requires
            0 <= LOAD_PERCENTILE <= 100,
            0 <= n,
    ;
    let wide: u128 = (LOAD_PERCENTILE as u128 * n as u128 + 99) / 100;
    wide as usize
}

/// The upper percentile of `w` by the nearest-rank rule, and 0 for an
/// empty window.
pub fn percentile_of(w: &Vec<u64>) -> (v: u64)
    ensures
        v == percentile(w@, LOAD_PERCENTILE as nat),
        w.len() > 0 ==> is_kth_smallest(w@, nearest_rank(w@.len(), LOAD_PERCENTILE as nat), v),
{
    if w.len() == 0 {
        return 0;
    }
    proof {
        lemma_nearest_rank_in_range(w@.len(), LOAD_PERCENTILE as nat);
    }
    let k = upper_rank(w.len());
    match select_kth(w, k) {
        Some(v) => v,
        None => 0,
    }
}

/// The sum of the samples of `w`.
pub fn total_of(w: &Vec<u64>) -> (t: u128)
    ensures
        t == total(w@),
{
    let mut t: u128 = 0;
    let mut i: usize = 0;
    while i < w.len()
        invariant
            i <= w.len(),
            t == total(w@.take(i as int)),
        decreases w.len() - i,
    {
        proof {
            assert(w@.take(i + 1).drop_last() =~= w@.take(i as int));
            lemma_total_bound(w@.take(i + 1));
            assert((i + 1) * u64::MAX <= usize::MAX * u64::MAX) by (nonlinear_arith)
                requires
                    i + 1 <= usize::MAX,
            ;
            assert(usize::MAX * u64::MAX <= u64::MAX * u64::MAX) by (nonlinear_arith)
                requires
                    usize::MAX <= u64::MAX,
            ;
        }
        t = t + w[i] as u128;
        i += 1;
    }
    assert(w@.take(i as int) =~= w@);
    t
}

/// The mean of the samples of `w`, rounded down, and 0 for an empty window.
pub fn mean_of(w: &Vec<u64>) -> (m: u64)
    ensures
        m == mean(w@),
{
    if w.len() == 0 {
        return 0;
    }
    let t = total_of(w);
    let n = w.len() as u128;
    proof {
        lemma_total_bound(w@);
        assert(t / n <= u64::MAX) by (nonlinear_arith)
            requires
                t <= n * u64::MAX,
                n > 0,
        ;
    }
    (t / n) as u64
}

} // verus!
