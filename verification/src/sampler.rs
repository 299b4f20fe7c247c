//! The load sampler: a rolling window of submissions per tick.

use crate::config::{LOAD_PERCENTILE, WINDOW_LEN};
use crate::ranges::copy_range;
use crate::stats::{
    kth_smallest, lemma_count_monotone, lemma_count_push, lemma_count_skip, lemma_kth_exists,
    lemma_kth_within, lemma_nearest_rank_in_range, lemma_nearest_rank_monotone, mean, mean_of,
    nearest_rank, percentile, percentile_of,
};
use vstd::prelude::*;

verus! {

/// What a sampler holds, as plain values.
pub struct SamplerView {
    /// The samples of the window, oldest first.
    pub window: Seq<u64>,
    /// The number of ticks recorded since the sampler was made.
    pub ticks: nat,
}

/// The window after one more sample: the sample is appended, and where the
/// window was full the oldest samples leave so that it holds `WINDOW_LEN`.
pub open spec fn recorded(window: Seq<u64>, sample: u64) -> Seq<u64> {
    if window.len() < WINDOW_LEN {
        window.push(sample)
    } else {
        window.skip(window.len() - WINDOW_LEN + 1).push(sample)
    }
}

/// The number of dynamic workers that a window calls for under a cap: its
/// upper percentile, and no more than the cap.
pub open spec fn recommended(window: Seq<u64>, soft_cap: u64) -> u64 {
    let p = percentile(window, LOAD_PERCENTILE as nat);
    if p <= soft_cap {
        p
    } else {
        soft_cap
    }
}

/// The last `n` items of `s`, or all of `s` where it has no more than `n`.
pub open spec fn last_of(s: Seq<u64>, n: nat) -> Seq<u64> {
    if s.len() <= n {
        s
    } else {
        s.skip(s.len() - n)
    }
}

/// The window after one sample for each count of `counts`, in their order.
pub open spec fn recorded_all(window: Seq<u64>, counts: Seq<u64>) -> Seq<u64>
    decreases counts.len(),
{
    if counts.len() == 0 {
        window
    } else {
        recorded(recorded_all(window, counts.drop_last()), counts.last())
    }
}

/// A window never holds more than `WINDOW_LEN` samples once a sample has
/// been recorded, and it grows by one sample at most.
pub proof fn lemma_recorded_len(window: Seq<u64>, sample: u64)
    ensures
        1 <= recorded(window, sample).len() <= WINDOW_LEN,
        recorded(window, sample).len() <= window.len() + 1,
        recorded(window, sample).last() == sample,
{
}

/// The window is the recent history: after any run of ticks it holds the
/// last `WINDOW_LEN` of all the samples it was ever given, oldest first.
pub proof fn lemma_window_is_recent_history(window: Seq<u64>, counts: Seq<u64>)
    requires
        window.len() <= WINDOW_LEN,
    ensures
        recorded_all(window, counts) == last_of(window + counts, WINDOW_LEN as nat),
    decreases counts.len(),
{
    if counts.len() == 0 {
        assert(window + counts =~= window);
    } else {
        let before = counts.drop_last();
        lemma_window_is_recent_history(window, before);
        let history = window + before;
        assert(window + counts =~= history.push(counts.last()));
        assert(recorded(last_of(history, WINDOW_LEN as nat), counts.last()) =~= last_of(
            history.push(counts.last()),
            WINDOW_LEN as nat,
        ));
    }
}

/// A tick that counts at least as many submissions as every tick in the
/// window does not lower the percentile of the window, nor the number of
/// workers it calls for.
pub proof fn lemma_rising_sample_keeps_percentile(window: Seq<u64>, sample: u64, soft_cap: u64)
    requires
        window.len() <= WINDOW_LEN,
        forall|i: int| 0 <= i < window.len() ==> #[trigger] window[i] <= sample,
    ensures
        percentile(window, LOAD_PERCENTILE as nat) <= percentile(
            recorded(window, sample),
            LOAD_PERCENTILE as nat,
        ),
        recommended(window, soft_cap) <= recommended(recorded(window, sample), soft_cap),
{
    let pct = LOAD_PERCENTILE as nat;
    let after = recorded(window, sample);
    if window.len() > 0 {
        let k = nearest_rank(window.len(), pct);
        let later_rank = nearest_rank(after.len(), pct);
        lemma_nearest_rank_in_range(window.len(), pct);
        lemma_nearest_rank_in_range(after.len(), pct);
        lemma_kth_exists(window, k);
        lemma_kth_exists(after, later_rank);
        let earlier = kth_smallest(window, k);
        let later = kth_smallest(after, later_rank);
        if later < earlier {
            let i = choose|i: int| 0 <= i < window.len() && window[i] == earlier;
            assert(window[i] <= sample);
            lemma_count_monotone(window, later, earlier);
            if window.len() < WINDOW_LEN {
                lemma_count_push(window, sample, later);
                lemma_nearest_rank_monotone(window.len(), after.len(), pct);
            } else {
                let rest = window.skip(window.len() - WINDOW_LEN + 1);
                lemma_count_push(rest, sample, later);
                lemma_count_skip(window, window.len() - WINDOW_LEN + 1, later);
            }
            assert(false);
        }
    }
}

/// A window in which every tick counted no submission calls for no
/// dynamic worker.
pub proof fn lemma_idle_window_recommends_none(window: Seq<u64>, soft_cap: u64)
    requires
        forall|i: int| 0 <= i < window.len() ==> #[trigger] window[i] == 0,
    ensures
        percentile(window, LOAD_PERCENTILE as nat) == 0,
        recommended(window, soft_cap) == 0,
{
    if window.len() > 0 {
        lemma_nearest_rank_in_range(window.len(), LOAD_PERCENTILE as nat);
        lemma_kth_within(window, nearest_rank(window.len(), LOAD_PERCENTILE as nat), 0, 0);
    }
}

/// A rolling window of the submissions counted in each of the last ticks.
pub struct LoadSampler {
    window: Vec<u64>,
    ticks: u64,
}

impl View for LoadSampler {
    type V = SamplerView;

    closed spec fn view(&self) -> SamplerView {
        SamplerView { window: self.window@, ticks: self.ticks as nat }
    }
}

impl LoadSampler {
    /// The window holds no more than `WINDOW_LEN` samples.
    #[verifier::type_invariant]
    pub open spec fn bounded(self) -> bool {
        self@.window.len() <= WINDOW_LEN
    }

    /// A sampler with an empty window, before its first tick.
    pub fn new() -> (s: LoadSampler)
        ensures
            s@.window == Seq::<u64>::empty(),
            s@.ticks == 0,
    {
        LoadSampler { window: Vec::new(), ticks: 0 }
    }

    /// Records the submissions counted since the last tick.
    pub fn record(&mut self, submissions: u64)
        requires
            old(self)@.ticks < u64::MAX,
        ensures
            final(self)@.window == recorded(old(self)@.window, submissions),
            final(self)@.ticks == old(self)@.ticks + 1,
            final(self)@.window.len() <= WINDOW_LEN,
    {
        proof {
            use_type_invariant(&*self);
        }
        let n = self.window.len();
        let start: usize = if n >= WINDOW_LEN {
            n - WINDOW_LEN + 1
        } else {
            0
        };
        let mut next = copy_range(&self.window, start, n);
        next.push(submissions);
        self.window = next;
        self.ticks = self.ticks + 1;
    }

    /// The number of samples in the window.
    pub fn len(&self) -> (n: usize)
        ensures
            n == self@.window.len(),
            n <= WINDOW_LEN,
    {
        proof {
            use_type_invariant(self);
        }
        self.window.len()
    }

    /// The number of ticks recorded so far.
    pub fn ticks(&self) -> (t: u64)
        ensures
            t == self@.ticks,
    {
        self.ticks
    }

    /// The samples of the window, oldest first.
    pub fn samples(&self) -> (w: Vec<u64>)
        ensures
            w@ == self@.window,
    {
        self.window.clone()
    }

    /// The upper percentile of the window, and 0 before the first tick.
    pub fn percentile(&self) -> (p: u64)
        ensures
            p == percentile(self@.window, LOAD_PERCENTILE as nat),
    {
        percentile_of(&self.window)
    }

    /// The mean submissions per tick over the window, rounded down.
    pub fn mean(&self) -> (m: u64)
        ensures
            m == mean(self@.window),
    {
        mean_of(&self.window)
    }

    /// The number of dynamic workers the recent load calls for, at most `soft_cap`.
    pub fn recommended_workers(&self, soft_cap: u64) -> (n: u64)
        ensures
            n == recommended(self@.window, soft_cap),
            n <= soft_cap,
    {
        let p = self.percentile();
        if p <= soft_cap {
            p
        } else {
            soft_cap
        }
    }
}

} // verus!
