//! The dynamic pool manager: how many dynamic workers a pool should have,
//! and which of them are woken or started at each tick.

use crate::config::{SOFT_CAP_FACTOR, WINDOW_LEN};
use crate::counter::SubmissionCounter;
use crate::registry::{lemma_without_is_distinct, without, ParkRegistry};
use crate::sampler::{
    lemma_idle_window_recommends_none, lemma_rising_sample_keeps_percentile,
    lemma_window_is_recent_history, recommended, recorded, recorded_all, LoadSampler,
};
use vstd::prelude::*;

verus! {

/// What a manager holds, as plain values.
pub struct ManagerView {
    /// The number of static workers, which is also the least number of
    /// workers that the scaler aims for.
    pub low_watermark: nat,
    /// The number of dynamic workers that were started and have not left.
    pub dynamic_count: nat,
    /// The parked dynamic workers, the one parked longest first.
    pub parked: Seq<u64>,
    /// The samples of the load window, oldest first.
    pub window: Seq<u64>,
    /// The number of ticks so far.
    pub ticks: nat,
}

impl ManagerView {
    /// The most dynamic workers that the scaler ever aims for.
    pub open spec fn soft_cap(self) -> nat {
        self.low_watermark * (SOFT_CAP_FACTOR as nat)
    }

    /// What holds of every manager: the soft cap is a 64-bit number, there
    /// are no more dynamic workers than the soft cap, no worker is parked
    /// twice, and the window is no longer than `WINDOW_LEN`.
    pub open spec fn wf(self) -> bool {
        &&& self.soft_cap() <= u64::MAX
        &&& self.dynamic_count <= self.soft_cap()
        &&& self.parked.no_duplicates()
        &&& self.window.len() <= WINDOW_LEN
    }

    /// The number of dynamic workers that the window calls for.
    pub open spec fn recommended(self) -> nat {
        recommended(self.window, self.soft_cap() as u64) as nat
    }

    /// The number of workers that the scaler aims for: what the window
    /// calls for, and no fewer than the low watermark.
    pub open spec fn desired(self) -> nat {
        if self.recommended() > self.low_watermark {
            self.recommended()
        } else {
            self.low_watermark
        }
    }

    /// How many workers the scaler has to wake or start to reach its aim.
    pub open spec fn deficit(self) -> nat {
        if self.desired() > self.dynamic_count {
            (self.desired() - self.dynamic_count) as nat
        } else {
            0
        }
    }

    /// How many of the missing workers are found among the parked ones.
    pub open spec fn woken(self) -> nat {
        if self.deficit() <= self.parked.len() {
            self.deficit()
        } else {
            self.parked.len()
        }
    }

    /// The parked workers that a scaling decision wakes: those parked longest.
    pub open spec fn to_unpark(self) -> Seq<u64> {
        self.parked.take(self.woken() as int)
    }

    /// The number of workers that a scaling decision starts: what is
    /// missing after every parked worker that can help has been woken.
    pub open spec fn to_spawn(self) -> nat {
        (self.deficit() - self.woken()) as nat
    }

    /// The manager after a tick that counted `submissions`.
    pub open spec fn ticked(self, submissions: u64) -> ManagerView {
        ManagerView { window: recorded(self.window, submissions), ticks: self.ticks + 1, ..self }
    }

    /// The manager after it has woken and started what a scaling decision
    /// asks for.
    pub open spec fn provisioned(self) -> ManagerView {
        ManagerView {
            parked: self.parked.skip(self.woken() as int),
            dynamic_count: self.dynamic_count + self.to_spawn(),
            ..self
        }
    }

    /// The manager after a tick that counted `submissions` and the scaling
    /// decision that follows it.
    pub open spec fn scaled(self, submissions: u64) -> ManagerView {
        self.ticked(submissions).provisioned()
    }

    /// The manager after a run of ticks, one for each count of `counts`.
    pub open spec fn after_ticks(self, counts: Seq<u64>) -> ManagerView
        decreases counts.len(),
    {
        if counts.len() == 0 {
            self
        } else {
            self.after_ticks(counts.drop_last()).scaled(counts.last())
        }
    }

    /// The manager after `worker` has parked.
    pub open spec fn with_parked(self, worker: u64) -> ManagerView {
        if self.parked.contains(worker) {
            self
        } else {
            ManagerView { parked: self.parked.push(worker), ..self }
        }
    }

    /// The manager after the worker parked longest, if any, was woken.
    pub open spec fn with_one_woken(self) -> ManagerView {
        if self.parked.len() > 0 {
            ManagerView { parked: self.parked.skip(1), ..self }
        } else {
            self
        }
    }

    /// The manager after one dynamic worker less is counted.
    pub open spec fn with_one_less(self) -> ManagerView {
        if self.dynamic_count > 0 {
            ManagerView { dynamic_count: (self.dynamic_count - 1) as nat, ..self }
        } else {
            self
        }
    }

    /// The manager after the dynamic worker `worker` has left.
    pub open spec fn with_retired(self, worker: u64) -> ManagerView {
        ManagerView { parked: without(self.parked, worker), ..self.with_one_less() }
    }
}

/// A run of `n` ticks in which nothing was submitted.
pub open spec fn idle_ticks(n: nat) -> Seq<u64> {
    Seq::new(n, |i: int| 0u64)
}

/// The aim of the scaler lies between the low watermark and the soft cap.
pub proof fn lemma_desired_in_range(v: ManagerView)
    requires
        v.soft_cap() <= u64::MAX,
    ensures
        v.low_watermark <= v.desired() <= v.soft_cap(),
        v.recommended() <= v.desired(),
{
}

/// The number of dynamic workers never exceeds the soft cap: what holds of
/// every manager holds again after whatever happens to it.
pub proof fn lemma_dynamic_workers_capped(v: ManagerView, submissions: u64, worker: u64)
    requires
        v.wf(),
    ensures
        v.dynamic_count <= v.soft_cap(),
        v.ticked(submissions).wf(),
        v.scaled(submissions).wf(),
        v.with_parked(worker).wf(),
        v.with_one_woken().wf(),
        v.with_one_less().wf(),
        v.with_retired(worker).wf(),
{
    let t = v.ticked(submissions);
    lemma_desired_in_range(t);
    lemma_without_is_distinct(v.parked, worker);
}

/// The number of static workers stays the low watermark that the manager
/// was made with, whatever happens to it.
pub proof fn lemma_static_workers_persist(v: ManagerView, submissions: u64, worker: u64)
    ensures
        v.scaled(submissions).low_watermark == v.low_watermark,
        v.with_parked(worker).low_watermark == v.low_watermark,
        v.with_one_woken().low_watermark == v.low_watermark,
        v.with_one_less().low_watermark == v.low_watermark,
        v.with_retired(worker).low_watermark == v.low_watermark,
        forall|counts: Seq<u64>| #[trigger] v.after_ticks(counts).low_watermark == v.low_watermark,
{
    assert forall|counts: Seq<u64>| #[trigger]
        v.after_ticks(counts).low_watermark == v.low_watermark by {
        lemma_after_ticks(v, counts);
    }
}

/// What a run of ticks leaves as it was, and what it does to the window.
pub proof fn lemma_after_ticks(v: ManagerView, counts: Seq<u64>)
    ensures
        v.after_ticks(counts).low_watermark == v.low_watermark,
        v.after_ticks(counts).ticks == v.ticks + counts.len(),
        v.after_ticks(counts).window == recorded_all(v.window, counts),
        v.wf() ==> v.after_ticks(counts).wf(),
    decreases counts.len(),
{
    if counts.len() > 0 {
        lemma_after_ticks(v, counts.drop_last());
        let before = v.after_ticks(counts.drop_last());
        if v.wf() {
            lemma_dynamic_workers_capped(before, counts.last(), 0);
        }
    }
}

/// A scaling decision never lowers the number of dynamic workers. It wakes
/// and starts exactly what is missing: the workers counted after it and
/// those it woke make up the aim, or the number before it where that was
/// above the aim.
pub proof fn lemma_scaling_never_shrinks(v: ManagerView, submissions: u64)
    ensures
        v.scaled(submissions).dynamic_count >= v.dynamic_count,
        v.scaled(submissions).dynamic_count + v.ticked(submissions).woken() == if v.dynamic_count
            >= v.ticked(submissions).desired() {
            v.dynamic_count
        } else {
            v.ticked(submissions).desired()
        },
        v.scaled(submissions).desired() == v.ticked(submissions).desired(),
{
}

/// Over any run of ticks the number of dynamic workers does not fall from
/// one tick to a later one.
pub proof fn lemma_scaler_monotone(v: ManagerView, counts: Seq<u64>, i: int, j: int)
    requires
        0 <= i <= j <= counts.len(),
    ensures
        v.after_ticks(counts.take(i)).dynamic_count <= v.after_ticks(counts.take(j)).dynamic_count,
    decreases j - i,
{
    if i < j {
        lemma_scaler_monotone(v, counts, i, j - 1);
        assert(counts.take(j).drop_last() =~= counts.take(j - 1));
        lemma_scaling_never_shrinks(v.after_ticks(counts.take(j - 1)), counts[j - 1]);
    }
}

/// A tick that counts at least as many submissions as every tick in the
/// window does not lower the aim of the scaler.
pub proof fn lemma_rising_load_raises_target(v: ManagerView, submissions: u64)
    requires
        v.wf(),
        forall|i: int| 0 <= i < v.window.len() ==> #[trigger] v.window[i] <= submissions,
    ensures
        v.desired() <= v.scaled(submissions).desired(),
        v.scaled(submissions).dynamic_count + v.ticked(submissions).woken() >= v.desired(),
{
    lemma_rising_sample_keeps_percentile(v.window, submissions, v.soft_cap() as u64);
}

/// Whether each count of `counts` is larger than the one before it.
pub open spec fn strictly_rising(counts: Seq<u64>) -> bool {
    forall|a: int, b: int| 0 <= a < b < counts.len() ==> counts[a] < counts[b]
}

/// Once a strictly rising load has lasted for as many ticks as the window
/// is long, the aim of the scaler does not fall from one tick to a later
/// one as long as the load goes on rising.
pub proof fn lemma_sustained_rise_raises_target(v: ManagerView, counts: Seq<u64>, i: int, j: int)
    requires
        v.wf(),
        strictly_rising(counts),
        WINDOW_LEN <= i <= j <= counts.len(),
    ensures
        v.after_ticks(counts.take(i)).desired() <= v.after_ticks(counts.take(j)).desired(),
    decreases j - i,
{
    if i < j {
        lemma_sustained_rise_raises_target(v, counts, i, j - 1);
        let before = counts.take(j - 1);
        let u = v.after_ticks(before);
        assert(counts.take(j).drop_last() =~= before);
        lemma_after_ticks(v, before);
        lemma_window_is_recent_history(v.window, before);
        let history = v.window + before;
        assert forall|k: int| 0 <= k < u.window.len() implies #[trigger] u.window[k] <= counts[j
            - 1] by {
            let at = history.len() - WINDOW_LEN + k;
            assert(u.window[k] == history[at]);
            assert(history[at] == counts[at - v.window.len()]);
        }
        lemma_rising_load_raises_target(u, counts[j - 1]);
    }
}

/// After as many idle ticks as the window is long, the window calls for no
/// dynamic worker and the scaler aims for the low watermark alone.
pub proof fn lemma_idle_window(v: ManagerView, n: nat)
    requires
        v.wf(),
        n >= WINDOW_LEN,
    ensures
        is_idle(v.after_ticks(idle_ticks(n)).window),
        v.after_ticks(idle_ticks(n)).recommended() == 0,
        v.after_ticks(idle_ticks(n)).desired() == v.low_watermark,
        v.after_ticks(idle_ticks(n)).deficit() == if v.after_ticks(idle_ticks(n)).dynamic_count
            < v.low_watermark {
            v.low_watermark - v.after_ticks(idle_ticks(n)).dynamic_count
        } else {
            0
        },
{
    let counts = idle_ticks(n);
    let u = v.after_ticks(counts);
    lemma_after_ticks(v, counts);
    lemma_window_is_recent_history(v.window, counts);
    let history = v.window + counts;
    assert forall|i: int| 0 <= i < u.window.len() implies #[trigger] u.window[i] == 0 by {
        assert(u.window[i] == history[history.len() - WINDOW_LEN + i]);
    }
    lemma_idle_window_recommends_none(u.window, u.soft_cap() as u64);
}

/// While the window is idle, a scaling decision starts workers only to
/// fill up to the low watermark: it leaves no more dynamic workers than
/// there were before it, or than the low watermark where that is more.
pub proof fn lemma_idle_scaling_fills_low_watermark(v: ManagerView)
    requires
        v.wf(),
        is_idle(v.window),
    ensures
        v.scaled(0).dynamic_count <= if v.dynamic_count >= v.low_watermark {
            v.dynamic_count
        } else {
            v.low_watermark
        },
        v.ticked(0).to_spawn() <= v.low_watermark,
        is_idle(v.scaled(0).window),
{
    let t = v.ticked(0);
    lemma_idle_window_recommends_none(t.window, t.soft_cap() as u64);
}

/// What happens to a pool while nothing is submitted.
pub enum IdleStep {
    /// A tick that counted no submission, and the scaling decision after it.
    Tick,
    /// The dynamic worker it names has been idle for its deadline and leaves.
    Retire(u64),
}

/// Whether no tick of `window` counted a submission.
pub open spec fn is_idle(window: Seq<u64>) -> bool {
    forall|i: int| 0 <= i < window.len() ==> #[trigger] window[i] == 0
}

/// The manager after the idle steps of `steps`, in their order.
pub open spec fn after_idle(v: ManagerView, steps: Seq<IdleStep>) -> ManagerView
    decreases steps.len(),
{
    if steps.len() == 0 {
        v
    } else {
        let before = after_idle(v, steps.drop_last());
        match steps.last() {
            IdleStep::Tick => before.scaled(0),
            IdleStep::Retire(worker) => before.with_retired(worker),
        }
    }
}

/// How many of `steps` are retirements.
pub open spec fn retirements(steps: Seq<IdleStep>) -> nat
    decreases steps.len(),
{
    if steps.len() == 0 {
        0
    } else {
        retirements(steps.drop_last()) + if steps.last() is Retire {
            1nat
        } else {
            0nat
        }
    }
}

/// Idle reclamation. While the window is idle, the dynamic workers that
/// leave are replaced only up to the low watermark: after any idle ticks
/// and retirements, no more dynamic workers are counted than the low
/// watermark, or than were counted at the start less those that left,
/// whichever is more. The window stays idle throughout.
pub proof fn lemma_idle_reclamation(v: ManagerView, steps: Seq<IdleStep>)
    requires
        v.wf(),
        is_idle(v.window),
    ensures
        after_idle(v, steps).wf(),
        is_idle(after_idle(v, steps).window),
        after_idle(v, steps).low_watermark == v.low_watermark,
        after_idle(v, steps).dynamic_count <= v.low_watermark || after_idle(v, steps).dynamic_count
            <= v.dynamic_count - retirements(steps),
    decreases steps.len(),
{
    if steps.len() > 0 {
        lemma_idle_reclamation(v, steps.drop_last());
        let before = after_idle(v, steps.drop_last());
        match steps.last() {
            IdleStep::Tick => {
                lemma_idle_scaling_fills_low_watermark(before);
                lemma_dynamic_workers_capped(before, 0, 0);
            },
            IdleStep::Retire(worker) => {
                lemma_dynamic_workers_capped(before, 0, worker);
            },
        }
    }
}

/// Where no dynamic worker is parked, one scaling decision brings the
/// number of dynamic workers up to what the window calls for under the
/// soft cap, and to the aim of the scaler.
pub proof fn lemma_scaling_reaches_recommendation(v: ManagerView, submissions: u64)
    requires
        v.parked.len() == 0,
    ensures
        v.scaled(submissions).dynamic_count >= v.scaled(submissions).desired(),
        v.scaled(submissions).desired() >= v.scaled(submissions).recommended(),
        v.scaled(submissions).recommended() == recommended(
            recorded(v.window, submissions),
            v.soft_cap() as u64,
        ),
{
}

/// What a scaling decision asks the embedding program to do.
pub struct ScalePlan {
    /// The parked workers to wake, the one parked longest first.
    pub unpark: Vec<u64>,
    /// The number of dynamic workers to start.
    pub spawn: u64,
}

struct Headcount {
    low_watermark: u64,
    dynamic: u64,
}

impl Headcount {
    #[verifier::type_invariant]
    spec fn capped(self) -> bool {
        &&& self.low_watermark * SOFT_CAP_FACTOR <= u64::MAX
        &&& self.dynamic <= self.low_watermark * SOFT_CAP_FACTOR
    }

    fn soft_cap(&self) -> (cap: u64)
        ensures
            cap == self.low_watermark * SOFT_CAP_FACTOR,
            self.dynamic <= cap,
    {
        proof {
            use_type_invariant(self);
        }
        self.low_watermark * SOFT_CAP_FACTOR
    }
}

/// The scaler of one pool.
pub struct DynamicPoolManager {
    headcount: Headcount,
    registry: ParkRegistry,
    sampler: LoadSampler,
}

impl View for DynamicPoolManager {
    type V = ManagerView;

    closed spec fn view(&self) -> ManagerView {
        ManagerView {
            low_watermark: self.headcount.low_watermark as nat,
            dynamic_count: self.headcount.dynamic as nat,
            parked: self.registry@,
            window: self.sampler@.window,
            ticks: self.sampler@.ticks,
        }
    }
}

impl DynamicPoolManager {
    /// A manager for a pool of `low_watermark` static workers, with no
    /// dynamic worker and an empty window.
    pub fn new(low_watermark: u64) -> (m: DynamicPoolManager)
        requires
            low_watermark * SOFT_CAP_FACTOR <= u64::MAX,
        ensures
            m@ == (ManagerView {
                low_watermark: low_watermark as nat,
                dynamic_count: 0,
                parked: Seq::<u64>::empty(),
                window: Seq::<u64>::empty(),
                ticks: 0,
            }),
            m@.wf(),
    {
        DynamicPoolManager {
            headcount: Headcount { low_watermark, dynamic: 0 },
            registry: ParkRegistry::new(),
            sampler: LoadSampler::new(),
        }
    }

    /// Whether a pool can have `low_watermark` static workers: ten times as
    /// many must still be a 64-bit number.
    pub fn accepts(low_watermark: u64) -> (ok: bool)
        ensures
            ok == (low_watermark * SOFT_CAP_FACTOR <= u64::MAX),
    {
        low_watermark <= u64::MAX / SOFT_CAP_FACTOR
    }

    /// The low watermark.
    pub fn low_watermark(&self) -> (n: u64)
        ensures
            n == self@.low_watermark,
    {
        self.headcount.low_watermark
    }

    /// The number of static workers of the pool: the low watermark.
    pub fn static_workers(&self) -> (n: u64)
        ensures
            n == self@.low_watermark,
    {
        self.headcount.low_watermark
    }

    /// The soft cap on dynamic workers.
    pub fn soft_cap(&self) -> (n: u64)
        ensures
            n == self@.soft_cap(),
            self@.wf(),
    {
        self.well_formed();
        self.headcount.soft_cap()
    }

    /// The number of dynamic workers that were started and have not left.
    pub fn dynamic_count(&self) -> (n: u64)
        ensures
            n == self@.dynamic_count,
            n <= self@.soft_cap(),
            self@.wf(),
    {
        self.well_formed();
        self.headcount.dynamic
    }

    /// The number of parked dynamic workers.
    pub fn parked_count(&self) -> (n: usize)
        ensures
            n == self@.parked.len(),
    {
        self.registry.len()
    }

    /// The parked dynamic workers, the one parked longest first.
    pub fn parked_workers(&self) -> (w: Vec<u64>)
        ensures
            w@ == self@.parked,
    {
        self.registry.workers()
    }

    /// The number of ticks so far.
    pub fn ticks(&self) -> (t: u64)
        ensures
            t == self@.ticks,
    {
        self.sampler.ticks()
    }

    /// The samples of the load window, oldest first.
    pub fn samples(&self) -> (w: Vec<u64>)
        ensures
            w@ == self@.window,
    {
        self.sampler.samples()
    }

    /// The number of dynamic workers that the window calls for.
    pub fn recommended_workers(&self) -> (n: u64)
        ensures
            n == self@.recommended(),
            n <= self@.soft_cap(),
    {
        let cap = self.headcount.soft_cap();
        self.sampler.recommended_workers(cap)
    }

    /// The number of workers that the scaler aims for.
    pub fn desired_workers(&self) -> (n: u64)
        ensures
            n == self@.desired(),
            n <= self@.soft_cap(),
    {
        let low = self.headcount.low_watermark;
        let cap = self.headcount.soft_cap();
        let rec = self.sampler.recommended_workers(cap);
        if rec > low {
            rec
        } else {
            low
        }
    }

    /// Counts the submissions of one tick and decides what to wake and what
    /// to start: parked workers first, new ones for what is still missing.
    /// The workers to start are counted as running from here on.
    pub fn scale(&mut self, submissions: u64) -> (plan: ScalePlan)
        requires
            old(self)@.ticks < u64::MAX,
        ensures
            final(self)@ == old(self)@.scaled(submissions),
            plan.unpark@ == old(self)@.ticked(submissions).to_unpark(),
            plan.spawn == old(self)@.ticked(submissions).to_spawn(),
            final(self)@.wf(),
    {
        self.well_formed();
        self.sampler.record(submissions);
        let desired = self.desired_workers();
        let count = self.headcount.dynamic;
        let deficit: u64 = if desired > count {
            desired - count
        } else {
            0
        };
        let parked = self.registry.len();
        let want: usize = if deficit > parked as u64 {
            parked
        } else {
            deficit as usize
        };
        let unpark = self.registry.wake(want);
        let spawn: u64 = deficit - unpark.len() as u64;
        self.headcount.dynamic = count + spawn;
        ScalePlan { unpark, spawn }
    }

    /// The decision of one tick: takes the submissions counted since the
    /// last tick and scales the pool for them. How many were counted depends
    /// on the submitters; the decision is that of `scale` for that number.
    pub fn scale_pool(&mut self, submissions: &SubmissionCounter) -> (plan: ScalePlan)
        requires
            old(self)@.ticks < u64::MAX,
        ensures
            exists|counted: u64|
                {
                    &&& final(self)@ == #[trigger] old(self)@.scaled(counted)
                    &&& plan.unpark@ == old(self)@.ticked(counted).to_unpark()
                    &&& plan.spawn == old(self)@.ticked(counted).to_spawn()
                },
            final(self)@.wf(),
    {
        let counted = submissions.take();
        self.scale(counted)
    }

    /// Whether the dynamic worker `worker` is registered as parked.
    pub fn is_parked(&self, worker: u64) -> (parked: bool)
        ensures
            parked == self@.parked.contains(worker),
    {
        self.registry.contains(worker)
    }

    /// Registers the dynamic worker `worker` as parked. Returns whether it
    /// was added: a worker that is registered already stays where it is.
    pub fn park(&mut self, worker: u64) -> (added: bool)
        ensures
            added == !old(self)@.parked.contains(worker),
            final(self)@ == old(self)@.with_parked(worker),
            final(self)@.wf(),
    {
        self.well_formed();
        self.registry.park(worker)
    }

    /// Takes the dynamic worker that has been parked longest out of the
    /// registry, to be woken for a task that was just submitted.
    pub fn fast_unpark(&mut self) -> (woken: Option<u64>)
        ensures
            woken == if old(self)@.parked.len() > 0 {
                Some(old(self)@.parked[0])
            } else {
                None
            },
            final(self)@ == old(self)@.with_one_woken(),
            final(self)@.wf(),
    {
        self.well_formed();
        self.registry.wake_one()
    }

    /// Records that the dynamic worker `worker` has left: it is no longer
    /// parked, and one dynamic worker less is counted.
    pub fn retire(&mut self, worker: u64)
        ensures
            final(self)@ == old(self)@.with_retired(worker),
            final(self)@.wf(),
    {
        self.well_formed();
        let _ = self.registry.remove(worker);
        let count = self.headcount.dynamic;
        if count > 0 {
            self.headcount.dynamic = count - 1;
        }
    }

    /// Records that a dynamic worker which a scaling decision asked for
    /// could not be started: one dynamic worker less is counted.
    pub fn spawn_failed(&mut self)
        ensures
            final(self)@ == old(self)@.with_one_less(),
            final(self)@.wf(),
    {
        self.well_formed();
        let count = self.headcount.dynamic;
        if count > 0 {
            self.headcount.dynamic = count - 1;
        }
    }

    fn well_formed(&self)
        ensures
            self@.wf(),
    {
        proof {
            use_type_invariant(&self.headcount);
            use_type_invariant(&self.registry);
            use_type_invariant(&self.sampler);
        }
    }
}

} // verus!
