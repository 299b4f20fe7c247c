//! The life cycle of one worker.
//!
//! A worker is a small machine. It is told what happened (a task arrived,
//! the channel was empty, the task is done, the park ended) and answers
//! with the next thing to do. The thread that carries the worker does what
//! it is told and reports back.

use crate::config::{IDLE_DEADLINE_TICKS, THREAD_RECV_TIMEOUT_MS, TICK_INTERVAL_MS};
use lightproc::lightproc::LightProc;
use vstd::prelude::*;

verus! {

/// The three kinds of worker.
#[derive(Clone, Copy, PartialEq, Eq, Structural, Debug)]
pub enum WorkerKind {
    /// Started with the pool; never leaves.
    Static,
    /// Started on demand; leaves when it has been parked for the idle
    /// deadline and still finds no task.
    Dynamic,
    /// Empties the channel once and leaves.
    Standalone,
}

/// Where a worker stands.
#[derive(Clone, Copy, PartialEq, Eq, Structural, Debug)]
pub enum WorkerState {
    /// It is asking the channel for a task.
    PollingQueue,
    /// It has been handed a task and has not finished it.
    Running,
    /// It is suspended until it is woken or its park time is over.
    Parked,
    /// Its idle deadline has passed; it asks the channel one last time.
    LastCall,
    /// It has left.
    Exited,
}

/// What a worker is told.
pub enum WorkerEvent {
    /// The channel handed over a task.
    Received(LightProc),
    /// The channel had no task.
    Empty,
    /// The task that the worker was running has returned.
    Finished,
    /// The park ended because the worker was woken.
    Unparked,
    /// The park ended because its time was over.
    Expired,
}

/// What a worker asks for.
pub enum WorkerAction {
    /// Ask the channel for a task: waiting up to so many milliseconds, or
    /// not at all.
    Receive { wait_ms: Option<u64> },
    /// Run the task it holds. Running is the thread's to do: what a task
    /// does, and whether it panics, is for the task and its thread.
    Run(LightProc),
    /// Suspend the thread for up to so many milliseconds.
    Park { timeout_ms: u64 },
    /// Let the thread end.
    Exit,
}

/// The milliseconds a dynamic worker stays parked before it may leave.
pub open spec fn idle_deadline_ms() -> u64 {
    (IDLE_DEADLINE_TICKS * TICK_INTERVAL_MS) as u64
}

/// How a worker of a kind asks the channel while it is polling: a static
/// worker waits a bounded time, the others do not wait.
pub open spec fn polling_wait(kind: WorkerKind) -> Option<u64> {
    match kind {
        WorkerKind::Static => Some(THREAD_RECV_TIMEOUT_MS),
        _ => None,
    }
}

/// How a worker of `kind` in `state` asks the channel: as it does while
/// polling, and without waiting on its last call.
pub open spec fn receive_wait(kind: WorkerKind, state: WorkerState) -> Option<u64> {
    match state {
        WorkerState::LastCall => None,
        _ => polling_wait(kind),
    }
}

/// Whether a worker in `state` is about to ask the channel for a task.
pub open spec fn is_asking(state: WorkerState) -> bool {
    state == WorkerState::PollingQueue || state == WorkerState::LastCall
}

/// Whether `event` can happen to a worker in `state`.
pub open spec fn expects(state: WorkerState, event: WorkerEvent) -> bool {
    match state {
        WorkerState::PollingQueue | WorkerState::LastCall => event is Received || event is Empty,
        WorkerState::Running => event is Finished,
        WorkerState::Parked => event is Unparked || event is Expired,
        WorkerState::Exited => false,
    }
}

/// The state that follows `state` on `event`, for a worker of `kind`.
pub open spec fn next_state(kind: WorkerKind, state: WorkerState, event: WorkerEvent) -> WorkerState {
    match event {
        WorkerEvent::Received(_) => WorkerState::Running,
        WorkerEvent::Finished => WorkerState::PollingQueue,
        WorkerEvent::Unparked => WorkerState::PollingQueue,
        WorkerEvent::Expired => match kind {
            WorkerKind::Dynamic => WorkerState::LastCall,
            _ => WorkerState::PollingQueue,
        },
        WorkerEvent::Empty => match (kind, state) {
            (WorkerKind::Standalone, _) => WorkerState::Exited,
            (WorkerKind::Dynamic, WorkerState::LastCall) => WorkerState::Exited,
            _ => WorkerState::Parked,
        },
    }
}

/// What a worker of `kind` that parks for `park_ms` asks for after `event`
/// has brought it to `state`.
pub open spec fn next_action(
    kind: WorkerKind,
    park_ms: u64,
    state: WorkerState,
    event: WorkerEvent,
) -> WorkerAction {
    match event {
        WorkerEvent::Received(task) => WorkerAction::Run(task),
        _ => match state {
            WorkerState::PollingQueue | WorkerState::LastCall => WorkerAction::Receive {
                wait_ms: receive_wait(kind, state),
            },
            WorkerState::Parked => WorkerAction::Park { timeout_ms: park_ms },
            _ => WorkerAction::Exit,
        },
    }
}

/// The state of a worker of `kind` that stood in `state` after the events
/// of `events`, in their order.
pub open spec fn state_after(kind: WorkerKind, state: WorkerState, events: Seq<WorkerEvent>) -> WorkerState
    decreases events.len(),
{
    if events.len() == 0 {
        state
    } else {
        next_state(kind, state_after(kind, state, events.drop_last()), events.last())
    }
}

/// Whether each event of `events` can happen to a worker of `kind` that
/// stood in `state` when its turn comes.
pub open spec fn admissible(kind: WorkerKind, state: WorkerState, events: Seq<WorkerEvent>) -> bool
    decreases events.len(),
{
    events.len() == 0 || (admissible(kind, state, events.drop_last()) && expects(
        state_after(kind, state, events.drop_last()),
        events.last(),
    ))
}

/// The tasks that `events` hand to a worker, in their order.
pub open spec fn tasks_received(events: Seq<WorkerEvent>) -> Seq<LightProc>
    decreases events.len(),
{
    if events.len() == 0 {
        Seq::empty()
    } else {
        match events.last() {
            WorkerEvent::Received(task) => tasks_received(events.drop_last()).push(task),
            _ => tasks_received(events.drop_last()),
        }
    }
}

/// The tasks that a worker asks to run in answer to `events`, in their order.
pub open spec fn tasks_run(
    kind: WorkerKind,
    park_ms: u64,
    state: WorkerState,
    events: Seq<WorkerEvent>,
) -> Seq<LightProc>
    decreases events.len(),
{
    if events.len() == 0 {
        Seq::empty()
    } else {
        let before = tasks_run(kind, park_ms, state, events.drop_last());
        match next_action(kind, park_ms, state_after(kind, state, events), events.last()) {
            WorkerAction::Run(task) => before.push(task),
            _ => before,
        }
    }
}

/// A worker that is handed a task asks to run that task and takes no other
/// until it has returned; it asks to run nothing that it was not handed.
pub proof fn lemma_received_task_is_run(
    kind: WorkerKind,
    park_ms: u64,
    state: WorkerState,
    event: WorkerEvent,
)
    ensures
        event matches WorkerEvent::Received(task) ==> next_action(
            kind,
            park_ms,
            next_state(kind, state, event),
            event,
        ) == WorkerAction::Run(task) && next_state(kind, state, event) == WorkerState::Running,
        next_action(kind, park_ms, next_state(kind, state, event), event) matches WorkerAction::Run(
            task,
        ) ==> event == WorkerEvent::Received(task),
        forall|other: WorkerEvent| #[trigger]
            expects(WorkerState::Running, other) ==> other is Finished,
{
}

/// Over the whole life of a worker, the tasks it asks to run are the tasks
/// it was handed: each of them once, in the order in which they came.
pub proof fn lemma_every_received_task_runs_once(
    kind: WorkerKind,
    park_ms: u64,
    state: WorkerState,
    events: Seq<WorkerEvent>,
)
    ensures
        tasks_run(kind, park_ms, state, events) == tasks_received(events),
    decreases events.len(),
{
    if events.len() > 0 {
        lemma_every_received_task_runs_once(kind, park_ms, state, events.drop_last());
    }
}

/// A static worker never leaves: whatever happens to it, it has not exited.
pub proof fn lemma_static_worker_never_exits(state: WorkerState, events: Seq<WorkerEvent>)
    requires
        state != WorkerState::Exited,
        admissible(WorkerKind::Static, state, events),
    ensures
        state_after(WorkerKind::Static, state, events) != WorkerState::Exited,
    decreases events.len(),
{
    if events.len() > 0 {
        lemma_static_worker_never_exits(state, events.drop_last());
    }
}

/// A dynamic worker leaves only from its last call, when the channel is
/// empty; a task that it finds on its last call cancels the exit.
pub proof fn lemma_dynamic_worker_exit(state: WorkerState, event: WorkerEvent)
    requires
        expects(state, event),
    ensures
        next_state(WorkerKind::Dynamic, state, event) == WorkerState::Exited <==> state
            == WorkerState::LastCall && event is Empty,
        state == WorkerState::LastCall && event is Received ==> next_state(
            WorkerKind::Dynamic,
            state,
            event,
        ) == WorkerState::Running,
        next_state(WorkerKind::Dynamic, state, event) == WorkerState::LastCall <==> state
            == WorkerState::Parked && event is Expired,
{
}

/// One worker: its kind, where it stands, and how long it parks.
pub struct Worker {
    kind: WorkerKind,
    state: WorkerState,
    park_ms: u64,
}

impl Worker {
    /// The kind of the worker.
    pub closed spec fn spec_kind(&self) -> WorkerKind {
        self.kind
    }

    /// Where the worker stands.
    pub closed spec fn spec_state(&self) -> WorkerState {
        self.state
    }

    /// The milliseconds for which the worker parks.
    pub closed spec fn spec_park_ms(&self) -> u64 {
        self.park_ms
    }

    /// A static worker that parks for `park_timeout_ms` when it finds the
    /// channel empty. It starts by asking the channel for a task.
    pub fn new_static(park_timeout_ms: u64) -> (w: Worker)
        ensures
            w.spec_kind() == WorkerKind::Static,
            w.spec_state() == WorkerState::PollingQueue,
            w.spec_park_ms() == park_timeout_ms,
    {
        Worker { kind: WorkerKind::Static, state: WorkerState::PollingQueue, park_ms: park_timeout_ms }
    }

    /// A dynamic worker, which parks for the idle deadline. It starts by
    /// asking the channel for a task.
    pub fn new_dynamic() -> (w: Worker)
        ensures
            w.spec_kind() == WorkerKind::Dynamic,
            w.spec_state() == WorkerState::PollingQueue,
            w.spec_park_ms() == idle_deadline_ms(),
    {
        Worker {
            kind: WorkerKind::Dynamic,
            state: WorkerState::PollingQueue,
            park_ms: IDLE_DEADLINE_TICKS * TICK_INTERVAL_MS,
        }
    }

    /// A standalone worker, which never parks. It starts by asking the
    /// channel for a task.
    pub fn new_standalone() -> (w: Worker)
        ensures
            w.spec_kind() == WorkerKind::Standalone,
            w.spec_state() == WorkerState::PollingQueue,
            w.spec_park_ms() == 0,
    {
        Worker { kind: WorkerKind::Standalone, state: WorkerState::PollingQueue, park_ms: 0 }
    }

    /// The kind of the worker.
    #[verifier::when_used_as_spec(spec_kind)]
    pub fn kind(&self) -> (k: WorkerKind)
        ensures
            k == self.spec_kind(),
    {
        self.kind
    }

    /// Where the worker stands.
    #[verifier::when_used_as_spec(spec_state)]
    pub fn state(&self) -> (s: WorkerState)
        ensures
            s == self.spec_state(),
    {
        self.state
    }

    /// The milliseconds for which the worker parks.
    #[verifier::when_used_as_spec(spec_park_ms)]
    pub fn park_ms(&self) -> (ms: u64)
        ensures
            ms == self.spec_park_ms(),
    {
        self.park_ms
    }

    /// How the worker asks the channel where it stands: waiting up to so
    /// many milliseconds, or not at all.
    pub fn wait(&self) -> (wait: Option<u64>)
        ensures
            wait == receive_wait(self.spec_kind(), self.spec_state()),
    {
        match self.state {
            WorkerState::LastCall => None,
            _ => self.polling(),
        }
    }

    /// Whether `event` can happen to the worker where it stands.
    pub fn accepts(&self, event: &WorkerEvent) -> (ok: bool)
        ensures
            ok == expects(self.spec_state(), *event),
    {
        match self.state {
            WorkerState::PollingQueue | WorkerState::LastCall => match event {
                WorkerEvent::Received(_) | WorkerEvent::Empty => true,
                _ => false,
            },
            WorkerState::Running => match event {
                WorkerEvent::Finished => true,
                _ => false,
            },
            WorkerState::Parked => match event {
                WorkerEvent::Unparked | WorkerEvent::Expired => true,
                _ => false,
            },
            WorkerState::Exited => false,
        }
    }

    /// Tells the worker what happened and returns what it asks for next.
    pub fn step(&mut self, event: WorkerEvent) -> (action: WorkerAction)
        requires
            expects(old(self).spec_state(), event),
        ensures
            final(self).spec_kind() == old(self).spec_kind(),
            final(self).spec_park_ms() == old(self).spec_park_ms(),
            final(self).spec_state() == next_state(
                old(self).spec_kind(),
                old(self).spec_state(),
                event,
            ),
            action == next_action(
                old(self).spec_kind(),
                old(self).spec_park_ms(),
                final(self).spec_state(),
                event,
            ),
    {
        match event {
            WorkerEvent::Received(task) => {
                self.state = WorkerState::Running;
                WorkerAction::Run(task)
            },
            WorkerEvent::Finished | WorkerEvent::Unparked => {
                self.state = WorkerState::PollingQueue;
                WorkerAction::Receive { wait_ms: self.polling() }
            },
            WorkerEvent::Expired => match self.kind {
                WorkerKind::Dynamic => {
                    self.state = WorkerState::LastCall;
                    WorkerAction::Receive { wait_ms: None }
                },
                _ => {
                    self.state = WorkerState::PollingQueue;
                    WorkerAction::Receive { wait_ms: self.polling() }
                },
            },
            WorkerEvent::Empty => {
                let leaves = match self.kind {
                    WorkerKind::Standalone => true,
                    WorkerKind::Dynamic => match self.state {
                        WorkerState::LastCall => true,
                        _ => false,
                    },
                    WorkerKind::Static => false,
                };
                if leaves {
                    self.state = WorkerState::Exited;
                    WorkerAction::Exit
                } else {
                    self.state = WorkerState::Parked;
                    WorkerAction::Park { timeout_ms: self.park_ms }
                }
            },
        }
    }

    fn polling(&self) -> (wait: Option<u64>)
        ensures
            wait == polling_wait(self.spec_kind()),
    {
        match self.kind {
            WorkerKind::Static => Some(THREAD_RECV_TIMEOUT_MS),
            _ => None,
        }
    }
}

} // verus!
