//! The pool of threads that runs lightweight processes, as far as it is a
//! channel of tasks that submitters fill and workers empty.
//!
//! We spawn futures onto a pool with [spawn] or with the pool's own
//! [Pool::spawn].

use crate::counter::SubmissionCounter;
use crate::runner::{drive, driven, lemma_driven};
use crate::task::{recv_timeout, schedule_proc, send, try_recv, try_send};
use crate::worker::{is_asking, Worker, WorkerAction, WorkerKind, WorkerState};
use crossbeam_channel::{unbounded, Receiver, Sender};
use lightproc::lightproc::LightProc;
use lightproc::proc_stack::ProcStack;
use lightproc::recoverable_handle::RecoverableHandle;
use std::future::Future;
use vstd::prelude::*;

verus! {

/// Pool interface between the scheduler and thread pool: both ends of the
/// channel through which tasks reach the workers, and the count of the
/// tasks submitted since the last tick.
#[derive(Debug)]
pub struct Pool {
    sender: Sender<LightProc>,
    receiver: Receiver<LightProc>,
    submissions: SubmissionCounter,
}

impl Pool {
    /// The counter of the pool, in which `schedule` counts the tasks it
    /// has enqueued.
    pub closed spec fn counter(&self) -> SubmissionCounter {
        self.submissions
    }

    /// A pool with a new channel without a limit, to which nothing has been
    /// submitted.
    pub fn new() -> Pool {
        let (sender, receiver) = unbounded();
        Pool { sender, receiver, submissions: SubmissionCounter::new() }
    }

    /// The count of the tasks submitted since the last tick: the pool's
    /// own counter.
    pub fn submissions(&self) -> (submissions: &SubmissionCounter)
        ensures
            *submissions == self.counter(),
    {
        &self.submissions
    }

    /// Asks the channel for a task: waiting up to `timeout_ms` milliseconds
    /// for one, or not at all where there is no timeout.
    pub fn receive(&self, timeout_ms: Option<u64>) -> Option<LightProc> {
        match timeout_ms {
            Some(ms) => recv_timeout(&self.receiver, ms),
            None => try_recv(&self.receiver),
        }
    }

    ///
    /// Spawn a process (which contains future + process stack) onto the executor via [Pool] interface.
    pub fn spawn<F, T>(&'static self, future: F, stack: ProcStack) -> RecoverableHandle<T> where
        F: Future<Output = T> + Send + 'static,
        T: Send + 'static,
     {
        let (task, handle) = recoverable(self, future, stack);
        schedule_proc(task);
        handle
    }
}

/// `LightProc::recoverable`: makes a task of `future` that catches a panic
/// of the future, together with the handle through which its result is
/// awaited. Whenever the task is to be run, it is scheduled on `pool`; a
/// task that `schedule` hands back, as it does only on a channel without a
/// receiver, is dropped.
#[verifier::external_body]
pub(crate) fn recoverable<F, T>(pool: &'static Pool, future: F, stack: ProcStack) -> (made: (
    LightProc,
    RecoverableHandle<T>,
)) where F: Future<Output = T> + Send + 'static, T: Send + 'static {
    LightProc::recoverable(
        future,
        move |t| {
            let _ = schedule(pool, t);
        },
        stack,
    )
}

///
/// Spawn a process (which contains future + process stack) onto the executor from the global level.
pub fn spawn<F, T>(pool: &'static Pool, future: F, stack: ProcStack) -> RecoverableHandle<T> where
    F: Future<Output = T> + Send + 'static,
    T: Send + 'static,
 {
    let (task, handle) = recoverable(pool, future, stack);
    schedule_proc(task);
    handle
}

/// Spawns a blocking task.
///
/// The task will be spawned onto `pool`, the thread pool specifically dedicated to blocking tasks.
pub fn spawn_blocking<F, R>(pool: &'static Pool, future: F, stack: ProcStack) -> RecoverableHandle<
    R,
> where F: Future<Output = R> + Send + 'static, R: Send + 'static {
    crate::blocking::spawn_blocking(pool, future, stack)
}

/// The two ways in which a task is sent to the channel.
#[derive(Clone, Copy, PartialEq, Eq, Structural, Debug)]
pub enum SendMode {
    /// Without waiting: the first attempt.
    NonBlocking,
    /// Waiting until the channel takes the task: the second attempt.
    Blocking,
}

/// What is to be done with a task after an attempt to send it.
pub enum SendStep {
    /// The channel has the task: count it as a submission.
    Sent,
    /// The attempt without waiting failed: send the task it holds again,
    /// waiting.
    Retry(LightProc),
    /// The attempt with waiting failed too: hand the task it holds back to
    /// the submitter.
    GiveBack(LightProc),
}

/// The step that follows an attempt in `mode` that ended in `outcome`: a
/// task that was sent is done with; the task of a failed attempt is sent
/// once more if the attempt did not wait, and given back if it did.
pub open spec fn step_after(mode: SendMode, outcome: Result<(), LightProc>) -> SendStep {
    match outcome {
        Ok(_) => SendStep::Sent,
        Err(task) => match mode {
            SendMode::NonBlocking => SendStep::Retry(task),
            SendMode::Blocking => SendStep::GiveBack(task),
        },
    }
}

/// Decides what follows an attempt to send a task, from the way it was
/// sent and what the channel answered.
pub fn after_send(mode: SendMode, outcome: Result<(), LightProc>) -> (step: SendStep)
    ensures
        step == step_after(mode, outcome),
{
    match outcome {
        Ok(()) => SendStep::Sent,
        Err(task) => match mode {
            SendMode::NonBlocking => SendStep::Retry(task),
            SendMode::Blocking => SendStep::GiveBack(task),
        },
    }
}

/// Enqueues work, attempting to send to the thread pool in a nonblocking
/// way, and sending again in a blocking way where that fails. A task that
/// was enqueued is counted as one submission. A task that neither attempt
/// could enqueue is handed back, uncounted.
pub fn schedule(pool: &Pool, t: LightProc) -> (back: Option<LightProc>)
    ensures
        back matches Some(task) ==> task == t,
{
    match after_send(SendMode::NonBlocking, try_send(&pool.sender, t)) {
        SendStep::Sent => {},
        SendStep::Retry(task) => {
            match after_send(SendMode::Blocking, send(&pool.sender, task)) {
                SendStep::Sent => {},
                SendStep::Retry(task) | SendStep::GiveBack(task) => {
                    return Some(task);
                },
            }
        },
        SendStep::GiveBack(task) => {
            return Some(task);
        },
    }
    pool.submissions.increment_frequency();
    None
}

/// The behaviour of the workers of the pool for non-blocking tasks.
pub struct AsyncRunner {}

impl AsyncRunner {
    /// One turn of a static worker at the channel of `pool`: the worker is
    /// handed what the channel has for it within its wait, and asks its
    /// thread to run the task or to park. It never asks to leave.
    pub fn _static_loop(&self, pool: &Pool, worker: &mut Worker) -> (action: WorkerAction)
        requires
            old(worker).spec_kind() == WorkerKind::Static,
            is_asking(old(worker).spec_state()),
        ensures
            final(worker).spec_kind() == WorkerKind::Static,
            final(worker).spec_park_ms() == old(worker).spec_park_ms(),
            driven(
                WorkerKind::Static,
                old(worker).spec_park_ms(),
                old(worker).spec_state(),
                final(worker).spec_state(),
                action,
            ),
            action is Run || action is Park,
    {
        let action = drive(pool, worker);
        proof {
            lemma_driven(
                WorkerKind::Static,
                old(worker).spec_park_ms(),
                old(worker).spec_state(),
                worker.spec_state(),
                action,
            );
        }
        action
    }

    /// One turn of a dynamic worker at the channel of `pool`: the worker is
    /// handed what the channel has for it at that moment, and asks its
    /// thread to run the task, to park, or, where this was its last call
    /// and the channel was empty, to end.
    pub fn _dynamic_loop(&self, pool: &Pool, worker: &mut Worker) -> (action: WorkerAction)
        requires
            old(worker).spec_kind() == WorkerKind::Dynamic,
            is_asking(old(worker).spec_state()),
        ensures
            final(worker).spec_kind() == WorkerKind::Dynamic,
            final(worker).spec_park_ms() == old(worker).spec_park_ms(),
            driven(
                WorkerKind::Dynamic,
                old(worker).spec_park_ms(),
                old(worker).spec_state(),
                final(worker).spec_state(),
                action,
            ),
            !(action is Receive),
            action is Exit ==> old(worker).spec_state() == WorkerState::LastCall,
    {
        let action = drive(pool, worker);
        proof {
            lemma_driven(
                WorkerKind::Dynamic,
                old(worker).spec_park_ms(),
                old(worker).spec_state(),
                worker.spec_state(),
                action,
            );
        }
        action
    }

    /// One turn of a standalone worker at the channel of `pool`, without
    /// waiting: it asks its thread to run the task that the channel had,
    /// or to end where the channel had none.
    pub fn _standalone(&self, pool: &Pool) -> (action: WorkerAction)
        ensures
            action is Run || action is Exit,
            driven(
                WorkerKind::Standalone,
                0,
                WorkerState::PollingQueue,
                if action is Run {
                    WorkerState::Running
                } else {
                    WorkerState::Exited
                },
                action,
            ),
    {
        let mut worker = Worker::new_standalone();
        let action = drive(pool, &mut worker);
        proof {
            lemma_driven(
                WorkerKind::Standalone,
                0,
                WorkerState::PollingQueue,
                worker.spec_state(),
                action,
            );
        }
        action
    }
}

} // verus!
