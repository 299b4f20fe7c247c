//! The pool of threads that runs heavy processes: its workers behave as
//! those of the other pool do, on a channel of their own.
//!
//! We spawn futures onto it with [spawn_blocking].

use crate::pool::{recoverable, Pool};
use crate::task::schedule_proc;
use crate::runner::{drive, driven, lemma_driven};
use crate::worker::{is_asking, Worker, WorkerAction, WorkerKind, WorkerState};
use lightproc::proc_stack::ProcStack;
use lightproc::recoverable_handle::RecoverableHandle;
use std::future::Future;
use vstd::prelude::*;

verus! {

/// Spawns a blocking task.
///
/// The task will be spawned onto `pool`, the thread pool specifically dedicated to blocking tasks.
pub fn spawn_blocking<F, R>(pool: &'static Pool, future: F, stack: ProcStack) -> RecoverableHandle<
    R,
> where F: Future<Output = R> + Send + 'static, R: Send + 'static {
    let (task, handle) = recoverable(pool, future, stack);
    schedule_proc(task);
    handle
}

/// The behaviour of the workers of the pool for blocking tasks.
pub struct BlockingRunner {}

impl BlockingRunner {
    /// One turn of a static worker at the channel of `pool`: the worker is
    /// handed what the channel has for it within its wait, and asks its
    /// thread to run the task or to park. It never asks to leave.
    pub fn _static_loop(&self, pool: &Pool, worker: &mut Worker) -> (action: WorkerAction)
        requires
            old(worker).spec_kind() == WorkerKind::Static,
            is_asking(old(worker).spec_state()),
        ensures
            final(worker).spec_kind() == WorkerKind::Static,
            final(worker).spec_park_ms() == old(worker).spec_park_ms(),
            driven(
                WorkerKind::Static,
                old(worker).spec_park_ms(),
                old(worker).spec_state(),
                final(worker).spec_state(),
                action,
            ),
            action is Run || action is Park,
    {
        let action = drive(pool, worker);
        proof {
            lemma_driven(
                WorkerKind::Static,
                old(worker).spec_park_ms(),
                old(worker).spec_state(),
                worker.spec_state(),
                action,
            );
        }
        action
    }

    /// One turn of a dynamic worker at the channel of `pool`: the worker is
    /// handed what the channel has for it at that moment, and asks its
    /// thread to run the task, to park, or, where this was its last call
    /// and the channel was empty, to end.
    pub fn _dynamic_loop(&self, pool: &Pool, worker: &mut Worker) -> (action: WorkerAction)
        requires
            old(worker).spec_kind() == WorkerKind::Dynamic,
            is_asking(old(worker).spec_state()),
        ensures
            final(worker).spec_kind() == WorkerKind::Dynamic,
            final(worker).spec_park_ms() == old(worker).spec_park_ms(),
            driven(
                WorkerKind::Dynamic,
                old(worker).spec_park_ms(),
                old(worker).spec_state(),
                final(worker).spec_state(),
                action,
            ),
            !(action is Receive),
            action is Exit ==> old(worker).spec_state() == WorkerState::LastCall,
    {
        let action = drive(pool, worker);
        proof {
            lemma_driven(
                WorkerKind::Dynamic,
                old(worker).spec_park_ms(),
                old(worker).spec_state(),
                worker.spec_state(),
                action,
            );
        }
        action
    }

    /// One turn of a standalone worker at the channel of `pool`, without
    /// waiting: it asks its thread to run the task that the channel had,
    /// or to end where the channel had none.
    pub fn _standalone(&self, pool: &Pool) -> (action: WorkerAction)
        ensures
            action is Run || action is Exit,
            driven(
                WorkerKind::Standalone,
                0,
                WorkerState::PollingQueue,
                if action is Run {
                    WorkerState::Running
                } else {
                    WorkerState::Exited
                },
                action,
            ),
    {
        let mut worker = Worker::new_standalone();
        let action = drive(pool, &mut worker);
        proof {
            lemma_driven(
                WorkerKind::Standalone,
                0,
                WorkerState::PollingQueue,
                worker.spec_state(),
                action,
            );
        }
        action
    }
}

} // verus!
