//! One turn of a worker at the channel.
//!
//! The library asks the channel and tells the worker the answer. Whatever
//! follows is the thread's to do: running a task, which may panic, parking,
//! and ending.

use crate::pool::Pool;
use crate::worker::{
    is_asking, next_action, next_state, Worker, WorkerAction, WorkerEvent, WorkerKind, WorkerState,
};
use vstd::prelude::*;

verus! {

/// What the channel told a worker, read off what the worker then asked for:
/// the task it asks to run was received, and anything else means that the
/// channel was empty.
pub open spec fn answer_behind(action: WorkerAction) -> WorkerEvent {
    match action {
        WorkerAction::Run(task) => WorkerEvent::Received(task),
        _ => WorkerEvent::Empty,
    }
}

/// What a worker that is parked or has left waits for.
pub open spec fn standing_action(state: WorkerState, park_ms: u64) -> WorkerAction {
    match state {
        WorkerState::Parked => WorkerAction::Park { timeout_ms: park_ms },
        _ => WorkerAction::Exit,
    }
}

/// Whether `action` and the state `after` are what one turn at the channel
/// makes of a worker of `kind` that stood in `before` and parks for
/// `park_ms`. A worker that was asking has been told the channel's answer
/// and has taken the step that follows it. A worker that was parked or had
/// left stands where it stood.
pub open spec fn driven(
    kind: WorkerKind,
    park_ms: u64,
    before: WorkerState,
    after: WorkerState,
    action: WorkerAction,
) -> bool {
    if is_asking(before) {
        &&& after == next_state(kind, before, answer_behind(action))
        &&& action == next_action(kind, park_ms, after, answer_behind(action))
    } else {
        &&& after == before
        &&& action == standing_action(before, park_ms)
    }
}

/// After a turn at the channel the worker asks for something that only
/// its thread can do; it asks to run a task exactly when it was handed one.
/// A static worker never asks to leave. A dynamic worker asks to leave only
/// where its last call, after a park that ran out, found the channel empty.
/// A standalone worker never parks.
pub proof fn lemma_driven(
    kind: WorkerKind,
    park_ms: u64,
    before: WorkerState,
    after: WorkerState,
    action: WorkerAction,
)
    requires
        before != WorkerState::Running,
        driven(kind, park_ms, before, after, action),
    ensures
        !(action is Receive),
        action is Run <==> after == WorkerState::Running,
        action is Run ==> is_asking(before),
        action matches WorkerAction::Park { timeout_ms } ==> after == WorkerState::Parked
            && timeout_ms == park_ms,
        action is Exit <==> after == WorkerState::Exited,
        kind == WorkerKind::Static && before != WorkerState::Exited ==> !(action is Exit),
        kind == WorkerKind::Dynamic && action is Exit ==> before == WorkerState::LastCall || before
            == WorkerState::Exited,
        kind == WorkerKind::Standalone && before != WorkerState::Parked ==> !(action is Park),
{
}

/// Gives `worker` one turn at the channel of `pool`. A worker that is asking
/// is handed what the channel has for it, a task or nothing, and answers
/// with what its thread has to do next: run the task, park, or end. A
/// worker that is parked or has left is not given a turn and asks for the
/// same again.
pub fn drive(pool: &Pool, worker: &mut Worker) -> (action: WorkerAction)
    requires
        old(worker).spec_state() != WorkerState::Running,
    ensures
        final(worker).spec_kind() == old(worker).spec_kind(),
        final(worker).spec_park_ms() == old(worker).spec_park_ms(),
        driven(
            old(worker).spec_kind(),
            old(worker).spec_park_ms(),
            old(worker).spec_state(),
            final(worker).spec_state(),
            action,
        ),
{
    match worker.state() {
        WorkerState::Parked => {
            return WorkerAction::Park { timeout_ms: worker.park_ms() };
        },
        WorkerState::Exited => {
            return WorkerAction::Exit;
        },
        _ => {},
    }
    match pool.receive(worker.wait()) {
        Some(task) => worker.step(WorkerEvent::Received(task)),
        None => worker.step(WorkerEvent::Empty),
    }
}

} // verus!
