//! The task that a pool runs, and the two ends of the channel that carries it.
//!
//! Nothing in this file is proved: it states what is taken on trust of
//! `lightproc` and `crossbeam-channel`.

use crossbeam_channel::{Receiver, Sender};
use lightproc::lightproc::LightProc;
use lightproc::proc_stack::ProcStack;
use lightproc::recoverable_handle::RecoverableHandle;
use vstd::prelude::*;

verus! {

/// `lightproc::lightproc::LightProc`, a unit of work that is run once.
/// Nothing is known of what it holds.
#[verifier::external_type_specification]
#[verifier::external_body]
pub struct ExLightProc(LightProc);

/// `lightproc::proc_stack::ProcStack`, what a task carries through its life.
/// Nothing is known of what it holds.
#[verifier::external_type_specification]
#[verifier::external_body]
pub struct ExProcStack(ProcStack);

/// `lightproc::recoverable_handle::RecoverableHandle`, through which the
/// submitter of a task awaits its result.
#[verifier::external_type_specification]
#[verifier::external_body]
#[verifier::reject_recursive_types(R)]
pub struct ExRecoverableHandle<R>(RecoverableHandle<R>);

/// `crossbeam_channel::Sender`, the sending end of a channel.
#[verifier::external_type_specification]
#[verifier::external_body]
#[verifier::reject_recursive_types(T)]
pub struct ExSender<T>(Sender<T>);

/// `crossbeam_channel::Receiver`, the receiving end of a channel.
#[verifier::external_type_specification]
#[verifier::external_body]
#[verifier::reject_recursive_types(T)]
pub struct ExReceiver<T>(Receiver<T>);

/// `crossbeam_channel::unbounded`: the two ends of a new channel without a
/// limit. Nothing is claimed of them.
pub assume_specification<T>[ crossbeam_channel::unbounded::<T> ]() -> (ends: (Sender<T>, Receiver<T>));

/// `Sender::try_send`, with the error turned into the message it holds by
/// `TrySendError::into_inner`. The message that could not be sent is the
/// one that was handed in; whether it is sent depends on the channel.
#[verifier::external_body]
pub(crate) fn try_send(sender: &Sender<LightProc>, task: LightProc) -> (r: Result<(), LightProc>)
    ensures
        r matches Err(back) ==> back == task,
{
    sender.try_send(task).map_err(|e| e.into_inner())
}

/// `Sender::send`, with the error turned into the message it holds by
/// `SendError::into_inner`. The message that could not be sent is the one
/// that was handed in; it fails only on a channel with no receiver left.
#[verifier::external_body]
pub(crate) fn send(sender: &Sender<LightProc>, task: LightProc) -> (r: Result<(), LightProc>)
    ensures
        r matches Err(back) ==> back == task,
{
    sender.send(task).map_err(|e| e.into_inner())
}

/// `Receiver::try_recv`: a task that was waiting in the channel, or `None`
/// where none was there at that moment or the channel has no sender left.
#[verifier::external_body]
pub(crate) fn try_recv(receiver: &Receiver<LightProc>) -> (r: Option<LightProc>) {
    receiver.try_recv().ok()
}

/// `Receiver::recv_timeout`: a task from the channel, waiting up to
/// `timeout_ms` milliseconds for one, or `None` where none came in that time
/// or the channel has no sender left.
#[verifier::external_body]
pub(crate) fn recv_timeout(receiver: &Receiver<LightProc>, timeout_ms: u64) -> (r: Option<
    LightProc,
>) {
    receiver.recv_timeout(std::time::Duration::from_millis(timeout_ms)).ok()
}

/// `LightProc::schedule`: hands the task to the schedule function that it
/// was made with.
#[verifier::external_body]
pub(crate) fn schedule_proc(task: LightProc) {
    task.schedule()
}

} // verus!
