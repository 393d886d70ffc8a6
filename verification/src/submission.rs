//! Submitting operations and awaiting their completions: the bridge that
//! turns "submit, then wait for the matching completion" into a
//! suspendable unit of work.

use vstd::prelude::*;

use crate::executor::{ExecutorInner, OpState, Poll, TaskFuture, TaskRef};
use crate::handle::Handle;
use crate::kernel::submit_admissible;
use crate::queue::Element;
use crate::result::Result;
use crate::Time;

verus! {

/// One action over a lane. A submitted operation is an ordered group of
/// these; the group completes only once every action has an outcome.
#[derive(Debug)]
pub enum LaneAction {
    /// Transfer a caller-sized byte buffer to the peer.
    SendBuffer { data: Vec<u8> },
    /// Receive a byte buffer of at most `max_len` bytes.
    ReceiveBuffer { max_len: usize },
    /// Receive into a kernel-chosen inline buffer suitable for small
    /// fixed headers.
    ReceiveInline,
    /// Transfer ownership of a handle to the peer.
    PushDescriptor { handle: Handle },
    /// Take ownership of a descriptor pushed by the peer.
    PullDescriptor,
}

/// One asynchronous operation, submitted as a whole and completed as a
/// whole.
#[derive(Debug)]
pub enum Operation {
    /// A plain ordered group of lane actions on one lane.
    Batch { actions: Vec<LaneAction> },
    /// Initiate a conversation on a lane: creates a conversation lane
    /// pair, hands the remote end to the peer, and runs the actions on
    /// the local end. With `with_lane` the first outcome carries a handle
    /// to the local conversation end.
    Offer { with_lane: bool, actions: Vec<LaneAction> },
    /// Wait for an incoming conversation on a lane; the first outcome
    /// carries the new conversation lane and the actions then run on it.
    Accept { actions: Vec<LaneAction> },
    /// Complete once the clock reaches `deadline` (nanoseconds since
    /// boot). Submitted against the queue's own handle.
    Sleep { deadline: u64 },
}

/// A suspendable handle on one submitted operation: pending until the
/// matching completion is retrieved by the executor's wait step, then
/// ready exactly once with the operation's completion element.
pub struct OpFuture {
    token: usize,
    taken: Ghost<Option<Element>>,
}

impl OpFuture {
    /// The context token of the operation this future awaits.
    pub closed spec fn token_spec(&self) -> usize {
        self.token
    }

    /// The context token of the operation this future awaits.
    pub fn token(&self) -> (r: usize)
        ensures
            r == self.token_spec(),
    {
        self.token
    }
}

impl TaskFuture for OpFuture {
    type Output = Element;

    closed spec fn value(&self) -> Option<Element> {
        self.taken@
    }

    /// Ready exactly when the executor has retrieved the completion of
    /// this future's operation; otherwise registers `me` to be woken by
    /// it. Polling never resubmits: the kernel state and the number of
    /// operations in flight are untouched.
    fn poll(&mut self, rt: &mut ExecutorInner, me: TaskRef) -> (r: Poll<Element>)
        ensures
            r matches Poll::Ready(el) ==> old(rt).ops_seq()[old(self).token_spec() as int] == (
            OpState::Completed { element: el }),
            (r is Ready) <==> (old(self).token_spec() < old(rt).ops_seq().len() && old(
                rt,
            ).ops_seq()[old(self).token_spec() as int] is Completed),
            final(self).token_spec() == old(self).token_spec(),
            final(rt).kernel_state() == old(rt).kernel_state(),
            final(rt).ops_seq().len() == old(rt).ops_seq().len(),
            final(rt).queue_handle_spec() == old(rt).queue_handle_spec(),
    {
        match rt.take_completed(self.token, me) {
            Some(el) => {
                proof {
                    self.taken@ = Some(el);
                }
                Poll::Ready(el)
            },
            None => Poll::Pending,
        }
    }
}

/// Submits `op` against the lane or queue named by `target` and returns
/// the future of its completion. The submission fails exactly when the
/// target does not fit the operation or the kernel's lane table is
/// exhausted; each action's own outcome travels in the completion.
pub fn submit_async(rt: &mut ExecutorInner, target: &Handle, op: Operation) -> (r: Result<
    OpFuture,
>)
    requires
        old(rt).wf(),
    ensures
        final(rt).wf(),
        final(rt).queue_handle_spec() == old(rt).queue_handle_spec(),
        (r is Ok) <==> submit_admissible(old(rt).kernel_state(), *target, op),
        r matches Ok(fut) ==> (fut.value() is None && fut.token_spec() == old(rt).op_count()
            && final(rt).ops_seq() == old(rt).ops_seq().push(OpState::Pending { waiter: None })),
        r is Err ==> *final(rt) == *old(rt),
        // a single-action submission's exact kernel effect, for callers
        // that reason about the lane traffic
        op matches Operation::Batch { actions } ==> (r is Ok ==> (
        final(rt).kernel_state().lane_count() == old(rt).kernel_state().lane_count() && (actions@.len() == 1
            ==> (crate::kernel::spec_lane_of(old(rt).kernel_state(), *target) matches Some(lane)
            ==> exists|mid: crate::kernel::Kernel|
            #[trigger] crate::kernel::batch_opened(
                old(rt).kernel_state(),
                mid,
                old(rt).op_count() as usize,
                1,
            ) && crate::kernel::action_step_post(
                mid,
                final(rt).kernel_state(),
                lane,
                old(rt).op_count() as usize,
                actions@[0],
            ))))),
{
    match rt.submit_op(target, op) {
        Ok(token) => Ok(OpFuture { token, taken: Ghost(None) }),
        Err(e) => Err(e),
    }
}

/// Submits a sleep completing once the kernel clock reaches `deadline`.
/// Succeeds exactly while the executor's queue object is alive.
pub fn sleep_until(rt: &mut ExecutorInner, deadline: Time) -> (r: Result<OpFuture>)
    requires
        old(rt).wf(),
    ensures
        final(rt).wf(),
        (r is Ok) <==> old(rt).kernel_state().target_of(old(rt).queue_handle_spec().id() as int)
            == Some(crate::kernel::Target::Queue),
        r matches Ok(fut) ==> (fut.value() is None && fut.token_spec() == old(rt).op_count()
            && final(rt).ops_seq() == old(rt).ops_seq().push(OpState::Pending { waiter: None })),
        r is Err ==> *final(rt) == *old(rt),
{
    match rt.submit_sleep_op(deadline.nanos()) {
        Ok(token) => Ok(OpFuture { token, taken: Ghost(None) }),
        Err(e) => Err(e),
    }
}

/// Submits a sleep completing once the given number of nanoseconds has
/// passed on the kernel clock, saturating at the clock's maximum.
/// Succeeds exactly while the executor's queue object is alive. A zero
/// duration completes at submission: it never blocks the run loop.
pub fn sleep_for(rt: &mut ExecutorInner, duration: u64) -> (r: Result<OpFuture>)
    requires
        old(rt).wf(),
    ensures
        final(rt).wf(),
        (r is Ok) <==> old(rt).kernel_state().target_of(old(rt).queue_handle_spec().id() as int)
            == Some(crate::kernel::Target::Queue),
        r matches Ok(fut) ==> (fut.value() is None && fut.token_spec() == old(rt).op_count()
            && final(rt).ops_seq() == old(rt).ops_seq().push(OpState::Pending { waiter: None })),
        (r is Ok && duration == 0) ==> crate::kernel::completion_appended(
            old(rt).kernel_state(),
            final(rt).kernel_state(),
            old(rt).op_count() as int,
            seq![crate::queue::OpResult::Done],
        ),
        r is Err ==> *final(rt) == *old(rt),
{
    let now = rt.now();
    let deadline = match now.nanos().checked_add(duration) {
        Some(d) => d,
        None => u64::MAX,
    };
    match rt.submit_sleep_op(deadline) {
        Ok(token) => Ok(OpFuture { token, taken: Ghost(None) }),
        Err(e) => Err(e),
    }
}

} // verus!
