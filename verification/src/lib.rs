//! A user-space runtime for a completion-queue based asynchronous kernel
//! interface: a single-threaded cooperative executor that bridges kernel
//! completions to suspended tasks, together with the lane/stream IPC
//! primitives (offer/accept, buffer send/receive, descriptor transfer,
//! stream creation, timed sleep) that every higher-level protocol is
//! expressed in.

use vstd::prelude::*;

pub mod executor;
pub mod handle;
pub mod hw;
pub mod kernel;
pub mod mailbox;
pub mod mbus;
pub mod queue;
pub mod result;
pub mod script;
pub mod submission;

pub use executor::{Executor, ExecutorInner, Poll, TaskFuture, TaskRef};
pub use handle::Handle;
pub use queue::Queue;
pub use result::Error;
pub use result::Result;
pub use script::{Script, ScriptStep, TargetSel};
pub use submission::{sleep_for, sleep_until, submit_async, LaneAction, OpFuture, Operation};

verus! {

/// Allocates a linked local/remote lane pair atomically and returns one
/// owned handle to each end; a descriptor pushed into either end is
/// pulled, in order, from the other. With `attach_credentials` the
/// kernel also binds process-identity metadata to the stream. Fails only
/// when the kernel's lane table is exhausted.
pub fn create_stream(rt: &mut executor::ExecutorInner, attach_credentials: bool) -> (r: Result<
    (Handle, Handle),
>)
    requires
        old(rt).wf(),
    ensures
        final(rt).wf(),
        final(rt).ops_seq() == old(rt).ops_seq(),
        (r is Ok) <==> old(rt).kernel_state().lane_count() + 2 <= usize::MAX,
        r matches Ok(hs) ==> ({
            &&& kernel::fresh_stream(
                final(rt).kernel_state(),
                old(rt).kernel_state().lane_count() as int,
                old(rt).kernel_state().lane_count() + 1 as int,
            )
            &&& hs.0.id() == old(rt).kernel_state().handle_count()
            &&& hs.1.id() == old(rt).kernel_state().handle_count() + 1
            &&& final(rt).kernel_state().handle_count() == old(rt).kernel_state().handle_count()
                + 2
            &&& forall|i: int|
                0 <= i < old(rt).kernel_state().handle_count()
                    ==> final(rt).kernel_state().target_of(i) == old(rt).kernel_state().target_of(
                    i,
                )
            &&& final(rt).kernel_state().target_of(hs.0.id() as int) == Some(
                kernel::Target::Lane { lane: old(rt).kernel_state().lane_count() as usize },
            )
            &&& final(rt).kernel_state().target_of(hs.1.id() as int) == Some(
                kernel::Target::Lane { lane: (old(rt).kernel_state().lane_count() + 1) as usize },
            )
            &&& hs.0.id() != hs.1.id()
            &&& final(rt).kernel_state().lane_credentialed(
                old(rt).kernel_state().lane_count() as int,
            ) == attach_credentials
            &&& final(rt).kernel_state().lane_credentialed(
                old(rt).kernel_state().lane_count() + 1 as int,
            ) == attach_credentials
        }),
{
    let kernel = rt.kernel_mut();
    kernel.create_stream(attach_credentials)
}

/// A time value in nanoseconds since boot.
#[derive(Debug, Clone, Copy, PartialEq, Eq, Structural, PartialOrd, Ord, Hash)]
pub struct Time(u64);

impl Time {
    /// The number of nanoseconds since boot that this value stands for.
    pub closed spec fn val(&self) -> u64 {
        self.0
    }

    /// Creates a new [`Time`] instance from the given number of
    /// nanoseconds since boot.
    pub fn from_nanos(nanos: u64) -> (r: Self)
        ensures
            r.val() == nanos,
    {
        Time(nanos)
    }

    /// Returns the value of the clock in nanoseconds since boot.
    pub fn nanos(&self) -> (r: u64)
        ensures
            r == self.val(),
    {
        self.0
    }

    /// The time a given number of nanoseconds after this one.
    pub fn add_nanos(self, delta: u64) -> (r: Self)
        requires
            self.val() + delta <= u64::MAX,
        ensures
            r.val() == self.val() + delta,
    {
        Time(self.0 + delta)
    }

    /// The time a given number of nanoseconds before this one.
    pub fn sub_nanos(self, delta: u64) -> (r: Self)
        requires
            delta <= self.val(),
        ensures
            r.val() == self.val() - delta,
    {
        Time(self.0 - delta)
    }
}

} // verus!
