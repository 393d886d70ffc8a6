//! The completion side of the shared submission queue: completion
//! elements and the queue object itself.

use vstd::prelude::*;

use crate::handle::Handle;
use crate::kernel::{Kernel, Target};
use crate::result::{Error, Result};

verus! {

/// The outcome of one action inside a submitted operation.
#[derive(Debug)]
pub enum OpResult {
    /// The action finished and carries no payload (a send, a push, an
    /// elapsed sleep, or an offer that did not ask for a lane).
    Done,
    /// The action produced a new conversation lane.
    Lane { handle: Handle },
    /// The action received a buffer.
    Bytes { data: Vec<u8> },
    /// The action pulled a descriptor pushed by the peer.
    Descriptor { handle: Handle },
    /// The action failed with a kernel status code.
    Failed { code: u64 },
}

/// One completion retrieved from the queue: the context token of the
/// operation it completes, and the outcome of each of its actions.
#[derive(Debug)]
pub struct Element {
    context: usize,
    results: Vec<OpResult>,
}

impl Element {
    /// The context token carried back by the kernel.
    pub closed spec fn ctx(&self) -> usize {
        self.context
    }

    /// The per-action outcomes, in submission order.
    pub closed spec fn parts(&self) -> Seq<OpResult> {
        self.results@
    }

    pub(crate) fn new(context: usize, results: Vec<OpResult>) -> (e: Element)
        ensures
            e.ctx() == context,
            e.parts() == results@,
    {
        Element { context, results }
    }

    /// The context token identifying the completed operation.
    pub fn context(&self) -> (r: usize)
        ensures
            r == self.ctx(),
    {
        self.context
    }

    /// How many actions the completed operation had.
    pub fn part_count(&self) -> (r: usize)
        ensures
            r == self.parts().len(),
    {
        self.results.len()
    }

    /// Takes ownership of the lane handle produced by action `i`,
    /// surfacing a failed action as its typed error.
    pub fn take_lane(&mut self, i: usize) -> (r: Result<Handle>)
        ensures
            final(self).ctx() == old(self).ctx(),
            final(self).parts().len() == old(self).parts().len(),
            r matches Ok(h) ==> old(self).parts()[i as int] == (OpResult::Lane { handle: h }),
            (r is Ok) <==> (i < old(self).parts().len() && old(self).parts()[i as int] is Lane),
            i < old(self).parts().len() ==> (old(self).parts()[i as int] matches OpResult::Failed {
                code,
            } ==> r == Result::<Handle>::Err(Error::OperationFailed { code })),
    {
        if i < self.results.len() {
            let mut slot = OpResult::Done;
            core::mem::swap(&mut slot, &mut self.results[i]);
            match slot {
                OpResult::Lane { handle } => Ok(handle),
                OpResult::Failed { code } => {
                    self.results[i] = OpResult::Failed { code };
                    Err(Error::OperationFailed { code })
                },
                other => {
                    self.results[i] = other;
                    Err(Error::WrongResultKind)
                },
            }
        } else {
            Err(Error::WrongResultKind)
        }
    }

    /// Takes ownership of the descriptor handle produced by action `i`,
    /// surfacing a failed action as its typed error.
    pub fn take_descriptor(&mut self, i: usize) -> (r: Result<Handle>)
        ensures
            final(self).ctx() == old(self).ctx(),
            final(self).parts().len() == old(self).parts().len(),
            r matches Ok(h) ==> old(self).parts()[i as int] == (OpResult::Descriptor { handle: h }),
            (r is Ok) <==> (i < old(self).parts().len() && old(self).parts()[i as int]
                is Descriptor),
            i < old(self).parts().len() ==> (old(self).parts()[i as int] matches OpResult::Failed {
                code,
            } ==> r == Result::<Handle>::Err(Error::OperationFailed { code })),
    {
        if i < self.results.len() {
            let mut slot = OpResult::Done;
            core::mem::swap(&mut slot, &mut self.results[i]);
            match slot {
                OpResult::Descriptor { handle } => Ok(handle),
                OpResult::Failed { code } => {
                    self.results[i] = OpResult::Failed { code };
                    Err(Error::OperationFailed { code })
                },
                other => {
                    self.results[i] = other;
                    Err(Error::WrongResultKind)
                },
            }
        } else {
            Err(Error::WrongResultKind)
        }
    }

    /// Takes ownership of the buffer received by action `i`, surfacing a
    /// failed action as its typed error.
    pub fn take_bytes(&mut self, i: usize) -> (r: Result<Vec<u8>>)
        ensures
            final(self).ctx() == old(self).ctx(),
            final(self).parts().len() == old(self).parts().len(),
            r matches Ok(d) ==> old(self).parts()[i as int] == (OpResult::Bytes { data: d }),
            (r is Ok) <==> (i < old(self).parts().len() && old(self).parts()[i as int] is Bytes),
            i < old(self).parts().len() ==> (old(self).parts()[i as int] matches OpResult::Failed {
                code,
            } ==> r == Result::<Vec<u8>>::Err(Error::OperationFailed { code })),
    {
        if i < self.results.len() {
            let mut slot = OpResult::Done;
            core::mem::swap(&mut slot, &mut self.results[i]);
            match slot {
                OpResult::Bytes { data } => Ok(data),
                OpResult::Failed { code } => {
                    self.results[i] = OpResult::Failed { code };
                    Err(Error::OperationFailed { code })
                },
                other => {
                    self.results[i] = other;
                    Err(Error::WrongResultKind)
                },
            }
        } else {
            Err(Error::WrongResultKind)
        }
    }

    /// Borrows the lane handle produced by action `i`, when that is what
    /// the action produced.
    pub fn lane_ref(&self, i: usize) -> (r: Option<&Handle>)
        ensures
            (r is Some) <==> (i < self.parts().len() && self.parts()[i as int] is Lane),
            r matches Some(h) ==> self.parts()[i as int] == (OpResult::Lane { handle: *h }),
    {
        if i < self.results.len() {
            match &self.results[i] {
                OpResult::Lane { handle } => Some(handle),
                _ => None,
            }
        } else {
            None
        }
    }

    /// Borrows the buffer received by action `i`, when that is what the
    /// action produced.
    pub fn bytes_ref(&self, i: usize) -> (r: Option<&Vec<u8>>)
        ensures
            (r is Some) <==> (i < self.parts().len() && self.parts()[i as int] is Bytes),
            r matches Some(d) ==> self.parts()[i as int] == (OpResult::Bytes { data: *d }),
    {
        if i < self.results.len() {
            match &self.results[i] {
                OpResult::Bytes { data } => Some(data),
                _ => None,
            }
        } else {
            None
        }
    }

    /// Checks that action `i` finished without payload, surfacing a
    /// failed action as its typed error.
    pub fn check_done(&self, i: usize) -> (r: Result<()>)
        ensures
            (r is Ok) <==> (i < self.parts().len() && self.parts()[i as int] is Done),
            i < self.parts().len() ==> (self.parts()[i as int] matches OpResult::Failed { code }
                ==> r == Result::<()>::Err(Error::OperationFailed { code })),
    {
        if i < self.results.len() {
            match &self.results[i] {
                OpResult::Done => Ok(()),
                OpResult::Failed { code } => Err(Error::OperationFailed { code: *code }),
                _ => Err(Error::WrongResultKind),
            }
        } else {
            Err(Error::WrongResultKind)
        }
    }
}

/// The bounded ring shared with the kernel through which asynchronous
/// operations are submitted and their completions retrieved.
///
/// The queue owns a handle to the kernel queue object; completions are
/// retrieved one at a time with [`Queue::wait`].
#[derive(Debug)]
pub struct Queue {
    handle: Handle,
    ring_shift: usize,
    chunk_count: usize,
    chunk_size: usize,
}

impl Queue {
    /// The identifier of the kernel queue object this queue drives.
    pub open spec fn id(&self) -> u64 {
        self.handle_spec().id()
    }

    /// The handle this queue owns.
    pub closed spec fn handle_spec(&self) -> Handle {
        self.handle
    }

    /// The ring configuration this queue was created with.
    pub closed spec fn config(&self) -> (usize, usize, usize) {
        (self.ring_shift, self.chunk_count, self.chunk_size)
    }

    /// Allocates and maps a shared completion ring with the kernel,
    /// structured as `chunk_count` chunks of `chunk_size` bytes with a
    /// ring index of `2^ring_shift` entries. Fails when the kernel
    /// rejects the configuration or a queue already exists.
    pub fn new(kernel: &mut Kernel, ring_shift: usize, chunk_count: usize, chunk_size: usize) -> (r:
        Result<Queue>)
        ensures
            (r is Ok) <==> (Kernel::queue_config_ok(ring_shift, chunk_count, chunk_size) && !old(
                kernel,
            ).queue_exists()),
            r matches Ok(q) ==> q.id() == old(kernel).handle_count() && final(kernel).target_of(
                q.id() as int,
            ) == Some(Target::Queue) && q.config() == (ring_shift, chunk_count, chunk_size),
            final(kernel).batch_count() == old(kernel).batch_count(),
            final(kernel).same_lanes(*old(kernel)),
            final(kernel).lane_count() == old(kernel).lane_count(),
            final(kernel).same_batches(*old(kernel)),
            final(kernel).same_completions(*old(kernel)),
            final(kernel).same_timers(*old(kernel)),
            final(kernel).clock_val() == old(kernel).clock_val(),
            r is Err ==> *final(kernel) == *old(kernel),
    {
        match kernel.create_queue(ring_shift, chunk_count, chunk_size) {
            Ok(handle) => Ok(Queue { handle, ring_shift, chunk_count, chunk_size }),
            Err(e) => Err(e),
        }
    }

    /// Returns a reference to the queue's own handle.
    pub fn handle(&self) -> (r: &Handle)
        ensures
            r == self.handle_spec(),
    {
        &self.handle
    }

    /// Blocks until at least one completion is available and returns
    /// exactly one completion element. Failure here is fatal to the run
    /// loop: with nothing in flight no completion can ever arrive.
    pub fn wait(&mut self, kernel: &mut Kernel) -> (r: Result<Element>)
        ensures
            *final(self) == *old(self),
            final(kernel).batch_count() == old(kernel).batch_count(),
            old(kernel).completions().len() > 0 ==> (r matches Ok(el) && el == old(
                kernel,
            ).completions()[0] && final(kernel).completions() == old(kernel).completions().skip(1)
                && final(kernel).same_except_completions(*old(kernel))),
            (old(kernel).completions().len() == 0 && old(kernel).timers().len() == 0) ==> (r
                == Result::<Element>::Err(Error::WouldBlockForever)
                && final(kernel).same_except_completions(*old(kernel))
                && final(kernel).same_completions(*old(kernel))),
            r is Err ==> (r == Result::<Element>::Err(Error::WouldBlockForever) || r
                == Result::<Element>::Err(Error::StaleCompletion)),
            crate::kernel::completions_retired(*old(kernel)) ==> crate::kernel::completions_retired(
                *final(kernel),
            ),
            // results are released only as a whole: a delivered completion's
            // operation is retired, every action resolved
            crate::kernel::completions_retired(*old(kernel)) ==> (r matches Ok(el) ==> ((
            el.ctx() as int) < final(kernel).batch_count() && final(kernel).batch_parts(
                el.ctx() as int,
            ) is None)),
            (old(kernel).completions().len() == 0 && old(kernel).timers().len() > 0) ==> ({
                &&& final(kernel).same_lanes(*old(kernel))
                &&& final(kernel).same_handles(*old(kernel))
                &&& exists|idx: int|
                    {
                        &&& 0 <= idx < old(kernel).timers().len()
                        &&& (forall|j: int|
                            0 <= j < old(kernel).timers().len() ==> old(
                                kernel,
                            ).timers()[j].deadline >= old(kernel).timers()[idx].deadline)
                        &&& #[trigger] final(kernel).timers() == old(kernel).timers().remove(idx)
                        &&& (crate::kernel::lone_pending_part(
                            *old(kernel),
                            old(kernel).timers()[idx].token as int,
                        ) ==> (r matches Ok(el) && el.ctx() == old(kernel).timers()[idx].token
                            && el.parts() == seq![OpResult::Done]
                            && final(kernel).completions().len() == 0
                            && final(kernel).batch_parts(old(kernel).timers()[idx].token as int)
                            is None))
                    }
            }),
    {
        kernel.wait_completion()
    }
}

} // verus!
