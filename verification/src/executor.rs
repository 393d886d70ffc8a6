//! A single-threaded cooperative executor: a FIFO ready queue of
//! runnable tasks, plus a blocking "wait for the next kernel completion"
//! step used when no task is runnable.

use vstd::prelude::*;

use std::collections::VecDeque;

use crate::handle::Handle;
use crate::kernel::Kernel;
use crate::queue::{Element, Queue};
use crate::result::{Error, Result};

verus! {

/// What [`TaskFuture::poll`] reports: a final value, or "not ready",
/// meaning the task suspended after arranging to be woken.
#[derive(Debug)]
pub enum Poll<T> {
    /// The future finished with this value and must not be polled again.
    Ready(T),
    /// The future suspended; a completion it registered for will wake it.
    Pending,
}

/// A reference to a task known to the executor: either a spawned task,
/// by its slot, or the task driven directly by [`Executor::block_on`].
#[derive(Debug, Clone, Copy, PartialEq, Eq, Structural)]
pub enum TaskRef {
    /// The future that `block_on` drives.
    Main,
    /// A spawned task, by its slot in the executor's task table.
    Spawned { index: usize },
}

/// The state of one in-flight operation as the executor sees it:
/// submitted and waiting, completed with its element, or consumed by the
/// task that awaited it.
#[derive(Debug)]
pub enum OpState {
    /// Submitted; the kernel still owes the completion. `waiter` is the
    /// task to wake when it arrives.
    Pending { waiter: Option<TaskRef> },
    /// The completion arrived and waits to be taken.
    Completed { element: Element },
    /// The completion was taken by the awaiting task.
    Consumed,
}

/// The executor's sharable inner state: the kernel connection, the
/// completion queue, and the table of in-flight operations. Tasks are
/// handed `&mut ExecutorInner` while they are polled, which is how they
/// submit operations and collect completions.
#[derive(Debug)]
pub struct ExecutorInner {
    kernel: Kernel,
    queue: Queue,
    queue_handle: Handle,
    ops: Vec<OpState>,
}

/// A suspendable unit of work, polled by the executor.
///
/// `value()` is the final value the future has resolved to, if any; a
/// future is polled only while it has none, so a finished future is
/// never polled again.
pub trait TaskFuture: Sized {
    /// The final value this future produces.
    type Output;

    /// The value the future has resolved to, if it has finished.
    spec fn value(&self) -> Option<Self::Output>;

    /// Drives the future one step. On the first poll it typically
    /// submits operations; on later polls it collects completions,
    /// registering `me` as the task to wake when they are still owed.
    fn poll(&mut self, rt: &mut ExecutorInner, me: TaskRef) -> (r: Poll<Self::Output>)
        requires
            old(self).value() is None,
            old(rt).wf(),
        ensures
            final(rt).wf(),
            final(rt).op_count() >= old(rt).op_count(),
            (r matches Poll::Ready(v) ==> final(self).value() == Some(v)),
            (r is Pending ==> final(self).value() is None),
    ;
}

/// FIFO law for the ready queue: a scheduling pass dispatches a prefix
/// of the former ready queue in order, so of two tasks that were both
/// runnable, the one that became runnable earlier is dispatched earlier
/// and is never overtaken.
///
/// `q` is the ready queue before a pass, `log0`/`log1` the dispatch log
/// before and after it, and `k` how many entries the pass dispatched, as
/// `run_once` ensures; entry `i` of the pass is exactly entry `i` of the
/// former ready queue.
pub proof fn lemma_fifo_dispatch(
    q: Seq<TaskRef>,
    log0: Seq<TaskRef>,
    log1: Seq<TaskRef>,
    k: int,
    i: int,
)
    requires
        0 <= k <= q.len(),
        log1 == log0 + q.take(k),
        0 <= i < k,
    ensures
        log1[log0.len() + i] == q[i],
{
}

impl ExecutorInner {
    /// The kernel state this executor drives.
    pub closed spec fn kernel_state(&self) -> Kernel {
        self.kernel
    }

    /// The states of all operations ever submitted, by context token.
    pub closed spec fn ops_seq(&self) -> Seq<OpState> {
        self.ops@
    }

    /// How many operations have ever been submitted.
    pub open spec fn op_count(&self) -> nat {
        self.ops_seq().len()
    }

    /// The executor and its kernel agree on how many operations are in
    /// flight: context tokens index both tables.
    pub open spec fn wf(&self) -> bool {
        self.ops_seq().len() == self.kernel_state().batch_count()
    }

    /// Returns a reference to the queue's handle.
    /// This handle can be used to submit work to the queue.
    pub fn queue_handle(&self) -> (r: &Handle)
        ensures
            r == self.queue_handle_spec(),
    {
        &self.queue_handle
    }

    /// The handle submissions against the queue itself use.
    pub closed spec fn queue_handle_spec(&self) -> Handle {
        self.queue_handle
    }

    /// The completion queue this executor waits on.
    pub closed spec fn queue_spec(&self) -> Queue {
        self.queue
    }

    /// The current time in nanoseconds since boot, read from the kernel
    /// clock.
    pub fn now(&self) -> (r: crate::Time)
        ensures
            r.val() == self.kernel_state().clock_val(),
    {
        crate::Time::from_nanos(self.kernel.now())
    }

    pub(crate) fn new(kernel: Kernel, queue: Queue, queue_handle: Handle) -> (r: ExecutorInner)
        requires
            kernel.batch_count() == 0,
        ensures
            r.wf(),
            r.kernel_state() == kernel,
            r.ops_seq().len() == 0,
            r.queue_handle_spec() == queue_handle,
            r.queue_spec() == queue,
    {
        ExecutorInner { kernel, queue, queue_handle, ops: Vec::new() }
    }

    /// Mutable access to the kernel state, for operations that go to the
    /// kernel without passing through the submission queue (stream
    /// creation, handle duplication).
    pub fn kernel_mut(&mut self) -> (r: &mut Kernel)
        ensures
            *r == old(self).kernel_state(),
            final(self).kernel_state() == *final(r),
            final(self).ops_seq() == old(self).ops_seq(),
            final(self).queue_handle_spec() == old(self).queue_handle_spec(),
    {
        &mut self.kernel
    }

    /// Submits one operation against `target` and returns its fresh
    /// context token. The operation state starts out pending with no
    /// waiter.
    pub(crate) fn submit_op(&mut self, target: &Handle, op: crate::submission::Operation) -> (r:
        Result<usize>)
        requires
            old(self).wf(),
        ensures
            final(self).wf(),
            final(self).queue_handle_spec() == old(self).queue_handle_spec(),
            r matches Ok(tok) ==> tok == old(self).op_count() && final(self).ops_seq() == old(
                self,
            ).ops_seq().push(OpState::Pending { waiter: None }),
            r is Err ==> final(self).ops_seq() == old(self).ops_seq() && *final(self) == *old(self),
            (r is Ok) <==> crate::kernel::submit_admissible(
                old(self).kernel_state(),
                *target,
                op,
            ),
            // a single-action submission's exact kernel effect, for callers
            // that reason about the lane traffic
            op matches crate::submission::Operation::Batch { actions } ==> (r is Ok ==> (
            final(self).kernel_state().lane_count() == old(self).kernel_state().lane_count() && (
            actions@.len() == 1 ==> (crate::kernel::spec_lane_of(
                old(self).kernel_state(),
                *target,
            ) matches Some(lane) ==> exists|mid: crate::kernel::Kernel|
                #[trigger] crate::kernel::batch_opened(
                    old(self).kernel_state(),
                    mid,
                    old(self).op_count() as usize,
                    1,
                ) && crate::kernel::action_step_post(
                    mid,
                    final(self).kernel_state(),
                    lane,
                    old(self).op_count() as usize,
                    actions@[0],
                ))))),
    {
        match self.kernel.submit(target, op) {
            Ok(token) => {
                self.ops.push(OpState::Pending { waiter: None });
                Ok(token)
            },
            Err(e) => Err(e),
        }
    }

    /// Duplicates the queue's handle through the kernel, so that work
    /// can be submitted against the queue from elsewhere. Succeeds
    /// exactly while the handle still names a live object.
    pub fn clone_queue_handle(&mut self) -> (r: Result<Handle>)
        ensures
            final(self).ops_seq() == old(self).ops_seq(),
            final(self).queue_handle_spec() == old(self).queue_handle_spec(),
            (r is Ok) <==> old(self).kernel_state().target_of(
                old(self).queue_handle_spec().id() as int,
            ) is Some,
            r matches Ok(h) ==> final(self).kernel_state().target_of(h.id() as int) == old(
                self,
            ).kernel_state().target_of(old(self).queue_handle_spec().id() as int),
            old(self).wf() ==> final(self).wf(),
    {
        self.queue_handle.clone_handle(&mut self.kernel)
    }

    /// Submits a sleep against the executor's own queue handle. Succeeds
    /// exactly while that handle still names the queue object; a
    /// deadline not after the current clock completes immediately.
    pub(crate) fn submit_sleep_op(&mut self, deadline: u64) -> (r: Result<usize>)
        requires
            old(self).wf(),
        ensures
            final(self).wf(),
            final(self).queue_handle_spec() == old(self).queue_handle_spec(),
            (r is Ok) <==> old(self).kernel_state().target_of(
                old(self).queue_handle_spec().id() as int,
            ) == Some(crate::kernel::Target::Queue),
            r matches Ok(tok) ==> tok == old(self).op_count() && final(self).ops_seq() == old(
                self,
            ).ops_seq().push(OpState::Pending { waiter: None }),
            r is Err ==> *final(self) == *old(self),
            (r is Ok && deadline <= old(self).kernel_state().clock_val())
                ==> crate::kernel::completion_appended(
                old(self).kernel_state(),
                final(self).kernel_state(),
                old(self).op_count() as int,
                seq![crate::queue::OpResult::Done],
            ),
    {
        match self.kernel.submit(
            &self.queue_handle,
            crate::submission::Operation::Sleep { deadline },
        ) {
            Ok(token) => {
                self.ops.push(OpState::Pending { waiter: None });
                Ok(token)
            },
            Err(e) => Err(e),
        }
    }

    /// If operation `token` has completed, consumes and returns its
    /// element; otherwise records `me` as the task to wake when the
    /// completion arrives. Asking about a consumed or unknown token
    /// yields nothing.
    pub fn take_completed(&mut self, token: usize, me: TaskRef) -> (r: Option<Element>)
        requires
            old(self).wf(),
        ensures
            final(self).wf(),
            final(self).kernel_state() == old(self).kernel_state(),
            final(self).queue_handle_spec() == old(self).queue_handle_spec(),
            final(self).ops_seq().len() == old(self).ops_seq().len(),
            r matches Some(el) ==> (token < old(self).ops_seq().len() && old(self).ops_seq()[token as int] == (OpState::Completed { element: el })
                && final(self).ops_seq() == old(self).ops_seq().update(token as int, OpState::Consumed)),
            r is None ==> (token < old(self).ops_seq().len() && old(self).ops_seq()[token as int] is Pending ==> final(self).ops_seq() == old(
                self,
            ).ops_seq().update(token as int, OpState::Pending { waiter: Some(me) })),
            r is None ==> (!(token < old(self).ops_seq().len() && old(self).ops_seq()[token as int] is Pending) ==> final(self).ops_seq() == old(self).ops_seq()),
            (r is Some) <==> (token < old(self).ops_seq().len() && old(self).ops_seq()[token as int] is Completed),
    {
        if token >= self.ops.len() {
            return None;
        }
        let is_completed = match &self.ops[token] {
            OpState::Completed { element: _ } => true,
            _ => false,
        };
        if is_completed {
            let mut slot = OpState::Consumed;
            core::mem::swap(&mut slot, &mut self.ops[token]);
            match slot {
                OpState::Completed { element } => Some(element),
                _ => None,
            }
        } else {
            let is_pending = match &self.ops[token] {
                OpState::Pending { waiter: _ } => true,
                _ => false,
            };
            if is_pending {
                self.ops[token] = OpState::Pending { waiter: Some(me) };
            }
            None
        }
    }

    /// Blocks for exactly one completion, reconstitutes the operation it
    /// names from its context token, marks it completed, and returns the
    /// task to wake, if one was registered.
    ///
    /// Exactly one operation moves from pending to completed per
    /// successful call, and an operation that is no longer pending is
    /// never resolved again: a completion naming one is rejected as
    /// [`Error::StaleCompletion`] with the operation states unchanged.
    pub(crate) fn wait_one(&mut self) -> (r: Result<Option<TaskRef>>)
        requires
            old(self).wf(),
        ensures
            final(self).wf(),
            final(self).queue_handle_spec() == old(self).queue_handle_spec(),
            r matches Ok(w) ==> exists|token: int|
                {
                    &&& 0 <= token < old(self).ops_seq().len()
                    &&& old(self).ops_seq()[token] matches OpState::Pending { waiter }
                        && w == waiter
                    &&& (#[trigger] final(self).ops_seq()[token]) is Completed
                    &&& final(self).ops_seq() == old(self).ops_seq().update(
                        token,
                        final(self).ops_seq()[token],
                    )
                },
            (old(self).kernel_state().completions().len() == 0 && old(
                self,
            ).kernel_state().timers().len() == 0) ==> r == Result::<Option<TaskRef>>::Err(
                Error::WouldBlockForever,
            ),
            r is Err ==> final(self).ops_seq() == old(self).ops_seq(),
            r is Err ==> (r == Result::<Option<TaskRef>>::Err(Error::WouldBlockForever) || r
                == Result::<Option<TaskRef>>::Err(Error::StaleCompletion)),
            // the front completion resolves its operation: success exactly
            // when it names an operation still in flight, and the result is
            // that operation's registered waiter
            old(self).kernel_state().completions().len() > 0 ==> ({
                let el = old(self).kernel_state().completions()[0];
                &&& ((r is Ok) <==> (el.ctx() < old(self).ops_seq().len() && old(
                    self,
                ).ops_seq()[el.ctx() as int] is Pending))
                &&& (r is Ok ==> final(self).ops_seq() == old(self).ops_seq().update(
                    el.ctx() as int,
                    OpState::Completed { element: el },
                ))
                &&& (el.ctx() < old(self).ops_seq().len() ==> (old(
                    self,
                ).ops_seq()[el.ctx() as int] matches OpState::Pending { waiter } ==> r
                    == Result::<Option<TaskRef>>::Ok(waiter)))
            }),
            // with nothing ready but sleeps parked, the wait succeeds as
            // long as every parked sleep still names an operation in flight
            (old(self).kernel_state().completions().len() == 0 && old(
                self,
            ).kernel_state().timers().len() > 0 && (forall|j: int|
                0 <= j < old(self).kernel_state().timers().len() ==> {
                    let tok = (#[trigger] old(self).kernel_state().timers()[j]).token;
                    &&& crate::kernel::lone_pending_part(old(self).kernel_state(), tok as int)
                    &&& tok < old(self).ops_seq().len()
                    &&& old(self).ops_seq()[tok as int] is Pending
                })) ==> r is Ok,
    {
        let element = match self.queue.wait(&mut self.kernel) {
            Ok(el) => el,
            Err(e) => {
                return Err(e);
            },
        };
        let token = element.context();
        if token >= self.ops.len() {
            return Err(Error::StaleCompletion);
        }
        let waiter = match &self.ops[token] {
            OpState::Pending { waiter } => *waiter,
            _ => {
                return Err(Error::StaleCompletion);
            },
        };
        self.ops[token] = OpState::Completed { element };
        Ok(waiter)
    }
}

/// The single-threaded cooperative executor: completes submissions and
/// lets spawned futures run to completion, in the order they became
/// runnable.
pub struct Executor<F: TaskFuture<Output = ()>> {
    inner: ExecutorInner,
    run_queue: VecDeque<TaskRef>,
    tasks: Vec<Option<F>>,
    dispatch_log: Ghost<Seq<TaskRef>>,
    wait_log: Ghost<Seq<nat>>,
}

/// The ring index width a fresh executor's queue is created with.
pub const QUEUE_RING_SHIFT: usize = 9;

/// The chunk count a fresh executor's queue is created with.
pub const QUEUE_CHUNK_COUNT: usize = 16;

/// The chunk size a fresh executor's queue is created with.
pub const QUEUE_CHUNK_SIZE: usize = 4096;

impl<F: TaskFuture<Output = ()>> Executor<F> {
    /// The inner state tasks are polled against.
    pub closed spec fn inner_spec(&self) -> ExecutorInner {
        self.inner
    }

    /// The ready queue: tasks runnable now, front to back.
    pub closed spec fn run_queue_seq(&self) -> Seq<TaskRef> {
        self.run_queue@
    }

    /// The task table; a slot holds `None` once its task finished.
    pub closed spec fn tasks_seq(&self) -> Seq<Option<F>> {
        self.tasks@
    }

    /// Every task reference ever taken off the ready queue, in the order
    /// the executor dispatched them.
    pub closed spec fn dispatch_log(&self) -> Seq<TaskRef> {
        self.dispatch_log@
    }

    /// The ready-queue length observed at each blocking wait the run
    /// loop has made: the loop yields to the kernel only with nothing
    /// runnable, so every entry is zero.
    pub closed spec fn wait_log(&self) -> Seq<nat> {
        self.wait_log@
    }

    /// Stored tasks are unfinished, and the inner state is sound.
    pub open spec fn wf(&self) -> bool {
        &&& self.inner_spec().wf()
        &&& forall|i: int|
            0 <= i < self.tasks_seq().len() ==> ((#[trigger] self.tasks_seq()[i]) matches Some(f)
                ==> f.value() is None)
    }

    /// Creates a new executor with a queue using default parameters: the
    /// kernel queue object exists, both the queue's own handle and the
    /// executor's working duplicate (made through the kernel, never by
    /// copying the identifier) name it, so sleeps submitted against the
    /// queue handle are accepted.
    pub fn new() -> (r: Result<Executor<F>>)
        ensures
            r matches Ok(ex) ==> ex.wf() && ex.run_queue_seq().len() == 0 && ex.tasks_seq().len()
                == 0 && ex.dispatch_log().len() == 0 && ex.wait_log().len() == 0,
            r matches Ok(ex) ==> ({
                &&& ex.inner_spec().kernel_state().target_of(
                    ex.inner_spec().queue_handle_spec().id() as int,
                ) == Some(crate::kernel::Target::Queue)
                &&& ex.inner_spec().kernel_state().target_of(
                    ex.inner_spec().queue_spec().handle_spec().id() as int,
                ) == Some(crate::kernel::Target::Queue)
                &&& ex.inner_spec().queue_handle_spec().id()
                    != ex.inner_spec().queue_spec().handle_spec().id()
                &&& ex.inner_spec().queue_spec().config() == (
                    QUEUE_RING_SHIFT,
                    QUEUE_CHUNK_COUNT,
                    QUEUE_CHUNK_SIZE,
                )
                &&& ex.inner_spec().kernel_state().lane_count() == 0
                &&& ex.inner_spec().kernel_state().completions().len() == 0
                &&& ex.inner_spec().kernel_state().timers().len() == 0
            }),
            r is Ok,
    {
        let mut kernel = Kernel::new();
        let queue = match Queue::new(&mut kernel, QUEUE_RING_SHIFT, QUEUE_CHUNK_COUNT, QUEUE_CHUNK_SIZE) {
            Ok(q) => q,
            Err(e) => {
                return Err(e);
            },
        };
        let queue_handle = match queue.handle().clone_handle(&mut kernel) {
            Ok(h) => h,
            Err(e) => {
                return Err(e);
            },
        };
        Ok(
            Executor {
                inner: ExecutorInner::new(kernel, queue, queue_handle),
                run_queue: VecDeque::new(),
                tasks: Vec::new(),
                dispatch_log: Ghost(Seq::empty()),
                wait_log: Ghost(Seq::empty()),
            },
        )
    }

    /// Returns a reference to the queue's handle.
    /// This handle can be used to submit work to the queue.
    pub fn queue_handle(&self) -> (r: &Handle)
        ensures
            r == self.inner_spec().queue_handle_spec(),
    {
        self.inner.queue_handle()
    }

    /// Mutable access to the inner state, to create streams and submit
    /// operations outside of a poll.
    pub fn inner(&mut self) -> (r: &mut ExecutorInner)
        ensures
            *r == old(self).inner_spec(),
            final(self).inner_spec() == *final(r),
            final(self).run_queue_seq() == old(self).run_queue_seq(),
            final(self).tasks_seq() == old(self).tasks_seq(),
            final(self).dispatch_log() == old(self).dispatch_log(),
            final(self).wait_log() == old(self).wait_log(),
    {
        &mut self.inner
    }

    /// Spawns a new task. It joins the back of the ready queue and will
    /// be polled when the executor is next run.
    pub fn spawn(&mut self, f: F)
        requires
            old(self).wf(),
            f.value() is None,
        ensures
            final(self).wf(),
            final(self).tasks_seq() == old(self).tasks_seq().push(Some(f)),
            final(self).run_queue_seq() == old(self).run_queue_seq().push(
                TaskRef::Spawned { index: old(self).tasks_seq().len() as usize },
            ),
            final(self).dispatch_log() == old(self).dispatch_log(),
            final(self).wait_log() == old(self).wait_log(),
            final(self).inner_spec() == old(self).inner_spec(),
    {
        let index = self.tasks.len();
        self.tasks.push(Some(f));
        self.run_queue.push_back(TaskRef::Spawned { index });
    }

    /// Whether `t` refers to a task that still exists.
    pub open spec fn task_live(&self, t: TaskRef) -> bool {
        match t {
            TaskRef::Main => true,
            TaskRef::Spawned { index } => index < self.tasks_seq().len()
                && self.tasks_seq()[index as int] is Some,
        }
    }

    /// Wakes a task: re-enqueues it at the back of the ready queue. A
    /// reference to a task that no longer exists (its executor slot was
    /// torn down after it finished) is a silent no-op: nothing is
    /// touched and nothing fails.
    pub fn wake(&mut self, t: TaskRef)
        requires
            old(self).wf(),
        ensures
            final(self).wf(),
            old(self).task_live(t) ==> final(self).run_queue_seq() == old(
                self,
            ).run_queue_seq().push(t),
            !old(self).task_live(t) ==> final(self).run_queue_seq() == old(self).run_queue_seq(),
            final(self).tasks_seq() == old(self).tasks_seq(),
            final(self).dispatch_log() == old(self).dispatch_log(),
            final(self).wait_log() == old(self).wait_log(),
            final(self).inner_spec() == old(self).inner_spec(),
    {
        let live = match t {
            TaskRef::Main => true,
            TaskRef::Spawned { index } => {
                if index < self.tasks.len() {
                    match &self.tasks[index] {
                        Some(_) => true,
                        None => false,
                    }
                } else {
                    false
                }
            },
        };
        if live {
            self.run_queue.push_back(t);
        }
    }

    /// Runs the executor once: dispatches tasks from the front of the
    /// ready queue, in FIFO order, until one of them completes (returns
    /// true) or the queue is empty (returns false).
    ///
    /// The dispatch log is extended by exactly the prefix of the former
    /// ready queue that was dispatched, in order, and the ready queue
    /// keeps only the untouched suffix: a task that reported "not ready"
    /// is not re-enqueued until something wakes it.
    pub fn run_once(&mut self) -> (r: bool)
        requires
            old(self).wf(),
        ensures
            final(self).wf(),
            old(self).dispatch_log().len() <= final(self).dispatch_log().len(),
            final(self).dispatch_log().len() - old(self).dispatch_log().len() <= old(
                self,
            ).run_queue_seq().len(),
            final(self).dispatch_log() == old(self).dispatch_log() + old(
                self,
            ).run_queue_seq().take(
                final(self).dispatch_log().len() - old(self).dispatch_log().len(),
            ),
            final(self).run_queue_seq() == old(self).run_queue_seq().skip(
                final(self).dispatch_log().len() - old(self).dispatch_log().len(),
            ),
            !r ==> final(self).dispatch_log().len() - old(self).dispatch_log().len() == old(
                self,
            ).run_queue_seq().len(),
            !r ==> final(self).run_queue_seq().len() == 0,
            final(self).tasks_seq().len() == old(self).tasks_seq().len(),
            final(self).wait_log() == old(self).wait_log(),
            // true means the pass stopped because its last dispatched task
            // completed: that task's slot went from occupied to empty
            r ==> ({
                &&& final(self).dispatch_log().len() > old(self).dispatch_log().len()
                &&& final(self).dispatch_log().last() matches TaskRef::Spawned { index }
                    && index < old(self).tasks_seq().len() && old(
                    self,
                ).tasks_seq()[index as int] is Some && final(self).tasks_seq()[index as int]
                    is None
            }),
            // only the completing task leaves the table: every other task
            // keeps its slot, and no finished slot comes back
            forall|i: int|
                0 <= i < old(self).tasks_seq().len() && ((#[trigger] old(
                    self,
                ).tasks_seq()[i]) is Some) != (final(self).tasks_seq()[i] is Some) ==> (r
                    && old(self).tasks_seq()[i] is Some && final(self).dispatch_log().last() == (
                TaskRef::Spawned { index: i as usize })),
    {
        let ghost q0 = self.run_queue@;
        let ghost log0 = self.dispatch_log@;
        let ghost k: int = 0;
        loop
            invariant
                self.wf(),
                log0 == old(self).dispatch_log(),
                q0 == old(self).run_queue_seq(),
                0 <= k <= q0.len(),
                self.dispatch_log@ == log0 + q0.take(k),
                self.run_queue@ == q0.skip(k),
                self.wait_log@ == old(self).wait_log(),
                self.tasks@.len() == old(self).tasks@.len(),
                forall|i: int|
                    0 <= i < old(self).tasks_seq().len() ==> ((#[trigger] self.tasks@[i]) is Some)
                        == (old(self).tasks_seq()[i] is Some),
            decreases q0.len() - k,
        {
            let next = self.run_queue.pop_front();
            let t = match next {
                Some(t) => t,
                None => {
                    proof {
                        assert(q0.skip(k).len() == 0);
                        assert(k == q0.len());
                        assert(self.dispatch_log@ == log0 + q0.take(k));
                    }
                    return false;
                },
            };
            proof {
                assert(q0.skip(k)[0] == q0[k]);
                assert(self.run_queue@ =~= q0.skip(k + 1));
                assert(log0 + q0.take(k + 1) =~= (log0 + q0.take(k)).push(t));
            }
            self.dispatch_log = Ghost(self.dispatch_log@.push(t));
            proof {
                k = k + 1;
            }
            match t {
                TaskRef::Main => {
                    // run_once never drives the block_on future itself; a
                    // stale wake of it is dropped here
                },
                TaskRef::Spawned { index } => {
                    if index < self.tasks.len() {
                        let mut slot: Option<F> = None;
                        core::mem::swap(&mut slot, &mut self.tasks[index]);
                        match slot {
                            None => {},
                            Some(mut f) => {
                                match f.poll(&mut self.inner, t) {
                                    Poll::Ready(_) => {
                                        // the task is done; its slot stays empty
                                        proof {
                                            assert(self.dispatch_log@ == log0 + q0.take(k));
                                            assert(self.dispatch_log@.last() == (TaskRef::Spawned {
                                                index,
                                            }));
                                        }
                                        return true;
                                    },
                                    Poll::Pending => {
                                        self.tasks[index] = Some(f);
                                    },
                                }
                            },
                        }
                    }
                },
            }
        }
    }

    /// Blocks for one completion and wakes the task registered for it.
    /// Failure means the run loop cannot make progress: nothing was in
    /// flight, or the completion did not name a pending operation.
    pub fn wait(&mut self) -> (r: Result<()>)
        requires
            old(self).wf(),
        ensures
            final(self).wf(),
            final(self).tasks_seq() == old(self).tasks_seq(),
            final(self).dispatch_log() == old(self).dispatch_log(),
            final(self).wait_log() == old(self).wait_log(),
            r is Ok ==> exists|token: int|
                {
                    &&& 0 <= token < old(self).inner_spec().ops_seq().len()
                    &&& old(self).inner_spec().ops_seq()[token] is Pending
                    &&& (#[trigger] final(self).inner_spec().ops_seq()[token]) is Completed
                    &&& final(self).inner_spec().ops_seq() == old(self).inner_spec().ops_seq().update(
                        token,
                        final(self).inner_spec().ops_seq()[token],
                    )
                },
            (old(self).inner_spec().kernel_state().completions().len() == 0 && old(
                self,
            ).inner_spec().kernel_state().timers().len() == 0) ==> r == Result::<()>::Err(
                Error::WouldBlockForever,
            ),
            // a completion wakes at most the one task registered for it
            final(self).run_queue_seq() == old(self).run_queue_seq() || exists|t: TaskRef|
                final(self).run_queue_seq() == old(self).run_queue_seq().push(t),
            r is Err ==> final(self).run_queue_seq() == old(self).run_queue_seq(),
            r is Err ==> final(self).inner_spec().ops_seq() == old(self).inner_spec().ops_seq(),
            r is Err ==> (r == Result::<()>::Err(Error::WouldBlockForever) || r == Result::<
                (),
            >::Err(Error::StaleCompletion)),
            // the front completion resolves its operation, and the task
            // woken is exactly that operation's registered waiter
            old(self).inner_spec().kernel_state().completions().len() > 0 ==> ({
                let el = old(self).inner_spec().kernel_state().completions()[0];
                &&& ((r is Ok) <==> (el.ctx() < old(self).inner_spec().ops_seq().len() && old(
                    self,
                ).inner_spec().ops_seq()[el.ctx() as int] is Pending))
                &&& (r is Ok ==> final(self).inner_spec().ops_seq() == old(
                    self,
                ).inner_spec().ops_seq().update(el.ctx() as int, OpState::Completed { element: el }))
                &&& (el.ctx() < old(self).inner_spec().ops_seq().len() ==> (old(
                    self,
                ).inner_spec().ops_seq()[el.ctx() as int] matches OpState::Pending { waiter } ==> ({
                    &&& (waiter matches Some(w) ==> ((old(self).task_live(w)
                        ==> final(self).run_queue_seq() == old(self).run_queue_seq().push(w)) && (
                    !old(self).task_live(w) ==> final(self).run_queue_seq() == old(
                        self,
                    ).run_queue_seq())))
                    &&& (waiter is None ==> final(self).run_queue_seq() == old(
                        self,
                    ).run_queue_seq())
                })))
            }),
            // with nothing ready but sleeps parked, the wait succeeds as
            // long as every parked sleep still names an operation in flight
            (old(self).inner_spec().kernel_state().completions().len() == 0 && old(
                self,
            ).inner_spec().kernel_state().timers().len() > 0 && (forall|j: int|
                0 <= j < old(self).inner_spec().kernel_state().timers().len() ==> {
                    let tok = (#[trigger] old(self).inner_spec().kernel_state().timers()[j]).token;
                    &&& crate::kernel::lone_pending_part(
                        old(self).inner_spec().kernel_state(),
                        tok as int,
                    )
                    &&& tok < old(self).inner_spec().ops_seq().len()
                    &&& old(self).inner_spec().ops_seq()[tok as int] is Pending
                })) ==> r is Ok,
    {
        match self.inner.wait_one() {
            Ok(Some(w)) => {
                self.wake(w);
                Ok(())
            },
            Ok(None) => Ok(()),
            Err(e) => Err(e),
        }
    }

    /// Blocks the current thread until the given future is ready and
    /// returns its final value: the value `g` resolved to, with no
    /// further polling afterwards — the dispatch log ends at the poll
    /// that resolved `g` — even if other tasks remain suspended.
    ///
    /// Failure is the run loop's own: a wait that could never finish, a
    /// stale completion, or the exhausted step budget; the driven
    /// future's typed failures travel inside its output value. The loop
    /// yields to the kernel only when nothing is runnable, as the wait
    /// log records. The step budget is so large that exhausting it is
    /// unreachable in practice; it exists so that every run provably
    /// ends.
    pub fn block_on<G: TaskFuture<Output = R>, R>(&mut self, g: &mut G) -> (r: Result<R>)
        requires
            old(self).wf(),
            old(g).value() is None,
        ensures
            final(self).wf(),
            r matches Ok(v) ==> final(g).value() == Some(v),
            r is Err ==> final(g).value() is None,
            r is Err ==> (r == Result::<R>::Err(Error::WouldBlockForever) || r == Result::<R>::Err(
                Error::StaleCompletion,
            ) || r == Result::<R>::Err(Error::BudgetExhausted)),
            // the run stops at the poll that resolved the driven future
            final(self).dispatch_log().take(old(self).dispatch_log().len() as int) == old(
                self,
            ).dispatch_log(),
            r is Ok ==> (final(self).dispatch_log().len() > old(self).dispatch_log().len()
                && final(self).dispatch_log().last() == TaskRef::Main),
            // the loop blocks only when no task is runnable
            final(self).wait_log().take(old(self).wait_log().len() as int) == old(self).wait_log(),
            forall|i: int|
                old(self).wait_log().len() <= i < final(self).wait_log().len()
                    ==> final(self).wait_log()[i] == 0,
    {
        self.run_queue.push_back(TaskRef::Main);
        let ghost log0 = self.dispatch_log@;
        let ghost wl0 = self.wait_log@;
        let mut budget: u64 = u64::MAX;
        loop
            invariant
                self.wf(),
                g.value() is None,
                log0 == old(self).dispatch_log(),
                wl0 == old(self).wait_log(),
                log0.len() <= self.dispatch_log@.len(),
                self.dispatch_log@.take(log0.len() as int) == log0,
                self.wait_log@.take(wl0.len() as int) == wl0,
                wl0.len() <= self.wait_log@.len(),
                forall|i: int|
                    wl0.len() <= i < self.wait_log@.len() ==> (#[trigger] self.wait_log@[i]) == 0,
            decreases budget,
        {
            if budget == 0 {
                return Err(Error::BudgetExhausted);
            }
            budget = budget - 1;
            let next = self.run_queue.pop_front();
            match next {
                None => {
                    proof {
                        assert(self.wait_log@.push(0nat).take(wl0.len() as int) =~= wl0);
                    }
                    self.wait_log = Ghost(self.wait_log@.push(self.run_queue@.len()));
                    match self.wait() {
                        Ok(()) => {},
                        Err(e) => {
                            return Err(e);
                        },
                    }
                },
                Some(TaskRef::Main) => {
                    proof {
                        assert(self.dispatch_log@.push(TaskRef::Main).take(log0.len() as int)
                            =~= log0);
                    }
                    self.dispatch_log = Ghost(self.dispatch_log@.push(TaskRef::Main));
                    match g.poll(&mut self.inner, TaskRef::Main) {
                        Poll::Ready(v) => {
                            return Ok(v);
                        },
                        Poll::Pending => {},
                    }
                },
                Some(t) => {
                    proof {
                        assert(self.dispatch_log@.push(t).take(log0.len() as int) =~= log0);
                    }
                    self.dispatch_log = Ghost(self.dispatch_log@.push(t));
                    if let TaskRef::Spawned { index } = t {
                        if index < self.tasks.len() {
                            let mut slot: Option<F> = None;
                            core::mem::swap(&mut slot, &mut self.tasks[index]);
                            match slot {
                                None => {},
                                Some(mut f) => {
                                    match f.poll(&mut self.inner, t) {
                                        Poll::Ready(_) => {},
                                        Poll::Pending => {
                                            self.tasks[index] = Some(f);
                                        },
                                    }
                                },
                            }
                        }
                    }
                },
            }
        }
    }
}

} // verus!
