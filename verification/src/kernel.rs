//! An in-memory model of the kernel-side queue and lane machinery that
//! the runtime drives: the handle table, lanes with their in-flight
//! items, per-operation progress, timers, and the completion ring.
//!
//! The model is deterministic: items and expectations meet strictly in
//! FIFO order on each lane, an operation completes exactly when all of
//! its actions have an outcome, and each completion carries the context
//! token of the operation it belongs to exactly once.

use vstd::prelude::*;

use std::collections::VecDeque;

use crate::handle::Handle;
use crate::queue::{Element, OpResult};
use crate::result::{Error, Result};
use crate::submission::{LaneAction, Operation};

verus! {

/// Status code of an action whose item and expectation disagree in kind.
pub const CODE_SHAPE_MISMATCH: u64 = 1;

/// Status code of a receive whose message exceeds the caller's buffer.
pub const CODE_TRUNCATED: u64 = 2;

/// Status code of an action naming a handle that is not live.
pub const CODE_BAD_HANDLE: u64 = 3;

/// What a live handle refers to.
#[derive(Debug, Clone, Copy, PartialEq, Eq, Structural)]
pub enum Target {
    /// A lane endpoint, by its index in the kernel's lane table.
    Lane { lane: usize },
    /// The completion queue object.
    Queue,
    /// An object the lane machinery only transfers, never interprets.
    Opaque { tag: u64 },
}

/// One item travelling over a lane, delivered strictly in FIFO order.
#[derive(Debug)]
pub enum LaneItem {
    /// A byte buffer sent by the peer.
    Message { data: Vec<u8> },
    /// A kernel object whose ownership the peer pushed across.
    Descriptor { target: Target },
    /// A freshly created conversation lane offered by the peer; `remote`
    /// is the lane the accepting side will speak on.
    Conversation { remote: usize },
}

/// One outstanding expectation parked on a lane, waiting for the
/// matching item; it names the operation (token) and action (part) to
/// fill once the item arrives.
#[derive(Debug)]
pub enum Expect {
    /// A receive waiting for a message of at most `max_len` bytes.
    Message { token: usize, part: usize, max_len: usize },
    /// A pull waiting for a descriptor.
    Descriptor { token: usize, part: usize },
    /// An accept waiting for a conversation; once it arrives the stored
    /// actions run on the new conversation lane, filling the parts after
    /// `part`.
    Conversation { token: usize, part: usize, actions: Vec<LaneAction> },
}

/// A bidirectional endpoint: its peer, queued inbound items, and parked
/// expectations. A lane never holds both items and expectations at once:
/// arrivals meet the opposite front immediately.
#[derive(Debug)]
struct Lane {
    peer: usize,
    credentialed: bool,
    inbox: VecDeque<LaneItem>,
    expects: VecDeque<Expect>,
}

/// The kernel-side progress of one submitted operation: the outcome of
/// each action, or `None` while an action is still outstanding.
#[derive(Debug)]
struct Batch {
    results: Vec<Option<OpResult>>,
}

/// A parked sleep: the operation to complete once the clock reaches the
/// deadline.
#[derive(Debug, Clone, Copy, PartialEq, Eq, Structural)]
pub struct Timer {
    pub token: usize,
    pub deadline: u64,
}

/// The modelled kernel state.
#[derive(Debug)]
pub struct Kernel {
    handle_table: Vec<Option<Target>>,
    lane_table: Vec<Lane>,
    batch_table: Vec<Option<Batch>>,
    ready_elements: VecDeque<Element>,
    timer_table: Vec<Timer>,
    clock: u64,
    has_queue: bool,
}

/// Every action of the operation has an outcome.
pub open spec fn all_filled(parts: Seq<Option<OpResult>>) -> bool {
    forall|i: int| 0 <= i < parts.len() ==> parts[i] is Some
}

/// The outcomes of a fully completed operation, in action order.
pub open spec fn unwrap_parts(parts: Seq<Option<OpResult>>) -> Seq<OpResult> {
    Seq::new(
        parts.len(),
        |i: int|
            match parts[i] {
                Some(r) => r,
                None => OpResult::Done,
            },
    )
}

impl Kernel {
    // ------------------------------------------------------------------
    // Specification views
    // ------------------------------------------------------------------
    /// The handle table: one entry per identifier ever minted.
    pub closed spec fn handles_seq(&self) -> Seq<Option<Target>> {
        self.handle_table@
    }

    /// How many handle identifiers have been minted.
    pub open spec fn handle_count(&self) -> nat {
        self.handles_seq().len()
    }

    /// What identifier `id` currently refers to, if it is live.
    pub open spec fn target_of(&self, id: int) -> Option<Target> {
        if 0 <= id < self.handles_seq().len() {
            self.handles_seq()[id]
        } else {
            None
        }
    }

    /// How many lanes exist.
    pub closed spec fn lane_count(&self) -> nat {
        self.lane_table@.len()
    }

    /// The peer lane of lane `l`.
    pub closed spec fn lane_peer(&self, l: int) -> int {
        self.lane_table@[l].peer as int
    }

    /// Whether lane `l` carries process credentials.
    pub closed spec fn lane_credentialed(&self, l: int) -> bool {
        self.lane_table@[l].credentialed
    }

    /// The items queued on lane `l`, oldest first.
    pub closed spec fn lane_inbox(&self, l: int) -> Seq<LaneItem> {
        self.lane_table@[l].inbox@
    }

    /// The expectations parked on lane `l`, oldest first.
    pub closed spec fn lane_expects(&self, l: int) -> Seq<Expect> {
        self.lane_table@[l].expects@
    }

    /// How many operations have ever been submitted.
    pub closed spec fn batch_count(&self) -> nat {
        self.batch_table@.len()
    }

    /// The in-flight outcomes of operation `t`, or `None` once it has
    /// completed (or if `t` was never issued).
    pub closed spec fn batch_parts(&self, t: int) -> Option<Seq<Option<OpResult>>> {
        if 0 <= t < self.batch_table@.len() {
            match self.batch_table@[t] {
                Some(b) => Some(b.results@),
                None => None,
            }
        } else {
            None
        }
    }

    /// The completions ready to be retrieved, oldest first.
    pub closed spec fn completions(&self) -> Seq<Element> {
        self.ready_elements@
    }

    /// The parked sleeps.
    pub closed spec fn timers(&self) -> Seq<Timer> {
        self.timer_table@
    }

    /// The monotonic clock, in nanoseconds since boot.
    pub closed spec fn clock_val(&self) -> u64 {
        self.clock
    }

    /// Whether the completion queue object has been created.
    pub closed spec fn queue_exists(&self) -> bool {
        self.has_queue
    }

    // ------------------------------------------------------------------
    // Frame predicates
    // ------------------------------------------------------------------
    /// Lane `l` is unchanged between the two states.
    pub open spec fn lane_eq(self, other: Kernel, l: int) -> bool {
        &&& self.lane_peer(l) == other.lane_peer(l)
        &&& self.lane_credentialed(l) == other.lane_credentialed(l)
        &&& self.lane_inbox(l) == other.lane_inbox(l)
        &&& self.lane_expects(l) == other.lane_expects(l)
    }

    /// All lanes are unchanged.
    pub closed spec fn same_lanes(self, other: Kernel) -> bool {
        self.lane_table@ == other.lane_table@
    }

    /// The handle table is unchanged.
    pub open spec fn same_handles(self, other: Kernel) -> bool {
        self.handles_seq() == other.handles_seq()
    }

    /// Every operation's progress is unchanged.
    pub closed spec fn same_batches(self, other: Kernel) -> bool {
        self.batch_table@ == other.batch_table@
    }

    /// The ready completions are unchanged.
    pub open spec fn same_completions(self, other: Kernel) -> bool {
        self.completions() == other.completions()
    }

    /// The parked sleeps are unchanged.
    pub open spec fn same_timers(self, other: Kernel) -> bool {
        self.timers() == other.timers()
    }

    /// The clock and queue flag are unchanged.
    pub open spec fn same_clock(self, other: Kernel) -> bool {
        self.clock_val() == other.clock_val() && self.queue_exists() == other.queue_exists()
    }

    /// Everything but the ready completions is unchanged.
    pub open spec fn same_except_completions(self, other: Kernel) -> bool {
        &&& self.same_lanes(other)
        &&& self.same_handles(other)
        &&& self.same_batches(other)
        &&& self.same_timers(other)
        &&& self.same_clock(other)
    }

    // ------------------------------------------------------------------
    // Construction and handles
    // ------------------------------------------------------------------
    /// A fresh kernel: no objects, no operations, clock at zero.
    pub fn new() -> (k: Kernel)
        ensures
            k.handle_count() == 0,
            k.lane_count() == 0,
            k.batch_count() == 0,
            k.completions().len() == 0,
            k.timers().len() == 0,
            k.clock_val() == 0,
            !k.queue_exists(),
            completions_retired(k),
    {
        Kernel {
            handle_table: Vec::new(),
            lane_table: Vec::new(),
            batch_table: Vec::new(),
            ready_elements: VecDeque::new(),
            timer_table: Vec::new(),
            clock: 0,
            has_queue: false,
        }
    }

    /// Mints a fresh handle identifier referring to `t`.
    fn alloc_handle(&mut self, t: Target) -> (h: Handle)
        ensures
            h.id() == old(self).handle_count(),
            final(self).handles_seq() == old(self).handles_seq().push(Some(t)),
            final(self).same_lanes(*old(self)),
            final(self).same_batches(*old(self)),
            final(self).same_completions(*old(self)),
            final(self).same_timers(*old(self)),
            final(self).same_clock(*old(self)),
    {
        let id = self.handle_table.len() as u64;
        self.handle_table.push(Some(t));
        Handle::from_raw(id)
    }

    /// What `h` currently refers to.
    fn resolve(&self, h: &Handle) -> (r: Option<Target>)
        ensures
            r == self.target_of(h.id() as int),
    {
        let id = h.raw();
        if id < self.handle_table.len() as u64 {
            self.handle_table[id as usize]
        } else {
            None
        }
    }

    /// Kernel-mediated duplication: a second, independently owned handle
    /// to the object `h` refers to. Fails when `h` is not live.
    pub fn clone_handle(&mut self, h: &Handle) -> (r: Result<Handle>)
        ensures
            (r is Ok) <==> old(self).target_of(h.id() as int) is Some,
            r matches Ok(h2) ==> h2.id() == old(self).handle_count() && final(self).handles_seq()
                == old(self).handles_seq().push(old(self).target_of(h.id() as int)),
            r is Err ==> *final(self) == *old(self) && r == Result::<Handle>::Err(
                Error::InvalidHandle,
            ),
            final(self).same_lanes(*old(self)),
            final(self).lane_count() == old(self).lane_count(),
            final(self).same_batches(*old(self)),
            final(self).batch_count() == old(self).batch_count(),
            final(self).same_completions(*old(self)),
            final(self).same_timers(*old(self)),
            final(self).same_clock(*old(self)),
    {
        match self.resolve(h) {
            Some(t) => Ok(self.alloc_handle(t)),
            None => Err(Error::InvalidHandle),
        }
    }

    /// Closes a handle, consuming it. Closing an already dead handle is
    /// a silent no-op, as the contract of dropping requires.
    pub fn close_handle(&mut self, h: Handle)
        ensures
            final(self).handles_seq().len() == old(self).handles_seq().len(),
            h.id() < old(self).handle_count() ==> final(self).handles_seq() == old(
                self,
            ).handles_seq().update(h.id() as int, None),
            h.id() >= old(self).handle_count() ==> final(self).same_handles(*old(self)),
            final(self).same_lanes(*old(self)),
            final(self).same_batches(*old(self)),
            final(self).batch_count() == old(self).batch_count(),
            final(self).same_completions(*old(self)),
            final(self).same_timers(*old(self)),
            final(self).same_clock(*old(self)),
    {
        let id = h.raw();
        if id < self.handle_table.len() as u64 {
            self.handle_table[id as usize] = None;
        }
    }

    /// Whether a queue configuration is one the kernel accepts: a ring
    /// index of at least two entries that stays addressable, and nonzero
    /// chunks.
    pub open spec fn queue_config_ok(ring_shift: usize, chunk_count: usize, chunk_size: usize) -> bool {
        1 <= ring_shift <= 16 && 0 < chunk_count && 0 < chunk_size
    }

    /// Creates the completion queue object. Fails if the configuration
    /// is rejected or a queue already exists.
    pub fn create_queue(&mut self, ring_shift: usize, chunk_count: usize, chunk_size: usize) -> (r:
        Result<Handle>)
        ensures
            (r is Ok) <==> (Self::queue_config_ok(ring_shift, chunk_count, chunk_size) && !old(
                self,
            ).queue_exists()),
            r matches Ok(h) ==> h.id() == old(self).handle_count() && final(self).handles_seq()
                == old(self).handles_seq().push(Some(Target::Queue)) && final(self).queue_exists(),
            r is Err ==> *final(self) == *old(self) && r == Result::<Handle>::Err(
                Error::UnsupportedConfiguration,
            ),
            final(self).same_lanes(*old(self)),
            final(self).lane_count() == old(self).lane_count(),
            final(self).same_batches(*old(self)),
            final(self).batch_count() == old(self).batch_count(),
            final(self).same_completions(*old(self)),
            final(self).same_timers(*old(self)),
            final(self).clock_val() == old(self).clock_val(),
    {
        if 1 <= ring_shift && ring_shift <= 16 && 0 < chunk_count && 0 < chunk_size
            && !self.has_queue {
            self.has_queue = true;
            Ok(self.alloc_handle(Target::Queue))
        } else {
            Err(Error::UnsupportedConfiguration)
        }
    }

    /// The current clock value in nanoseconds since boot.
    pub fn now(&self) -> (r: u64)
        ensures
            r == self.clock_val(),
    {
        self.clock
    }

    // ------------------------------------------------------------------
    // Lanes and streams
    // ------------------------------------------------------------------
    /// Creates two fresh, empty lanes linked as peers; returns their
    /// indices (first, second).
    fn create_lane_pair(&mut self, credentialed: bool) -> (r: (usize, usize))
        requires
            old(self).lane_count() + 2 <= usize::MAX,
        ensures
            r.0 == old(self).lane_count(),
            r.1 == old(self).lane_count() + 1,
            final(self).lane_count() == old(self).lane_count() + 2,
            forall|l: int|
                0 <= l < old(self).lane_count() ==> final(self).lane_eq(*old(self), l),
            final(self).lane_peer(r.0 as int) == r.1 as int,
            final(self).lane_peer(r.1 as int) == r.0 as int,
            final(self).lane_credentialed(r.0 as int) == credentialed,
            final(self).lane_credentialed(r.1 as int) == credentialed,
            final(self).lane_inbox(r.0 as int).len() == 0,
            final(self).lane_expects(r.0 as int).len() == 0,
            final(self).lane_inbox(r.1 as int).len() == 0,
            final(self).lane_expects(r.1 as int).len() == 0,
            final(self).same_handles(*old(self)),
            final(self).same_batches(*old(self)),
            final(self).same_completions(*old(self)),
            final(self).same_timers(*old(self)),
            final(self).same_clock(*old(self)),
    {
        let a = self.lane_table.len();
        let b = a + 1;
        self.lane_table.push(
            Lane { peer: b, credentialed, inbox: VecDeque::new(), expects: VecDeque::new() },
        );
        self.lane_table.push(
            Lane { peer: a, credentialed, inbox: VecDeque::new(), expects: VecDeque::new() },
        );
        (a, b)
    }

    /// Allocates a linked local/remote lane pair atomically and hands
    /// out one owned handle to each end. With `attach_credentials` the
    /// kernel also binds process-identity metadata to both ends. Fails
    /// only when the lane table is exhausted.
    pub fn create_stream(&mut self, attach_credentials: bool) -> (r: Result<(Handle, Handle)>)
        ensures
            (r is Ok) <==> old(self).lane_count() + 2 <= usize::MAX,
            r is Err ==> *final(self) == *old(self) && r == Result::<(Handle, Handle)>::Err(
                Error::ResourceExhaustion,
            ),
            r matches Ok(hs) ==> ({
                &&& final(self).lane_count() == old(self).lane_count() + 2
                &&& final(self).handle_count() == old(self).handle_count() + 2
                &&& final(self).target_of(hs.0.id() as int) == Some(
                    Target::Lane { lane: old(self).lane_count() as usize },
                )
                &&& final(self).target_of(hs.1.id() as int) == Some(
                    Target::Lane { lane: (old(self).lane_count() + 1) as usize },
                )
                &&& hs.0.id() == old(self).handle_count()
                &&& hs.1.id() == old(self).handle_count() + 1
                &&& forall|i: int|
                    0 <= i < old(self).handle_count() ==> final(self).target_of(i) == old(
                        self,
                    ).target_of(i)
                &&& forall|l: int|
                    0 <= l < old(self).lane_count() ==> final(self).lane_eq(*old(self), l)
                &&& fresh_stream(
                    *final(self),
                    old(self).lane_count() as int,
                    old(self).lane_count() + 1 as int,
                )
                &&& final(self).lane_credentialed(old(self).lane_count() as int)
                    == attach_credentials
                &&& final(self).lane_credentialed(old(self).lane_count() + 1 as int)
                    == attach_credentials
                &&& final(self).same_batches(*old(self))
                &&& final(self).batch_count() == old(self).batch_count()
                &&& final(self).same_completions(*old(self))
                &&& final(self).same_timers(*old(self))
                &&& final(self).same_clock(*old(self))
            }),
    {
        if self.lane_table.len() > usize::MAX - 2 {
            return Err(Error::ResourceExhaustion);
        }
        let (a, b) = self.create_lane_pair(attach_credentials);
        let ghost mid = *self;
        let ha = self.alloc_handle(Target::Lane { lane: a });
        let hb = self.alloc_handle(Target::Lane { lane: b });
        proof {
            assert forall|l: int| 0 <= l < old(self).lane_count() implies self.lane_eq(
                *old(self),
                l,
            ) by {
                assert(mid.lane_eq(*old(self), l));
            }
        }
        Ok((ha, hb))
    }
}

/// The completed outcomes of a single-action operation whose one slot was
/// just filled with `res`.
proof fn lemma_unwrap_single(res: OpResult)
    ensures
        unwrap_parts(seq![None::<OpResult>].update(0, Some(res))) == seq![res],
{
    assert(unwrap_parts(seq![None::<OpResult>].update(0, Some(res))) =~= seq![res]);
}

impl Kernel {
    // ------------------------------------------------------------------
    // Operation progress
    // ------------------------------------------------------------------
    /// Whether every action outcome of `b` is present.
    fn batch_all_filled(b: &Batch) -> (r: bool)
        ensures
            r == all_filled(b.results@),
    {
        let mut i: usize = 0;
        let n = b.results.len();
        while i < n
            invariant
                i <= n,
                n == b.results@.len(),
                forall|j: int| 0 <= j < i ==> b.results@[j] is Some,
            decreases n - i,
        {
            match &b.results[i] {
                Some(_) => {},
                None => {
                    return false;
                },
            }
            i += 1;
        }
        true
    }

    /// Extracts the outcomes of a fully filled batch, in action order.
    fn batch_unwrap(b: Batch) -> (r: Vec<OpResult>)
        requires
            all_filled(b.results@),
        ensures
            r@ == unwrap_parts(b.results@),
    {
        let mut b = b;
        let ghost orig = b.results@;
        let mut out: Vec<OpResult> = Vec::new();
        let mut i: usize = 0;
        let n = b.results.len();
        while i < n
            invariant
                i <= n,
                n == b.results@.len(),
                b.results@.len() == orig.len(),
                all_filled(orig),
                forall|j: int| i <= j < n ==> b.results@[j] == orig[j],
                out@ == unwrap_parts(orig).take(i as int),
            decreases n - i,
        {
            let mut slot: Option<OpResult> = None;
            core::mem::swap(&mut slot, &mut b.results[i]);
            match slot {
                Some(v) => {
                    out.push(v);
                    proof {
                        assert(unwrap_parts(orig).take(i + 1 as int) =~= unwrap_parts(orig).take(
                            i as int,
                        ).push(v));
                    }
                },
                None => {
                    proof {
                        assert(orig[i as int] is Some);
                        assert(false);
                    }
                },
            }
            i += 1;
        }
        proof {
            assert(unwrap_parts(orig).take(n as int) =~= unwrap_parts(orig));
        }
        out
    }

    /// Records the outcome of action `part` of operation `token`. When
    /// this was the last outstanding action the whole operation is
    /// retired into the ready completions. An outcome for an unknown or
    /// already filled slot is discarded.
    fn fill(&mut self, token: usize, part: usize, res: OpResult)
        ensures
            final(self).same_lanes(*old(self)),
            final(self).same_handles(*old(self)),
            final(self).same_timers(*old(self)),
            final(self).same_clock(*old(self)),
            final(self).batch_count() == old(self).batch_count(),
            !fill_open(*old(self), token as int, part as int) ==> final(self).same_batches(
                *old(self),
            ) && final(self).same_completions(*old(self)),
            fill_open(*old(self), token as int, part as int) ==> ({
                let parts1 = parts_of(*old(self), token as int).update(part as int, Some(res));
                &&& (forall|t: int|
                    t != token ==> final(self).batch_parts(t) == old(self).batch_parts(t))
                &&& (all_filled(parts1) ==> final(self).batch_parts(token as int) is None
                    && completion_appended(
                    *old(self),
                    *final(self),
                    token as int,
                    unwrap_parts(parts1),
                ))
                &&& (!all_filled(parts1) ==> final(self).batch_parts(token as int) == Some(parts1)
                    && final(self).same_completions(*old(self)))
            }),
            completions_retired(*old(self)) ==> completions_retired(*final(self)),
    {
        if token >= self.batch_table.len() {
            return ;
        }
        let mut slot: Option<Batch> = None;
        core::mem::swap(&mut slot, &mut self.batch_table[token]);
        match slot {
            None => {
                proof {
                    assert(self.batch_table@ =~= old(self).batch_table@);
                }
            },
            Some(mut batch) => {
                let n = batch.results.len();
                if part < n {
                    let already = match &batch.results[part] {
                        Some(_) => true,
                        None => false,
                    };
                    if already {
                        self.batch_table[token] = Some(batch);
                        proof {
                            assert(self.batch_table@ =~= old(self).batch_table@);
                        }
                    } else {
                        batch.results[part] = Some(res);
                        if Self::batch_all_filled(&batch) {
                            let outs = Self::batch_unwrap(batch);
                            let el = Element::new(token, outs);
                            self.ready_elements.push_back(el);
                            proof {
                                assert(final(self).completions().take(
                                    old(self).completions().len() as int,
                                ) =~= old(self).completions());
                            }
                        } else {
                            self.batch_table[token] = Some(batch);
                        }
                    }
                } else {
                    self.batch_table[token] = Some(batch);
                    proof {
                        assert(self.batch_table@ =~= old(self).batch_table@);
                    }
                }
            },
        }
    }

    /// Takes lane `i` out of the table to work on it owned, leaving an
    /// empty placeholder behind.
    fn lane_take(&mut self, i: usize) -> (ln: Lane)
        requires
            i < old(self).lane_count(),
        ensures
            ln == old(self).lane_table@[i as int],
            final(self).lane_count() == old(self).lane_count(),
            forall|l: int|
                0 <= l < old(self).lane_count() && l != i ==> final(self).lane_table@[l] == old(
                    self,
                ).lane_table@[l],
            final(self).same_handles(*old(self)),
            final(self).same_batches(*old(self)),
            final(self).same_completions(*old(self)),
            final(self).same_timers(*old(self)),
            final(self).same_clock(*old(self)),
    {
        let mut ln = Lane {
            peer: 0,
            credentialed: false,
            inbox: VecDeque::new(),
            expects: VecDeque::new(),
        };
        core::mem::swap(&mut ln, &mut self.lane_table[i]);
        ln
    }

    /// Puts a lane taken with [`Kernel::lane_take`] back.
    fn lane_put(&mut self, i: usize, ln: Lane)
        requires
            i < old(self).lane_count(),
        ensures
            final(self).lane_table@ == old(self).lane_table@.update(i as int, ln),
            final(self).same_handles(*old(self)),
            final(self).same_batches(*old(self)),
            final(self).same_completions(*old(self)),
            final(self).same_timers(*old(self)),
            final(self).same_clock(*old(self)),
    {
        self.lane_table[i] = ln;
    }

    /// Fails actions `base .. base + count` of operation `token` with a
    /// shape-mismatch status.
    fn fail_parts(&mut self, token: usize, base: usize, count: usize)
        ensures
            final(self).same_lanes(*old(self)),
            final(self).same_handles(*old(self)),
            final(self).same_timers(*old(self)),
            final(self).same_clock(*old(self)),
            final(self).batch_count() == old(self).batch_count(),
            completions_retired(*old(self)) ==> completions_retired(*final(self)),
    {
        let mut i: usize = 0;
        while i < count
            invariant
                self.same_lanes(*old(self)),
                self.same_handles(*old(self)),
                self.same_timers(*old(self)),
                self.same_clock(*old(self)),
                self.batch_count() == old(self).batch_count(),
                completions_retired(*old(self)) ==> completions_retired(*self),
            decreases count - i,
        {
            match base.checked_add(i) {
                Some(p) => self.fill(token, p, OpResult::Failed { code: CODE_SHAPE_MISMATCH }),
                None => {},
            }
            i += 1;
        }
    }
}

/// Two linked lanes with nothing in flight on either end, as
/// [`Kernel::create_stream`] leaves them.
pub open spec fn fresh_stream(k: Kernel, a: int, b: int) -> bool {
    &&& 0 <= a < k.lane_count()
    &&& 0 <= b < k.lane_count()
    &&& a != b
    &&& k.lane_peer(a) == b
    &&& k.lane_peer(b) == a
    &&& k.lane_inbox(a).len() == 0
    &&& k.lane_expects(a).len() == 0
    &&& k.lane_inbox(b).len() == 0
    &&& k.lane_expects(b).len() == 0
}

/// Results are released only as a whole: every ready completion names an
/// operation that has been retired — all of its actions resolved and its
/// in-flight record gone — so no element ever exposes a partial batch.
pub open spec fn completions_retired(k: Kernel) -> bool {
    forall|i: int|
        0 <= i < k.completions().len() ==> {
            let e = #[trigger] k.completions()[i];
            &&& (e.ctx() as int) < k.batch_count()
            &&& k.batch_parts(e.ctx() as int) is None
        }
}

/// A completion for operation `token` with the given outcomes was
/// appended to the ready completions, which are otherwise unchanged.
pub open spec fn completion_appended(k0: Kernel, k1: Kernel, token: int, results: Seq<
    OpResult,
>) -> bool {
    &&& k1.completions().len() == k0.completions().len() + 1
    &&& k1.completions().take(k0.completions().len() as int) == k0.completions()
    &&& k1.completions().last().ctx() == token
    &&& k1.completions().last().parts() == results
}

/// The in-flight outcomes of operation `token`, defaulting to no outcomes
/// for an operation that is not in flight.
pub open spec fn parts_of(k: Kernel, token: int) -> Seq<Option<OpResult>> {
    match k.batch_parts(token) {
        Some(p) => p,
        None => Seq::empty(),
    }
}

/// Operation `token` still owes an outcome for action `part`.
pub open spec fn fill_open(k: Kernel, token: int, part: int) -> bool {
    &&& k.batch_parts(token) matches Some(parts) && 0 <= part < parts.len() && parts[part] is None
}

/// Operation `token` is a single-action operation whose outcome is still
/// owed, as a fresh single-action submission leaves it.
pub open spec fn lone_pending_part(k: Kernel, token: int) -> bool {
    k.batch_parts(token) == Some(seq![None::<OpResult>])
}

/// The lane a live lane handle refers to.
pub open spec fn spec_lane_of(k: Kernel, h: Handle) -> Option<usize> {
    match k.target_of(h.id() as int) {
        Some(Target::Lane { lane }) => if lane < k.lane_count() {
            Some(lane)
        } else {
            None
        },
        _ => None,
    }
}

/// A completion for operation `token` was appended to the ready
/// completions, which are otherwise unchanged (outcomes unstated).
pub open spec fn completion_appended_loose(k0: Kernel, k1: Kernel, token: int) -> bool {
    &&& k1.completions().len() == k0.completions().len() + 1
    &&& k1.completions().take(k0.completions().len() as int) == k0.completions()
    &&& k1.completions().last().ctx() == token
}

/// Operation `token` is retired (completed) and every other operation's
/// progress is untouched.
pub open spec fn op_retired(k0: Kernel, k1: Kernel, token: usize) -> bool {
    &&& k1.batch_parts(token as int) is None
    &&& forall|t: int| t != token ==> k1.batch_parts(t) == k0.batch_parts(t)
}

/// A send or push on `lane` can hand its item straight to the peer's
/// inbox: the lane and its peer exist and nothing is parked on the peer.
pub open spec fn send_ready(k: Kernel, lane: usize) -> bool {
    &&& (lane as int) < k.lane_count()
    &&& 0 <= k.lane_peer(lane as int) < k.lane_count()
    &&& k.lane_expects(k.lane_peer(lane as int)).len() == 0
}

/// Effect of a sole send action of operation `token` on `lane` when
/// [`send_ready`] held: the peer's inbox grew by the message and the
/// operation completed at once.
pub open spec fn send_step(k0: Kernel, k1: Kernel, lane: usize, token: usize, data: Vec<
    u8,
>) -> bool {
    let p = k0.lane_peer(lane as int);
    &&& k1.lane_inbox(p) == k0.lane_inbox(p).push(LaneItem::Message { data })
    &&& k1.lane_expects(p) == k0.lane_expects(p)
    &&& forall|l: int| 0 <= l < k0.lane_count() && l != p ==> k1.lane_eq(k0, l)
    &&& k1.same_handles(k0)
    &&& completion_appended(k0, k1, token as int, seq![OpResult::Done])
    &&& op_retired(k0, k1, token)
}

/// Effect of a sole push of handle `h` (referring to `t`) of operation
/// `token` on `lane` when [`send_ready`] held: ownership moved across,
/// so `h` is closed and the peer's inbox grew by the descriptor.
pub open spec fn push_step(
    k0: Kernel,
    k1: Kernel,
    lane: usize,
    token: usize,
    h: Handle,
    t: Target,
) -> bool {
    let p = k0.lane_peer(lane as int);
    &&& k1.lane_inbox(p) == k0.lane_inbox(p).push(LaneItem::Descriptor { target: t })
    &&& k1.lane_expects(p) == k0.lane_expects(p)
    &&& forall|l: int| 0 <= l < k0.lane_count() && l != p ==> k1.lane_eq(k0, l)
    &&& k1.handles_seq() == k0.handles_seq().update(h.id() as int, None)
    &&& completion_appended(k0, k1, token as int, seq![OpResult::Done])
    &&& op_retired(k0, k1, token)
}

/// Effect of a sole receive of operation `token` on `lane`: it meets the
/// front queued item, or parks when the lane is idle.
pub open spec fn recv_step(
    k0: Kernel,
    k1: Kernel,
    lane: usize,
    token: usize,
    max_len: usize,
) -> bool {
    if k0.lane_inbox(lane as int).len() == 0 {
        &&& k1.lane_expects(lane as int) == k0.lane_expects(lane as int).push(
            Expect::Message { token, part: 0, max_len },
        )
        &&& k1.lane_inbox(lane as int) == k0.lane_inbox(lane as int)
        &&& forall|l: int| 0 <= l < k0.lane_count() && l != lane ==> k1.lane_eq(k0, l)
        &&& k1.same_handles(k0)
        &&& k1.same_completions(k0)
        &&& k1.same_batches(k0)
    } else {
        &&& k1.lane_inbox(lane as int) == k0.lane_inbox(lane as int).skip(1)
        &&& k1.lane_expects(lane as int) == k0.lane_expects(lane as int)
        &&& forall|l: int| 0 <= l < k0.lane_count() && l != lane ==> k1.lane_eq(k0, l)
        &&& k1.same_handles(k0)
        &&& op_retired(k0, k1, token)
        &&& (k0.lane_inbox(lane as int)[0] matches LaneItem::Message { data } ==> ((data@.len()
            <= max_len ==> completion_appended(
            k0,
            k1,
            token as int,
            seq![OpResult::Bytes { data }],
        )) && (data@.len() > max_len ==> completion_appended(
            k0,
            k1,
            token as int,
            seq![OpResult::Failed { code: CODE_TRUNCATED }],
        ))))
        &&& (!(k0.lane_inbox(lane as int)[0] is Message) ==> completion_appended(
            k0,
            k1,
            token as int,
            seq![OpResult::Failed { code: CODE_SHAPE_MISMATCH }],
        ))
    }
}

/// Effect of a sole pull of operation `token` on `lane`: it takes the
/// front queued descriptor as a fresh handle, or parks when the lane is
/// idle.
pub open spec fn pull_step(k0: Kernel, k1: Kernel, lane: usize, token: usize) -> bool {
    if k0.lane_inbox(lane as int).len() == 0 {
        &&& k1.lane_expects(lane as int) == k0.lane_expects(lane as int).push(
            Expect::Descriptor { token, part: 0 },
        )
        &&& k1.lane_inbox(lane as int) == k0.lane_inbox(lane as int)
        &&& forall|l: int| 0 <= l < k0.lane_count() && l != lane ==> k1.lane_eq(k0, l)
        &&& k1.same_handles(k0)
        &&& k1.same_completions(k0)
        &&& k1.same_batches(k0)
    } else {
        &&& k1.lane_inbox(lane as int) == k0.lane_inbox(lane as int).skip(1)
        &&& k1.lane_expects(lane as int) == k0.lane_expects(lane as int)
        &&& forall|l: int| 0 <= l < k0.lane_count() && l != lane ==> k1.lane_eq(k0, l)
        &&& op_retired(k0, k1, token)
        &&& (k0.lane_inbox(lane as int)[0] matches LaneItem::Descriptor { target } ==> ({
            &&& k1.handles_seq() == k0.handles_seq().push(Some(target))
            &&& completion_appended_loose(k0, k1, token as int)
            &&& k1.completions().last().parts().len() == 1
            &&& (k1.completions().last().parts()[0] matches OpResult::Descriptor { handle }
                && handle.id() == k0.handle_count() && k1.target_of(handle.id() as int) == Some(
                target,
            ))
        }))
        &&& (!(k0.lane_inbox(lane as int)[0] is Descriptor) ==> (k1.same_handles(k0)
            && completion_appended(
            k0,
            k1,
            token as int,
            seq![OpResult::Failed { code: CODE_SHAPE_MISMATCH }],
        )))
    }
}

/// What one action, submitted as the sole action of operation `token`,
/// does to the kernel state.
pub open spec fn action_step_post(
    k0: Kernel,
    k1: Kernel,
    lane: usize,
    token: usize,
    act: LaneAction,
) -> bool {
    &&& (act matches LaneAction::SendBuffer { data } ==> (send_ready(k0, lane) ==> send_step(
        k0,
        k1,
        lane,
        token,
        data,
    )))
    &&& (act matches LaneAction::PushDescriptor { handle } ==> (send_ready(k0, lane) ==> (
    k0.target_of(handle.id() as int) matches Some(t) ==> push_step(k0, k1, lane, token, handle, t))))
    &&& (act matches LaneAction::ReceiveBuffer { max_len } ==> ((lane as int) < k0.lane_count()
        ==> recv_step(k0, k1, lane, token, max_len)))
    &&& (act is ReceiveInline ==> ((lane as int) < k0.lane_count() ==> recv_step(
        k0,
        k1,
        lane,
        token,
        usize::MAX,
    )))
    &&& (act is PullDescriptor ==> ((lane as int) < k0.lane_count() ==> pull_step(
        k0,
        k1,
        lane,
        token,
    )))
}

/// Between `k0` and `k1` the kernel took operation `token` with `n`
/// actions into flight, all still outstanding, and changed nothing else.
pub open spec fn batch_opened(k0: Kernel, k1: Kernel, token: usize, n: nat) -> bool {
    &&& token == k0.batch_count()
    &&& k1.batch_count() == k0.batch_count() + 1
    &&& k1.batch_parts(token as int) == Some(Seq::new(n, |i: int| None::<OpResult>))
    &&& forall|t: int| t != token ==> k1.batch_parts(t) == k0.batch_parts(t)
    &&& k1.lane_count() == k0.lane_count()
    &&& forall|l: int| 0 <= l < k0.lane_count() ==> k1.lane_eq(k0, l)
    &&& k1.same_handles(k0)
    &&& k1.same_completions(k0)
    &&& k1.same_timers(k0)
    &&& k1.same_clock(k0)
}

/// Round-trip law for streams: over a freshly created stream, a
/// descriptor pushed at one end is the next item pulled at the other
/// end, and the pulled handle refers to the same kernel object.
///
/// `k0` is a state holding a fresh stream with ends `a` and `b` and a
/// live handle `h` to some object `t`; `m1`/`k1` are the states around a
/// push of `h` submitted at end `a` (as [`Kernel::submit`] describes
/// them), and `m2`/`k2` the states around a pull submitted at end `b`.
/// The pull completes at once, with a handle that refers to `t`.
pub proof fn lemma_stream_roundtrip(
    k0: Kernel,
    m1: Kernel,
    k1: Kernel,
    m2: Kernel,
    k2: Kernel,
    a: usize,
    b: usize,
    h: Handle,
    t: Target,
    tok1: usize,
    tok2: usize,
)
    requires
        fresh_stream(k0, a as int, b as int),
        k0.target_of(h.id() as int) == Some(t),
        batch_opened(k0, m1, tok1, 1),
        action_step_post(m1, k1, a, tok1, LaneAction::PushDescriptor { handle: h }),
        k1.lane_count() == k0.lane_count(),
        batch_opened(k1, m2, tok2, 1),
        action_step_post(m2, k2, b, tok2, LaneAction::PullDescriptor),
    ensures
        k1.lane_inbox(b as int) == seq![LaneItem::Descriptor { target: t }],
        completion_appended_loose(m2, k2, tok2 as int),
        k2.completions().last().parts().len() == 1,
        k2.completions().last().parts()[0] is Descriptor,
        (k2.completions().last().parts()[0] matches OpResult::Descriptor { handle: h2 }
            ==> k2.target_of(h2.id() as int) == Some(t)),
{
    assert(m1.lane_eq(k0, a as int));
    assert(m1.lane_eq(k0, b as int));
    assert(send_ready(m1, a));
    assert(m1.target_of(h.id() as int) == Some(t));
    assert(push_step(m1, k1, a, tok1, h, t));
    assert(k1.lane_inbox(b as int) =~= seq![LaneItem::Descriptor { target: t }]);
    assert(m2.lane_eq(k1, b as int));
    assert(m2.lane_inbox(b as int) == k1.lane_inbox(b as int));
    assert(m2.lane_inbox(b as int).len() > 0);
    assert(pull_step(m2, k2, b, tok2));
    assert(m2.lane_inbox(b as int)[0] == (LaneItem::Descriptor { target: t }));
}

/// Which submissions the kernel takes: a sleep must target the queue,
/// everything else a live lane (an offer also needs the lane's peer).
pub open spec fn submit_admissible(k: Kernel, target: Handle, op: Operation) -> bool {
    match op {
        Operation::Sleep { deadline: _ } => k.target_of(target.id() as int) == Some(Target::Queue),
        Operation::Batch { actions: _ } => spec_lane_of(k, target) is Some,
        Operation::Accept { actions: _ } => spec_lane_of(k, target) is Some,
        Operation::Offer { with_lane: _, actions: _ } => match spec_lane_of(k, target) {
            Some(l) => 0 <= k.lane_peer(l as int) < k.lane_count() && k.lane_count() + 2
                <= usize::MAX,
            None => false,
        },
    }
}

impl Kernel {
    /// The lane a live lane handle refers to.
    fn lane_of(&self, h: &Handle) -> (r: Option<usize>)
        ensures
            r == spec_lane_of(*self, *h),
    {
        match self.resolve(h) {
            Some(Target::Lane { lane }) => {
                if lane < self.lane_table.len() {
                    Some(lane)
                } else {
                    None
                }
            },
            _ => None,
        }
    }

    /// Hands a message or descriptor item to a lane: it meets the lane's
    /// front parked expectation if there is one and queues up otherwise.
    /// An item addressed to an unknown lane is discarded.
    fn deliver_item(&mut self, lane: usize, item: LaneItem)
        ensures
            final(self).lane_count() == old(self).lane_count(),
            final(self).batch_count() == old(self).batch_count(),
            final(self).same_timers(*old(self)),
            final(self).same_clock(*old(self)),
            completions_retired(*old(self)) ==> completions_retired(*final(self)),
            lane >= old(self).lane_count() ==> *final(self) == *old(self),
            (lane < old(self).lane_count() && old(self).lane_expects(lane as int).len() == 0) ==> ({
                &&& final(self).lane_inbox(lane as int) == old(self).lane_inbox(lane as int).push(
                    item,
                )
                &&& final(self).lane_expects(lane as int) == old(self).lane_expects(lane as int)
                &&& forall|l: int|
                    0 <= l < old(self).lane_count() && l != lane ==> final(self).lane_eq(
                        *old(self),
                        l,
                    )
                &&& final(self).same_handles(*old(self))
                &&& final(self).same_batches(*old(self))
                &&& final(self).same_completions(*old(self))
            }),
            (lane < old(self).lane_count() && old(self).lane_expects(lane as int).len() > 0) ==> ({
                &&& final(self).lane_expects(lane as int) == old(self).lane_expects(
                    lane as int,
                ).skip(1)
                &&& final(self).lane_inbox(lane as int) == old(self).lane_inbox(lane as int)
                &&& forall|l: int|
                    0 <= l < old(self).lane_count() && l != lane ==> final(self).lane_eq(
                        *old(self),
                        l,
                    )
            }),
    {
        if lane >= self.lane_table.len() {
            return ;
        }
        let mut ln = self.lane_take(lane);
        if ln.expects.len() == 0 {
            ln.inbox.push_back(item);
            self.lane_put(lane, ln);
        } else {
            let exp = ln.expects.pop_front();
            self.lane_put(lane, ln);
            proof {
                assert(self.lane_expects(lane as int) =~= old(self).lane_expects(
                    lane as int,
                ).skip(1));
            }
            match exp {
                None => {},
                Some(Expect::Message { token, part, max_len }) => {
                    match item {
                        LaneItem::Message { data } => {
                            if data.len() <= max_len {
                                self.fill(token, part, OpResult::Bytes { data });
                            } else {
                                self.fill(token, part, OpResult::Failed { code: CODE_TRUNCATED });
                            }
                        },
                        _ => self.fill(token, part, OpResult::Failed { code: CODE_SHAPE_MISMATCH }),
                    }
                },
                Some(Expect::Descriptor { token, part }) => {
                    match item {
                        LaneItem::Descriptor { target } => {
                            let h = self.alloc_handle(target);
                            self.fill(token, part, OpResult::Descriptor { handle: h });
                        },
                        _ => self.fill(token, part, OpResult::Failed { code: CODE_SHAPE_MISMATCH }),
                    }
                },
                Some(Expect::Conversation { token, part, actions }) => {
                    // a message or descriptor arrived where a conversation
                    // was awaited: the whole accept fails
                    let count = match actions.len().checked_add(1) {
                        Some(c) => c,
                        None => usize::MAX,
                    };
                    self.fail_parts(token, part, count);
                },
            }
        }
    }


    /// Hands a freshly created conversation end `remote` to a lane,
    /// meeting a parked accept if there is one and queueing the offer
    /// otherwise.
    fn deliver_conversation(&mut self, lane: usize, remote: usize)
        ensures
            final(self).batch_count() == old(self).batch_count(),
            final(self).same_timers(*old(self)),
            final(self).same_clock(*old(self)),
            completions_retired(*old(self)) ==> completions_retired(*final(self)),
            final(self).lane_count() == old(self).lane_count(),
            (lane < old(self).lane_count() && old(self).lane_expects(lane as int).len() == 0) ==> ({
                &&& final(self).lane_inbox(lane as int) == old(self).lane_inbox(lane as int).push(
                    LaneItem::Conversation { remote },
                )
                &&& final(self).lane_expects(lane as int) == old(self).lane_expects(lane as int)
                &&& forall|l: int|
                    0 <= l < old(self).lane_count() && l != lane ==> final(self).lane_eq(
                        *old(self),
                        l,
                    )
                &&& final(self).same_handles(*old(self))
                &&& final(self).same_batches(*old(self))
                &&& final(self).same_completions(*old(self))
            }),
    {
        if lane >= self.lane_table.len() {
            return ;
        }
        let mut ln = self.lane_take(lane);
        if ln.expects.len() == 0 {
            ln.inbox.push_back(LaneItem::Conversation { remote });
            self.lane_put(lane, ln);
        } else {
            let exp = ln.expects.pop_front();
            self.lane_put(lane, ln);
            match exp {
                None => {},
                Some(Expect::Conversation { token, part, actions }) => {
                    let h = self.alloc_handle(Target::Lane { lane: remote });
                    self.fill(token, part, OpResult::Lane { handle: h });
                    match part.checked_add(1) {
                        Some(base) => self.run_actions(remote, token, base, actions),
                        None => {},
                    }
                },
                Some(Expect::Message { token, part, max_len: _ }) => {
                    self.fill(token, part, OpResult::Failed { code: CODE_SHAPE_MISMATCH });
                },
                Some(Expect::Descriptor { token, part }) => {
                    self.fill(token, part, OpResult::Failed { code: CODE_SHAPE_MISMATCH });
                },
            }
        }
    }


    /// Receives on `lane` for action `part` of operation `token`: takes
    /// the front queued item or parks an expectation.
    fn recv_action(&mut self, lane: usize, token: usize, part: usize, max_len: usize)
        ensures
            final(self).lane_count() == old(self).lane_count(),
            final(self).batch_count() == old(self).batch_count(),
            final(self).same_timers(*old(self)),
            final(self).same_clock(*old(self)),
            completions_retired(*old(self)) ==> completions_retired(*final(self)),
            (part == 0 && lone_pending_part(*old(self), token as int) && (lane as int) < old(
                self,
            ).lane_count()) ==> recv_step(*old(self), *final(self), lane, token, max_len),
    {
        if lane >= self.lane_table.len() {
            self.fill(token, part, OpResult::Failed { code: CODE_BAD_HANDLE });
            return ;
        }
        let mut ln = self.lane_take(lane);
        if ln.inbox.len() == 0 {
            ln.expects.push_back(Expect::Message { token, part, max_len });
            self.lane_put(lane, ln);
        } else {
            let item = ln.inbox.pop_front();
            self.lane_put(lane, ln);
            proof {
                assert(self.lane_inbox(lane as int) =~= old(self).lane_inbox(lane as int).skip(1));
            }
            match item {
                None => {},
                Some(LaneItem::Message { data }) => {
                    if data.len() <= max_len {
                        proof {
                            lemma_unwrap_single(OpResult::Bytes { data: data });
                        }
                        self.fill(token, part, OpResult::Bytes { data });
                    } else {
                        proof {
                            lemma_unwrap_single(OpResult::Failed { code: CODE_TRUNCATED });
                        }
                        self.fill(token, part, OpResult::Failed { code: CODE_TRUNCATED });
                    }
                },
                Some(_) => {
                    proof {
                        lemma_unwrap_single(OpResult::Failed { code: CODE_SHAPE_MISMATCH });
                    }
                    self.fill(token, part, OpResult::Failed { code: CODE_SHAPE_MISMATCH });
                },
            }
        }
    }


    /// Pulls a descriptor on `lane` for action `part` of operation
    /// `token`: takes the front queued descriptor or parks an
    /// expectation.
    fn pull_action(&mut self, lane: usize, token: usize, part: usize)
        ensures
            final(self).lane_count() == old(self).lane_count(),
            final(self).batch_count() == old(self).batch_count(),
            final(self).same_timers(*old(self)),
            final(self).same_clock(*old(self)),
            completions_retired(*old(self)) ==> completions_retired(*final(self)),
            (part == 0 && lone_pending_part(*old(self), token as int) && (lane as int) < old(
                self,
            ).lane_count()) ==> pull_step(*old(self), *final(self), lane, token),
    {
        if lane >= self.lane_table.len() {
            self.fill(token, part, OpResult::Failed { code: CODE_BAD_HANDLE });
            return ;
        }
        let mut ln = self.lane_take(lane);
        if ln.inbox.len() == 0 {
            ln.expects.push_back(Expect::Descriptor { token, part });
            self.lane_put(lane, ln);
        } else {
            let item = ln.inbox.pop_front();
            self.lane_put(lane, ln);
            proof {
                assert(self.lane_inbox(lane as int) =~= old(self).lane_inbox(lane as int).skip(1));
            }
            match item {
                None => {},
                Some(LaneItem::Descriptor { target }) => {
                    let h = self.alloc_handle(target);
                    proof {
                        lemma_unwrap_single(OpResult::Descriptor { handle: h });
                    }
                    self.fill(token, part, OpResult::Descriptor { handle: h });
                },
                Some(_) => {
                    proof {
                        lemma_unwrap_single(OpResult::Failed { code: CODE_SHAPE_MISMATCH });
                    }
                    self.fill(token, part, OpResult::Failed { code: CODE_SHAPE_MISMATCH });
                },
            }
        }
    }


    /// Carries out one action of operation `token` on `lane`: sends and
    /// pushes hand their item to the peer and succeed at once; receives
    /// and pulls meet the front queued item or park an expectation.
    fn apply_action(&mut self, lane: usize, token: usize, part: usize, act: LaneAction)
        ensures
            final(self).lane_count() == old(self).lane_count(),
            final(self).batch_count() == old(self).batch_count(),
            final(self).same_timers(*old(self)),
            final(self).same_clock(*old(self)),
            completions_retired(*old(self)) ==> completions_retired(*final(self)),
            (part == 0 && lone_pending_part(*old(self), token as int)) ==> action_step_post(
                *old(self),
                *final(self),
                lane,
                token,
                act,
            ),
    {
        let ghost k0 = *old(self);
        match act {
            LaneAction::SendBuffer { data } => {
                if lane < self.lane_table.len() {
                    let peer = self.lane_table[lane].peer;
                    if peer < self.lane_table.len() {
                        self.deliver_item(peer, LaneItem::Message { data });
                        let ghost mid = *self;
                        proof {
                            lemma_unwrap_single(OpResult::Done);
                        }
                        self.fill(token, part, OpResult::Done);
                        proof {
                            if part == 0 && lone_pending_part(k0, token as int) && send_ready(
                                k0,
                                lane,
                            ) {
                                assert forall|l: int|
                                    0 <= l < k0.lane_count() && l != k0.lane_peer(
                                        lane as int,
                                    ) implies self.lane_eq(k0, l) by {
                                    assert(mid.lane_eq(k0, l));
                                }
                            }
                        }
                    } else {
                        self.fill(token, part, OpResult::Failed { code: CODE_BAD_HANDLE });
                    }
                } else {
                    self.fill(token, part, OpResult::Failed { code: CODE_BAD_HANDLE });
                }
            },
            LaneAction::PushDescriptor { handle } => {
                if lane < self.lane_table.len() {
                    let peer = self.lane_table[lane].peer;
                    if peer < self.lane_table.len() {
                        match self.resolve(&handle) {
                            Some(t) => {
                                self.close_handle(handle);
                                let ghost mid0 = *self;
                                self.deliver_item(peer, LaneItem::Descriptor { target: t });
                                let ghost mid = *self;
                                proof {
                                    lemma_unwrap_single(OpResult::Done);
                                }
                                self.fill(token, part, OpResult::Done);
                                proof {
                                    if part == 0 && lone_pending_part(k0, token as int)
                                        && send_ready(k0, lane) {
                                        assert forall|l: int|
                                            0 <= l < k0.lane_count() && l != k0.lane_peer(
                                                lane as int,
                                            ) implies self.lane_eq(k0, l) by {
                                            assert(mid.lane_eq(mid0, l));
                                            assert(mid.lane_eq(k0, l));
                                        }
                                    }
                                }
                            },
                            None => {
                                self.close_handle(handle);
                                self.fill(token, part, OpResult::Failed { code: CODE_BAD_HANDLE });
                            },
                        }
                    } else {
                        self.close_handle(handle);
                        self.fill(token, part, OpResult::Failed { code: CODE_BAD_HANDLE });
                    }
                } else {
                    self.close_handle(handle);
                    self.fill(token, part, OpResult::Failed { code: CODE_BAD_HANDLE });
                }
            },
            LaneAction::ReceiveBuffer { max_len } => {
                self.recv_action(lane, token, part, max_len);
            },
            LaneAction::ReceiveInline => {
                self.recv_action(lane, token, part, usize::MAX);
            },
            LaneAction::PullDescriptor => {
                self.pull_action(lane, token, part);
            },
        }
    }


    /// Runs a group of actions in order on `lane`, filling parts
    /// `base`, `base + 1`, ... of operation `token`.
    fn run_actions(&mut self, lane: usize, token: usize, base: usize, actions: Vec<LaneAction>)
        ensures
            final(self).lane_count() == old(self).lane_count(),
            final(self).batch_count() == old(self).batch_count(),
            final(self).same_timers(*old(self)),
            final(self).same_clock(*old(self)),
            completions_retired(*old(self)) ==> completions_retired(*final(self)),
            (base == 0 && actions@.len() == 1 && lone_pending_part(*old(self), token as int))
                ==> action_step_post(*old(self), *final(self), lane, token, actions@[0]),
            actions@.len() == 0 ==> *final(self) == *old(self),
    {
        let ghost k0 = *old(self);
        let mut acts = actions;
        let ghost all = acts@;
        let total = acts.len();
        let mut i: usize = 0;
        while acts.len() > 0
            invariant
                self.lane_count() == k0.lane_count(),
                self.batch_count() == k0.batch_count(),
                self.same_timers(k0),
                self.same_clock(k0),
                completions_retired(k0) ==> completions_retired(*self),
                total == all.len(),
                i + acts@.len() == all.len(),
                acts@ == all.skip(i as int),
                i == 0 ==> *self == k0,
                (base == 0 && all.len() == 1 && i == 1 && lone_pending_part(k0, token as int))
                    ==> action_step_post(k0, *self, lane, token, all[0]),
            decreases acts@.len(),
        {
            let act = acts.remove(0);
            proof {
                assert(acts@ =~= all.skip(i + 1 as int));
            }
            let part = match base.checked_add(i) {
                Some(p) => p,
                None => usize::MAX,
            };
            let ghost pre = *self;
            self.apply_action(lane, token, part, act);
            proof {
                if base == 0 && all.len() == 1 && i == 0 && lone_pending_part(k0, token as int) {
                    assert(pre == k0);
                    assert(action_step_post(k0, *self, lane, token, all[0]));
                }
            }
            i += 1;
        }
    }

    // ------------------------------------------------------------------
    // Submission and retrieval
    // ------------------------------------------------------------------
    /// Takes one operation into flight under the fresh context token it
    /// returns. The submission itself fails only when the target handle
    /// does not fit the operation; each action's own outcome is reported
    /// through the completion.
    #[verifier::rlimit(60)]
    pub(crate) fn submit(&mut self, target: &Handle, op: Operation) -> (r: Result<usize>)
        ensures
            r matches Ok(tok) ==> tok == old(self).batch_count(),
            (r is Ok) <==> submit_admissible(*old(self), *target, op),
            r is Ok ==> final(self).batch_count() == old(self).batch_count() + 1,
            r is Err ==> *final(self) == *old(self) && (r == Result::<usize>::Err(
                Error::InvalidHandle,
            ) || r == Result::<usize>::Err(Error::ResourceExhaustion)),
            (r == Result::<usize>::Err(Error::ResourceExhaustion)) <==> (op matches Operation::Offer { with_lane: _, actions: _ }
                && (match spec_lane_of(*old(self), *target) {
                Some(l) => 0 <= old(self).lane_peer(l as int) < old(self).lane_count(),
                None => false,
            }) && old(self).lane_count() + 2 > usize::MAX),
            final(self).same_clock(*old(self)),
            completions_retired(*old(self)) ==> completions_retired(*final(self)),
            op matches Operation::Sleep { deadline } ==> (r is Ok ==> ({
                let token = old(self).batch_count() as usize;
                &&& final(self).same_lanes(*old(self))
                &&& final(self).same_handles(*old(self))
                &&& (deadline <= old(self).clock_val() ==> (completion_appended(
                    *old(self),
                    *final(self),
                    token as int,
                    seq![OpResult::Done],
                ) && final(self).same_timers(*old(self)) && final(self).batch_parts(token as int)
                    is None))
                &&& (deadline > old(self).clock_val() ==> (final(self).timers() == old(
                    self,
                ).timers().push(Timer { token, deadline }) && final(self).same_completions(
                    *old(self),
                ) && final(self).batch_parts(token as int) == Some(seq![None::<OpResult>])))
            })),
            op matches Operation::Batch { actions } ==> (r is Ok ==> (final(self).same_timers(
                *old(self),
            ) && final(self).lane_count() == old(self).lane_count() && (actions@.len() == 1 ==> (
            spec_lane_of(*old(self), *target) matches Some(lane) ==> exists|mid: Kernel|
                #[trigger] batch_opened(*old(self), mid, old(self).batch_count() as usize, 1)
                    && action_step_post(
                    mid,
                    *final(self),
                    lane,
                    old(self).batch_count() as usize,
                    actions@[0],
                ))))),
            op matches Operation::Offer { with_lane, actions } ==> (r is Ok ==> ({
                let token = old(self).batch_count() as int;
                let a = old(self).lane_count() as int;
                let b = old(self).lane_count() + 1 as int;
                &&& final(self).lane_count() == old(self).lane_count() + 2
                &&& final(self).same_timers(*old(self))
                &&& (actions@.len() == 0 ==> (spec_lane_of(*old(self), *target) matches Some(lane)
                    ==> ({
                    let p = old(self).lane_peer(lane as int);
                    old(self).lane_expects(p).len() == 0 ==> ({
                        &&& final(self).lane_peer(a) == b
                        &&& final(self).lane_peer(b) == a
                        &&& final(self).lane_inbox(p) == old(self).lane_inbox(p).push(
                            LaneItem::Conversation { remote: (old(self).lane_count() + 1) as usize },
                        )
                        &&& final(self).lane_expects(p) == old(self).lane_expects(p)
                        &&& final(self).batch_parts(token) is None
                        &&& completion_appended_loose(*old(self), *final(self), token)
                        &&& final(self).completions().last().parts().len() == 1
                        &&& (with_lane ==> (final(self).completions().last().parts()[0]
                            matches OpResult::Lane { handle } && handle.id() == old(
                            self,
                        ).handle_count() && final(self).target_of(handle.id() as int) == Some(
                            Target::Lane { lane: old(self).lane_count() as usize },
                        )))
                        &&& (!with_lane ==> final(self).completions().last().parts()[0]
                            == OpResult::Done)
                    })
                })))
            })),
            op matches Operation::Accept { actions } ==> (r is Ok ==> (final(self).same_timers(
                *old(self),
            ) && final(self).lane_count() == old(self).lane_count() && (spec_lane_of(*old(self), *target)
                matches Some(lane) ==> (old(self).lane_inbox(lane as int).len() == 0 ==> ({
                &&& final(self).lane_expects(lane as int) == old(self).lane_expects(
                    lane as int,
                ).push(
                    Expect::Conversation {
                        token: old(self).batch_count() as usize,
                        part: 0,
                        actions,
                    },
                )
                &&& final(self).lane_inbox(lane as int) == old(self).lane_inbox(lane as int)
                &&& forall|l: int|
                    0 <= l < old(self).lane_count() && l != lane ==> final(self).lane_eq(
                        *old(self),
                        l,
                    )
                &&& final(self).same_handles(*old(self))
                &&& final(self).same_completions(*old(self))
            }))))),
    {
        let token = self.batch_table.len();
        match op {
            Operation::Sleep { deadline } => {
                let is_queue = match self.resolve(target) {
                    Some(Target::Queue) => true,
                    _ => false,
                };
                if !is_queue {
                    return Err(Error::InvalidHandle);
                }
                let mut parts: Vec<Option<OpResult>> = Vec::new();
                parts.push(None);
                self.batch_table.push(Some(Batch { results: parts }));
                if deadline <= self.clock {
                    self.fill(token, 0, OpResult::Done);
                    proof {
                        assert(unwrap_parts(seq![None::<OpResult>].update(0, Some(OpResult::Done)))
                            =~= seq![OpResult::Done]);
                    }
                } else {
                    self.timer_table.push(Timer { token, deadline });
                }
                Ok(token)
            },
            Operation::Batch { actions } => {
                let lane = match self.lane_of(target) {
                    Some(l) => l,
                    None => {
                        return Err(Error::InvalidHandle);
                    },
                };
                let n = actions.len();
                let mut parts: Vec<Option<OpResult>> = Vec::new();
                let mut j: usize = 0;
                while j < n
                    invariant
                        j <= n,
                        parts@.len() == j,
                        forall|x: int| 0 <= x < j ==> parts@[x] == None::<OpResult>,
                    decreases n - j,
                {
                    parts.push(None);
                    j += 1;
                }
                let ghost acts_view = actions@;
                let ghost parts_view = parts@;
                self.batch_table.push(Some(Batch { results: parts }));
                let ghost mid = *self;
                proof {
                    if n == 1 {
                        assert(parts_view =~= seq![None::<OpResult>]);
                        assert(parts_view =~= Seq::new(1, |i: int| None::<OpResult>));
                        assert(self.batch_parts(token as int) == Some(seq![None::<OpResult>]));
                    }
                }
                self.run_actions(lane, token, 0, actions);
                proof {
                    if n == 1 {
                        let tok = old(self).batch_count() as usize;
                        assert(tok == token);
                        assert(batch_opened(*old(self), mid, tok, 1));
                        assert(action_step_post(mid, *self, lane, tok, acts_view[0]));
                        assert(exists|m: Kernel|
                            #[trigger] batch_opened(*old(self), m, tok, 1) && action_step_post(
                                m,
                                *self,
                                lane,
                                tok,
                                acts_view[0],
                            ));
                    }
                }
                Ok(token)
            },
            Operation::Offer { with_lane, actions } => {
                let lane = match self.lane_of(target) {
                    Some(l) => l,
                    None => {
                        return Err(Error::InvalidHandle);
                    },
                };
                let peer = self.lane_table[lane].peer;
                if peer >= self.lane_table.len() {
                    return Err(Error::InvalidHandle);
                }
                if self.lane_table.len() > usize::MAX - 2 {
                    return Err(Error::ResourceExhaustion);
                }
                let ghost k0 = *old(self);
                let n = actions.len();
                let mut parts: Vec<Option<OpResult>> = Vec::new();
                parts.push(None);
                let mut j: usize = 0;
                proof {
                    assert(parts@ =~= seq![None::<OpResult>]);
                }
                while j < n
                    invariant
                        j <= n,
                        parts@.len() == j + 1,
                        j == 0 ==> parts@ == seq![None::<OpResult>],
                    decreases n - j,
                {
                    parts.push(None);
                    j += 1;
                }
                let ghost parts_view = parts@;
                self.batch_table.push(Some(Batch { results: parts }));
                let ghost k0b = *self;
                let (a, b) = self.create_lane_pair(false);
                let ghost mid1 = *self;
                proof {
                    if n == 0 {
                        assert(parts_view =~= seq![None::<OpResult>]);
                        assert(mid1.lane_eq(k0b, peer as int));
                        assert(mid1.lane_eq(k0, peer as int));
                    }
                }
                if with_lane {
                    let h = self.alloc_handle(Target::Lane { lane: a });
                    proof {
                        if n == 0 {
                            lemma_unwrap_single(OpResult::Lane { handle: h });
                        }
                    }
                    self.fill(token, 0, OpResult::Lane { handle: h });
                } else {
                    proof {
                        if n == 0 {
                            lemma_unwrap_single(OpResult::Done);
                        }
                    }
                    self.fill(token, 0, OpResult::Done);
                }
                let ghost mid3 = *self;
                self.deliver_conversation(peer, b);
                proof {
                    if n == 0 && mid3.lane_expects(peer as int).len() == 0 {
                        assert(self.lane_eq(mid3, a as int));
                        assert(self.lane_eq(mid3, b as int));
                    }
                }
                self.run_actions(a, token, 1, actions);
                Ok(token)
            },
            Operation::Accept { actions } => {
                let lane = match self.lane_of(target) {
                    Some(l) => l,
                    None => {
                        return Err(Error::InvalidHandle);
                    },
                };
                let n = actions.len();
                let mut parts: Vec<Option<OpResult>> = Vec::new();
                parts.push(None);
                let mut j: usize = 0;
                while j < n
                    invariant
                        parts@.len() == j + 1,
                    decreases n - j,
                {
                    parts.push(None);
                    j += 1;
                }
                self.batch_table.push(Some(Batch { results: parts }));
                let mut ln = self.lane_take(lane);
                if ln.inbox.len() == 0 {
                    ln.expects.push_back(Expect::Conversation { token, part: 0, actions });
                    self.lane_put(lane, ln);
                } else {
                    let item = ln.inbox.pop_front();
                    self.lane_put(lane, ln);
                    match item {
                        None => {},
                        Some(LaneItem::Conversation { remote }) => {
                            let h = self.alloc_handle(Target::Lane { lane: remote });
                            self.fill(token, 0, OpResult::Lane { handle: h });
                            self.run_actions(remote, token, 1, actions);
                        },
                        Some(_) => {
                            let count = match n.checked_add(1) {
                                Some(c) => c,
                                None => usize::MAX,
                            };
                            self.fail_parts(token, 0, count);
                        },
                    }
                }
                Ok(token)
            },
        }
    }

    /// Blocks until a completion is available and returns exactly one.
    /// When nothing is ready but a sleep is parked, time jumps to the
    /// earliest deadline (first among equals) and that sleep completes.
    /// With nothing in flight at all the wait can never finish, which is
    /// fatal to the run loop.
    pub(crate) fn wait_completion(&mut self) -> (r: Result<Element>)
        ensures
            final(self).batch_count() == old(self).batch_count(),
            r is Err ==> (r == Result::<Element>::Err(Error::WouldBlockForever) || r
                == Result::<Element>::Err(Error::StaleCompletion)),
            completions_retired(*old(self)) ==> completions_retired(*final(self)),
            // results are released only as a whole: a delivered completion's
            // operation is retired, every action resolved
            completions_retired(*old(self)) ==> (r matches Ok(el) ==> ((el.ctx() as int)
                < final(self).batch_count() && final(self).batch_parts(el.ctx() as int) is None)),
            old(self).completions().len() > 0 ==> (r matches Ok(el) && el == old(
                self,
            ).completions()[0] && final(self).completions() == old(self).completions().skip(1)
                && final(self).same_except_completions(*old(self))),
            (old(self).completions().len() == 0 && old(self).timers().len() == 0) ==> (r
                == Result::<Element>::Err(Error::WouldBlockForever)
                && final(self).same_except_completions(*old(self))
                && final(self).same_completions(*old(self))),
            (old(self).completions().len() == 0 && old(self).timers().len() > 0) ==> ({
                &&& final(self).same_lanes(*old(self))
                &&& final(self).same_handles(*old(self))
                &&& exists|idx: int|
                    {
                        &&& 0 <= idx < old(self).timers().len()
                        &&& (forall|j: int|
                            0 <= j < old(self).timers().len() ==> old(self).timers()[j].deadline
                                >= old(self).timers()[idx].deadline)
                        &&& #[trigger] final(self).timers() == old(self).timers().remove(idx)
                        &&& final(self).clock_val() == (if old(self).timers()[idx].deadline > old(
                            self,
                        ).clock_val() {
                            old(self).timers()[idx].deadline
                        } else {
                            old(self).clock_val()
                        })
                        &&& (lone_pending_part(*old(self), old(self).timers()[idx].token as int)
                            ==> (r matches Ok(el) && el.ctx() == old(self).timers()[idx].token
                            && el.parts() == seq![OpResult::Done]
                            && final(self).completions().len() == 0
                            && final(self).batch_parts(old(self).timers()[idx].token as int)
                            is None))
                    }
            }),
    {
        match self.ready_elements.pop_front() {
            Some(el) => {
                proof {
                    assert(self.completions() =~= old(self).completions().skip(1));
                }
                return Ok(el);
            },
            None => {},
        }
        if self.timer_table.len() == 0 {
            return Err(Error::WouldBlockForever);
        }
        let mut idx: usize = 0;
        let mut i: usize = 1;
        while i < self.timer_table.len()
            invariant
                self.same_lanes(*old(self)),
                self.same_handles(*old(self)),
                self.same_batches(*old(self)),
                self.same_completions(*old(self)),
                self.same_timers(*old(self)),
                self.same_clock(*old(self)),
                self.completions().len() == 0,
                self.timers().len() > 0,
                (idx as int) < i,
                i <= self.timer_table@.len(),
                forall|j: int|
                    0 <= j < i ==> self.timer_table@[j].deadline
                        >= self.timer_table@[idx as int].deadline,
            decreases self.timer_table@.len() - i,
        {
            if self.timer_table[i].deadline < self.timer_table[idx].deadline {
                idx = i;
            }
            i += 1;
        }
        let t = self.timer_table.remove(idx);
        if t.deadline > self.clock {
            self.clock = t.deadline;
        }
        self.fill(t.token, 0, OpResult::Done);
        proof {
            if lone_pending_part(*old(self), t.token as int) {
                assert(unwrap_parts(seq![None::<OpResult>].update(0, Some(OpResult::Done)))
                    =~= seq![OpResult::Done]);
            }
        }
        match self.ready_elements.pop_front() {
            Some(el) => Ok(el),
            None => Err(Error::StaleCompletion),
        }
    }
}

} // verus!
