//! Scripted tasks: a concrete suspendable unit of work that performs a
//! fixed sequence of submissions, awaiting each completion in turn and
//! collecting the elements. Conversations that follow a known shape
//! (offer and reply, accept and echo) are written as scripts and driven
//! by the executor like any other task.

use vstd::prelude::*;

use crate::executor::{ExecutorInner, Poll, TaskFuture, TaskRef};
use crate::handle::Handle;
use crate::queue::Element;
use crate::result::{Error, Result};
use crate::submission::{LaneAction, Operation};

verus! {

/// Where a step's submission is aimed: a handle the script owns, or a
/// lane handle that an earlier step's completion produced.
#[derive(Debug)]
pub enum TargetSel {
    /// A handle the script was built with; consumed by the step.
    Fixed { handle: Handle },
    /// The lane handle carried by part `part` of the element that step
    /// `step` collected.
    FromPart { step: usize, part: usize },
}

/// One step of a script.
#[derive(Debug)]
pub enum ScriptStep {
    /// Submit `op` at the selected target and await its completion.
    Submit { target: TargetSel, op: Operation },
    /// Send back the bytes that part `data_part` of step `data_step`'s
    /// element received, over the selected target, and await the send.
    Echo { data_step: usize, data_part: usize, target: TargetSel },
}

/// A task that runs its steps in order: each poll submits the next step
/// once its predecessor's completion has been collected, and suspends
/// while one is still owed. The task finishes after its last step, or as
/// failed when a submission is rejected or a step names a result of the
/// wrong kind.
pub struct Script {
    steps: Vec<Option<ScriptStep>>,
    pc: usize,
    waiting: Option<usize>,
    results: Vec<Element>,
    done: bool,
    failed: bool,
    program: Ghost<Seq<ScriptStep>>,
}

/// Submits one step, resolving its target against the collected
/// elements.
fn submit_step(rt: &mut ExecutorInner, results: &Vec<Element>, step: ScriptStep) -> (r: Result<
    usize,
>)
    requires
        old(rt).wf(),
    ensures
        final(rt).wf(),
        final(rt).op_count() >= old(rt).op_count(),
        r matches Ok(tok) ==> tok == old(rt).op_count() && final(rt).ops_seq() == old(
            rt,
        ).ops_seq().push(crate::executor::OpState::Pending { waiter: None }),
        r is Err ==> final(rt).ops_seq() == old(rt).ops_seq(),
{
    match step {
        ScriptStep::Submit { target, op } => {
            match target {
                TargetSel::Fixed { handle } => rt.submit_op(&handle, op),
                TargetSel::FromPart { step, part } => {
                    if step < results.len() {
                        match results[step].lane_ref(part) {
                            Some(h) => rt.submit_op(h, op),
                            None => Err(Error::WrongResultKind),
                        }
                    } else {
                        Err(Error::WrongResultKind)
                    }
                },
            }
        },
        ScriptStep::Echo { data_step, data_part, target } => {
            if data_step >= results.len() {
                return Err(Error::WrongResultKind);
            }
            let data = match results[data_step].bytes_ref(data_part) {
                Some(d) => d.clone(),
                None => {
                    return Err(Error::WrongResultKind);
                },
            };
            let mut actions: Vec<LaneAction> = Vec::new();
            actions.push(LaneAction::SendBuffer { data });
            let op = Operation::Batch { actions };
            match target {
                TargetSel::Fixed { handle } => rt.submit_op(&handle, op),
                TargetSel::FromPart { step, part } => {
                    if step < results.len() {
                        match results[step].lane_ref(part) {
                            Some(h) => rt.submit_op(h, op),
                            None => Err(Error::WrongResultKind),
                        }
                    } else {
                        Err(Error::WrongResultKind)
                    }
                },
            }
        },
    }
}

impl Script {
    /// The steps this script was built over, in order.
    pub closed spec fn steps_spec(&self) -> Seq<ScriptStep> {
        self.program@
    }

    /// How many steps have completed: their elements sit in the results.
    pub closed spec fn pc_spec(&self) -> nat {
        self.pc as nat
    }

    /// The context token of the in-flight step's operation, while one is
    /// awaited.
    pub closed spec fn waiting_spec(&self) -> Option<usize> {
        self.waiting
    }

    /// The completion elements collected so far, one per completed step,
    /// in step order.
    pub closed spec fn results_spec(&self) -> Seq<Element> {
        self.results@
    }

    /// Whether the script has finished (all steps done, or failed).
    pub closed spec fn is_done(&self) -> bool {
        self.done
    }

    /// Whether the script stopped because a submission was rejected or a
    /// step named a result of the wrong kind.
    pub closed spec fn failed_spec(&self) -> bool {
        self.failed
    }

    /// The script's bookkeeping is sound: the counter walks the steps in
    /// order, one collected element per completed step, and an awaited
    /// operation belongs to a step that exists.
    pub closed spec fn inv(&self) -> bool {
        &&& self.steps@.len() == self.program@.len()
        &&& self.pc <= self.steps@.len()
        &&& self.results@.len() == self.pc
        &&& (self.waiting is Some ==> self.pc < self.steps@.len())
        &&& (self.done ==> (self.failed || self.pc == self.steps@.len()))
    }

    /// Builds a script over the given steps.
    pub fn new(steps: Vec<ScriptStep>) -> (r: Script)
        ensures
            r.value() is None,
            !r.failed_spec(),
            r.inv(),
            r.steps_spec() == steps@,
            r.pc_spec() == 0,
            r.waiting_spec() is None,
            r.results_spec().len() == 0,
    {
        let ghost program = steps@;
        let mut slots: Vec<Option<ScriptStep>> = Vec::new();
        let mut steps = steps;
        while steps.len() > 0
            invariant
                slots@.len() + steps@.len() == program.len(),
            decreases steps@.len(),
        {
            let s = steps.remove(0);
            slots.push(Some(s));
        }
        Script {
            steps: slots,
            pc: 0,
            waiting: None,
            results: Vec::new(),
            done: false,
            failed: false,
            program: Ghost(program),
        }
    }

    /// Whether the script stopped because a submission was rejected or a
    /// step named a result of the wrong kind.
    pub fn failed(&self) -> (r: bool)
        ensures
            r == self.failed_spec(),
    {
        self.failed
    }

    /// The completion elements collected so far, one per completed step.
    pub fn results(&self) -> (r: &Vec<Element>)
        ensures
            r@ == self.results_spec(),
    {
        &self.results
    }

    /// Consumes the script, handing out the collected elements.
    pub fn into_results(self) -> (r: Vec<Element>)
        ensures
            r@ == self.results_spec(),
    {
        self.results
    }
}

impl TaskFuture for Script {
    type Output = ();

    closed spec fn value(&self) -> Option<()> {
        if self.done {
            Some(())
        } else {
            None
        }
    }

    /// Runs the script as far as the collected completions allow: each
    /// finished step appends its element, the step at the counter is
    /// submitted once its predecessor finished, and the poll suspends on
    /// the first completion still owed. Ready without failure means
    /// every step ran, in order, with one element per step.
    fn poll(&mut self, rt: &mut ExecutorInner, me: TaskRef) -> (r: Poll<()>)
        ensures
            final(self).steps_spec() == old(self).steps_spec(),
            old(self).inv() ==> final(self).inv(),
            old(self).inv() ==> ({
                &&& final(self).pc_spec() >= old(self).pc_spec()
                &&& final(self).results_spec().len() == final(self).pc_spec()
                &&& final(self).results_spec().take(old(self).results_spec().len() as int) == old(
                    self,
                ).results_spec()
                &&& (r is Ready ==> (final(self).failed_spec()
                    || final(self).pc_spec() == final(self).steps_spec().len()))
            }),
            r is Pending ==> (final(self).waiting_spec() matches Some(tok) && (old(
                self,
            ).waiting_spec() == Some(tok) || (tok < final(rt).op_count()
                && final(rt).ops_seq()[tok as int] is Pending))),
    {
        let ghost pc0 = self.pc as nat;
        let ghost res0 = self.results@;
        proof {
            assert(self.results@.take(res0.len() as int) =~= res0);
        }
        loop
            invariant
                rt.wf(),
                rt.op_count() >= old(rt).op_count(),
                !self.done,
                self.program@ == old(self).steps_spec(),
                old(self).inv() ==> self.inv(),
                pc0 == old(self).pc_spec(),
                res0 == old(self).results_spec(),
                old(self).inv() ==> (self.pc >= pc0 && res0.len() <= self.results@.len()
                    && self.results@.take(res0.len() as int) == res0),
                self.waiting matches Some(tok) ==> (old(self).waiting_spec() == Some(tok) || (tok
                    < rt.op_count() && rt.ops_seq()[tok as int] is Pending)),
            decreases
                    (if self.pc <= self.steps@.len() {
                        self.steps@.len() - self.pc
                    } else {
                        0int
                    }),
                    (if self.waiting is Some {
                        0int
                    } else {
                        1int
                    }),
        {
            match self.waiting {
                Some(token) => {
                    match rt.take_completed(token, me) {
                        Some(el) => {
                            proof {
                                if old(self).inv() {
                                    assert(self.results@.push(el).take(res0.len() as int)
                                        =~= res0);
                                }
                            }
                            self.results.push(el);
                            self.waiting = None;
                            if self.pc >= self.steps.len() {
                                self.done = true;
                                self.failed = true;
                                return Poll::Ready(());
                            }
                            self.pc = self.pc + 1;
                        },
                        None => {
                            return Poll::Pending;
                        },
                    }
                },
                None => {
                    if self.pc >= self.steps.len() {
                        self.done = true;
                        return Poll::Ready(());
                    }
                    let mut slot: Option<ScriptStep> = None;
                    core::mem::swap(&mut slot, &mut self.steps[self.pc]);
                    match slot {
                        None => {
                            self.done = true;
                            self.failed = true;
                            return Poll::Ready(());
                        },
                        Some(step) => {
                            match submit_step(rt, &self.results, step) {
                                Ok(token) => {
                                    self.waiting = Some(token);
                                },
                                Err(_) => {
                                    self.done = true;
                                    self.failed = true;
                                    return Poll::Ready(());
                                },
                            }
                        },
                    }
                },
            }
        }
    }
}

} // verus!
