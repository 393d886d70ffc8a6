//! Entities registered with the bus.
//!
//! Creating an entity, serving a remote lane for it, and reading or
//! updating its properties are request/response conversations over the
//! bus lane, carried by the runtime's lane actions; the values kept here
//! are what those conversations establish.

use vstd::prelude::*;

use crate::executor::{ExecutorInner, TaskFuture};
use crate::handle::Handle;
use crate::hw::error::{Error as ProtocolError, Errors};
use crate::kernel::Kernel;
use crate::script::{Script, ScriptStep, TargetSel};
use crate::submission::{LaneAction, Operation};

verus! {

/// One submission step aimed at a duplicate of `over`, carrying `op`.
pub open spec fn step_on_lane(step: ScriptStep, k: Kernel, over: Handle, op_ok: spec_fn(Operation) -> bool) -> bool {
    step matches ScriptStep::Submit { target, op } && (target matches TargetSel::Fixed { handle }
        && k.target_of(handle.id() as int) == k.target_of(over.id() as int)) && op_ok(op)
}

/// One submission step aimed at the conversation lane of step zero,
/// carrying `op`.
pub open spec fn step_on_conversation(step: ScriptStep, op_ok: spec_fn(Operation) -> bool) -> bool {
    step matches ScriptStep::Submit { target, op } && target == (TargetSel::FromPart {
        step: 0,
        part: 0,
    }) && op_ok(op)
}

/// An entity registered with the bus, by its bus-assigned identifier.
#[derive(Debug, PartialEq, Eq, Structural)]
pub struct Entity {
    id: i64,
}

impl Entity {
    /// The bus-assigned identifier.
    pub closed spec fn id_spec(&self) -> i64 {
        self.id
    }

    /// Wraps a bus-assigned entity identifier.
    pub fn from_id(id: i64) -> (r: Self)
        ensures
            r.id_spec() == id,
    {
        Self { id }
    }

    /// The bus-assigned identifier.
    pub fn id(&self) -> (r: i64)
        ensures
            r == self.id_spec(),
    {
        self.id
    }

    /// The conversation that registers a new entity with the bus: the
    /// encoded request head and tail go out in one offer, and the reply
    /// comes back inline together with the pulled management lane.
    /// `bus_lane` is the bus connection to speak over; the conversation
    /// is built exactly when it is live.
    pub fn create(rt: &mut ExecutorInner, bus_lane: &Handle, head: Vec<u8>, tail: Vec<u8>) -> (r:
        crate::result::Result<Script>)
        ensures
            final(rt).ops_seq() == old(rt).ops_seq(),
            (r is Ok) <==> old(rt).kernel_state().target_of(bus_lane.id() as int) is Some,
            r matches Ok(s) ==> (s.value() is None && !s.failed_spec() && s.inv()
                && s.steps_spec().len() == 1 && step_on_lane(
                s.steps_spec()[0],
                final(rt).kernel_state(),
                *bus_lane,
                |op: Operation|
                    op matches Operation::Offer { with_lane, actions } && !with_lane && actions@
                        == seq![
                        LaneAction::SendBuffer { data: head },
                        LaneAction::SendBuffer { data: tail },
                        LaneAction::ReceiveInline,
                        LaneAction::PullDescriptor,
                    ],
            )),
    {
        let ghost head_g = head;
        let ghost tail_g = tail;
        let lane = match bus_lane.clone_handle(rt.kernel_mut()) {
            Ok(h) => h,
            Err(e) => {
                return Err(e);
            },
        };
        let mut actions: Vec<LaneAction> = Vec::new();
        actions.push(LaneAction::SendBuffer { data: head });
        actions.push(LaneAction::SendBuffer { data: tail });
        actions.push(LaneAction::ReceiveInline);
        actions.push(LaneAction::PullDescriptor);
        proof {
            assert(actions@ =~= seq![
                LaneAction::SendBuffer { data: head_g },
                LaneAction::SendBuffer { data: tail_g },
                LaneAction::ReceiveInline,
                LaneAction::PullDescriptor,
            ]);
        }
        let step0 = ScriptStep::Submit {
            target: TargetSel::Fixed { handle: lane },
            op: Operation::Offer { with_lane: false, actions },
        };
        let ghost step0_g = step0;
        let mut steps: Vec<ScriptStep> = Vec::new();
        steps.push(step0);
        proof {
            assert(steps@ =~= seq![step0_g]);
        }
        Ok(Script::new(steps))
    }

    /// The conversation that asks the bus for a fresh lane to this
    /// entity's server: the reply comes back inline together with the
    /// pulled remote lane.
    pub fn get_remote_lane(&self, rt: &mut ExecutorInner, bus_lane: &Handle, head: Vec<u8>) -> (r:
        crate::result::Result<Script>)
        ensures
            final(rt).ops_seq() == old(rt).ops_seq(),
            (r is Ok) <==> old(rt).kernel_state().target_of(bus_lane.id() as int) is Some,
            r matches Ok(s) ==> (s.value() is None && !s.failed_spec() && s.inv()
                && s.steps_spec().len() == 1 && step_on_lane(
                s.steps_spec()[0],
                final(rt).kernel_state(),
                *bus_lane,
                |op: Operation|
                    op matches Operation::Offer { with_lane, actions } && !with_lane && actions@
                        == seq![
                        LaneAction::SendBuffer { data: head },
                        LaneAction::ReceiveInline,
                        LaneAction::PullDescriptor,
                    ],
            )),
    {
        let ghost head_g = head;
        let lane = match bus_lane.clone_handle(rt.kernel_mut()) {
            Ok(h) => h,
            Err(e) => {
                return Err(e);
            },
        };
        let mut actions: Vec<LaneAction> = Vec::new();
        actions.push(LaneAction::SendBuffer { data: head });
        actions.push(LaneAction::ReceiveInline);
        actions.push(LaneAction::PullDescriptor);
        proof {
            assert(actions@ =~= seq![
                LaneAction::SendBuffer { data: head_g },
                LaneAction::ReceiveInline,
                LaneAction::PullDescriptor,
            ]);
        }
        let step0 = ScriptStep::Submit {
            target: TargetSel::Fixed { handle: lane },
            op: Operation::Offer { with_lane: false, actions },
        };
        let ghost step0_g = step0;
        let mut steps: Vec<ScriptStep> = Vec::new();
        steps.push(step0);
        proof {
            assert(steps@ =~= seq![step0_g]);
        }
        Ok(Script::new(steps))
    }

    /// The conversation that reads this entity's properties: offer with
    /// the request head, reply head inline, then the property tail over
    /// the conversation lane.
    pub fn get_properties(&self, rt: &mut ExecutorInner, bus_lane: &Handle, head: Vec<u8>) -> (r:
        crate::result::Result<Script>)
        ensures
            final(rt).ops_seq() == old(rt).ops_seq(),
            (r is Ok) <==> old(rt).kernel_state().target_of(bus_lane.id() as int) is Some,
            r matches Ok(s) ==> (s.value() is None && !s.failed_spec() && s.inv()
                && s.steps_spec().len() == 2 && step_on_lane(
                s.steps_spec()[0],
                final(rt).kernel_state(),
                *bus_lane,
                |op: Operation|
                    op matches Operation::Offer { with_lane, actions } && with_lane && actions@
                        == seq![LaneAction::SendBuffer { data: head }, LaneAction::ReceiveInline],
            ) && step_on_conversation(
                s.steps_spec()[1],
                |op: Operation|
                    op matches Operation::Batch { actions } && actions@ == seq![
                        LaneAction::ReceiveInline,
                    ],
            )),
    {
        let ghost head_g = head;
        let lane = match bus_lane.clone_handle(rt.kernel_mut()) {
            Ok(h) => h,
            Err(e) => {
                return Err(e);
            },
        };
        let mut actions: Vec<LaneAction> = Vec::new();
        actions.push(LaneAction::SendBuffer { data: head });
        actions.push(LaneAction::ReceiveInline);
        proof {
            assert(actions@ =~= seq![
                LaneAction::SendBuffer { data: head_g },
                LaneAction::ReceiveInline,
            ]);
        }
        let mut tail_actions: Vec<LaneAction> = Vec::new();
        tail_actions.push(LaneAction::ReceiveInline);
        proof {
            assert(tail_actions@ =~= seq![LaneAction::ReceiveInline]);
        }
        let step0 = ScriptStep::Submit {
            target: TargetSel::Fixed { handle: lane },
            op: Operation::Offer { with_lane: true, actions },
        };
        let ghost step0_g = step0;
        let step1 = ScriptStep::Submit {
            target: TargetSel::FromPart { step: 0, part: 0 },
            op: Operation::Batch { actions: tail_actions },
        };
        let ghost step1_g = step1;
        let mut steps: Vec<ScriptStep> = Vec::new();
        steps.push(step0);
        steps.push(step1);
        proof {
            assert(steps@ =~= seq![step0_g, step1_g]);
        }
        Ok(Script::new(steps))
    }

    /// The conversation that rewrites this entity's properties: the
    /// encoded head and tail go out in one offer and the reply comes
    /// back inline.
    pub fn update_properties(
        &self,
        rt: &mut ExecutorInner,
        bus_lane: &Handle,
        head: Vec<u8>,
        tail: Vec<u8>,
    ) -> (r: crate::result::Result<Script>)
        ensures
            final(rt).ops_seq() == old(rt).ops_seq(),
            (r is Ok) <==> old(rt).kernel_state().target_of(bus_lane.id() as int) is Some,
            r matches Ok(s) ==> (s.value() is None && !s.failed_spec() && s.inv()
                && s.steps_spec().len() == 1 && step_on_lane(
                s.steps_spec()[0],
                final(rt).kernel_state(),
                *bus_lane,
                |op: Operation|
                    op matches Operation::Offer { with_lane, actions } && with_lane && actions@
                        == seq![
                        LaneAction::SendBuffer { data: head },
                        LaneAction::SendBuffer { data: tail },
                        LaneAction::ReceiveInline,
                    ],
            )),
    {
        let ghost head_g = head;
        let ghost tail_g = tail;
        let lane = match bus_lane.clone_handle(rt.kernel_mut()) {
            Ok(h) => h,
            Err(e) => {
                return Err(e);
            },
        };
        let mut actions: Vec<LaneAction> = Vec::new();
        actions.push(LaneAction::SendBuffer { data: head });
        actions.push(LaneAction::SendBuffer { data: tail });
        actions.push(LaneAction::ReceiveInline);
        proof {
            assert(actions@ =~= seq![
                LaneAction::SendBuffer { data: head_g },
                LaneAction::SendBuffer { data: tail_g },
                LaneAction::ReceiveInline,
            ]);
        }
        let step0 = ScriptStep::Submit {
            target: TargetSel::Fixed { handle: lane },
            op: Operation::Offer { with_lane: true, actions },
        };
        let ghost step0_g = step0;
        let mut steps: Vec<ScriptStep> = Vec::new();
        steps.push(step0);
        proof {
            assert(steps@ =~= seq![step0_g]);
        }
        Ok(Script::new(steps))
    }
}

/// Finishes an entity-creation conversation: turns the reply status, the
/// created identifier and the pulled management lane into the manager,
/// or the typed protocol error. A success reply without a pulled lane is
/// a conversation-shape violation.
pub fn finish_create(status: Errors, id: i64, management_lane: Option<Handle>) -> (r:
    crate::hw::error::Result<EntityManager>)
    ensures
        (status == Errors::Success && management_lane is Some) <==> r is Ok,
        r matches Ok(m) ==> (m.entity_spec().id_spec() == id && management_lane == Some(
            m.lane_spec(),
        )),
        (status == Errors::Success && management_lane is None) ==> r
            == crate::hw::error::Result::<EntityManager>::Err(
            ProtocolError::HelError(crate::result::Error::WrongResultKind),
        ),
        status != Errors::Success ==> r == crate::hw::error::Result::<EntityManager>::Err(
            crate::hw::error::error_of(status),
        ),
{
    if let Errors::Success = status {
        match management_lane {
            Some(lane) => Ok(EntityManager::new(Entity::from_id(id), lane)),
            None => Err(ProtocolError::HelError(crate::result::Error::WrongResultKind)),
        }
    } else {
        Err(ProtocolError::from(status))
    }
}

/// The management side of a created entity: the entity itself and the
/// lane on which the bus sends management requests for it.
#[derive(Debug)]
pub struct EntityManager {
    entity: Entity,
    management_lane: Handle,
}

impl EntityManager {
    /// The entity this manager serves.
    pub closed spec fn entity_spec(&self) -> Entity {
        self.entity
    }

    /// The lane the bus manages the entity over.
    pub closed spec fn lane_spec(&self) -> Handle {
        self.management_lane
    }

    /// Pairs a created entity with its management lane, as the creation
    /// conversation returns them.
    pub fn new(entity: Entity, management_lane: Handle) -> (r: Self)
        ensures
            r.entity_spec() == entity,
            r.lane_spec() == management_lane,
    {
        Self { entity, management_lane }
    }

    /// The entity this manager serves.
    pub fn entity(&self) -> (r: &Entity)
        ensures
            r == self.entity_spec(),
    {
        &self.entity
    }

    /// The lane the bus manages the entity over, for submitting
    /// management conversations.
    pub fn management_lane(&self) -> (r: &Handle)
        ensures
            r == self.lane_spec(),
    {
        &self.management_lane
    }

    /// The conversation that hands `lane` to the bus so the bus serves it
    /// to a peer: offer with the request head, push the lane over the
    /// conversation, and receive the inline acknowledgement.
    pub fn serve_remote_lane(&self, rt: &mut ExecutorInner, lane: Handle, head: Vec<u8>) -> (r:
        crate::result::Result<Script>)
        ensures
            final(rt).ops_seq() == old(rt).ops_seq(),
            (r is Ok) <==> old(rt).kernel_state().target_of(self.lane_spec().id() as int) is Some,
            r matches Ok(s) ==> (s.value() is None && !s.failed_spec() && s.inv()
                && s.steps_spec().len() == 3 && step_on_lane(
                s.steps_spec()[0],
                final(rt).kernel_state(),
                self.lane_spec(),
                |op: Operation|
                    op matches Operation::Offer { with_lane, actions } && with_lane && actions@
                        == seq![LaneAction::SendBuffer { data: head }],
            ) && step_on_conversation(
                s.steps_spec()[1],
                |op: Operation|
                    op matches Operation::Batch { actions } && actions@ == seq![
                        LaneAction::PushDescriptor { handle: lane },
                    ],
            ) && step_on_conversation(
                s.steps_spec()[2],
                |op: Operation|
                    op matches Operation::Batch { actions } && actions@ == seq![
                        LaneAction::ReceiveInline,
                    ],
            )),
    {
        let ghost head_g = head;
        let ghost lane_g = lane;
        let mgmt = match self.management_lane.clone_handle(rt.kernel_mut()) {
            Ok(h) => h,
            Err(e) => {
                return Err(e);
            },
        };
        let mut offer_actions: Vec<LaneAction> = Vec::new();
        offer_actions.push(LaneAction::SendBuffer { data: head });
        proof {
            assert(offer_actions@ =~= seq![LaneAction::SendBuffer { data: head_g }]);
        }
        let mut push_actions: Vec<LaneAction> = Vec::new();
        push_actions.push(LaneAction::PushDescriptor { handle: lane });
        proof {
            assert(push_actions@ =~= seq![LaneAction::PushDescriptor { handle: lane_g }]);
        }
        let mut recv_actions: Vec<LaneAction> = Vec::new();
        recv_actions.push(LaneAction::ReceiveInline);
        proof {
            assert(recv_actions@ =~= seq![LaneAction::ReceiveInline]);
        }
        let step0 = ScriptStep::Submit {
            target: TargetSel::Fixed { handle: mgmt },
            op: Operation::Offer { with_lane: true, actions: offer_actions },
        };
        let ghost step0_g = step0;
        let step1 = ScriptStep::Submit {
            target: TargetSel::FromPart { step: 0, part: 0 },
            op: Operation::Batch { actions: push_actions },
        };
        let ghost step1_g = step1;
        let step2 = ScriptStep::Submit {
            target: TargetSel::FromPart { step: 0, part: 0 },
            op: Operation::Batch { actions: recv_actions },
        };
        let ghost step2_g = step2;
        let mut steps: Vec<ScriptStep> = Vec::new();
        steps.push(step0);
        steps.push(step1);
        steps.push(step2);
        proof {
            assert(steps@ =~= seq![step0_g, step1_g, step2_g]);
        }
        Ok(Script::new(steps))
    }
}

} // verus!
