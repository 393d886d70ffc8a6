//! Devices and their device-tree properties.
//!
//! A device is reached over a lane; its protocol ("offer a conversation,
//! send a request head, receive a reply head inline, then receive the
//! reply tail over the conversation lane") is carried by the runtime's
//! lane actions. The reply head's preamble announces the tail size for
//! callers that receive into a sized buffer; the scripts here use inline
//! receives, which take the whole message. The property payloads that
//! come back are parsed here, and the reply statuses are turned into
//! typed results.

use vstd::prelude::*;

use vstd::slice::slice_subrange;

use crate::executor::{ExecutorInner, TaskFuture};
use crate::handle::Handle;
use crate::script::{Script, ScriptStep, TargetSel};
use crate::submission::{LaneAction, Operation};

verus! {

/// The big-endian 32-bit integer stored at `off` in `data`.
pub open spec fn be_u32_at(data: Seq<u8>, off: int) -> u32 {
    (data[off] * 0x1000000 + data[off + 1] * 0x10000 + data[off + 2] * 0x100 + data[off + 3]) as u32
}

/// The big-endian 64-bit integer stored at `off` in `data`.
pub open spec fn be_u64_at(data: Seq<u8>, off: int) -> u64 {
    (be_u32_at(data, off) * 0x100000000 + be_u32_at(data, off + 4)) as u64
}

/// The little-endian 32-bit integer stored at `off` in `data`.
pub open spec fn le_u32_at(data: Seq<u8>, off: int) -> u32 {
    (data[off + 3] * 0x1000000 + data[off + 2] * 0x10000 + data[off + 1] * 0x100 + data[off]) as u32
}

/// The `index`-th of the NUL-separated segments of `data`: the bytes
/// between the `index`-th and the next separator, counting a trailing
/// unterminated run (possibly empty) as the last segment.
pub open spec fn nth_segment(data: Seq<u8>, index: nat) -> Option<Seq<u8>>
    decreases data.len(),
{
    if data.len() == 0 {
        if index == 0 {
            Some(Seq::empty())
        } else {
            None
        }
    } else if data[0] == 0 {
        if index == 0 {
            Some(Seq::empty())
        } else {
            nth_segment(data.skip(1), (index - 1) as nat)
        }
    } else {
        match nth_segment(data.skip(1), index) {
            Some(seg) => if index == 0 {
                Some(seq![data[0]] + seg)
            } else {
                Some(seg)
            },
            None => None,
        }
    }
}

/// The characters that a byte sequence decodes to under UTF-8, when it
/// is valid UTF-8.
pub uninterp spec fn utf8_chars(bytes: Seq<u8>) -> Option<Seq<char>>;

/// Relies on core::str::from_utf8: whether the bytes are valid UTF-8,
/// and which characters they decode to, depends on the bytes alone.
#[verifier::external_body]
fn utf8_from(b: &[u8]) -> (r: Option<&str>)
    ensures
        (r is Some) <==> utf8_chars(b@) is Some,
        r matches Some(s) ==> utf8_chars(b@) == Some(s@),
{
    core::str::from_utf8(b).ok()
}

/// Relies on bragi::preamble_from_bytes: a message head starts with the
/// message id and the size of the encoded tail, each a little-endian
/// 32-bit integer, and parsing fails exactly when fewer than eight bytes
/// are given.
#[verifier::external_body]
fn preamble_of(head: &[u8]) -> (r: Option<(u32, u32)>)
    ensures
        (r is Some) <==> head@.len() >= 8,
        r matches Some(p) ==> p.0 == le_u32_at(head@, 0) && p.1 == le_u32_at(head@, 4),
{
    match bragi::preamble_from_bytes(head) {
        Ok(p) => Some((p.id(), p.tail_size())),
        Err(_) => None,
    }
}

/// The message id and tail size carried by a reply head, as the wire
/// preamble states them. `None` exactly when the head is too short to
/// hold a preamble. The id dispatches the reply; the tail size serves
/// callers that receive the tail into a sized buffer.
pub fn reply_preamble(head: &Vec<u8>) -> (r: Option<(u32, u32)>)
    ensures
        (r is Some) <==> head@.len() >= 8,
        r matches Some(p) ==> p.0 == le_u32_at(head@, 0) && p.1 == le_u32_at(head@, 4),
{
    preamble_of(head.as_slice())
}

/// One device-tree property payload, as received from a device.
#[derive(Debug)]
pub struct DtProperty {
    data: Vec<u8>,
}

impl DtProperty {
    /// The raw property bytes.
    pub closed spec fn bytes(&self) -> Seq<u8> {
        self.data@
    }

    /// Wraps raw property bytes received from the device protocol.
    pub fn from_bytes(data: &Vec<u8>) -> (r: Self)
        ensures
            r.bytes() == data@,
    {
        Self { data: data.clone() }
    }

    /// The raw property bytes.
    pub fn data(&self) -> (r: &Vec<u8>)
        ensures
            r@ == self.bytes(),
    {
        &self.data
    }

    /// The big-endian cell at `offset`, when a full cell plus at least
    /// one further byte lies inside the payload.
    pub fn get_u32(&self, offset: usize) -> (r: Option<u32>)
        ensures
            (r is Some) <==> offset + 4 < self.bytes().len(),
            r matches Some(v) ==> v == be_u32_at(self.bytes(), offset as int),
    {
        if self.data.len() > 4 && offset < self.data.len() - 4 {
            let v = (self.data[offset] as u32) * 0x1000000 + (self.data[offset + 1] as u32)
                * 0x10000 + (self.data[offset + 2] as u32) * 0x100 + (self.data[offset + 3] as u32);
            Some(v)
        } else {
            None
        }
    }

    /// The big-endian double cell at `offset`, when it plus at least one
    /// further byte lies inside the payload.
    pub fn get_u64(&self, offset: usize) -> (r: Option<u64>)
        ensures
            (r is Some) <==> offset + 8 < self.bytes().len(),
            r matches Some(v) ==> v == be_u64_at(self.bytes(), offset as int),
    {
        if self.data.len() > 8 && offset < self.data.len() - 8 {
            let hi = (self.data[offset] as u64) * 0x1000000 + (self.data[offset + 1] as u64)
                * 0x10000 + (self.data[offset + 2] as u64) * 0x100 + (self.data[offset + 3] as u64);
            let lo = (self.data[offset + 4] as u64) * 0x1000000 + (self.data[offset + 5] as u64)
                * 0x10000 + (self.data[offset + 6] as u64) * 0x100 + (self.data[offset
                + 7] as u64);
            Some(hi * 0x100000000 + lo)
        } else {
            None
        }
    }

    /// Reads a value of `cells` 32-bit cells at `offset`: zero cells read
    /// as zero, one cell as a `u32`, two cells as a `u64`; wider values
    /// are not supported.
    pub fn get_with_cells(&self, offset: usize, cells: usize) -> (r: Option<u64>)
        ensures
            cells == 0 ==> r == Some(0u64),
            cells == 1 ==> ((r is Some) <==> offset + 4 < self.bytes().len()) && (r matches Some(v)
                ==> v == be_u32_at(self.bytes(), offset as int)),
            cells == 2 ==> ((r is Some) <==> offset + 8 < self.bytes().len()) && (r matches Some(v)
                ==> v == be_u64_at(self.bytes(), offset as int)),
            cells > 2 ==> r is None,
    {
        match cells {
            0 => Some(0),
            1 => match self.get_u32(offset) {
                Some(v) => Some(v as u64),
                None => None,
            },
            2 => self.get_u64(offset),
            _ => None,
        }
    }

    /// The `index`-th NUL-separated string in the payload, when that
    /// segment exists and is valid UTF-8.
    pub fn get_str(&self, index: usize) -> (r: Option<&str>)
        ensures
            (r is Some) <==> (nth_segment(self.bytes(), index as nat) matches Some(seg)
                && utf8_chars(seg) is Some),
            r matches Some(s) ==> (nth_segment(self.bytes(), index as nat) matches Some(seg)
                && utf8_chars(seg) == Some(s@)),
    {
        let ghost data = self.data@;
        let n = self.data.len();
        let mut count: usize = 0;
        let mut start: usize = 0;
        let mut i: usize = 0;
        proof {
            assert(data.skip(0) =~= data);
            if index == 0 {
                lemma_segment_head(data);
                assert(data.subrange(0, 0) + segment_head(data) =~= segment_head(data));
            }
        }
        while i < n
            invariant
                data == self.data@,
                n == data.len(),
                start <= i <= n,
                count <= index,
                count < index ==> nth_segment(data, index as nat) == nth_segment(
                    data.skip(i as int),
                    (index - count) as nat,
                ),
                count == index ==> nth_segment(data, index as nat) == Some(
                    data.subrange(start as int, i as int) + segment_head(data.skip(i as int)),
                ),
            decreases n - i,
        {
            let b = self.data[i];
            if b == 0 {
                if count == index {
                    proof {
                        assert(segment_head(data.skip(i as int)) =~= Seq::<u8>::empty());
                        assert(data.subrange(start as int, i as int) + Seq::<u8>::empty()
                            =~= data.subrange(start as int, i as int));
                    }
                    return utf8_from(slice_subrange(self.data.as_slice(), start, i));
                }
                proof {
                    assert(data.skip(i as int).skip(1) =~= data.skip(i + 1 as int));
                    if count + 1 == index {
                        lemma_segment_head(data.skip(i + 1 as int));
                        assert(data.subrange(i + 1 as int, i + 1 as int)
                            =~= Seq::<u8>::empty());
                    }
                }
                start = i + 1;
                count = count + 1;
            } else {
                proof {
                    assert(data.skip(i as int).skip(1) =~= data.skip(i + 1 as int));
                    if count == index {
                        assert(data.skip(i as int)[0] == data[i as int]);
                        assert(data.subrange(start as int, i as int) + segment_head(
                            data.skip(i as int),
                        ) =~= data.subrange(start as int, i + 1 as int) + segment_head(
                            data.skip(i + 1 as int),
                        ));
                    }
                }
            }
            i = i + 1;
        }
        if count == index {
            proof {
                assert(data.skip(n as int) =~= Seq::<u8>::empty());
                assert(data.subrange(start as int, n as int) + segment_head(data.skip(n as int))
                    =~= data.subrange(start as int, n as int));
            }
            utf8_from(slice_subrange(self.data.as_slice(), start, n))
        } else {
            proof {
                assert(data.skip(n as int) =~= Seq::<u8>::empty());
            }
            None
        }
    }
}

/// The leading segment of `data`: its bytes up to (not including) the
/// first separator, or all of it when none follows.
pub open spec fn segment_head(data: Seq<u8>) -> Seq<u8>
    decreases data.len(),
{
    if data.len() == 0 {
        Seq::empty()
    } else if data[0] == 0 {
        Seq::empty()
    } else {
        seq![data[0]] + segment_head(data.skip(1))
    }
}

/// The leading segment is what `nth_segment` yields at index zero.
proof fn lemma_segment_head(data: Seq<u8>)
    ensures
        nth_segment(data, 0) == Some(segment_head(data)),
    decreases data.len(),
{
    if data.len() == 0 {
    } else if data[0] == 0 {
    } else {
        lemma_segment_head(data.skip(1));
    }
}

/// The exact step sequence of a device request/reply conversation built
/// by [`Device::request_conversation`]: an offer on a duplicate of the
/// device's lane handle, sending the encoded request head and receiving
/// the reply head inline, then on the conversation lane an inline
/// receive of the reply tail, together with a descriptor pull when the
/// call hands one over.
pub open spec fn device_conversation_steps(
    steps: Seq<ScriptStep>,
    k: crate::kernel::Kernel,
    device: Handle,
    head: Vec<u8>,
    pull: bool,
) -> bool {
    &&& steps.len() == 2
    &&& (steps[0] matches ScriptStep::Submit { target, op } && (target matches TargetSel::Fixed {
        handle,
    } && k.target_of(handle.id() as int) == k.target_of(device.id() as int)) && (
    op matches Operation::Offer { with_lane, actions } && with_lane && actions@ == seq![
        LaneAction::SendBuffer { data: head },
        LaneAction::ReceiveInline,
    ]))
    &&& (steps[1] matches ScriptStep::Submit { target, op } && target == (TargetSel::FromPart {
        step: 0,
        part: 0,
    }) && (op matches Operation::Batch { actions } && ((pull && actions@ == seq![
        LaneAction::ReceiveInline,
        LaneAction::PullDescriptor,
    ]) || (!pull && actions@ == seq![LaneAction::ReceiveInline]))))
}

/// Finishes a device-tree property lookup: a success reply wraps the
/// reply tail as the property, a not-found reply is no property at all,
/// and every other status is its typed error.
pub fn finish_dt_property(status: crate::hw::error::Errors, data: Vec<u8>) -> (r:
    crate::hw::error::Result<Option<DtProperty>>)
    ensures
        status == crate::hw::error::Errors::Success ==> (r matches Ok(p) && p matches Some(prop)
            && prop.bytes() == data@),
        status == crate::hw::error::Errors::PropertyNotFound ==> r == crate::hw::error::Result::<
            Option<DtProperty>,
        >::Ok(None),
        (status != crate::hw::error::Errors::Success && status
            != crate::hw::error::Errors::PropertyNotFound) ==> r == crate::hw::error::Result::<
            Option<DtProperty>,
        >::Err(crate::hw::error::error_of(status)),
{
    match status {
        crate::hw::error::Errors::Success => Ok(Some(DtProperty::from_bytes(&data))),
        crate::hw::error::Errors::PropertyNotFound => Ok(None),
        other => Err(crate::hw::error::Error::from(other)),
    }
}

/// Finishes a device call that hands a descriptor over (a mapped base
/// address register, an interrupt handle): a success reply yields the
/// pulled descriptor, a success reply without one is a conversation-shape
/// violation, and every other status is its typed error.
pub fn finish_descriptor(status: crate::hw::error::Errors, descriptor: Option<Handle>) -> (r:
    crate::hw::error::Result<Handle>)
    ensures
        (status == crate::hw::error::Errors::Success && descriptor is Some) <==> r is Ok,
        r matches Ok(h) ==> descriptor == Some(h),
        (status == crate::hw::error::Errors::Success && descriptor is None) ==> r
            == crate::hw::error::Result::<Handle>::Err(
            crate::hw::error::Error::HelError(crate::result::Error::WrongResultKind),
        ),
        status != crate::hw::error::Errors::Success ==> r == crate::hw::error::Result::<
            Handle,
        >::Err(crate::hw::error::error_of(status)),
{
    if let crate::hw::error::Errors::Success = status {
        match descriptor {
            Some(h) => Ok(h),
            None => Err(
                crate::hw::error::Error::HelError(crate::result::Error::WrongResultKind),
            ),
        }
    } else {
        Err(crate::hw::error::Error::from(status))
    }
}

/// Finishes a device call whose reply carries only a status: success, or
/// the typed error.
pub fn finish_status(status: crate::hw::error::Errors) -> (r: crate::hw::error::Result<()>)
    ensures
        (r is Ok) <==> status == crate::hw::error::Errors::Success,
        status != crate::hw::error::Errors::Success ==> r == crate::hw::error::Result::<()>::Err(
            crate::hw::error::error_of(status),
        ),
{
    if let crate::hw::error::Errors::Success = status {
        Ok(())
    } else {
        Err(crate::hw::error::Error::from(status))
    }
}

/// A hardware device, reached over the lane its handle names.
#[derive(Debug)]
pub struct Device {
    handle: Handle,
}

impl Device {
    /// The lane handle this device is driven over.
    pub closed spec fn handle_spec(&self) -> Handle {
        self.handle
    }

    /// Wraps a lane handle to a device.
    pub fn new(handle: Handle) -> (r: Self)
        ensures
            r.handle_spec() == handle,
    {
        Self { handle }
    }

    /// The lane handle, for submitting device requests.
    pub fn handle(&self) -> (r: &Handle)
        ensures
            r == self.handle_spec(),
    {
        &self.handle
    }

    /// The request/reply conversation every device call follows: offer a
    /// conversation on the device lane, sending the encoded request head
    /// and receiving the reply head inline, then receive the reply tail
    /// over the conversation lane, pulling a descriptor alongside it when
    /// the call hands one over. Fails exactly when the device lane is
    /// gone.
    ///
    /// Driving the returned script to completion yields two elements:
    /// the offer (conversation lane, send, reply head) and the follow-up
    /// (reply tail, and the descriptor when one was asked for).
    pub fn request_conversation(&self, rt: &mut ExecutorInner, head: Vec<u8>, pull: bool) -> (r:
        crate::result::Result<Script>)
        ensures
            final(rt).ops_seq() == old(rt).ops_seq(),
            (r is Ok) <==> old(rt).kernel_state().target_of(self.handle_spec().id() as int)
                is Some,
            r matches Ok(s) ==> (s.value() is None && !s.failed_spec() && s.inv()
                && device_conversation_steps(
                s.steps_spec(),
                final(rt).kernel_state(),
                self.handle_spec(),
                head,
                pull,
            )),
    {
        let ghost head_g = head;
        let lane = match self.handle.clone_handle(rt.kernel_mut()) {
            Ok(h) => h,
            Err(e) => {
                return Err(e);
            },
        };
        let ghost lane_g = lane;
        let mut offer_actions: Vec<LaneAction> = Vec::new();
        offer_actions.push(LaneAction::SendBuffer { data: head });
        offer_actions.push(LaneAction::ReceiveInline);
        proof {
            assert(offer_actions@ =~= seq![
                LaneAction::SendBuffer { data: head_g },
                LaneAction::ReceiveInline,
            ]);
        }
        let mut follow_up: Vec<LaneAction> = Vec::new();
        follow_up.push(LaneAction::ReceiveInline);
        if pull {
            follow_up.push(LaneAction::PullDescriptor);
        }
        proof {
            if pull {
                assert(follow_up@ =~= seq![
                    LaneAction::ReceiveInline,
                    LaneAction::PullDescriptor,
                ]);
            } else {
                assert(follow_up@ =~= seq![LaneAction::ReceiveInline]);
            }
        }
        let step0 = ScriptStep::Submit {
            target: TargetSel::Fixed { handle: lane },
            op: Operation::Offer { with_lane: true, actions: offer_actions },
        };
        let ghost step0_g = step0;
        let step1 = ScriptStep::Submit {
            target: TargetSel::FromPart { step: 0, part: 0 },
            op: Operation::Batch { actions: follow_up },
        };
        let ghost step1_g = step1;
        let mut steps: Vec<ScriptStep> = Vec::new();
        steps.push(step0);
        steps.push(step1);
        proof {
            assert(steps@ =~= seq![step0_g, step1_g]);
        }
        Ok(Script::new(steps))
    }


    /// The conversation that fetches the device's PCI description:
    /// request head out, reply head and tail back.
    pub fn get_pci_info(&self, rt: &mut ExecutorInner, head: Vec<u8>) -> (r:
        crate::result::Result<Script>)
        ensures
            final(rt).ops_seq() == old(rt).ops_seq(),
            (r is Ok) <==> old(rt).kernel_state().target_of(self.handle_spec().id() as int)
                is Some,
            r matches Ok(s) ==> (s.value() is None && !s.failed_spec() && s.inv()
                && device_conversation_steps(
                s.steps_spec(),
                final(rt).kernel_state(),
                self.handle_spec(),
                head,
                false,
            )),
    {
        self.request_conversation(rt, head, false)
    }

    /// The conversation that maps one of the device's base address
    /// registers: the reply tail arrives together with the mapping's
    /// descriptor.
    pub fn access_bar(&self, rt: &mut ExecutorInner, head: Vec<u8>) -> (r: crate::result::Result<
        Script,
    >)
        ensures
            final(rt).ops_seq() == old(rt).ops_seq(),
            (r is Ok) <==> old(rt).kernel_state().target_of(self.handle_spec().id() as int)
                is Some,
            r matches Ok(s) ==> (s.value() is None && !s.failed_spec() && s.inv()
                && device_conversation_steps(
                s.steps_spec(),
                final(rt).kernel_state(),
                self.handle_spec(),
                head,
                true,
            )),
    {
        self.request_conversation(rt, head, true)
    }

    /// The conversation that obtains one of the device's interrupt
    /// handles: the reply tail arrives together with the IRQ descriptor.
    pub fn access_irq(&self, rt: &mut ExecutorInner, head: Vec<u8>) -> (r: crate::result::Result<
        Script,
    >)
        ensures
            final(rt).ops_seq() == old(rt).ops_seq(),
            (r is Ok) <==> old(rt).kernel_state().target_of(self.handle_spec().id() as int)
                is Some,
            r matches Ok(s) ==> (s.value() is None && !s.failed_spec() && s.inv()
                && device_conversation_steps(
                s.steps_spec(),
                final(rt).kernel_state(),
                self.handle_spec(),
                head,
                true,
            )),
    {
        self.request_conversation(rt, head, true)
    }

    /// The conversation that looks up a device-tree property: the reply
    /// tail carries the property bytes, to be wrapped by
    /// [`DtProperty::from_bytes`].
    pub fn get_dt_property(&self, rt: &mut ExecutorInner, head: Vec<u8>) -> (r:
        crate::result::Result<Script>)
        ensures
            final(rt).ops_seq() == old(rt).ops_seq(),
            (r is Ok) <==> old(rt).kernel_state().target_of(self.handle_spec().id() as int)
                is Some,
            r matches Ok(s) ==> (s.value() is None && !s.failed_spec() && s.inv()
                && device_conversation_steps(
                s.steps_spec(),
                final(rt).kernel_state(),
                self.handle_spec(),
                head,
                false,
            )),
    {
        self.request_conversation(rt, head, false)
    }
}

} // verus!
