//! Owned capability references to kernel objects.

use vstd::prelude::*;

use crate::kernel::Kernel;
use crate::result::Result;

verus! {

/// An owned capability reference to a kernel object (a lane, a queue, a
/// stream endpoint, or an opaque object).
///
/// A `Handle` is never duplicated by copying its identifier: the only way
/// to obtain a second reference to the same object is [`Handle::clone_handle`],
/// which goes through the kernel so that the kernel-side reference count
/// stays accurate. Ownership is transferred by moving the value, for
/// example into [`crate::submission::LaneAction::PushDescriptor`].
#[derive(Debug)]
pub struct Handle {
    raw: u64,
}

impl Handle {
    /// The kernel-assigned identifier this handle carries.
    pub closed spec fn id(&self) -> u64 {
        self.raw
    }

    /// Wraps a kernel-assigned identifier. Only the kernel model mints
    /// identifiers, so this stays inside the crate.
    pub(crate) fn from_raw(raw: u64) -> (h: Handle)
        ensures
            h.id() == raw,
    {
        Handle { raw }
    }

    /// Reads the kernel-assigned identifier without giving up ownership.
    pub fn raw(&self) -> (r: u64)
        ensures
            r == self.id(),
    {
        self.raw
    }

    /// Asks the kernel for a second, independently owned handle to the
    /// same kernel object. Fails when this handle no longer names a live
    /// object.
    pub fn clone_handle(&self, kernel: &mut Kernel) -> (r: Result<Handle>)
        ensures
            r matches Ok(h) ==> h.id() == old(kernel).handle_count()
                && final(kernel).target_of(h.id() as int) == old(kernel).target_of(self.id() as int)
                && final(kernel).handles_seq() == old(kernel).handles_seq().push(
                old(kernel).target_of(self.id() as int),
            ),
            (r matches Ok(h)) <==> old(kernel).target_of(self.id() as int) is Some,
            r is Err ==> final(kernel).same_handles(*old(kernel)),
            final(kernel).same_lanes(*old(kernel)),
            final(kernel).lane_count() == old(kernel).lane_count(),
            final(kernel).same_batches(*old(kernel)),
            final(kernel).batch_count() == old(kernel).batch_count(),
            final(kernel).same_completions(*old(kernel)),
            final(kernel).same_timers(*old(kernel)),
            final(kernel).same_clock(*old(kernel)),
    {
        kernel.clone_handle(self)
    }
}

} // verus!
