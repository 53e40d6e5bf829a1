//! The dispatch engine's decisions: the failure taxonomy, the planning of a
//! single-shot launch (buffer sizing and launch shape), and the single-use
//! completion signal of the synchronizer.

use vstd::prelude::*;
use crate::codec::{decodes_to, lemma_decode_unique};
use crate::collatz::results_for;

verus! {

/// Every way a single-shot dispatch can fail. Each failure is fatal to the
/// call that raised it; no retries are defined.
#[derive(Clone, Copy, PartialEq, Eq, Structural, Debug)]
pub enum ComputeError {
    /// No compute-capable accelerator matched the default selection criteria.
    AdapterUnavailable,
    /// The logical device and command queue could not be created.
    DeviceRequestFailed,
    /// The device rejected an allocation, or the batch exceeds what a single
    /// submission can address.
    AllocationError,
    /// The kernel source failed to compile.
    ShaderCompileFailed,
    /// The source buffer's usage is incompatible with the kernel's binding.
    BindGroupError,
    /// The asynchronous mapping of the readback buffer signalled failure.
    MapFailed,
    /// The completion signal did not resolve within the bounded wait.
    SyncTimeout,
}

/// The shape of one launch: one invocation group per input element, and two
/// buffers of exactly four bytes per element.
#[derive(Clone, Copy, PartialEq, Eq, Structural, Debug)]
pub struct DispatchPlan {
    /// Number of input elements staged into the source buffer.
    pub element_count: usize,
    /// Byte size of the source buffer and of the readback buffer.
    pub buffer_size: u64,
    /// Number of invocation groups launched: one per element.
    pub workgroup_count: u32,
}

impl DispatchPlan {
    /// A well-formed plan: both buffers hold exactly four bytes per element,
    /// and exactly one invocation group is launched per element.
    pub open spec fn wf(self) -> bool {
        &&& 0 < self.element_count <= u32::MAX
        &&& self.buffer_size == 4 * self.element_count
        &&& self.workgroup_count == self.element_count
    }
}

/// What a dispatch call does before touching the device: either skip the
/// launch entirely, or launch with a well-formed plan.
#[derive(Clone, Copy, PartialEq, Eq, Structural, Debug)]
pub enum LaunchDecision {
    /// Zero-length input: produce an empty result without issuing a
    /// zero-sized device launch. This is the documented policy for empty
    /// input sequences.
    SkipEmpty,
    /// Launch with the given shape.
    Launch(DispatchPlan),
}

/// Plan a single-shot dispatch for `element_count` input elements. An empty
/// input is special-cased to an empty result with no launch; a batch whose
/// group count cannot be addressed by a single submission is rejected as an
/// allocation failure.
pub fn plan_dispatch(element_count: usize) -> (r: Result<LaunchDecision, ComputeError>)
    ensures
        element_count == 0 ==> r == Ok::<LaunchDecision, ComputeError>(LaunchDecision::SkipEmpty),
        0 < element_count <= u32::MAX ==> r == Ok::<LaunchDecision, ComputeError>(
            LaunchDecision::Launch(
                (DispatchPlan {
                    element_count,
                    buffer_size: (4 * element_count) as u64,
                    workgroup_count: element_count as u32,
                }),
            ),
        ),
        element_count > u32::MAX ==> r == Err::<LaunchDecision, ComputeError>(
            ComputeError::AllocationError,
        ),
        r matches Ok(LaunchDecision::Launch(p)) ==> p.wf() && p.element_count == element_count,
{
    if element_count == 0 {
        Ok(LaunchDecision::SkipEmpty)
    } else if element_count > u32::MAX as usize {
        Err(ComputeError::AllocationError)
    } else {
        Ok(
            LaunchDecision::Launch(
                DispatchPlan {
                    element_count,
                    buffer_size: 4 * (element_count as u64),
                    workgroup_count: element_count as u32,
                },
            ),
        )
    }
}

/// The single-use synchronization primitive resolved by the accelerator's
/// completion callback: unresolved at creation, resolved exactly once with
/// success or failure, and never resolved again.
pub struct CompletionSignal {
    resolved: Option<bool>,
}

impl CompletionSignal {
    /// The signal has been resolved.
    pub closed spec fn is_resolved(self) -> bool {
        self.resolved is Some
    }

    /// The outcome the signal was resolved with, if any.
    pub closed spec fn outcome(self) -> Option<bool> {
        self.resolved
    }

    /// A fresh, unresolved signal.
    pub fn new() -> (s: Self)
        ensures
            !s.is_resolved(),
    {
        CompletionSignal { resolved: None }
    }

    /// Resolve the signal, carrying success or failure. A signal is resolved
    /// exactly once: resolving an already-resolved signal is not allowed.
    pub fn resolve(&mut self, success: bool)
        requires
            !old(self).is_resolved(),
        ensures
            final(self).outcome() == Some(success),
    {
        self.resolved = Some(success);
    }

    /// Read the current state of the signal without consuming it.
    pub fn status(&self) -> (r: Option<bool>)
        ensures
            r == self.outcome(),
    {
        self.resolved
    }
}

/// The synchronizer's verdict once the bounded wait has ended: a signal that
/// resolved with success lets the call proceed, one that resolved with
/// failure fails the mapping, and one that never resolved is a timeout.
pub fn sync_outcome(signal: &CompletionSignal) -> (r: Result<(), ComputeError>)
    ensures
        signal.outcome() == Some(true) ==> r == Ok::<(), ComputeError>(()),
        signal.outcome() == Some(false) ==> r == Err::<(), ComputeError>(ComputeError::MapFailed),
        signal.outcome() is None ==> r == Err::<(), ComputeError>(ComputeError::SyncTimeout),
{
    match signal.status() {
        Some(true) => Ok(()),
        Some(false) => Err(ComputeError::MapFailed),
        None => Err(ComputeError::SyncTimeout),
    }
}

/// The readback path preserves correctness: when the bytes copied out of
/// the readback buffer encode a correct result sequence for the input, then
/// whatever the decoder reads from those bytes is itself a correct result
/// sequence for the input — same length, same order, exact counts.
pub proof fn lemma_decoded_readback_correct(
    input: Seq<u32>,
    bytes: Seq<u8>,
    expected: Seq<u32>,
    decoded: Seq<u32>,
)
    requires
        results_for(input, expected),
        decodes_to(bytes, expected),
        decodes_to(bytes, decoded),
    ensures
        results_for(input, decoded),
        decoded == expected,
{
    lemma_decode_unique(bytes, expected, decoded);
}

} // verus!
