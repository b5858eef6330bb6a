use vstd::prelude::*;

verus! {

/// Why an operation on the instance store was refused.
///
/// Every error is a local, caller-recoverable condition; an operation that
/// returns one of these leaves the store exactly as it was before the call.
#[derive(Clone, Copy, Debug, PartialEq, Eq, Structural)]
pub enum PaperdollError {
    /// A referenced doll, slot, fragment, or instance id does not exist.
    NotFound,
    /// The fragment is not a legal candidate for the target slot.
    InvalidAssignment,
    /// An attempt was made to empty a slot marked required.
    RequiredSlotViolation,
    /// A currently assigned fragment is unexpectedly not in its slot's
    /// candidate list.
    NotACandidate,
    /// A required slot was found without any assignment when an operation
    /// needed one.
    InconsistentState,
    /// The renderer could not produce an image for the current selection.
    RenderFailed,
}

} // verus!
