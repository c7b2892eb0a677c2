use vstd::prelude::*;

verus! {

/// Everything that can go wrong in a call on the ring engine.
#[derive(Debug, Clone, PartialEq, Eq)]
pub enum RingError {
    /// An operation was attempted before the ring was entered or after it was exited.
    NotInitialized,
    /// The submission queue had no room for another entry.
    SubmissionQueueFull,
    /// Setting up the kernel ring failed; carries the kernel's message.
    KernelSetupFailed(String),
    /// Handing the submission queue to the kernel failed; carries the kernel's message.
    KernelSubmitFailed(String),
    /// Waiting for a completion failed; carries the kernel's message.
    KernelWaitFailed(String),
    /// A wait returned but the completion queue held nothing.
    NoCompletionAfterWait,
    /// A path held an embedded null byte.
    InvalidPath,
    /// A textual IP address did not parse.
    InvalidAddress,
}

} // verus!
