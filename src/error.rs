use vstd::prelude::*;

verus! {

/// The failures that channel operations report to their caller.
///
/// Errors that come from the operating system carry the logical channel name
/// and the system's own message, so that a failure can be diagnosed from the
/// value alone.
#[derive(Debug)]
pub enum VenomError {
    /// The shared object could not be created.
    ShmCreate { name: String, reason: String },
    /// The shared object could not be opened.
    ShmOpen { name: String, reason: String },
    /// The shared object could not be mapped.
    Mmap(String),
    /// The shared object could not be given its size.
    Truncate(String),
    /// The region does not start with the channel sentinel.
    InvalidMagic { expected: u32, got: u32 },
    /// The region was laid out by another layout version.
    VersionMismatch { expected: u32, got: u32 },
    /// A caller's buffer is smaller than the operation needs.
    BufferOverflow { max: usize, got: usize },
    /// Every command slot was occupied at the moment of the claim.
    QueueFull,
    /// No command was ready to be consumed.
    QueueEmpty,
    /// A client id that no shell holds.
    InvalidClientId(u32),
    /// The namespace does not fit the shared-object name limit once prefixed.
    NamespaceTooLong { max: usize, got: usize },
}

} // verus!
