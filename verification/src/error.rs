//! Error numbers that the library reports to its callers.

use vstd::prelude::*;

verus! {

/// The error numbers that the library itself raises or interprets. The C boundary turns
/// each one into the platform's value.
#[derive(Clone, Copy, Debug, PartialEq, Eq, Structural)]
pub enum Errno {
    /// Malformed or inconsistent arguments.
    Inval,
    /// A non-empty output buffer is too small.
    Range,
    /// Memory is exhausted.
    NoMem,
    /// The access was denied.
    Acces,
    /// A user pointer could not be followed.
    Fault,
    /// The operation would block, or the value changed before it.
    Again,
    /// A signal arrived first.
    Intr,
    /// The time ran out.
    TimedOut,
    /// Any other error number, passed through from the kernel.
    Other(i32),
}

/// How a request to the access-control core can fail, as far as its error number tells
/// the cases apart.
#[derive(Clone, Copy, Debug, PartialEq, Eq, Structural)]
pub enum KacsFailure {
    AllocationFailure,
    AccessDenied,
    UserMemoryFault,
    /// Everything structural: malformed, truncated or inconsistent input.
    Invalid,
}

/// The error number of a failure of the access-control core.
pub fn errno_for(failure: KacsFailure) -> (errno: Errno)
    ensures
        errno == (match failure {
            KacsFailure::AllocationFailure => Errno::NoMem,
            KacsFailure::AccessDenied => Errno::Acces,
            KacsFailure::UserMemoryFault => Errno::Fault,
            KacsFailure::Invalid => Errno::Inval,
        }),
{
    match failure {
        KacsFailure::AllocationFailure => Errno::NoMem,
        KacsFailure::AccessDenied => Errno::Acces,
        KacsFailure::UserMemoryFault => Errno::Fault,
        KacsFailure::Invalid => Errno::Inval,
    }
}

} // verus!
