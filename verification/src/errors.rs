//! The host's error taxonomy. Every error is terminal for the current
//! invocation: the harness never retries.

use vstd::prelude::*;
use crate::values::ValKind;

verus! {

/// Everything that can go wrong while setting up and driving one
/// invocation. Each failure is unrecoverable at the point it occurs and
/// propagates to the top level.
#[derive(Clone, Debug, PartialEq, Eq)]
pub enum HostError {
    /// A malformed command-line flag or argument, found before any
    /// engine setup begins.
    CliParseError,
    /// The network capability's asynchronous initialization failed.
    CapabilityInitError,
    /// A required import is missing from the linker namespace, a name
    /// was registered twice, or the module is malformed.
    LinkError { namespace: String, name: String },
    /// The named export is absent from the instantiated module.
    ExportNotFound { name: String },
    /// The argument list's length differs from the declared parameter
    /// count.
    ArgumentCountMismatch { provided: usize, required: usize },
    /// The token at this position does not parse for its declared kind.
    ArgumentParseError { position: usize, expected: ValKind },
    /// The parameter at this position has a kind that cannot be filled
    /// from a textual argument.
    UnsupportedParameterType { position: usize, kind: ValKind },
    /// A guest-level runtime fault aborted the call.
    GuestTrap,
    /// The network capability failed a guest request at run time, for a
    /// disallowed destination or an exceeded concurrency limit.
    CapabilityRuntimeError,
}

} // verus!
