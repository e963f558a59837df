//! The invocation driver: the end-to-end sequence from an
//! uninstantiated module to one completed or failed call.
//!
//! Every failure is terminal for the current invocation; nothing is
//! retried. Guest code runs only in the executing phase, which is
//! reachable solely through successful argument coercion, and a fuel
//! yield suspends without leaving it.

use vstd::prelude::*;
use crate::values::{ValKind, TypedValue};
use crate::errors::HostError;
use crate::coerce::{coerce_args, spec_coerce_args};
use crate::linker::FuncSig;

verus! {

/// Where one invocation stands.
#[derive(Clone, Copy, Debug, PartialEq, Eq, Structural)]
pub enum Phase {
    Uninstantiated,
    Linked,
    Instantiated,
    Resolved,
    Executing,
    Completed,
    Failed,
}

/// What the embedder reports back to the driver.
#[derive(Clone, Copy, Debug, PartialEq, Eq, Structural)]
pub enum DriverEvent {
    /// The capability linker finished its setup, including the
    /// asynchronous network-capability initialization.
    CapabilitiesLinked,
    /// That initialization failed; instantiation is aborted.
    CapabilityInitFailed,
    /// The module's imports were satisfied from the linker namespace.
    ModuleInstantiated,
    /// A required import was missing or the module was malformed.
    InstantiationFailed,
    /// The named export was found.
    ExportResolved,
    /// The named export is absent.
    ExportMissing,
    /// The argument tokens coerced to typed values.
    ArgumentsCoerced,
    /// The argument tokens were rejected before any guest code ran.
    ArgumentsRejected,
    /// The fuel meter forced a yield; the call is suspended, refuelled
    /// and resumed, not terminated.
    FuelExhausted,
    /// The call ran to completion.
    CallSucceeded,
    /// A guest-level runtime fault aborted the call.
    CallTrapped,
    /// The network capability failed the call at run time.
    CapabilityFailed,
}

/// Whether a phase ends the invocation.
pub open spec fn spec_terminal(p: Phase) -> bool {
    p == Phase::Completed || p == Phase::Failed
}

/// The transition relation of one invocation. An event that does not
/// belong to the current phase changes nothing; in particular the two
/// terminal phases absorb every event: no failure is retried.
pub open spec fn spec_step(p: Phase, e: DriverEvent) -> Phase {
    match (p, e) {
        (Phase::Uninstantiated, DriverEvent::CapabilitiesLinked) => Phase::Linked,
        (Phase::Uninstantiated, DriverEvent::CapabilityInitFailed) => Phase::Failed,
        (Phase::Linked, DriverEvent::ModuleInstantiated) => Phase::Instantiated,
        (Phase::Linked, DriverEvent::InstantiationFailed) => Phase::Failed,
        (Phase::Instantiated, DriverEvent::ExportResolved) => Phase::Resolved,
        (Phase::Instantiated, DriverEvent::ExportMissing) => Phase::Failed,
        (Phase::Resolved, DriverEvent::ArgumentsCoerced) => Phase::Executing,
        (Phase::Resolved, DriverEvent::ArgumentsRejected) => Phase::Failed,
        (Phase::Executing, DriverEvent::FuelExhausted) => Phase::Executing,
        (Phase::Executing, DriverEvent::CallSucceeded) => Phase::Completed,
        (Phase::Executing, DriverEvent::CallTrapped) => Phase::Failed,
        (Phase::Executing, DriverEvent::CapabilityFailed) => Phase::Failed,
        _ => p,
    }
}

/// A terminal phase absorbs every event: every failure (and every
/// completion) is final, with no retry anywhere in the pipeline.
pub proof fn lemma_terminal_absorbs(p: Phase, e: DriverEvent)
    requires
        spec_terminal(p),
    ensures
        spec_step(p, e) == p,
{
}

/// Guest code runs only in the executing phase, and that phase is
/// entered solely by successful argument coercion from the resolved
/// phase: a rejected argument list fails the invocation before any
/// guest code runs.
pub proof fn lemma_execution_needs_coerced_arguments(p: Phase, e: DriverEvent)
    requires
        p != Phase::Executing,
        spec_step(p, e) == Phase::Executing,
    ensures
        p == Phase::Resolved && e == DriverEvent::ArgumentsCoerced,
{
}

/// One invocation being driven from setup to its end.
pub struct Driver {
    pub phase: Phase,
}

impl Driver {
    /// A fresh invocation: nothing linked yet.
    pub fn new() -> (d: Driver)
        ensures
            d.phase == Phase::Uninstantiated,
    {
        Driver { phase: Phase::Uninstantiated }
    }

    /// Applies one reported event to the invocation.
    pub fn step(&mut self, e: DriverEvent)
        ensures
            final(self).phase == spec_step(old(self).phase, e),
    {
        let next = match (self.phase, e) {
            (Phase::Uninstantiated, DriverEvent::CapabilitiesLinked) => Phase::Linked,
            (Phase::Uninstantiated, DriverEvent::CapabilityInitFailed) => Phase::Failed,
            (Phase::Linked, DriverEvent::ModuleInstantiated) => Phase::Instantiated,
            (Phase::Linked, DriverEvent::InstantiationFailed) => Phase::Failed,
            (Phase::Instantiated, DriverEvent::ExportResolved) => Phase::Resolved,
            (Phase::Instantiated, DriverEvent::ExportMissing) => Phase::Failed,
            (Phase::Resolved, DriverEvent::ArgumentsCoerced) => Phase::Executing,
            (Phase::Resolved, DriverEvent::ArgumentsRejected) => Phase::Failed,
            (Phase::Executing, DriverEvent::FuelExhausted) => Phase::Executing,
            (Phase::Executing, DriverEvent::CallSucceeded) => Phase::Completed,
            (Phase::Executing, DriverEvent::CallTrapped) => Phase::Failed,
            (Phase::Executing, DriverEvent::CapabilityFailed) => Phase::Failed,
            (p, _) => p,
        };
        self.phase = next;
    }

    /// Coerces the argument tokens against the resolved export's
    /// declared parameters and moves the invocation forward: into
    /// execution with the typed values on success, to the terminal
    /// failure with the coercion error otherwise. Guest code has not
    /// run when this fails.
    pub fn begin_call(&mut self, sig: &FuncSig, tokens: &Vec<String>) -> (r: Result<
        Vec<TypedValue>,
        HostError,
    >)
        requires
            old(self).phase == Phase::Resolved,
        ensures
            match r {
                Ok(vs) => final(self).phase == Phase::Executing && spec_coerce_args(
                    sig.params@,
                    tokens.deep_view(),
                ) == Ok::<Seq<TypedValue>, HostError>(vs@),
                Err(e) => final(self).phase == Phase::Failed && spec_coerce_args(
                    sig.params@,
                    tokens.deep_view(),
                ) == Err::<Seq<TypedValue>, HostError>(e),
            },
    {
        match coerce_args(&sig.params, tokens) {
            Ok(vs) => {
                self.step(DriverEvent::ArgumentsCoerced);
                Ok(vs)
            },
            Err(e) => {
                self.step(DriverEvent::ArgumentsRejected);
                Err(e)
            },
        }
    }
}

/// One exported entry point of an instantiated module: its name and
/// its declared signature.
pub struct FunctionHandle {
    pub name: String,
    pub sig: FuncSig,
}

/// Resolves the named export among a module's exported functions: the
/// first handle carrying the name. Absence is fatal for the
/// invocation.
pub fn resolve_export(exports: &Vec<FunctionHandle>, name: &String) -> (r: Result<
    usize,
    HostError,
>)
    ensures
        match r {
            Ok(i) => {
                &&& i < exports@.len()
                &&& exports@[i as int].name@ == name@
                &&& forall|j: int| 0 <= j < i ==> (#[trigger] exports@[j]).name@ != name@
            },
            Err(e) => {
                &&& forall|j: int| 0 <= j < exports@.len() ==> (#[trigger] exports@[j]).name@
                    != name@
                &&& e matches HostError::ExportNotFound { name: n } && n@ == name@
            },
        },
{
    let mut i: usize = 0;
    while i < exports.len()
        invariant
            i <= exports@.len(),
            forall|j: int| 0 <= j < i ==> (#[trigger] exports@[j]).name@ != name@,
        decreases exports@.len() - i,
    {
        if exports[i].name == *name {
            return Ok(i);
        }
        i = i + 1;
    }
    Err(HostError::ExportNotFound { name: name.clone() })
}

} // verus!
