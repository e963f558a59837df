//! The wasm value kinds a guest function can declare, and the typed
//! values the host marshals across the guest boundary.
//!
//! Float-kind values are carried as their raw IEEE bit patterns; the
//! host never computes on them, it only moves them between the textual
//! surface and the engine.

use vstd::prelude::*;

verus! {

/// The kind of one wasm value: the tag of a declared parameter or
/// result slot of an exported function.
#[derive(Clone, Copy, Debug, PartialEq, Eq, Structural)]
pub enum ValKind {
    I32,
    I64,
    F32,
    F64,
    ExternRef,
    FuncRef,
    V128,
}

/// One typed wasm value. Integers are carried as themselves; the two
/// float kinds are carried as their bit patterns; the two reference
/// kinds are opaque to the host and carry no payload here; a 128-bit
/// vector is carried as its unsigned integer value.
#[derive(Clone, Copy, Debug, PartialEq, Eq, Structural)]
pub enum TypedValue {
    I32(i32),
    I64(i64),
    F32(u32),
    F64(u64),
    ExternRef,
    FuncRef,
    V128(u128),
}

/// The kind a typed value belongs to.
pub open spec fn spec_kind_of(v: TypedValue) -> ValKind {
    match v {
        TypedValue::I32(_) => ValKind::I32,
        TypedValue::I64(_) => ValKind::I64,
        TypedValue::F32(_) => ValKind::F32,
        TypedValue::F64(_) => ValKind::F64,
        TypedValue::ExternRef => ValKind::ExternRef,
        TypedValue::FuncRef => ValKind::FuncRef,
        TypedValue::V128(_) => ValKind::V128,
    }
}

/// Whether a declared parameter kind is accepted for textual
/// invocation from the command line.
pub open spec fn spec_cli_supported(k: ValKind) -> bool {
    match k {
        ValKind::I32 => true,
        ValKind::I64 => true,
        ValKind::F32 => true,
        ValKind::F64 => true,
        ValKind::ExternRef => false,
        ValKind::FuncRef => false,
        ValKind::V128 => false,
    }
}

} // verus!
