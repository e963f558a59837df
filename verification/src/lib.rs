//! A host harness for running one exported function of a compiled
//! WebAssembly module under a restricted system interface.
//!
//! The crate holds the host's decision logic: coercing textual arguments
//! into typed wasm values, rendering typed results, parsing environment
//! variable bindings, the outbound-network allow-list and concurrency
//! policies, the fuel-metered cooperative-yield policy, a typed import
//! registry, and the invocation state machine. An embedding binary drives
//! the actual engine with these decisions.

pub mod values;
pub mod errors;
pub mod numtext;
pub mod coerce;
pub mod render;
pub mod envvar;
pub mod policy;
pub mod fuel;
pub mod linker;
pub mod driver;
