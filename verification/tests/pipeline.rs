//! The fuel meter, the import registry, export resolution, environment
//! bindings, and the invocation state machine, on concrete runs.

use wasmtime_http::driver::{resolve_export, Driver, DriverEvent, FunctionHandle, Phase};
use wasmtime_http::envvar::parse_env_var;
use wasmtime_http::errors::HostError;
use wasmtime_http::fuel::{BurstOutcome, FuelMeter, INITIAL_FUEL, YIELD_INTERVAL};
use wasmtime_http::linker::{FuncSig, HostFuncEntry, Registry};
use wasmtime_http::values::{TypedValue, ValKind};

#[test]
fn env_bindings_split_at_the_first_separator() {
    assert_eq!(parse_env_var("NAME=VAL"), Ok(("NAME".to_string(), "VAL".to_string())));
    assert_eq!(parse_env_var("A=b=c"), Ok(("A".to_string(), "b=c".to_string())));
    assert_eq!(parse_env_var("=v"), Ok(("".to_string(), "v".to_string())));
    assert_eq!(parse_env_var("TRAILING="), Ok(("TRAILING".to_string(), "".to_string())));
    assert_eq!(parse_env_var("NOVALUE"), Err(HostError::CliParseError));
    assert_eq!(parse_env_var(""), Err(HostError::CliParseError));
}

#[test]
fn fuel_meter_completes_within_the_grant() {
    let mut m = FuelMeter::new(INITIAL_FUEL, YIELD_INTERVAL);
    assert_eq!(m.consume(9999), BurstOutcome::Completed);
    assert_eq!(m.remaining, 1);
    assert_eq!(m.yields, 0);
}

#[test]
fn fuel_meter_suspends_and_refills_beyond_the_grant() {
    let mut m = FuelMeter::new(5, 10);
    assert_eq!(m.consume(6), BurstOutcome::Suspended);
    assert_eq!(m.remaining, 10);
    assert_eq!(m.yields, 1);
    assert_eq!(m.consume(10), BurstOutcome::Completed);
    assert_eq!(m.remaining, 0);
}

#[test]
fn fuel_accounting_is_exact_across_yields() {
    let mut m = FuelMeter::new(5, 10);
    let yields = m.drive(27);
    // Bursts of 5, 10, 10 suspend; the last 2 units complete.
    assert_eq!(yields, 3);
    assert_eq!(m.remaining, 8);
    assert_eq!(5 + yields * 10, 27 + m.remaining);

    let mut quick = FuelMeter::new(INITIAL_FUEL, YIELD_INTERVAL);
    assert_eq!(quick.drive(10000), 0);
    assert_eq!(quick.remaining, 0);
}

fn sig(params: &[ValKind], results: &[ValKind]) -> FuncSig {
    FuncSig { params: params.to_vec(), results: results.to_vec() }
}

fn entry(namespace: &str, name: &str, params: &[ValKind], results: &[ValKind]) -> HostFuncEntry {
    HostFuncEntry {
        namespace: namespace.to_string(),
        name: name.to_string(),
        sig: sig(params, results),
    }
}

#[test]
fn registry_rejects_duplicate_registration() {
    let mut r = Registry::new();
    assert!(r.register(entry("wasi_snapshot_preview1", "fd_write", &[ValKind::I32], &[])).is_ok());
    let dup = r.register(entry("wasi_snapshot_preview1", "fd_write", &[], &[]));
    assert_eq!(
        dup,
        Err(HostError::LinkError {
            namespace: "wasi_snapshot_preview1".to_string(),
            name: "fd_write".to_string(),
        })
    );
}

#[test]
fn registry_validates_declared_imports() {
    let mut r = Registry::new();
    r.register(entry("wasi_experimental_http", "req", &[ValKind::I32, ValKind::I32], &[ValKind::I32]))
        .unwrap();
    r.register(entry("wasi_snapshot_preview1", "proc_exit", &[ValKind::I32], &[])).unwrap();

    let ok = r.validate_imports(&vec![
        entry("wasi_snapshot_preview1", "proc_exit", &[ValKind::I32], &[]),
        entry("wasi_experimental_http", "req", &[ValKind::I32, ValKind::I32], &[ValKind::I32]),
    ]);
    assert_eq!(ok, Ok(()));

    let missing = r.validate_imports(&vec![entry("env", "gone", &[], &[])]);
    assert_eq!(
        missing,
        Err(HostError::LinkError { namespace: "env".to_string(), name: "gone".to_string() })
    );

    // Present under the name, but with another signature.
    let mismatched = r.validate_imports(&vec![entry(
        "wasi_snapshot_preview1",
        "proc_exit",
        &[ValKind::I64],
        &[],
    )]);
    assert_eq!(
        mismatched,
        Err(HostError::LinkError {
            namespace: "wasi_snapshot_preview1".to_string(),
            name: "proc_exit".to_string(),
        })
    );
}

#[test]
fn export_resolution_finds_the_named_function() {
    let exports = vec![
        FunctionHandle { name: "_start".to_string(), sig: sig(&[], &[]) },
        FunctionHandle { name: "get".to_string(), sig: sig(&[], &[ValKind::I32]) },
    ];
    assert_eq!(resolve_export(&exports, &"get".to_string()), Ok(1));
    assert_eq!(resolve_export(&exports, &"_start".to_string()), Ok(0));
    assert_eq!(
        resolve_export(&exports, &"absent".to_string()),
        Err(HostError::ExportNotFound { name: "absent".to_string() })
    );
}

#[test]
fn invocation_walks_to_completion() {
    let mut d = Driver::new();
    assert_eq!(d.phase, Phase::Uninstantiated);
    d.step(DriverEvent::CapabilitiesLinked);
    assert_eq!(d.phase, Phase::Linked);
    d.step(DriverEvent::ModuleInstantiated);
    assert_eq!(d.phase, Phase::Instantiated);
    d.step(DriverEvent::ExportResolved);
    assert_eq!(d.phase, Phase::Resolved);

    let s = sig(&[ValKind::I32, ValKind::I64], &[]);
    let vals = d.begin_call(&s, &vec!["5".to_string(), "-6".to_string()]).unwrap();
    assert_eq!(vals, vec![TypedValue::I32(5), TypedValue::I64(-6)]);
    assert_eq!(d.phase, Phase::Executing);

    // A fuel yield suspends and resumes without leaving execution.
    d.step(DriverEvent::FuelExhausted);
    assert_eq!(d.phase, Phase::Executing);
    d.step(DriverEvent::CallSucceeded);
    assert_eq!(d.phase, Phase::Completed);

    // Terminal phases absorb every further event.
    d.step(DriverEvent::CallTrapped);
    assert_eq!(d.phase, Phase::Completed);
}

#[test]
fn rejected_arguments_fail_before_any_guest_code() {
    let mut d = Driver::new();
    d.step(DriverEvent::CapabilitiesLinked);
    d.step(DriverEvent::ModuleInstantiated);
    d.step(DriverEvent::ExportResolved);
    // Signature (i32, i64) with a single argument: arity mismatch.
    let s = sig(&[ValKind::I32, ValKind::I64], &[]);
    let r = d.begin_call(&s, &vec!["5".to_string()]);
    assert_eq!(r, Err(HostError::ArgumentCountMismatch { provided: 1, required: 2 }));
    assert_eq!(d.phase, Phase::Failed);
    d.step(DriverEvent::CallSucceeded);
    assert_eq!(d.phase, Phase::Failed);
}

#[test]
fn every_failure_is_terminal() {
    let mut d = Driver::new();
    d.step(DriverEvent::CapabilityInitFailed);
    assert_eq!(d.phase, Phase::Failed);

    let mut d = Driver::new();
    d.step(DriverEvent::CapabilitiesLinked);
    d.step(DriverEvent::InstantiationFailed);
    assert_eq!(d.phase, Phase::Failed);

    let mut d = Driver::new();
    d.step(DriverEvent::CapabilitiesLinked);
    d.step(DriverEvent::ModuleInstantiated);
    d.step(DriverEvent::ExportMissing);
    assert_eq!(d.phase, Phase::Failed);

    let mut d = Driver::new();
    d.step(DriverEvent::CapabilitiesLinked);
    d.step(DriverEvent::ModuleInstantiated);
    d.step(DriverEvent::ExportResolved);
    d.step(DriverEvent::ArgumentsCoerced);
    d.step(DriverEvent::CapabilityFailed);
    assert_eq!(d.phase, Phase::Failed);
    d.step(DriverEvent::ExportResolved);
    assert_eq!(d.phase, Phase::Failed);
}
