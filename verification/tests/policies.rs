//! The outbound-network policies: the allow-list and the concurrency
//! limiter, on concrete configurations.

use wasmtime_http::errors::HostError;
use wasmtime_http::policy::{outbound_permitted, screen_request, ConcurrencyLimiter};

fn allow(hosts: &[&str]) -> Option<Vec<String>> {
    Some(hosts.iter().map(|h| h.to_string()).collect())
}

#[test]
fn no_allow_list_denies_every_destination() {
    let dest = "https://postman-echo.com".to_string();
    assert!(!outbound_permitted(&None, &dest));
    assert_eq!(screen_request(&None, &dest), Err(HostError::CapabilityRuntimeError));
}

#[test]
fn empty_allow_list_denies_every_destination() {
    // An explicitly empty allow-list behaves like none at all.
    let dest = "https://postman-echo.com".to_string();
    assert!(!outbound_permitted(&allow(&[]), &dest));
    assert_eq!(screen_request(&allow(&[]), &dest), Err(HostError::CapabilityRuntimeError));
}

#[test]
fn listed_destination_is_permitted() {
    let list = allow(&["https://api.brigade.sh", "https://postman-echo.com"]);
    let dest = "https://postman-echo.com".to_string();
    assert!(outbound_permitted(&list, &dest));
    assert_eq!(screen_request(&list, &dest), Ok(()));
}

#[test]
fn unlisted_destination_is_denied() {
    let list = allow(&["https://api.brigade.sh"]);
    let dest = "https://postman-echo.com".to_string();
    assert!(!outbound_permitted(&list, &dest));
    assert_eq!(screen_request(&list, &dest), Err(HostError::CapabilityRuntimeError));
}

#[test]
fn concurrency_limit_is_never_exceeded() {
    // Bound two, three simultaneous attempts: the third must wait.
    let mut l = ConcurrencyLimiter::new(Some(2));
    assert!(l.try_acquire());
    assert!(l.try_acquire());
    assert!(!l.try_acquire());
    assert_eq!(l.in_flight, 2);
    l.release();
    assert!(l.try_acquire());
    assert_eq!(l.in_flight, 2);
    l.release();
    l.release();
    assert_eq!(l.in_flight, 0);
}

#[test]
fn zero_concurrency_blocks_every_request() {
    let mut l = ConcurrencyLimiter::new(Some(0));
    assert!(!l.try_acquire());
    assert_eq!(l.in_flight, 0);
}

#[test]
fn absent_concurrency_limit_is_unbounded() {
    let mut l = ConcurrencyLimiter::new(None);
    for expected in 1..=100u64 {
        assert!(l.try_acquire());
        assert_eq!(l.in_flight, expected);
    }
}
