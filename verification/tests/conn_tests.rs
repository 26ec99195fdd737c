//! Connection lifecycle, send admission, and backoff arithmetic.

use agentlink_core::conn::{jittered_delay, ConnState, Connection, ReconnectPolicy};
use agentlink_core::errors::{ConnError, SendError};

fn policy() -> ReconnectPolicy {
    ReconnectPolicy { max_retries: 3, base_delay_ms: 100, max_delay_ms: 3_000, max_payload: 64 }
}

#[test]
fn connect_walks_disconnected_connecting_connected() {
    let mut c = Connection::new(policy());
    assert_eq!(c.state, ConnState::Disconnected);
    assert!(c.begin_connect().is_ok());
    assert_eq!(c.state, ConnState::Connecting);
    assert!(c.handshake_ok());
    assert_eq!(c.state, ConnState::Connected);
}

#[test]
fn connect_from_wrong_state_is_refused() {
    let mut c = Connection::new(policy());
    assert!(c.begin_connect().is_ok());
    assert_eq!(c.begin_connect(), Err(ConnError::InvalidState));
    assert_eq!(c.state, ConnState::Connecting);
}

#[test]
fn handshake_failure_returns_to_disconnected() {
    let mut c = Connection::new(policy());
    assert!(c.begin_connect().is_ok());
    assert!(c.handshake_failed(ConnError::AuthRejected));
    assert_eq!(c.state, ConnState::Disconnected);
    assert_eq!(c.last_error, Some(ConnError::AuthRejected));
    // The attempt is over; a fresh connect may start.
    assert!(c.begin_connect().is_ok());
}

#[test]
fn transport_error_starts_reconnecting() {
    let mut c = Connection::new(policy());
    c.begin_connect().unwrap();
    c.handshake_ok();
    assert!(c.transport_error(ConnError::Unreachable));
    assert_eq!(c.state, ConnState::Reconnecting);
    assert_eq!(c.retries, 0);
}

#[test]
fn retries_count_up_then_close() {
    let mut c = Connection::new(policy());
    c.begin_connect().unwrap();
    c.handshake_ok();
    c.transport_error(ConnError::Unreachable);
    assert!(c.retry_failed(ConnError::Unreachable));
    assert_eq!((c.state, c.retries), (ConnState::Reconnecting, 1));
    assert!(c.retry_failed(ConnError::Unreachable));
    assert!(c.retry_failed(ConnError::Unreachable));
    assert_eq!((c.state, c.retries), (ConnState::Reconnecting, 3));
    // The attempts are spent: the next failure closes for good.
    assert!(c.retry_failed(ConnError::Unreachable));
    assert_eq!(c.state, ConnState::Closed);
}

#[test]
fn successful_retry_restores_the_link() {
    let mut c = Connection::new(policy());
    c.begin_connect().unwrap();
    c.handshake_ok();
    c.transport_error(ConnError::Unreachable);
    c.retry_failed(ConnError::Unreachable);
    assert!(c.retry_ok());
    assert_eq!((c.state, c.retries), (ConnState::Connected, 0));
    assert_eq!(c.last_error, None);
}

#[test]
fn send_admitted_only_when_connected() {
    let mut c = Connection::new(policy());
    assert_eq!(c.send_check(10), Err(SendError::NotConnected));
    c.begin_connect().unwrap();
    assert_eq!(c.send_check(10), Err(SendError::NotConnected));
    c.handshake_ok();
    assert_eq!(c.send_check(10), Ok(()));
}

#[test]
fn oversized_payload_is_refused() {
    let mut c = Connection::new(policy());
    c.begin_connect().unwrap();
    c.handshake_ok();
    assert_eq!(c.send_check(64), Ok(()));
    assert_eq!(c.send_check(65), Err(SendError::PayloadTooLarge));
}

#[test]
fn reconnecting_fails_sends_fast_with_retryable_error() {
    let mut c = Connection::new(policy());
    c.begin_connect().unwrap();
    c.handshake_ok();
    c.transport_error(ConnError::Unreachable);
    assert_eq!(c.send_check(1), Err(SendError::Reconnecting));
}

#[test]
fn backoff_doubles_up_to_the_cap() {
    let mut c = Connection::new(policy());
    c.begin_connect().unwrap();
    c.handshake_ok();
    c.transport_error(ConnError::Unreachable);
    assert_eq!(c.backoff_delay(), 100);
    c.retry_failed(ConnError::Unreachable);
    assert_eq!(c.backoff_delay(), 200);
    c.retry_failed(ConnError::Unreachable);
    assert_eq!(c.backoff_delay(), 400);
    c.retry_failed(ConnError::Unreachable);
    assert_eq!(c.backoff_delay(), 800);
}

#[test]
fn backoff_is_capped() {
    let mut c = Connection::new(ReconnectPolicy {
        max_retries: 10,
        base_delay_ms: 100,
        max_delay_ms: 3_000,
        max_payload: 64,
    });
    c.begin_connect().unwrap();
    c.handshake_ok();
    c.transport_error(ConnError::Unreachable);
    for _ in 0..6 {
        c.retry_failed(ConnError::Unreachable);
    }
    // Unbounded doubling would give 6_400 here; the policy caps it.
    assert_eq!(c.backoff_delay(), 3_000);
}

#[test]
fn jitter_keeps_at_least_half_the_delay() {
    for entropy in [0_u64, 1, 2, 99, 1_000, u64::MAX] {
        let d = jittered_delay(1_000, entropy);
        assert!((500..=1_000).contains(&d));
    }
    assert_eq!(jittered_delay(1_000, 0), 1_000);
    assert_eq!(jittered_delay(1_000, 500), 500);
}

#[test]
fn close_is_terminal() {
    let mut c = Connection::new(policy());
    c.close();
    assert_eq!(c.state, ConnState::Closed);
    assert_eq!(c.begin_connect(), Err(ConnError::InvalidState));
    assert_eq!(c.state, ConnState::Closed);
}
