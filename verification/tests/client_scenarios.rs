//! End-to-end scenarios over the client facade.

use agentlink_core::client::Client;
use agentlink_core::conn::{ConnState, ReconnectPolicy};
use agentlink_core::dispatch::Event;
use agentlink_core::errors::{CallError, ConnError, RouteError, SendError};

fn policy() -> ReconnectPolicy {
    ReconnectPolicy {
        max_retries: 3,
        base_delay_ms: 100,
        max_delay_ms: 3_000,
        max_payload: 1_024,
    }
}

fn connected_client() -> Client {
    let mut c = Client::new(policy());
    c.conn.begin_connect().unwrap();
    c.conn.handshake_ok();
    c
}

fn event(tag: &str, correlation_id: Option<u64>) -> Event {
    Event {
        tag: String::from(tag),
        payload: String::from("{}"),
        timestamp: 0,
        correlation_id,
    }
}

#[test]
fn subscribed_handler_fires_once_for_exact_topic() {
    let mut c = connected_client();
    let handle = c.subscribe(String::from("conversations/42/messages"), 1);
    c.on(String::from("message.received"), 1);
    let d = c
        .handle_inbound("conversations/42/messages", &event("message.received", None))
        .unwrap();
    assert_eq!(d.deliveries.len(), 1);
    assert_eq!(d.deliveries[0].handle, handle);
    assert_eq!(d.deliveries[0].handler, 1);
    assert_eq!(d.scheduled, vec![1]);
    assert!(!d.resolved);
}

#[test]
fn frame_on_another_topic_reaches_no_subscription() {
    let mut c = connected_client();
    c.subscribe(String::from("conversations/42/messages"), 1);
    let d = c
        .handle_inbound("conversations/43/messages", &event("message.received", None))
        .unwrap();
    assert!(d.deliveries.is_empty());
}

#[test]
fn call_with_no_reply_times_out_and_leaves_no_pending_call() {
    let mut c = connected_client();
    let (id, msg) = c
        .call_open(String::from("users/me"), String::from("{}"), 0, 2_000)
        .unwrap();
    assert_eq!(msg.correlation_id, Some(id));
    // No reply arrives within two seconds: the deadline resolves the call.
    assert!(c.poll_timeouts(1_999).is_empty());
    assert_eq!(c.poll_timeouts(2_000), vec![id]);
    // The registry no longer holds the id: a late reply resolves nothing.
    let d = c.handle_inbound("users/me", &event("reply", Some(id))).unwrap();
    assert!(!d.resolved);
}

#[test]
fn transport_drop_resolves_call_and_fresh_connect_does_not_revive_it() {
    let mut c = connected_client();
    let (id, _) = c
        .call_open(String::from("users/me"), String::from("{}"), 0, 60_000)
        .unwrap();
    // Mid-flight the transport drops: the call resolves with the loss.
    let lost = c.transport_dropped(ConnError::Unreachable);
    assert_eq!(lost, vec![id]);
    assert_eq!(c.conn.state, ConnState::Reconnecting);
    // The link comes back; the old call stays resolved.
    assert!(c.conn.retry_ok());
    assert_eq!(c.conn.state, ConnState::Connected);
    let d = c.handle_inbound("users/me", &event("reply", Some(id))).unwrap();
    assert!(!d.resolved);
}

#[test]
fn concurrent_calls_resolve_independently() {
    let mut c = connected_client();
    let (id1, _) = c
        .call_open(String::from("users/me"), String::from("{}"), 0, 2_000)
        .unwrap();
    let (id2, _) = c
        .call_open(String::from("friends/list"), String::from("{}"), 0, 2_000)
        .unwrap();
    assert_ne!(id1, id2);
    // The reply for the second call does not cross-deliver to the first.
    let d2 = c.handle_inbound("friends/list", &event("reply", Some(id2))).unwrap();
    assert!(d2.resolved);
    let d1 = c.handle_inbound("users/me", &event("reply", Some(id1))).unwrap();
    assert!(d1.resolved);
    // Both are now spent.
    let again = c.handle_inbound("users/me", &event("reply", Some(id1))).unwrap();
    assert!(!again.resolved);
}

#[test]
fn correlated_reply_still_reaches_tag_handlers() {
    let mut c = connected_client();
    c.on(String::from("reply"), 9);
    let (id, _) = c
        .call_open(String::from("users/me"), String::from("{}"), 0, 2_000)
        .unwrap();
    let d = c.handle_inbound("users/me", &event("reply", Some(id))).unwrap();
    assert!(d.resolved);
    assert_eq!(d.scheduled, vec![9]);
}

#[test]
fn call_refused_while_not_connected() {
    let mut c = Client::new(policy());
    let r = c.call_open(String::from("users/me"), String::from("{}"), 0, 2_000);
    assert!(matches!(r, Err(SendError::NotConnected)));
}

#[test]
fn send_builds_uncorrelated_message_when_connected() {
    let c = connected_client();
    let msg = c
        .send(String::from("conversations/42/messages"), String::from("hi"))
        .unwrap();
    assert_eq!(msg.topic, "conversations/42/messages");
    assert_eq!(msg.payload, "hi");
    assert_eq!(msg.correlation_id, None);
}

#[test]
fn send_refused_while_reconnecting_is_retryable() {
    let mut c = connected_client();
    c.transport_dropped(ConnError::Unreachable);
    let r = c.send(String::from("t"), String::from("p"));
    assert!(matches!(r, Err(SendError::Reconnecting)));
}

#[test]
fn event_without_tag_is_dropped_as_malformed() {
    let mut c = connected_client();
    let (id, _) = c
        .call_open(String::from("users/me"), String::from("{}"), 0, 2_000)
        .unwrap();
    let r = c.handle_inbound("users/me", &event("", Some(id)));
    assert_eq!(r.err(), Some(RouteError::EmptyTag));
    // The malformed frame resolved nothing: the call is still pending.
    let d = c.handle_inbound("users/me", &event("reply", Some(id))).unwrap();
    assert!(d.resolved);
}

#[test]
fn disconnect_cancels_calls_and_drops_subscriptions() {
    let mut c = connected_client();
    c.subscribe(String::from("a/#"), 1);
    let (id, _) = c
        .call_open(String::from("users/me"), String::from("{}"), 0, 60_000)
        .unwrap();
    let cancelled = c.disconnect();
    assert_eq!(cancelled, vec![id]);
    assert_eq!(c.conn.state, ConnState::Closed);
    let d = c.handle_inbound("a/x", &event("message.received", None)).unwrap();
    assert!(d.deliveries.is_empty());
}

#[test]
fn unsubscribe_through_facade_is_idempotent() {
    let mut c = connected_client();
    let h = c.subscribe(String::from("a/#"), 1);
    assert!(c.unsubscribe(h));
    assert!(!c.unsubscribe(h));
    let d = c.handle_inbound("a/x", &event("t", None)).unwrap();
    assert!(d.deliveries.is_empty());
}

#[test]
fn call_errors_carry_their_cause() {
    // The reason a call died is a value the caller can branch on.
    let causes = [
        CallError::Timeout,
        CallError::ConnectionLost,
        CallError::Rejected(403),
    ];
    for c in causes {
        match c {
            CallError::Timeout => assert_eq!(c, CallError::Timeout),
            CallError::ConnectionLost => assert_eq!(c, CallError::ConnectionLost),
            CallError::Rejected(code) => assert_eq!(code, 403),
        }
    }
}
