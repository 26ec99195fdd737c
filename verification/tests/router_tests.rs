//! Routing: deliveries per matching subscription, and idempotent removal.

use agentlink_core::router::TopicRouter;

#[test]
fn route_delivers_to_matching_subscription() {
    let mut r = TopicRouter::new();
    let h = r.subscribe(String::from("conversations/+/messages"), 1);
    let out = r.route("conversations/42/messages");
    assert_eq!(out.len(), 1);
    assert_eq!(out[0].handle, h);
    assert_eq!(out[0].handler, 1);
}

#[test]
fn route_skips_non_matching_subscription() {
    let mut r = TopicRouter::new();
    r.subscribe(String::from("friends/#"), 1);
    let out = r.route("conversations/42/messages");
    assert!(out.is_empty());
}

#[test]
fn unmatched_topic_is_dropped_silently() {
    let r = TopicRouter::new();
    assert!(r.route("anything/at/all").is_empty());
}

#[test]
fn route_preserves_registration_order() {
    let mut r = TopicRouter::new();
    let h1 = r.subscribe(String::from("a/#"), 10);
    let h2 = r.subscribe(String::from("a/+"), 20);
    let h3 = r.subscribe(String::from("b/#"), 30);
    let out = r.route("a/x");
    assert_eq!(out.len(), 2);
    assert_eq!((out[0].handle, out[0].handler), (h1, 10));
    assert_eq!((out[1].handle, out[1].handler), (h2, 20));
    let _ = h3;
}

#[test]
fn same_handler_under_two_patterns_gets_two_deliveries() {
    let mut r = TopicRouter::new();
    let h1 = r.subscribe(String::from("a/#"), 7);
    let h2 = r.subscribe(String::from("a/b"), 7);
    let out = r.route("a/b");
    assert_eq!(out.len(), 2);
    assert_eq!(out[0].handle, h1);
    assert_eq!(out[1].handle, h2);
    assert_eq!(out[0].handler, 7);
    assert_eq!(out[1].handler, 7);
}

#[test]
fn handles_are_fresh_per_subscription() {
    let mut r = TopicRouter::new();
    let h1 = r.subscribe(String::from("a"), 1);
    let h2 = r.subscribe(String::from("a"), 1);
    assert_ne!(h1, h2);
}

#[test]
fn unsubscribe_removes_only_named_registration() {
    let mut r = TopicRouter::new();
    let h1 = r.subscribe(String::from("a/#"), 1);
    let h2 = r.subscribe(String::from("a/#"), 2);
    assert!(r.unsubscribe(h1));
    let out = r.route("a/x");
    assert_eq!(out.len(), 1);
    assert_eq!(out[0].handle, h2);
}

#[test]
fn unsubscribe_twice_is_a_noop_not_an_error() {
    let mut r = TopicRouter::new();
    let h = r.subscribe(String::from("a/#"), 1);
    let keep = r.subscribe(String::from("a/+"), 2);
    assert!(r.unsubscribe(h));
    assert!(!r.unsubscribe(h));
    let out = r.route("a/x");
    assert_eq!(out.len(), 1);
    assert_eq!(out[0].handle, keep);
}

#[test]
fn unsubscribe_unknown_handle_reports_false() {
    let mut r = TopicRouter::new();
    assert!(!r.unsubscribe(99));
}
