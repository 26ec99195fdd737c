//! Dispatch scheduling: registration order kept, failures isolated.

use agentlink_core::dispatch::{failed_handlers, EventDispatcher};

#[test]
fn schedule_lists_handlers_in_registration_order() {
    let mut d = EventDispatcher::new();
    d.on(String::from("message.received"), 1);
    d.on(String::from("message.received"), 2);
    d.on(String::from("message.received"), 3);
    assert_eq!(d.schedule("message.received"), vec![1, 2, 3]);
}

#[test]
fn schedule_is_per_tag() {
    let mut d = EventDispatcher::new();
    d.on(String::from("message.received"), 1);
    d.on(String::from("friend.added"), 2);
    d.on(String::from("message.received"), 3);
    assert_eq!(d.schedule("message.received"), vec![1, 3]);
    assert_eq!(d.schedule("friend.added"), vec![2]);
}

#[test]
fn unknown_tag_schedules_nothing() {
    let mut d = EventDispatcher::new();
    d.on(String::from("message.received"), 1);
    assert!(d.schedule("message.deleted").is_empty());
}

#[test]
fn same_handler_may_register_twice() {
    let mut d = EventDispatcher::new();
    d.on(String::from("t"), 5);
    d.on(String::from("t"), 5);
    assert_eq!(d.schedule("t"), vec![5, 5]);
}

#[test]
fn failed_handler_does_not_cancel_siblings() {
    let mut d = EventDispatcher::new();
    d.on(String::from("t"), 1);
    d.on(String::from("t"), 2);
    d.on(String::from("t"), 3);
    let schedule = d.schedule("t");
    // The middle handler failing leaves the schedule whole; only the
    // failure itself is reported.
    let failed = failed_handlers(&schedule, &vec![true, false, true]);
    assert_eq!(schedule, vec![1, 2, 3]);
    assert_eq!(failed, vec![2]);
}

#[test]
fn all_failures_are_reported_in_order() {
    let failed = failed_handlers(&vec![4, 5, 6], &vec![false, true, false]);
    assert_eq!(failed, vec![4, 6]);
}
