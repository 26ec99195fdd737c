//! The wildcard matrix of segment-wise topic matching, and path splitting.

use agentlink_core::topic::{matches_topic, split_on, split_path};

#[test]
fn split_simple_path() {
    let segs = split_path("conversations/42/messages");
    assert_eq!(segs, vec!["conversations", "42", "messages"]);
}

#[test]
fn split_empty_string_is_one_empty_segment() {
    assert_eq!(split_path(""), vec![""]);
}

#[test]
fn split_keeps_empty_segments() {
    assert_eq!(split_path("/a"), vec!["", "a"]);
    assert_eq!(split_path("a/"), vec!["a", ""]);
    assert_eq!(split_path("a//b"), vec!["a", "", "b"]);
}

#[test]
fn split_on_commas() {
    assert_eq!(split_on("a,b,c", ','), vec!["a", "b", "c"]);
}

#[test]
fn exact_segments_match() {
    assert!(matches_topic(
        "conversations/42/messages",
        "conversations/42/messages"
    ));
}

#[test]
fn exact_segments_differ() {
    assert!(!matches_topic(
        "conversations/42/messages",
        "conversations/43/messages"
    ));
}

#[test]
fn shorter_topic_does_not_match() {
    assert!(!matches_topic("conversations/42/messages", "conversations/42"));
}

#[test]
fn longer_topic_does_not_match() {
    assert!(!matches_topic(
        "conversations/42",
        "conversations/42/messages"
    ));
}

#[test]
fn single_wildcard_matches_exactly_one_segment() {
    assert!(matches_topic("conversations/+/messages", "conversations/42/messages"));
    assert!(matches_topic("conversations/+/messages", "conversations/7/messages"));
    assert!(!matches_topic("conversations/+/messages", "conversations/messages"));
    assert!(!matches_topic(
        "conversations/+/messages",
        "conversations/42/7/messages"
    ));
}

#[test]
fn single_wildcard_in_every_position() {
    assert!(matches_topic("+/42/messages", "conversations/42/messages"));
    assert!(matches_topic("conversations/42/+", "conversations/42/messages"));
    assert!(matches_topic("+/+/+", "conversations/42/messages"));
    assert!(!matches_topic("+/+", "conversations/42/messages"));
}

#[test]
fn multi_wildcard_matches_any_remainder() {
    assert!(matches_topic("conversations/#", "conversations/42/messages"));
    assert!(matches_topic("conversations/#", "conversations/42"));
    assert!(matches_topic("#", "conversations/42/messages"));
    assert!(matches_topic("#", ""));
}

#[test]
fn multi_wildcard_matches_empty_remainder() {
    assert!(matches_topic("conversations/#", "conversations"));
}

#[test]
fn multi_wildcard_must_be_last() {
    assert!(!matches_topic("#/messages", "conversations/42/messages"));
}

#[test]
fn wildcard_segments_are_not_substrings() {
    assert!(!matches_topic("conversations+", "conversations"));
    assert!(!matches_topic("conv+", "conversations"));
}

#[test]
fn empty_pattern_matches_only_empty_topic() {
    assert!(matches_topic("", ""));
    assert!(!matches_topic("", "a"));
}
