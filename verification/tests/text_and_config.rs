//! String helpers, configuration resolution, and interactive-line parsing.

use agentlink_core::config::{CliConfig, OutputFormat};
use agentlink_core::errors::ConfigError;
use agentlink_core::repl::{parse_chat_input, wants_exit, ChatInput};
use agentlink_core::text::{shorten_id, split_ids, str_eq, trim, truncate};

#[test]
fn truncate_keeps_short_strings() {
    assert_eq!(truncate("hello", 50), "hello");
    assert_eq!(truncate("hello", 5), "hello");
    assert_eq!(truncate("", 5), "");
}

#[test]
fn truncate_cuts_with_ellipsis_within_the_limit() {
    assert_eq!(truncate("hello world", 8), "hello...");
    assert_eq!(truncate("abcdefgh", 4), "a...");
}

#[test]
fn shorten_id_keeps_first_eight_characters() {
    assert_eq!(shorten_id("0123456789abcdef"), "01234567");
    assert_eq!(shorten_id("abc"), "abc");
    assert_eq!(shorten_id(""), "");
}

#[test]
fn trim_strips_both_ends() {
    assert_eq!(trim("  hello \t"), "hello");
    assert_eq!(trim("\r\nx\r\n"), "x");
    assert_eq!(trim("   "), "");
    assert_eq!(trim("a b"), "a b");
}

#[test]
fn split_ids_trims_each_entry() {
    assert_eq!(split_ids("u1, u2 ,u3"), vec!["u1", "u2", "u3"]);
    assert_eq!(split_ids("solo"), vec!["solo"]);
    assert_eq!(split_ids("a,,b"), vec!["a", "", "b"]);
}

#[test]
fn str_eq_compares_contents() {
    assert!(str_eq("abc", "abc"));
    assert!(!str_eq("abc", "abd"));
    assert!(!str_eq("abc", "ab"));
}

#[test]
fn config_prefers_flag_over_environment() {
    let c = CliConfig::resolve(
        Some(String::from("flag-key")),
        Some(String::from("env-key")),
        Some(String::from("https://flag.example")),
        Some(String::from("https://env.example")),
        String::from("https://default.example"),
        "text",
        false,
    );
    assert_eq!(c.api_key.as_deref(), Some("flag-key"));
    assert_eq!(c.api_url, "https://flag.example");
    assert_eq!(c.format, OutputFormat::Text);
    assert!(!c.verbose);
}

#[test]
fn config_falls_back_to_environment_then_default() {
    let c = CliConfig::resolve(
        None,
        Some(String::from("env-key")),
        None,
        None,
        String::from("https://default.example"),
        "json",
        true,
    );
    assert_eq!(c.api_key.as_deref(), Some("env-key"));
    assert_eq!(c.api_url, "https://default.example");
    assert_eq!(c.format, OutputFormat::Json);
    assert!(c.verbose);
}

#[test]
fn unknown_format_names_fall_back_to_text() {
    let c = CliConfig::resolve(
        None,
        None,
        None,
        None,
        String::from("u"),
        "yaml",
        false,
    );
    assert_eq!(c.format, OutputFormat::Text);
}

#[test]
fn api_key_presence_is_observable() {
    let with = CliConfig {
        api_key: Some(String::from("k")),
        api_url: String::from("u"),
        format: OutputFormat::Text,
        verbose: false,
    };
    let without = CliConfig {
        api_key: None,
        api_url: String::from("u"),
        format: OutputFormat::Text,
        verbose: false,
    };
    assert!(with.has_api_key());
    assert!(!without.has_api_key());
    assert_eq!(with.require_api_key(), Ok("k"));
    assert_eq!(without.require_api_key(), Err(ConfigError::MissingApiKey));
}

#[test]
fn chat_lines_classify_by_leading_slash() {
    assert_eq!(parse_chat_input(""), ChatInput::Empty);
    assert_eq!(parse_chat_input("/quit"), ChatInput::Quit);
    assert_eq!(parse_chat_input("/q"), ChatInput::Quit);
    assert_eq!(parse_chat_input("/list"), ChatInput::ListConversations);
    assert_eq!(parse_chat_input("/l"), ChatInput::ListConversations);
    assert_eq!(parse_chat_input("/help"), ChatInput::Help);
    assert_eq!(parse_chat_input("/h"), ChatInput::Help);
    assert_eq!(parse_chat_input("/frobnicate"), ChatInput::Unknown);
    assert_eq!(parse_chat_input("hello there"), ChatInput::Message);
    assert_eq!(parse_chat_input("quit"), ChatInput::Message);
}

#[test]
fn monitor_exit_words() {
    assert!(wants_exit("q"));
    assert!(wants_exit("quit"));
    assert!(wants_exit("exit"));
    assert!(!wants_exit(""));
    assert!(!wants_exit("quite"));
}
