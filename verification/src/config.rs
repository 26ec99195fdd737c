//! Client configuration handed down from the command-line surface.
//!
//! The surrounding program gathers flags and environment values and hands
//! them over as plain data; everything here is decided from those values
//! alone.

use vstd::prelude::*;

use crate::errors::ConfigError;

verus! {

/// How results are rendered for the terminal.
#[derive(Debug, Clone, Copy, PartialEq, Eq, Structural)]
pub enum OutputFormat {
    Text,
    Json,
}

/// Configuration for one process invocation.
pub struct CliConfig {
    pub api_key: Option<String>,
    pub api_url: String,
    pub format: OutputFormat,
    pub verbose: bool,
}

impl CliConfig {
    /// Build the configuration from what the flags and the environment
    /// offered: a flag beats the environment for the key and the URL,
    /// and a URL found in neither place falls back to the default.
    pub fn resolve(
        key_flag: Option<String>,
        key_env: Option<String>,
        url_flag: Option<String>,
        url_env: Option<String>,
        default_url: String,
        format: &str,
        verbose: bool,
    ) -> (r: CliConfig)
        ensures
            r.api_key == (if key_flag is Some {
                key_flag
            } else {
                key_env
            }),
            r.api_url@ == (if url_flag is Some {
                url_flag->0@
            } else if url_env is Some {
                url_env->0@
            } else {
                default_url@
            }),
            r.format == (if format@ == "json"@ {
                OutputFormat::Json
            } else {
                OutputFormat::Text
            }),
            r.verbose == verbose,
    {
        let api_key = match key_flag {
            Some(k) => Some(k),
            None => key_env,
        };
        let api_url = match url_flag {
            Some(u) => u,
            None => match url_env {
                Some(u) => u,
                None => default_url,
            },
        };
        CliConfig { api_key, api_url, format: parse_format(format), verbose }
    }

    /// Check if an API key is set.
    pub fn has_api_key(&self) -> (r: bool)
        ensures
            r == self.api_key is Some,
    {
        self.api_key.is_some()
    }

    /// Get the API key, or the error that asks the user to supply one.
    pub fn require_api_key(&self) -> (r: Result<&str, ConfigError>)
        ensures
            self.api_key is Some <==> r is Ok,
            r is Ok ==> r->Ok_0@ == self.api_key->0@,
            r is Err ==> r->Err_0 == ConfigError::MissingApiKey,
    {
        match &self.api_key {
            Some(k) => Ok(k.as_str()),
            None => Err(ConfigError::MissingApiKey),
        }
    }
}

/// Select the output format named by a flag value; anything but the JSON
/// name falls back to plain text, as the flag's default does.
pub fn parse_format(s: &str) -> (r: OutputFormat)
    ensures
        r == (if s@ == "json"@ {
            OutputFormat::Json
        } else {
            OutputFormat::Text
        }),
{
    if crate::text::str_eq(s, "json") {
        OutputFormat::Json
    } else {
        OutputFormat::Text
    }
}

} // verus!
