//! Reading the service's settings from their textual values: required
//! settings, settings with a default, and numeric settings.

use vstd::prelude::*;
use crate::numeral::{parse_decimal, parse_unsigned_spec};
use crate::text::{chars_of, push_str, to_string};

verus! {

/// Why a setting could not be read.
#[derive(Debug, Clone)]
pub enum ConfigError {
    /// The port is not a number from 0 to 65535.
    InvalidPort,
    /// A required setting, named here, is unset.
    Missing(String),
}

impl ConfigError {
    /// The message the service stops with.
    pub fn message(&self) -> (r: String)
        ensures
            match self {
                ConfigError::InvalidPort => r@ == "PORT must be a number"@,
                ConfigError::Missing(name) => r@ == name@ + " required"@,
            },
    {
        match self {
            ConfigError::InvalidPort => to_string("PORT must be a number"),
            ConfigError::Missing(name) => {
                let mut m = name.clone();
                push_str(&mut m, " required");
                m
            },
        }
    }
}

/// Reads a required setting: its value, or an error naming it when unset.
pub fn required_setting(name: &str, value: Option<String>) -> (r: Result<String, ConfigError>)
    ensures
        match value {
            Some(v) => r == Ok::<String, ConfigError>(v),
            None => r matches Err(ConfigError::Missing(n)) && n@ == name@,
        },
{
    match value {
        Some(v) => Ok(v),
        None => Err(ConfigError::Missing(to_string(name))),
    }
}

/// Reads a setting with a default: its value, or the default when unset.
pub fn setting_or(value: Option<String>, default: &str) -> (r: String)
    ensures
        r@ == match value {
            Some(v) => v@,
            None => default@,
        },
{
    match value {
        Some(v) => v,
        None => to_string(default),
    }
}

/// The port to listen on: the given value, or 8080 when unset; a value that
/// is not a `u16` is an error.
pub open spec fn port_spec(value: Option<Seq<char>>) -> Option<u16> {
    match value {
        Some(v) => match parse_unsigned_spec(v, u16::MAX as nat) {
            Some(p) => Some(p as u16),
            None => None,
        },
        None => Some(8080),
    }
}

/// Reads the port setting.
pub fn port_from(value: Option<&str>) -> (r: Result<u16, ConfigError>)
    ensures
        match r {
            Ok(p) => port_spec(match value { Some(v) => Some(v@), None => None }) == Some(p),
            Err(_) => port_spec(match value { Some(v) => Some(v@), None => None }) is None,
        },
{
    match value {
        Some(v) => {
            let c = chars_of(v);
            match parse_decimal(&c, u16::MAX as u64) {
                Some(p) => Ok(p as u16),
                None => Err(ConfigError::InvalidPort),
            }
        },
        None => Ok(8080),
    }
}

/// The embedding size: the given value when it is a positive `u32`, and no
/// size (the model's own) otherwise.
pub open spec fn dimensions_spec(value: Option<Seq<char>>) -> Option<u32> {
    match value {
        Some(v) => match parse_unsigned_spec(v, u32::MAX as nat) {
            Some(d) => if d > 0 {
                Some(d as u32)
            } else {
                None
            },
            None => None,
        },
        None => None,
    }
}

/// Reads the embedding size setting.
pub fn dimensions_from(value: Option<&str>) -> (r: Option<u32>)
    ensures
        r == dimensions_spec(match value { Some(v) => Some(v@), None => None }),
{
    match value {
        Some(v) => {
            let c = chars_of(v);
            match parse_decimal(&c, u32::MAX as u64) {
                Some(d) => if d > 0 {
                    Some(d as u32)
                } else {
                    None
                },
                None => None,
            }
        },
        None => None,
    }
}

/// A count setting: the given value when it is a `usize`, and the default
/// when it is unset or not a number.
pub open spec fn count_spec(value: Option<Seq<char>>, default: usize) -> usize {
    match value {
        Some(v) => match parse_unsigned_spec(v, usize::MAX as nat) {
            Some(n) => n as usize,
            None => default,
        },
        None => default,
    }
}

/// Reads a count setting.
pub fn count_from(value: Option<&str>, default: usize) -> (r: usize)
    ensures
        r == count_spec(match value { Some(v) => Some(v@), None => None }, default),
{
    match value {
        Some(v) => {
            let c = chars_of(v);
            match parse_decimal(&c, usize::MAX as u64) {
                Some(n) => n as usize,
                None => default,
            }
        },
        None => default,
    }
}

/// The address to listen on, unless set otherwise.
pub const DEFAULT_HOST: &'static str = "0.0.0.0";

/// The vector index, unless set otherwise.
pub const DEFAULT_PINECONE_INDEX: &'static str = "livepaper";

/// The vector namespace, unless set otherwise.
pub const DEFAULT_PINECONE_NAMESPACE: &'static str = "papers";

/// The model service's address, unless set otherwise.
pub const DEFAULT_OPENROUTER_BASE_URL: &'static str = "https://openrouter.ai/api/v1";

/// The language model, unless set otherwise.
pub const DEFAULT_LLM_MODEL: &'static str = "openai/gpt-4o-mini";

/// The embedding model, unless set otherwise.
pub const DEFAULT_EMBEDDING_MODEL: &'static str = "openai/text-embedding-3-small";

/// The sender's name on emails, unless set otherwise.
pub const DEFAULT_EMAIL_FROM_NAME: &'static str = "LivePaper";

/// The address of the web application, unless set otherwise.
pub const DEFAULT_APP_BASE_URL: &'static str = "https://livepaper.ai";

/// The tracing service's address, unless set otherwise.
pub const DEFAULT_LANGFUSE_HOST: &'static str = "https://cloud.langfuse.com";

/// How many passages a question retrieves, unless set otherwise.
pub const DEFAULT_TOP_K: usize = 8;

/// How many experts a question may email, unless set otherwise.
pub const DEFAULT_MAX_EXPERT_EMAILS: usize = 3;

} // verus!
