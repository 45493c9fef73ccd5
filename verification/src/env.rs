//! Environment variable names for client configuration. Explicit options take precedence.

use vstd::prelude::*;

use crate::text::trim;

verus! {

/// Required API key; used when `api_key` is omitted.
pub const API_KEY: &'static str = "TYPESAFE_API_KEY";

/// API root; defaults to `https://api.typesafe.ai`.
pub const BASE_URL: &'static str = "TYPESAFE_BASE_URL";

/// Default model name; defaults to `jev-latest`.
pub const DEFAULT_MODEL: &'static str = "TYPESAFE_DEFAULT_MODEL";

/// Log level; defaults to `warn`.
pub const LOG_LEVEL: &'static str = "TYPESAFE_LOG_LEVEL";

/// What a client learns from where it runs: the environment variables, as they are set, and the
/// platform.
pub struct Environment {
    /// The value of `TYPESAFE_API_KEY`.
    pub api_key: Option<String>,
    /// The value of `TYPESAFE_BASE_URL`.
    pub base_url: Option<String>,
    /// The value of `TYPESAFE_DEFAULT_MODEL`.
    pub default_model: Option<String>,
    /// The value of `TYPESAFE_LOG_LEVEL`.
    pub log_level: Option<String>,
    /// The operating system.
    pub os: String,
    /// The processor architecture.
    pub arch: String,
}

/// What a variable counts as: its trimmed value, and nothing if that is empty.
pub open spec fn env_value(value: Option<Seq<char>>) -> Option<Seq<char>> {
    match value {
        Some(text) => if crate::text::trimmed(text).len() == 0 {
            None
        } else {
            Some(crate::text::trimmed(text))
        },
        None => None,
    }
}

/// The explicit value, or else that of the environment.
pub open spec fn code_or_env(from_code: Option<String>, value: Option<String>) -> Option<Seq<char>> {
    match from_code {
        Some(text) => Some(text@),
        None => env_value(crate::text::optional(value)),
    }
}

/// Read a trimmed environment value, returning `None` for missing or blank values.
pub fn read_env(value: &Option<String>) -> (text: Option<String>)
    ensures
        crate::text::optional(text) == env_value(crate::text::optional(*value)),
{
    match value {
        Some(text) => {
            let trimmed = trim(text.as_str());
            if trimmed.is_empty() {
                None
            } else {
                Some(trimmed.to_owned())
            }
        },
        None => None,
    }
}

/// Return the explicit value, falling back to the environment.
pub fn from_code_or_env(from_code: Option<String>, value: &Option<String>) -> (text: Option<String>)
    ensures
        crate::text::optional(text) == code_or_env(from_code, *value),
{
    match from_code {
        Some(text) => Some(text),
        None => read_env(value),
    }
}

/// A variable counts as its trimmed value, and as missing exactly if it is not set or holds nothing
/// but white space.
pub proof fn law_variables(value: Seq<char>)
    ensures
        env_value(None) is None,
        env_value(Some(value)) is None <==> forall|i: int|
            0 <= i < value.len() ==> crate::text::is_white_space(#[trigger] value[i]),
        env_value(Some(value)) matches Some(text) ==> text == crate::text::trimmed(value),
{
    let start = crate::text::law_trimmed(value);
    let inner = crate::text::trimmed(value);
    if inner.len() > 0 {
        assert(inner[0] == value[start]);
    }
}

} // verus!
