//! Types and rules of a client for the TypeSafe AI API.
//!
//! `TypeSafeClient` prepares calls; an `ApiCall` says step by step what to send, how long to wait
//! and what to return. Whoever drives it performs the steps: sending requests, waiting, reading the
//! clock, drawing random numbers and writing logs are not done here.
//!
//! Numbers that are not whole, such as delays and probabilities, are `Binary64` values, which hold
//! the bits of an IEEE 754 number.
pub mod arithmetic;
pub mod binary64;
pub mod client;
pub mod env;
pub mod errors;
pub mod exchange;
pub mod headers;
pub mod json;
pub mod logging;
pub mod models;
pub mod questions;
pub mod response;
pub mod retry;
pub mod runtime;
pub mod text;
pub mod types;
pub mod version;

pub use binary64::Binary64;
pub use client::{
    RequestCounter, TypeSafeClient, TypeSafeClientConfig, DEFAULT_BASE_URL, DEFAULT_MODEL,
};
pub use env::Environment;
pub use errors::{ApiError, ApiErrorKind, Error, Result};
pub use exchange::{ApiCall, HttpRequest, Method, Outcome, Report, Sending, Step, Waiting};
pub use json::{Json, JsonObject};
pub use logging::{
    parse_log_level, redact_headers, with_level, ConsoleLogger, LeveledLogger, LogEntry, LogLevel,
    LOG_LEVELS,
};
pub use models::Models;
pub use questions::{
    choice, noul, noul_with_criteria, score, validate_questions, NoulCriteria, Question, Questions,
};
pub use response::{RawResponse, WithResponse, REQUEST_ID_HEADER};
pub use retry::{
    parse_retry_after, retry_delay_ms, GivenNumber, RetryAfterNumbers, RetryOverrides, RetryPolicy,
    UnixTime, DEFAULT_TIMEOUT_MS,
};
pub use runtime::describe_runtime;
pub use types::{
    Answer, Answers, ChoiceResponse, ModelCard, NoulResponse, RequestOptions, ScoreResponse,
    SystemOneRequest, SystemOneResult, Usage,
};
pub use version::VERSION;
