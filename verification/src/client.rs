//! The client: its configuration, and the calls that it prepares.

use vstd::prelude::*;

use crate::env::{from_code_or_env, read_env, Environment};
use crate::errors::{Error, Result};
use crate::exchange::{ApiCall, Method};
use crate::headers::{copy_headers, merge_headers, HeaderChange, HeaderText};
use crate::json::{Json, JsonView};
use crate::logging::{parse_log_level, LogLevel, DEFAULT_LOG_LEVEL};
use crate::models::Models;
use crate::questions::validate_questions;
use crate::retry::{clone_overrides, RetryOverrides, RetryPolicy, RetryPolicyView, DEFAULT_TIMEOUT_MS};
use crate::runtime::describe_runtime;
use crate::text::{copy_text, to_decimal, trim_end_slashes};
use crate::types::{RequestOptions, SystemOneRequest};
use crate::version::VERSION;

verus! {

pub const DEFAULT_BASE_URL: &'static str = "https://api.typesafe.ai";

pub const DEFAULT_MODEL: &'static str = "jev-latest";

// ---------------------------------------------------------------------------
// Configuration
// ---------------------------------------------------------------------------

/// Client options. Explicit values take precedence over environment variables, then defaults.
pub struct TypeSafeClientConfig {
    /// Required API key; falls back to `TYPESAFE_API_KEY`.
    pub api_key: Option<String>,
    /// API root; falls back to `TYPESAFE_BASE_URL`, then `https://api.typesafe.ai`.
    pub base_url: Option<String>,
    /// Default model; falls back to `TYPESAFE_DEFAULT_MODEL`, then `jev-latest`.
    pub default_model: Option<String>,
    /// Log level; falls back to `TYPESAFE_LOG_LEVEL`, then `warn`.
    /// `info` logs request summaries; `debug` adds headers and bodies.
    /// Known credential headers are redacted; bodies are not.
    pub log_level: Option<LogLevel>,
    /// Retry overrides; omitted fields use the defaults in `RetryPolicy`.
    pub retry: Option<RetryOverrides>,
    /// Timeout per attempt in milliseconds, without a total retry budget. Default: 10000.
    pub timeout_ms: Option<u64>,
    /// Additional request headers; per-call headers take precedence.
    pub default_headers: Vec<(String, String)>,
}

impl Clone for TypeSafeClientConfig {
    fn clone(&self) -> (copy: TypeSafeClientConfig)
        ensures
            crate::text::optional(copy.api_key) == crate::text::optional(self.api_key),
            crate::text::optional(copy.base_url) == crate::text::optional(self.base_url),
            crate::text::optional(copy.default_model) == crate::text::optional(self.default_model),
            copy.log_level == self.log_level,
            crate::retry::same_overrides(copy.retry, self.retry),
            copy.timeout_ms == self.timeout_ms,
            crate::headers::header_texts(copy.default_headers@) == crate::headers::header_texts(
                self.default_headers@,
            ),
    {
        TypeSafeClientConfig {
            api_key: copy_text(&self.api_key),
            base_url: copy_text(&self.base_url),
            default_model: copy_text(&self.default_model),
            log_level: self.log_level,
            retry: clone_overrides(&self.retry),
            timeout_ms: self.timeout_ms,
            default_headers: copy_headers(&self.default_headers),
        }
    }
}

impl Default for TypeSafeClientConfig {
    /// Options that leave everything to the environment and the defaults.
    fn default() -> (config: TypeSafeClientConfig)
        ensures
            config.api_key is None,
            config.base_url is None,
            config.default_model is None,
            config.log_level is None,
            config.retry is None,
            config.timeout_ms is None,
            config.default_headers@ == Seq::<(String, String)>::empty(),
    {
        TypeSafeClientConfig {
            api_key: None,
            base_url: None,
            default_model: None,
            log_level: None,
            retry: None,
            timeout_ms: None,
            default_headers: Vec::new(),
        }
    }
}

/// Client for the TypeSafe AI API.
pub struct TypeSafeClient {
    /// API key, which no public accessor shows.
    api_key: String,
    base_url: String,
    default_model: String,
    log_level: LogLevel,
    retry: RetryPolicy,
    timeout_ms: u64,
    default_headers: Vec<(String, String)>,
    runtime: String,
}

/// The settings of a client.
pub struct ClientView {
    pub api_key: Seq<char>,
    pub base_url: Seq<char>,
    pub default_model: Seq<char>,
    pub log_level: LogLevel,
    pub retry: RetryPolicyView,
    pub timeout_ms: u64,
    pub default_headers: Seq<HeaderText>,
    pub runtime: Seq<char>,
}

impl View for TypeSafeClient {
    type V = ClientView;

    closed spec fn view(&self) -> ClientView {
        ClientView {
            api_key: self.api_key@,
            base_url: self.base_url@,
            default_model: self.default_model@,
            log_level: self.log_level,
            retry: self.retry@,
            timeout_ms: self.timeout_ms,
            default_headers: crate::headers::header_texts(self.default_headers@),
            runtime: self.runtime@,
        }
    }
}

/// What is wrong with an amount of time that has to be positive.
pub open spec fn not_positive(name: Seq<char>, value: u64) -> Option<Seq<char>> {
    if value == 0 {
        Some(
            "`"@ + name + "` must be a positive number of milliseconds, got "@
                + crate::text::decimal(value as nat) + "."@,
        )
    } else {
        None
    }
}

/// What is wrong with a timeout.
pub open spec fn wrong_timeout(value: u64) -> Option<Seq<char>> {
    not_positive("timeout"@, value)
}

/// The value, if it is positive.
pub fn positive_ms(name: &str, value: u64) -> (ms: Result<u64>)
    ensures
        match ms {
            Ok(v) => not_positive(name@, value) is None && v == value,
            Err(error) => not_positive(name@, value) matches Some(message) && error.refuses(message),
        },
{
    if value == 0 {
        let mut text = "`".to_owned();
        text.append(name);
        text.append("` must be a positive number of milliseconds, got ");
        text.append(to_decimal(value).as_str());
        text.append(".");
        return Err(Error::TypeSafe(text));
    }
    Ok(value)
}

/// The level that a client logs at: the explicit one, that of the environment, or the default; or
/// the message that refuses that of the environment.
pub open spec fn configured_level(explicit: Option<LogLevel>, value: Option<String>) -> std::result::Result<
    LogLevel,
    Seq<char>,
> {
    match explicit {
        Some(level) => Ok(level),
        None => match crate::env::env_value(crate::text::optional(value)) {
            Some(text) => match crate::logging::level_named(text) {
                Some(level) => Ok(level),
                None => Err(crate::logging::invalid_level(text, crate::env::LOG_LEVEL@)),
            },
            None => Ok(DEFAULT_LOG_LEVEL),
        },
    }
}

/// The text if there is one, or else the default.
pub open spec fn or_default(text: Option<Seq<char>>, default: Seq<char>) -> Seq<char> {
    match text {
        Some(t) => t,
        None => default,
    }
}

/// The client that a configuration makes in an environment, or the message that refuses it: first
/// a missing key, then the log level, the retry overrides, and the timeout.
pub open spec fn configured(config: TypeSafeClientConfig, environment: Environment) -> std::result::Result<
    ClientView,
    Seq<char>,
> {
    let api_key = crate::env::code_or_env(config.api_key, environment.api_key);
    let level = configured_level(config.log_level, environment.log_level);
    let retry = crate::retry::resolved(crate::retry::default_policy(), config.retry);
    let timeout_ms = match config.timeout_ms {
        Some(ms) => ms,
        None => DEFAULT_TIMEOUT_MS,
    };
    if api_key is None {
        Err(
            "No API key was provided. Pass `api_key` to the TypeSafeClient constructor or set the "@
                + crate::env::API_KEY@ + " environment variable."@,
        )
    } else if level is Err {
        Err(level->Err_0)
    } else if retry is Err {
        Err(retry->Err_0)
    } else if wrong_timeout(timeout_ms) is Some {
        Err(wrong_timeout(timeout_ms)->0)
    } else {
        Ok(
            ClientView {
                api_key: api_key->0,
                base_url: crate::text::without_trailing_slashes(
                    or_default(
                        crate::env::code_or_env(config.base_url, environment.base_url),
                        DEFAULT_BASE_URL@,
                    ),
                ),
                default_model: or_default(
                    crate::env::code_or_env(config.default_model, environment.default_model),
                    DEFAULT_MODEL@,
                ),
                log_level: level->Ok_0,
                retry: retry->Ok_0,
                timeout_ms,
                default_headers: crate::headers::header_texts(config.default_headers@),
                runtime: crate::runtime::runtime_text(environment.os@, environment.arch@),
            },
        )
    }
}

impl TypeSafeClient {
    /// Create a client for the TypeSafe AI API.
    ///
    /// Explicit options take precedence over environment variables, then defaults.
    /// Empty or whitespace-only environment values are ignored.
    ///
    /// Returns `Error::TypeSafe` when the API key is missing or the configuration is invalid.
    pub fn new(config: TypeSafeClientConfig, environment: &Environment) -> (client: Result<TypeSafeClient>)
        ensures
            match client {
                Ok(c) => configured(config, *environment) == Ok::<ClientView, Seq<char>>(c@),
                Err(error) => configured(config, *environment) matches Err(message)
                    && error.refuses(message),
            },
    {
        let api_key = match from_code_or_env(config.api_key, &environment.api_key) {
            Some(key) => key,
            None => {
                let mut text =
                    "No API key was provided. Pass `api_key` to the TypeSafeClient constructor or set the ".to_owned();
                text.append(crate::env::API_KEY);
                text.append(" environment variable.");
                return Err(Error::TypeSafe(text));
            },
        };
        let base_url = match from_code_or_env(config.base_url, &environment.base_url) {
            Some(url) => url,
            None => DEFAULT_BASE_URL.to_owned(),
        };
        let log_level = match config.log_level {
            Some(level) => level,
            None => match read_env(&environment.log_level) {
                Some(value) => match parse_log_level(value.as_str(), crate::env::LOG_LEVEL) {
                    Ok(level) => level,
                    Err(error) => return Err(error),
                },
                None => DEFAULT_LOG_LEVEL,
            },
        };
        let default_model = match from_code_or_env(config.default_model, &environment.default_model) {
            Some(model) => model,
            None => DEFAULT_MODEL.to_owned(),
        };
        let retry = match RetryPolicy::default().resolve(config.retry.as_ref()) {
            Ok(policy) => policy,
            Err(error) => return Err(error),
        };
        let timeout_ms = match positive_ms(
            "timeout",
            match config.timeout_ms {
                Some(ms) => ms,
                None => DEFAULT_TIMEOUT_MS,
            },
        ) {
            Ok(ms) => ms,
            Err(error) => return Err(error),
        };
        Ok(
            TypeSafeClient {
                api_key,
                base_url: trim_end_slashes(base_url.as_str()).to_owned(),
                default_model,
                log_level,
                retry,
                timeout_ms,
                default_headers: config.default_headers,
                runtime: describe_runtime(environment.os.as_str(), environment.arch.as_str()),
            },
        )
    }

    /// API root with trailing slashes removed.
    pub fn base_url(&self) -> (url: &str)
        ensures
            url@ == self@.base_url,
    {
        self.base_url.as_str()
    }

    /// Model used when a request omits `model`.
    pub fn default_model(&self) -> (model: &str)
        ensures
            model@ == self@.default_model,
    {
        self.default_model.as_str()
    }

    /// Configured log verbosity.
    pub fn log_level(&self) -> (level: LogLevel)
        ensures
            level == self@.log_level,
    {
        self.log_level
    }

    /// Retry settings with constructor overrides applied.
    pub fn retry(&self) -> (policy: &RetryPolicy)
        ensures
            policy@ == self@.retry,
    {
        &self.retry
    }

    /// Timeout per attempt in milliseconds.
    pub fn timeout_ms(&self) -> (ms: u64)
        ensures
            ms == self@.timeout_ms,
    {
        self.timeout_ms
    }

    /// The models available to the account.
    pub fn models(&self) -> (models: Models<'_>)
        ensures
            models.client == self,
    {
        Models { client: self }
    }
}

// ---------------------------------------------------------------------------
// Numbers of requests
// ---------------------------------------------------------------------------

/// The numbers that the requests of a client and its clones get, from one on.
pub struct RequestCounter {
    made: u64,
}

/// The number of the request after one with this number; after the last number, zero.
pub open spec fn number_after(made: u64) -> u64 {
    if made == u64::MAX {
        0
    } else {
        (made + 1) as u64
    }
}

/// The number of the last request of a client that has made so many.
pub open spec fn number_of_request(requests: nat) -> u64
    decreases requests,
{
    if requests == 0 {
        0
    } else {
        number_after(number_of_request((requests - 1) as nat))
    }
}

impl RequestCounter {
    /// The number of the latest request; zero if there was none.
    pub closed spec fn made(self) -> u64 {
        self.made
    }

    /// No request was made.
    pub fn new() -> (counter: RequestCounter)
        ensures
            counter.made() == number_of_request(0),
    {
        RequestCounter { made: 0 }
    }

    /// The number of the next request.
    pub fn next(&mut self) -> (number: u64)
        ensures
            number == number_after(old(self).made()),
            final(self).made() == number,
    {
        self.made = self.made.wrapping_add(1);
        self.made
    }
}

// ---------------------------------------------------------------------------
// Calls
// ---------------------------------------------------------------------------

/// What log messages call a request: its number, its method and its path.
pub open spec fn tag_text(number: u64, method: Method, path: Seq<char>) -> Seq<char> {
    "#"@ + crate::text::decimal(number as nat) + " "@ + method.name() + " "@ + path
}

/// The name of this library in headers.
pub open spec fn sdk_text() -> Seq<char> {
    "typesafe-sdk-rust/"@ + VERSION@
}

/// The headers that are the client's own to set or to leave out.
pub open spec fn protected_headers(client: ClientView, with_body: bool) -> Seq<HeaderChange> {
    seq![
        ("Authorization"@, Some("Bearer "@ + client.api_key)),
        ("Accept"@, Some("application/json"@)),
        ("User-Agent"@, Some(sdk_text())),
        ("X-TypeSafe-SDK"@, Some(sdk_text())),
        ("X-TypeSafe-Runtime"@, Some(client.runtime)),
        (
            "Content-Type"@,
            if with_body {
                Some("application/json"@)
            } else {
                None
            },
        ),
        ("X-TypeSafe-Retry-Count"@, None),
    ]
}

/// The headers that a caller asks for: those of the client, and over them those of the call.
pub open spec fn user_headers(client: ClientView, changes: Seq<HeaderChange>) -> Seq<HeaderText> {
    crate::headers::merged(crate::headers::settings(client.default_headers) + changes)
}

/// The headers of a call. What a caller asks for goes first, so that it cannot clobber
/// authentication or the JSON content type.
pub open spec fn call_headers(client: ClientView, changes: Seq<HeaderChange>, with_body: bool) -> Seq<
    HeaderText,
> {
    crate::headers::merged(
        crate::headers::settings(user_headers(client, changes)) + protected_headers(
            client,
            with_body,
        ),
    )
}

/// The call that a client makes of a request, or the message that refuses its options: first the
/// timeout, then the retry overrides.
pub open spec fn called(
    client: ClientView,
    number: u64,
    method: Method,
    path: Seq<char>,
    body: Option<JsonView>,
    options: RequestOptions,
) -> std::result::Result<crate::exchange::CallView, Seq<char>> {
    let timeout_ms = match options.timeout_ms {
        Some(ms) => ms,
        None => client.timeout_ms,
    };
    let retry = crate::retry::resolved(client.retry, options.retry);
    if options.timeout_ms is Some && wrong_timeout(timeout_ms) is Some {
        Err(wrong_timeout(timeout_ms)->0)
    } else if retry is Err {
        Err(retry->Err_0)
    } else {
        Ok(
            crate::exchange::CallView {
                tag: tag_text(number, method, path),
                url: client.base_url + path,
                method,
                body,
                headers: call_headers(
                    client,
                    crate::headers::header_changes(options.headers@),
                    body is Some,
                ),
                timeout_ms,
                retry: retry->Ok_0,
                level: client.log_level,
            },
        )
    }
}

/// Each header of a list as a change that sets it.
fn as_settings(headers: &Vec<(String, String)>) -> (changes: Vec<(String, Option<String>)>)
    ensures
        crate::headers::header_changes(changes@) == crate::headers::settings(
            crate::headers::header_texts(headers@),
        ),
{
    let mut changes: Vec<(String, Option<String>)> = Vec::new();
    let mut i: usize = 0;
    while i < headers.len()
        invariant
            i <= headers.len(),
            changes.len() == i,
            forall|j: int|
                0 <= j < i ==> crate::headers::header_change(#[trigger] changes@[j]) == (
                    headers@[j].0@,
                    Some(headers@[j].1@),
                ),
        decreases headers.len() - i,
    {
        changes.push((headers[i].0.clone(), Some(headers[i].1.clone())));
        i = i + 1;
    }
    assert(crate::headers::header_changes(changes@) == crate::headers::settings(
        crate::headers::header_texts(headers@),
    ));
    changes
}

/// Merge two lists of changes.
fn merge_two(
    first: &Vec<(String, Option<String>)>,
    second: &Vec<(String, Option<String>)>,
) -> (headers: Vec<(String, String)>)
    ensures
        crate::headers::header_texts(headers@) == crate::headers::merged(
            crate::headers::header_changes(first@) + crate::headers::header_changes(second@),
        ),
{
    let sources: [&[(String, Option<String>)]; 2] = [first.as_slice(), second.as_slice()];
    proof {
        reveal_with_fuel(crate::headers::all_changes, 3);
        let all = sources@;
        assert(all.drop_last().drop_last() == Seq::<&[(String, Option<String>)]>::empty());
        assert(all.drop_last().last()@ == first@);
        assert(all.last()@ == second@);
        assert(crate::headers::all_changes(all) == crate::headers::header_changes(first@)
            + crate::headers::header_changes(second@));
    }
    merge_headers(&sources)
}

impl TypeSafeClient {
    fn protected(&self, with_body: bool) -> (changes: Vec<(String, Option<String>)>)
        ensures
            crate::headers::header_changes(changes@) == protected_headers(self@, with_body),
    {
        let mut bearer = "Bearer ".to_owned();
        bearer.append(self.api_key.as_str());
        let mut sdk = "typesafe-sdk-rust/".to_owned();
        sdk.append(VERSION);
        let content_type = if with_body {
            Some("application/json".to_owned())
        } else {
            None
        };
        let mut changes: Vec<(String, Option<String>)> = Vec::new();
        changes.push(("Authorization".to_owned(), Some(bearer)));
        changes.push(("Accept".to_owned(), Some("application/json".to_owned())));
        changes.push(("User-Agent".to_owned(), Some(sdk.clone())));
        changes.push(("X-TypeSafe-SDK".to_owned(), Some(sdk)));
        changes.push(("X-TypeSafe-Runtime".to_owned(), Some(self.runtime.clone())));
        changes.push(("Content-Type".to_owned(), content_type));
        changes.push(("X-TypeSafe-Retry-Count".to_owned(), None));
        assert(crate::headers::header_changes(changes@) == protected_headers(self@, with_body));
        changes
    }

    /// Prepare a request. It takes the next number, so that concurrent requests, and the attempts
    /// within one, can be told apart in the logs.
    pub fn request(
        &self,
        requests: &mut RequestCounter,
        method: Method,
        path: &str,
        body: Option<Json>,
        options: &RequestOptions,
    ) -> (call: Result<ApiCall>)
        ensures
            final(requests).made() == number_after(old(requests).made()),
            match call {
                Ok(c) => called(
                    self@,
                    number_after(old(requests).made()),
                    method,
                    path@,
                    crate::errors::body_view(body),
                    *options,
                ) == Ok::<crate::exchange::CallView, Seq<char>>(c@),
                Err(error) => called(
                    self@,
                    number_after(old(requests).made()),
                    method,
                    path@,
                    crate::errors::body_view(body),
                    *options,
                ) matches Err(message) && error.refuses(message),
            },
    {
        let number = requests.next();
        let timeout_ms = match options.timeout_ms {
            Some(ms) => match positive_ms("timeout", ms) {
                Ok(ms) => ms,
                Err(error) => return Err(error),
            },
            None => self.timeout_ms,
        };
        let retry = match self.retry.resolve(options.retry.as_ref()) {
            Ok(policy) => policy,
            Err(error) => return Err(error),
        };
        let user = merge_two(&as_settings(&self.default_headers), &options.headers);
        let headers = merge_two(&as_settings(&user), &self.protected(body.is_some()));
        let mut tag = "#".to_owned();
        tag.append(to_decimal(number).as_str());
        tag.append(" ");
        tag.append(method.as_str());
        tag.append(" ");
        tag.append(path);
        let mut url = self.base_url.clone();
        url.append(path);
        Ok(ApiCall::new(tag, url, method, body, headers, timeout_ms, retry, self.log_level))
    }

    /// Prepare the call that answers named questions about text or structured state.
    ///
    /// Errors: `Error::TypeSafe` when the questions are empty or a score question has fewer than
    /// two criteria, or when the options are invalid. A request whose questions are refused takes
    /// no number.
    pub fn system_one(
        &self,
        requests: &mut RequestCounter,
        request: &SystemOneRequest,
        options: &RequestOptions,
    ) -> (call: Result<ApiCall>)
        ensures
            final(requests).made() == match crate::questions::wrong_questions(
                crate::questions::question_entries(request.questions),
            ) {
                Some(_) => old(requests).made(),
                None => number_after(old(requests).made()),
            },
            match call {
                Ok(c) => system_one_call(
                    self@,
                    number_after(old(requests).made()),
                    *request,
                    *options,
                ) == Ok::<crate::exchange::CallView, Seq<char>>(c@),
                Err(error) => system_one_call(
                    self@,
                    number_after(old(requests).made()),
                    *request,
                    *options,
                ) matches Err(message) && error.refuses(message),
            },
    {
        if let Err(error) = validate_questions(&request.questions) {
            return Err(error);
        }
        let body = request.body(self.default_model.as_str());
        self.request(requests, Method::Post, SYSTEM_ONE_PATH, Some(body), options)
    }
}

pub const SYSTEM_ONE_PATH: &'static str = "/v1/systemone";

/// The call that answers a request, or the message that refuses it: first its questions, then its
/// options.
pub open spec fn system_one_call(
    client: ClientView,
    number: u64,
    request: SystemOneRequest,
    options: RequestOptions,
) -> std::result::Result<crate::exchange::CallView, Seq<char>> {
    match crate::questions::wrong_questions(
        crate::questions::question_entries(request.questions),
    ) {
        Some(message) => Err(message),
        None => called(
            client,
            number,
            Method::Post,
            SYSTEM_ONE_PATH@,
            Some(JsonView::Object(crate::types::request_body(request, client.default_model))),
            options,
        ),
    }
}

/// The error for a result of `system_one` that cannot be read.
pub fn unexpected_result(reason: &str) -> (error: Error)
    ensures
        error.refuses(
            "Unexpected response shape from POST /v1/systemone: "@ + reason@ + "."@,
        ),
{
    let mut text = "Unexpected response shape from POST /v1/systemone: ".to_owned();
    text.append(reason);
    text.append(".");
    Error::TypeSafe(text)
}

// ---------------------------------------------------------------------------
// Laws of headers
// ---------------------------------------------------------------------------

proof fn lemma_protected_names()
    ensures
        vstd::utf8::is_ascii_chars("Authorization"@) && "Authorization"@.len() == 13,
        vstd::utf8::is_ascii_chars("Accept"@) && "Accept"@.len() == 6,
        vstd::utf8::is_ascii_chars("User-Agent"@) && "User-Agent"@.len() == 10,
        vstd::utf8::is_ascii_chars("X-TypeSafe-SDK"@) && "X-TypeSafe-SDK"@.len() == 14,
        vstd::utf8::is_ascii_chars("X-TypeSafe-Runtime"@) && "X-TypeSafe-Runtime"@.len() == 18,
        vstd::utf8::is_ascii_chars("Content-Type"@) && "Content-Type"@.len() == 12,
        vstd::utf8::is_ascii_chars("X-TypeSafe-Retry-Count"@) && "X-TypeSafe-Retry-Count"@.len() == 22,
{
    reveal_strlit("Authorization");
    reveal_strlit("Accept");
    reveal_strlit("User-Agent");
    reveal_strlit("X-TypeSafe-SDK");
    reveal_strlit("X-TypeSafe-Runtime");
    reveal_strlit("Content-Type");
    reveal_strlit("X-TypeSafe-Retry-Count");
}

proof fn lemma_names_of_other_lengths(left: Seq<char>, right: Seq<char>)
    requires
        vstd::utf8::is_ascii_chars(left),
        vstd::utf8::is_ascii_chars(right),
        left.len() != right.len(),
    ensures
        !crate::headers::same_name(left, right),
{
    assert(crate::text::lowercase(left).len() == left.len());
    assert(crate::text::lowercase(right).len() == right.len());
}

/// Whatever a caller asks for, and in whatever case, each header that is the client's own is as
/// the client sets it, once, or is left out where the client leaves it out.
pub proof fn law_protected_headers_win(
    client: ClientView,
    changes: Seq<HeaderChange>,
    with_body: bool,
    i: int,
)
    requires
        0 <= i < protected_headers(client, with_body).len(),
    ensures
        ({
            let header = protected_headers(client, with_body)[i];
            crate::headers::named(call_headers(client, changes, with_body), header.0)
                == match header.1 {
                Some(value) => seq![(header.0, value)],
                None => Seq::<HeaderText>::empty(),
            }
        }),
{
    let protected = protected_headers(client, with_body);
    let user = crate::headers::settings(user_headers(client, changes));
    let name = protected[i].0;
    lemma_protected_names();
    assert forall|j: int| i < j < protected.len() implies !crate::headers::same_name(
        (#[trigger] protected[j]).0,
        name,
    ) by {
        lemma_names_of_other_lengths(protected[j].0, name);
    }
    crate::headers::lemma_last_setting_in_suffix(user, protected, name, i);
    crate::headers::law_last_change_wins(user + protected, name);
}

/// A header that is not the client's own is as the caller last set it: for the call, or else for
/// the client; `None` removes it.
pub proof fn law_call_headers_over_defaults(
    client: ClientView,
    changes: Seq<HeaderChange>,
    with_body: bool,
    name: Seq<char>,
)
    requires
        forall|i: int|
            0 <= i < protected_headers(client, with_body).len() ==> !crate::headers::same_name(
                (#[trigger] protected_headers(client, with_body)[i]).0,
                name,
            ),
    ensures
        crate::headers::named(call_headers(client, changes, with_body), name)
            == match crate::headers::last_setting(
            crate::headers::settings(client.default_headers) + changes,
            name,
        ) {
            Some(header) => seq![header],
            None => Seq::<HeaderText>::empty(),
        },
{
    let protected = protected_headers(client, with_body);
    let asked = crate::headers::settings(client.default_headers) + changes;
    let user = user_headers(client, changes);
    crate::headers::law_last_change_wins(asked, name);
    crate::headers::lemma_last_of_settings(user, name);
    crate::headers::lemma_last_setting_in_prefix(
        crate::headers::settings(user),
        protected,
        name,
    );
    crate::headers::law_last_change_wins(crate::headers::settings(user) + protected, name);
}

/// The header with the number of the retry is there once from the second attempt on, with that
/// number, and not on the first attempt; the other headers are the same on every attempt.
pub proof fn law_retry_count_header(
    client: ClientView,
    changes: Seq<HeaderChange>,
    call: crate::exchange::CallView,
    attempt: u32,
    name: Seq<char>,
)
    requires
        call.headers == call_headers(client, changes, call.body is Some),
    ensures
        crate::headers::named(
            crate::exchange::attempt_headers(call, attempt),
            "X-TypeSafe-Retry-Count"@,
        ) == if attempt == 0 {
            Seq::<HeaderText>::empty()
        } else {
            seq![("X-TypeSafe-Retry-Count"@, crate::text::decimal(attempt as nat))]
        },
        !crate::headers::same_name("X-TypeSafe-Retry-Count"@, name) ==> crate::headers::named(
            crate::exchange::attempt_headers(call, attempt),
            name,
        ) == crate::headers::named(call.headers, name),
{
    law_protected_headers_win(client, changes, call.body is Some, 6);
    reveal(Seq::filter);
    if attempt > 0 {
        let all = crate::exchange::attempt_headers(call, attempt);
        assert(all.drop_last() == call.headers);
    }
}

/// A request that is sent has each header of the client's own once, with its one value, or lacks
/// it where the client leaves it out.
proof fn lemma_sent_protected_headers(
    client: ClientView,
    changes: Seq<HeaderChange>,
    call: crate::exchange::CallView,
    attempt: u32,
    i: int,
)
    requires
        call.headers == call_headers(client, changes, call.body is Some),
        0 <= i < 6,
        crate::headers::header_map_of(crate::exchange::attempt_headers(call, attempt)) is Ok,
    ensures
        ({
            let header = protected_headers(client, call.body is Some)[i];
            let key = crate::text::ascii_lowercase(header.0);
            let map = crate::headers::header_map_of(
                crate::exchange::attempt_headers(call, attempt),
            )->Ok_0;
            match header.1 {
                Some(value) => map.contains_pair(key, one_value(value)),
                None => !map.contains_key(key),
            }
        }),
{
    let name = protected_headers(client, call.body is Some)[i].0;
    lemma_protected_names();
    lemma_names_of_other_lengths("X-TypeSafe-Retry-Count"@, name);
    law_protected_headers_win(client, changes, call.body is Some, i);
    law_retry_count_header(client, changes, call, attempt, name);
    crate::headers::law_map_has_the_last_of_each_name(
        crate::exchange::attempt_headers(call, attempt),
        name,
    );
}

proof fn lemma_protected_keys()
    ensures
        crate::text::ascii_lowercase("Authorization"@) == "authorization"@,
        crate::text::ascii_lowercase("Accept"@) == "accept"@,
        crate::text::ascii_lowercase("User-Agent"@) == "user-agent"@,
        crate::text::ascii_lowercase("X-TypeSafe-SDK"@) == "x-typesafe-sdk"@,
        crate::text::ascii_lowercase("X-TypeSafe-Runtime"@) == "x-typesafe-runtime"@,
        crate::text::ascii_lowercase("Content-Type"@) == "content-type"@,
        crate::text::ascii_lowercase("X-TypeSafe-Retry-Count"@) == "x-typesafe-retry-count"@,
{
    reveal_strlit("Authorization");
    reveal_strlit("authorization");
    reveal_strlit("Accept");
    reveal_strlit("accept");
    reveal_strlit("User-Agent");
    reveal_strlit("user-agent");
    reveal_strlit("X-TypeSafe-SDK");
    reveal_strlit("x-typesafe-sdk");
    reveal_strlit("X-TypeSafe-Runtime");
    reveal_strlit("x-typesafe-runtime");
    reveal_strlit("Content-Type");
    reveal_strlit("content-type");
    reveal_strlit("X-TypeSafe-Retry-Count");
    reveal_strlit("x-typesafe-retry-count");
}

/// The values of a header that has this one value.
pub open spec fn one_value(text: Seq<char>) -> Seq<Seq<u8>> {
    seq![vstd::utf8::encode_utf8(text)]
}

/// Whatever headers a client and a caller ask for, each attempt of a call sends the key, the
/// accepted type, the names of the library and of the runtime exactly once; a content type exactly
/// if there is a body, and then JSON; and the number of the retry exactly on retries.
pub proof fn law_sent_headers(
    client: ClientView,
    number: u64,
    method: Method,
    path: Seq<char>,
    body: Option<JsonView>,
    options: RequestOptions,
    call: crate::exchange::CallView,
    attempt: u32,
    request: crate::exchange::HttpRequestView,
)
    requires
        called(client, number, method, path, body, options) == Ok::<
            crate::exchange::CallView,
            Seq<char>,
        >(call),
        crate::exchange::sending(call, attempt) == (crate::exchange::StepView::Send {
            attempt,
            request,
        }),
    ensures
        request.headers.contains_pair("authorization"@, one_value("Bearer "@ + client.api_key)),
        request.headers.contains_pair("accept"@, one_value("application/json"@)),
        request.headers.contains_pair("user-agent"@, one_value(sdk_text())),
        request.headers.contains_pair("x-typesafe-sdk"@, one_value(sdk_text())),
        request.headers.contains_pair("x-typesafe-runtime"@, one_value(client.runtime)),
        body is Some ==> request.headers.contains_pair(
            "content-type"@,
            one_value("application/json"@),
        ),
        body is None ==> !request.headers.contains_key("content-type"@),
        attempt > 0 ==> request.headers.contains_pair(
            "x-typesafe-retry-count"@,
            one_value(crate::text::decimal(attempt as nat)),
        ),
        attempt == 0 ==> !request.headers.contains_key("x-typesafe-retry-count"@),
{
    let changes = crate::headers::header_changes(options.headers@);
    lemma_protected_keys();
    lemma_protected_names();
    lemma_sent_protected_headers(client, changes, call, attempt, 0);
    lemma_sent_protected_headers(client, changes, call, attempt, 1);
    lemma_sent_protected_headers(client, changes, call, attempt, 2);
    lemma_sent_protected_headers(client, changes, call, attempt, 3);
    lemma_sent_protected_headers(client, changes, call, attempt, 4);
    lemma_sent_protected_headers(client, changes, call, attempt, 5);
    let count = "X-TypeSafe-Retry-Count"@;
    law_retry_count_header(client, changes, call, attempt, count);
    crate::headers::law_map_has_the_last_of_each_name(
        crate::exchange::attempt_headers(call, attempt),
        count,
    );
}

/// Of the API key, the logs of a call show the last four characters of its first word at most, and
/// whether it has a word: with another key that agrees in those, everything that is logged is the
/// same.
pub proof fn law_logs_hide_the_key(
    client: ClientView,
    other: ClientView,
    changes: Seq<HeaderChange>,
    call: crate::exchange::CallView,
    other_call: crate::exchange::CallView,
    attempt: u32,
    report: crate::exchange::Report,
    now: crate::retry::UnixTime,
)
    requires
        other == (ClientView { api_key: other.api_key, ..client }),
        crate::logging::shown_tail(crate::text::first_word(client.api_key))
            == crate::logging::shown_tail(crate::text::first_word(other.api_key)),
        crate::text::first_word(client.api_key) is Some <==> crate::text::first_word(
            other.api_key,
        ) is Some,
        call.headers == call_headers(client, changes, call.body is Some),
        other_call == (crate::exchange::CallView {
            headers: call_headers(other, changes, call.body is Some),
            ..call
        }),
    ensures
        crate::exchange::sending_entries(call, attempt) == crate::exchange::sending_entries(
            other_call,
            attempt,
        ),
        crate::exchange::report_entries(call, attempt, report, now)
            == crate::exchange::report_entries(other_call, attempt, report, now),
        crate::exchange::cancelled_wait_entries(call) == crate::exchange::cancelled_wait_entries(
            other_call,
        ),
{
    let with_body = call.body is Some;
    let user = crate::headers::settings(user_headers(client, changes));
    let left = user + protected_headers(client, with_body);
    let right = user + protected_headers(other, with_body);
    crate::logging::law_bearer_keys_are_masked(client.api_key);
    crate::logging::law_bearer_keys_are_masked(other.api_key);
    assert forall|i: int| 0 <= i < left.len() implies crate::logging::shown_alike(
        #[trigger] left[i],
        right[i],
    ) by {
        if i == user.len() {
            assert(left[i] == protected_headers(client, with_body)[0]);
            assert(right[i] == protected_headers(other, with_body)[0]);
        } else if i > user.len() {
            assert(left[i] == protected_headers(client, with_body)[i - user.len()]);
            assert(right[i] == protected_headers(other, with_body)[i - user.len()]);
        }
    }
    crate::logging::lemma_merged_alike(left, right);
    let shown = crate::logging::redacted_headers(crate::exchange::attempt_headers(call, attempt));
    let other_shown = crate::logging::redacted_headers(
        crate::exchange::attempt_headers(other_call, attempt),
    );
    let count = crate::text::decimal(attempt as nat);
    let name = "X-TypeSafe-Retry-Count"@;
    let last = (name, crate::logging::redacted(name, count));
    if attempt > 0 {
        assert(shown == crate::logging::redacted_headers(call.headers).push(last));
        assert(other_shown == crate::logging::redacted_headers(other_call.headers).push(last));
    }
    assert(shown == other_shown);
}

// ---------------------------------------------------------------------------
// Laws of numbers
// ---------------------------------------------------------------------------

/// The first request of a client is number one, and each further one is the next.
pub proof fn law_requests_are_counted(requests: nat)
    requires
        requests <= u64::MAX,
    ensures
        number_of_request(requests) == requests,
    decreases requests,
{
    if requests > 0 {
        law_requests_are_counted((requests - 1) as nat);
    }
}

/// Every message that a client's request logs, on all its attempts, begins with the number of the
/// request, its method and its path.
pub proof fn law_messages_begin_with_the_number(
    client: ClientView,
    requests: nat,
    method: Method,
    path: Seq<char>,
    body: Option<JsonView>,
    options: RequestOptions,
    call: crate::exchange::CallView,
    attempt: u32,
    report: crate::exchange::Report,
    now: crate::retry::UnixTime,
    read: Option<JsonView>,
)
    requires
        0 < requests <= u64::MAX,
        called(client, number_of_request(requests), method, path, body, options) == Ok::<
            crate::exchange::CallView,
            Seq<char>,
        >(call),
    ensures
        ({
            let tag = "#"@ + crate::text::decimal(requests) + " "@ + method.name() + " "@ + path;
            &&& crate::exchange::tagged(crate::exchange::sending_entries(call, attempt), tag)
            &&& crate::exchange::tagged(
                crate::exchange::report_entries(call, attempt, report, now),
                tag,
            )
            &&& crate::exchange::tagged(crate::exchange::cancelled_wait_entries(call), tag)
            &&& crate::exchange::tagged(crate::exchange::body_entries(call, read), tag)
        }),
{
    law_requests_are_counted(requests);
    crate::exchange::law_messages_begin_with_the_tag(call, attempt, report, now, read);
}

/// Two requests of one client never share a number, and no message of one can be taken for a
/// message of the other.
pub proof fn law_requests_are_told_apart(
    requests: nat,
    others: nat,
    method: Method,
    path: Seq<char>,
    other_method: Method,
    other_path: Seq<char>,
    message: Seq<char>,
)
    requires
        0 < requests <= u64::MAX,
        0 < others <= u64::MAX,
        requests != others,
    ensures
        number_of_request(requests) != number_of_request(others),
        !(crate::text::begins_with(
            message,
            tag_text(number_of_request(requests), method, path),
        ) && crate::text::begins_with(
            message,
            tag_text(number_of_request(others), other_method, other_path),
        )),
{
    law_requests_are_counted(requests);
    law_requests_are_counted(others);
    let tag = tag_text(number_of_request(requests), method, path);
    let other_tag = tag_text(number_of_request(others), other_method, other_path);
    let a = crate::text::decimal(requests);
    let b = crate::text::decimal(others);
    reveal_strlit("#");
    reveal_strlit(" ");
    crate::text::lemma_decimal_digits(requests);
    crate::text::lemma_decimal_digits(others);
    if crate::text::begins_with(message, tag) && crate::text::begins_with(message, other_tag) {
        assert(tag[a.len() as int + 1] == ' ');
        assert(other_tag[b.len() as int + 1] == ' ');
        assert forall|i: int| 0 <= i < a.len() implies message[i + 1] == #[trigger] a[i] by {
            assert(tag[i + 1] == a[i]);
            assert(message.take(tag.len() as int)[i + 1] == tag[i + 1]);
        }
        assert forall|i: int| 0 <= i < b.len() implies message[i + 1] == #[trigger] b[i] by {
            assert(other_tag[i + 1] == b[i]);
            assert(message.take(other_tag.len() as int)[i + 1] == other_tag[i + 1]);
        }
        assert(message.take(tag.len() as int)[a.len() as int + 1] == ' ');
        assert(message.take(other_tag.len() as int)[b.len() as int + 1] == ' ');
        if a.len() < b.len() {
            assert(b[a.len() as int] == ' ');
        } else if b.len() < a.len() {
            assert(a[b.len() as int] == ' ');
        } else {
            assert forall|i: int| 0 <= i < a.len() implies #[trigger] a[i] == b[i] by {
                assert(message[i + 1] == a[i] && message[i + 1] == b[i]);
            }
            assert(a =~= b);
            crate::text::lemma_decimals_differ(requests, others);
        }
    }
}

// ---------------------------------------------------------------------------
// Laws of configuration
// ---------------------------------------------------------------------------

/// Explicit options win over the environment: where all are given, it makes no difference what
/// the variables hold.
pub proof fn law_explicit_options_win(
    config: TypeSafeClientConfig,
    environment: Environment,
    other: Environment,
)
    requires
        config.api_key is Some,
        config.base_url is Some,
        config.default_model is Some,
        config.log_level is Some,
        environment.os == other.os,
        environment.arch == other.arch,
    ensures
        configured(config, environment) == configured(config, other),
{
}

/// Only the trimmed values of the variables count, and empty and whitespace-only ones count as
/// missing.
pub proof fn law_variables_count_trimmed(
    config: TypeSafeClientConfig,
    environment: Environment,
    other: Environment,
)
    requires
        crate::env::env_value(crate::text::optional(environment.api_key)) == crate::env::env_value(
            crate::text::optional(other.api_key),
        ),
        crate::env::env_value(crate::text::optional(environment.base_url)) == crate::env::env_value(
            crate::text::optional(other.base_url),
        ),
        crate::env::env_value(crate::text::optional(environment.default_model))
            == crate::env::env_value(crate::text::optional(other.default_model)),
        crate::env::env_value(crate::text::optional(environment.log_level))
            == crate::env::env_value(crate::text::optional(other.log_level)),
        environment.os == other.os,
        environment.arch == other.arch,
    ensures
        configured(config, environment) == configured(config, other),
{
}

/// Where neither the options nor the environment say otherwise, a client has the defaults.
pub proof fn law_defaults(config: TypeSafeClientConfig, environment: Environment, key: String)
    requires
        config.api_key == Some(key),
        config.base_url is None,
        config.default_model is None,
        config.log_level is None,
        config.retry is None,
        config.timeout_ms is None,
        crate::env::env_value(crate::text::optional(environment.base_url)) is None,
        crate::env::env_value(crate::text::optional(environment.default_model)) is None,
        crate::env::env_value(crate::text::optional(environment.log_level)) is None,
    ensures
        configured(config, environment) matches Ok(client) && {
            &&& client.api_key == key@
            &&& client.base_url == DEFAULT_BASE_URL@
            &&& client.default_model == DEFAULT_MODEL@
            &&& client.log_level == LogLevel::Warn
            &&& client.retry == crate::retry::default_policy()
            &&& client.timeout_ms == 10_000
        },
{
    reveal_strlit("https://api.typesafe.ai");
    assert(DEFAULT_BASE_URL@.last() == 'i');
}

/// The API root of a client does not end in a slash.
pub proof fn law_base_url_has_no_trailing_slash(
    config: TypeSafeClientConfig,
    environment: Environment,
)
    ensures
        configured(config, environment) matches Ok(client) ==> client.base_url.len() == 0
            || client.base_url.last() != '/',
{
    crate::text::lemma_without_trailing_slashes(
        or_default(
            crate::env::code_or_env(config.base_url, environment.base_url),
            DEFAULT_BASE_URL@,
        ),
    );
}

/// Each client has a key, a positive timeout and a valid retry policy, and so has each call.
pub proof fn law_configured_clients_are_valid(
    config: TypeSafeClientConfig,
    environment: Environment,
    number: u64,
    method: Method,
    path: Seq<char>,
    body: Option<JsonView>,
    options: RequestOptions,
)
    ensures
        configured(config, environment) matches Ok(client) ==> {
            &&& client.timeout_ms > 0
            &&& client.retry.valid()
            &&& called(client, number, method, path, body, options) matches Ok(call)
                ==> call.timeout_ms > 0 && call.retry.valid()
        },
{
    crate::retry::lemma_default_policy_is_valid();
}

// ---------------------------------------------------------------------------
// Laws of options
// ---------------------------------------------------------------------------

/// A call with a timeout of its own has exactly that, shorter or longer than that of the client;
/// without one it has that of the client.
pub proof fn law_call_timeout(
    client: ClientView,
    number: u64,
    method: Method,
    path: Seq<char>,
    body: Option<JsonView>,
    options: RequestOptions,
    call: crate::exchange::CallView,
)
    requires
        called(client, number, method, path, body, options) == Ok::<
            crate::exchange::CallView,
            Seq<char>,
        >(call),
    ensures
        options.timeout_ms matches Some(ms) ==> call.timeout_ms == ms && ms > 0,
        options.timeout_ms is None ==> call.timeout_ms == client.timeout_ms,
{
}

/// A call goes to the path under the API root of the client, with the method, the body and the log
/// level that it is given.
pub proof fn law_call_is_what_was_asked(
    client: ClientView,
    number: u64,
    method: Method,
    path: Seq<char>,
    body: Option<JsonView>,
    options: RequestOptions,
    call: crate::exchange::CallView,
)
    requires
        called(client, number, method, path, body, options) == Ok::<
            crate::exchange::CallView,
            Seq<char>,
        >(call),
    ensures
        call.url == client.base_url + path,
        call.method == method,
        call.body == body,
        call.level == client.log_level,
        call.tag == "#"@ + crate::text::decimal(number as nat) + " "@ + method.name() + " "@ + path,
{
}

/// The policy of a call is that of the client, with each override of the call in its place.
pub proof fn law_call_policy(
    client: ClientView,
    number: u64,
    method: Method,
    path: Seq<char>,
    body: Option<JsonView>,
    options: RequestOptions,
    call: crate::exchange::CallView,
)
    requires
        called(client, number, method, path, body, options) == Ok::<
            crate::exchange::CallView,
            Seq<char>,
        >(call),
    ensures
        options.retry is None ==> call.retry == client.retry,
        options.retry matches Some(overrides) ==> crate::retry::applies(
            overrides,
            client.retry,
            call.retry,
        ),
{
    if let Some(overrides) = options.retry {
        crate::retry::law_overrides_apply_field_by_field(client.retry, overrides);
    }
}

/// A request is refused exactly if its timeout is zero or its overrides are not valid; the timeout
/// goes first.
pub proof fn law_refused_options(
    client: ClientView,
    number: u64,
    method: Method,
    path: Seq<char>,
    body: Option<JsonView>,
    options: RequestOptions,
)
    ensures
        called(client, number, method, path, body, options) is Err <==> options.timeout_ms == Some(
            0u64,
        ) || (options.retry matches Some(overrides) && !crate::retry::acceptable(overrides)),
        options.timeout_ms == Some(0u64) ==> called(client, number, method, path, body, options)
            == Err::<crate::exchange::CallView, Seq<char>>(
            "`timeout` must be a positive number of milliseconds, got 0."@,
        ),
{
    if let Some(overrides) = options.retry {
        crate::retry::law_overrides_apply_field_by_field(client.retry, overrides);
    }
    reveal_strlit("`");
    reveal_strlit("timeout");
    reveal_strlit("` must be a positive number of milliseconds, got ");
    reveal_strlit(".");
    reveal_strlit("`timeout` must be a positive number of milliseconds, got 0.");
    assert(crate::text::decimal(0) =~= seq!['0']);
    assert(not_positive("timeout"@, 0)->0
        =~= "`timeout` must be a positive number of milliseconds, got 0."@);
}

/// The headers of a call that are not the client's own are those of the client, and over them those
/// of the call: each as it was last set, unless it was removed.
pub proof fn law_call_headers(
    client: ClientView,
    number: u64,
    method: Method,
    path: Seq<char>,
    body: Option<JsonView>,
    options: RequestOptions,
    call: crate::exchange::CallView,
    name: Seq<char>,
)
    requires
        called(client, number, method, path, body, options) == Ok::<
            crate::exchange::CallView,
            Seq<char>,
        >(call),
        !crate::headers::same_name("Authorization"@, name),
        !crate::headers::same_name("Accept"@, name),
        !crate::headers::same_name("User-Agent"@, name),
        !crate::headers::same_name("X-TypeSafe-SDK"@, name),
        !crate::headers::same_name("X-TypeSafe-Runtime"@, name),
        !crate::headers::same_name("Content-Type"@, name),
        !crate::headers::same_name("X-TypeSafe-Retry-Count"@, name),
    ensures
        crate::headers::named(call.headers, name) == match crate::headers::last_setting(
            crate::headers::settings(client.default_headers) + crate::headers::header_changes(
                options.headers@,
            ),
            name,
        ) {
            Some(header) => seq![header],
            None => Seq::<HeaderText>::empty(),
        },
{
    let changes = crate::headers::header_changes(options.headers@);
    law_call_headers_over_defaults(client, changes, body is Some, name);
}

/// A request whose questions are right goes to `POST /v1/systemone` with its body, and one with a
/// wrong question is refused for that.
pub proof fn law_system_one_call(
    client: ClientView,
    number: u64,
    request: SystemOneRequest,
    options: RequestOptions,
)
    ensures
        ({
            let wrong = crate::questions::wrong_questions(
                crate::questions::question_entries(request.questions),
            );
            let made = system_one_call(client, number, request, options);
            &&& wrong matches Some(message) ==> made == Err::<
                crate::exchange::CallView,
                Seq<char>,
            >(message)
            &&& wrong is None ==> made == called(
                client,
                number,
                Method::Post,
                "/v1/systemone"@,
                Some(
                    JsonView::Object(crate::types::request_body(request, client.default_model)),
                ),
                options,
            )
        }),
{
}

/// Where the settings of a client come from: the explicit option, or else the trimmed variable, or
/// else the default.
pub proof fn law_settings(config: TypeSafeClientConfig, environment: Environment, client: ClientView)
    requires
        configured(config, environment) == Ok::<ClientView, Seq<char>>(client),
    ensures
        config.api_key matches Some(key) ==> client.api_key == key@,
        config.api_key is None ==> Some(client.api_key) == crate::env::env_value(
            crate::text::optional(environment.api_key),
        ),
        config.default_model matches Some(model) ==> client.default_model == model@,
        config.default_model is None ==> client.default_model == match crate::env::env_value(
            crate::text::optional(environment.default_model),
        ) {
            Some(model) => model,
            None => "jev-latest"@,
        },
        ({
            let given = match config.base_url {
                Some(url) => url@,
                None => match crate::env::env_value(crate::text::optional(environment.base_url)) {
                    Some(url) => url,
                    None => "https://api.typesafe.ai"@,
                },
            };
            &&& client.base_url.len() <= given.len()
            &&& client.base_url == given.take(client.base_url.len() as int)
            &&& client.base_url.len() == 0 || client.base_url.last() != '/'
            &&& forall|i: int|
                client.base_url.len() <= i < given.len() ==> #[trigger] given[i] == '/'
        }),
        config.log_level matches Some(level) ==> client.log_level == level,
        config.log_level is None ==> match crate::env::env_value(
            crate::text::optional(environment.log_level),
        ) {
            Some(name) => client.log_level.name() == name,
            None => client.log_level == LogLevel::Warn,
        },
        config.timeout_ms matches Some(ms) ==> client.timeout_ms == ms,
        config.timeout_ms is None ==> client.timeout_ms == 10_000,
        config.retry is None ==> client.retry == crate::retry::default_policy(),
        config.retry matches Some(overrides) ==> crate::retry::applies(
            overrides,
            crate::retry::default_policy(),
            client.retry,
        ),
        client.default_headers == crate::headers::header_texts(config.default_headers@),
        client.runtime == "rust ("@ + environment.os@ + "; "@ + environment.arch@ + ")"@,
{
    if let Some(overrides) = config.retry {
        crate::retry::law_overrides_apply_field_by_field(crate::retry::default_policy(), overrides);
    }
    crate::text::lemma_only_slashes_are_cut(
        or_default(
            crate::env::code_or_env(config.base_url, environment.base_url),
            DEFAULT_BASE_URL@,
        ),
    );
}

/// A configuration makes a client exactly if it has a key, a known log level, acceptable overrides
/// and a positive timeout.
pub proof fn law_accepted_configurations(config: TypeSafeClientConfig, environment: Environment)
    ensures
        configured(config, environment) is Ok <==> {
            &&& config.api_key is Some || crate::env::env_value(
                crate::text::optional(environment.api_key),
            ) is Some
            &&& config.log_level is None ==> match crate::env::env_value(
                crate::text::optional(environment.log_level),
            ) {
                Some(name) => crate::logging::level_named(name) is Some,
                None => true,
            }
            &&& config.retry matches Some(overrides) ==> crate::retry::acceptable(overrides)
            &&& config.timeout_ms != Some(0u64)
        },
{
    if let Some(overrides) = config.retry {
        crate::retry::law_overrides_apply_field_by_field(crate::retry::default_policy(), overrides);
    }
}

/// Without a key a configuration is refused for that, whatever else is in it; a log level that is
/// none, in the environment, is refused by its name.
pub proof fn law_refused_configurations(config: TypeSafeClientConfig, environment: Environment)
    ensures
        ({
            let key = crate::env::env_value(crate::text::optional(environment.api_key));
            let level = crate::env::env_value(crate::text::optional(environment.log_level));
            let refused = configured(config, environment);
            &&& config.api_key is None && key is None ==> refused == Err::<ClientView, Seq<char>>(
                "No API key was provided. Pass `api_key` to the TypeSafeClient constructor or set the "@
                    + "TYPESAFE_API_KEY"@ + " environment variable."@,
            )
            &&& (config.api_key is Some || key is Some) && config.log_level is None ==> (
            level matches Some(name) ==> (crate::logging::level_named(name) is None ==> refused
                == Err::<ClientView, Seq<char>>(
                "Invalid log level \""@ + name + "\" from "@ + "TYPESAFE_LOG_LEVEL"@
                    + ". Expected one of: debug, info, warn, error, off."@,
            )))
        }),
{
}

} // verus!
