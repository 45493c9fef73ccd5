//! Calls of the API, driven without a network: request shape, headers, configuration, validation,
//! errors, models, logging, retries, timeouts, and cancellation.

use reqwest::header::{HeaderMap, HeaderName, HeaderValue};
use typesafe::json::parse_json;
use typesafe::models::unwrap_models;
use typesafe::retry::retry_after_texts;
use typesafe::{
    choice, describe_runtime, noul, noul_with_criteria, score, ApiCall, ApiErrorKind, Binary64, Environment, Error,
    GivenNumber, HttpRequest, Json, LogEntry, LogLevel, Method, ModelCard, Outcome, Questions, RawResponse, Report,
    RequestCounter, RequestOptions, RetryAfterNumbers, RetryOverrides, RetryPolicy, Step, SystemOneRequest, TypeSafeClient,
    TypeSafeClientConfig, WithResponse, DEFAULT_BASE_URL, DEFAULT_MODEL, DEFAULT_TIMEOUT_MS, LOG_LEVELS, VERSION,
};

const API_KEY: &str = "test-key";
const BASE_URL: &str = "http://server.test";
const SECRET: &str = "sk-test-1234567890";

// ---------------------------------------------------------------------------
// Values
// ---------------------------------------------------------------------------

fn json(text: &str) -> Json {
    parse_json(text).expect("valid JSON")
}

fn text(text: &str) -> Json {
    Json::String(text.to_string())
}

fn number(value: f64) -> Binary64 {
    Binary64 { bits: value.to_bits() }
}

fn given(value: f64) -> Option<GivenNumber> {
    Some(GivenNumber { value: number(value), text: value.to_string() })
}

fn surroundings() -> Environment {
    Environment {
        api_key: None,
        base_url: None,
        default_model: None,
        log_level: None,
        os: "linux".to_string(),
        arch: "x86_64".to_string(),
    }
}

/// Retry overrides with small backoff delays and no jitter.
fn fast_retry() -> RetryOverrides {
    RetryOverrides {
        backoff_initial_ms: given(1.0),
        backoff_max_ms: given(5.0),
        backoff_jitter: given(0.0),
        ..Default::default()
    }
}

fn fast_retry_max(max_retries: u32) -> RetryOverrides {
    RetryOverrides { max_retries: Some(max_retries), ..fast_retry() }
}

fn config() -> TypeSafeClientConfig {
    TypeSafeClientConfig {
        base_url: Some(BASE_URL.to_string()),
        api_key: Some(API_KEY.to_string()),
        retry: Some(fast_retry()),
        ..Default::default()
    }
}

fn with_key() -> TypeSafeClientConfig {
    TypeSafeClientConfig { api_key: Some("k".to_string()), ..Default::default() }
}

fn make(config: TypeSafeClientConfig) -> TypeSafeClient {
    TypeSafeClient::new(config, &surroundings()).ok().expect("a valid configuration")
}

fn refused(config: TypeSafeClientConfig, environment: &Environment) -> Error {
    TypeSafeClient::new(config, environment).err().expect("an invalid configuration")
}

fn client() -> TypeSafeClient {
    make(config())
}

fn client_with_retry(retry: RetryOverrides) -> TypeSafeClient {
    make(TypeSafeClientConfig { retry: Some(retry), ..config() })
}

fn client_without_retries() -> TypeSafeClient {
    client_with_retry(fast_retry_max(0))
}

fn logging_client(level: LogLevel) -> TypeSafeClient {
    make(TypeSafeClientConfig {
        api_key: Some(SECRET.to_string()),
        log_level: Some(level),
        retry: Some(fast_retry_max(0)),
        ..config()
    })
}

fn none() -> RequestOptions {
    RequestOptions::default()
}

fn one_question() -> Questions {
    let mut questions = Questions::new();
    questions.insert("q1".to_string(), noul(text("x")));
    questions
}

fn request() -> SystemOneRequest {
    SystemOneRequest::new(text("s"), one_question())
}

fn system_one_response() -> Json {
    json("{\"model\": \"m\", \"answers\": {\"q1\": {\"type\": \"noul\", \"noul\": 0.5}}, \"usage\": {\"input_tokens\": 1, \"output_tokens\": 1}}")
}

fn models_response() -> Json {
    json("{\"models\": [{\"name\": \"m\", \"description\": \"d\", \"release_date\": \"2026\"}]}")
}

fn raw(status: u16, body: &str, headers: &[(&str, &str)]) -> Outcome {
    let mut map = HeaderMap::new();
    for (name, value) in headers {
        map.insert(HeaderName::from_bytes(name.as_bytes()).unwrap(), HeaderValue::from_str(value).unwrap());
    }
    Outcome::Completed(RawResponse { status, headers: map, body: body.as_bytes().to_vec() })
}

fn answer(status: u16, body: &Json) -> Outcome {
    raw(status, &body.to_string(), &[("content-type", "application/json")])
}

fn ok_models() -> Outcome {
    answer(200, &models_response())
}

fn status(status: u16) -> Outcome {
    raw(status, "{}", &[])
}

// ---------------------------------------------------------------------------
// The driver
// ---------------------------------------------------------------------------

/// What a call did.
struct Run {
    result: Result<RawResponse, Error>,
    requests: Vec<HttpRequest>,
    waits: Vec<u64>,
    entries: Vec<LogEntry>,
}

impl Run {
    fn messages(&self, level: LogLevel) -> Vec<String> {
        self.entries.iter().filter(|entry| entry.level == level).map(|entry| entry.message.clone()).collect()
    }

    fn info(&self) -> Vec<String> {
        self.messages(LogLevel::Info)
    }

    fn error(&self) -> &Error {
        match &self.result {
            Ok(_) => panic!("expected an error"),
            Err(error) => error,
        }
    }

    fn response(&self) -> &RawResponse {
        match &self.result {
            Ok(response) => response,
            Err(error) => panic!("{error:?}"),
        }
    }
}

fn numbers(outcome: &Outcome) -> RetryAfterNumbers {
    let parse = |text: Option<String>| text.and_then(|text| text.parse::<f64>().ok()).map(number);
    match outcome {
        Outcome::Completed(response) => {
            let texts = retry_after_texts(&response.headers);
            RetryAfterNumbers { ms: parse(texts.ms), seconds: parse(texts.seconds) }
        }
        _ => RetryAfterNumbers { ms: None, seconds: None },
    }
}

/// Perform the steps of a call. `respond` gives what comes of each attempt, and the caller cancels
/// during the wait with the number `cancel_wait`.
fn drive(call: &ApiCall, mut respond: impl FnMut(usize) -> Outcome, cancel_wait: Option<usize>) -> Run {
    let (mut requests, mut waits) = (Vec::new(), Vec::new());
    let (mut entries, mut step) = call.start();
    loop {
        let (more, next) = match step {
            Step::Send(sending, request) => {
                let outcome = respond(requests.len());
                requests.push(request);
                let report = Report { numbers: numbers(&outcome), outcome, elapsed_ms: 7, random: number(0.5) };
                sending.attempted(report)
            }
            Step::Wait(waiting, delay) => {
                let cancelled = cancel_wait == Some(waits.len());
                waits.push(delay);
                waiting.waited(cancelled)
            }
            Step::Done(result) => return Run { result, requests, waits, entries },
        };
        entries.extend(more);
        step = next;
    }
}

fn run(call: &ApiCall, respond: impl FnMut(usize) -> Outcome) -> Run {
    drive(call, respond, None)
}

/// Run a call whose attempts turn out as listed; the last one repeats.
fn sequence(call: &ApiCall, outcomes: Vec<fn() -> Outcome>) -> Run {
    run(call, |attempt| outcomes[attempt.min(outcomes.len() - 1)]())
}

/// The counter of a client that has made no request.
fn first() -> RequestCounter {
    RequestCounter::new()
}

/// A counter whose next number is `number`.
fn before(number: u64) -> RequestCounter {
    let mut counter = RequestCounter::new();
    (1..number).for_each(|made| assert_eq!(counter.next(), made));
    counter
}

fn list(client: &TypeSafeClient, options: RequestOptions) -> ApiCall {
    client.models().list(&mut first(), &options).unwrap_or_else(|error| panic!("{error:?}"))
}

fn ask(client: &TypeSafeClient, request: &SystemOneRequest) -> ApiCall {
    client.system_one(&mut first(), request, &none()).unwrap_or_else(|error| panic!("{error:?}"))
}

fn models(call: &ApiCall, run: &Run) -> Vec<ModelCard> {
    let (_, parsed) = call.read_body(run.response());
    unwrap_models(parsed.as_ref()).unwrap()
}

fn header<'a>(request: &'a HttpRequest, name: &str) -> Option<&'a str> {
    request.headers.get(name).map(|value| value.to_str().unwrap())
}

fn body(request: &HttpRequest) -> Json {
    json(request.body.as_ref().expect("a body"))
}

fn sent_body(request: &SystemOneRequest) -> Json {
    let call = ask(&client(), request);
    let run = run(&call, |_| answer(200, &system_one_response()));
    assert_eq!(run.requests.len(), 1);
    body(&run.requests[0])
}

fn kind_of(error: &Error) -> ApiErrorKind {
    error.as_api_error().unwrap_or_else(|| panic!("expected an API error, got {error:?}")).kind()
}

// ---------------------------------------------------------------------------
// Request shape
// ---------------------------------------------------------------------------

#[test]
fn posts_state_questions_and_model_to_v1_systemone() {
    let client = make(TypeSafeClientConfig { default_model: Some("jev-latest".to_string()), ..config() });
    let call = ask(&client, &SystemOneRequest::new(json("{\"a\": 1}"), one_question()));
    let run = run(&call, |_| answer(200, &system_one_response()));

    assert_eq!(run.requests.len(), 1);
    assert_eq!(run.requests[0].method, Method::Post);
    assert_eq!(run.requests[0].method.as_str(), "POST");
    assert_eq!(run.requests[0].url, format!("{BASE_URL}/v1/systemone"));
    assert_eq!(
        body(&run.requests[0]),
        json("{\"state\": {\"a\": 1}, \"questions\": {\"q1\": {\"type\": \"noul\", \"instructions\": \"x\"}}, \"model\": \"jev-latest\"}")
    );
    assert_eq!(run.response().parsed_body(), Some(system_one_response()));
}

#[test]
fn per_request_model_overrides_the_client_default_model() {
    let client = make(TypeSafeClientConfig { default_model: Some("client-default".to_string()), ..config() });
    assert_eq!(client.default_model(), "client-default");

    let model = |request: &SystemOneRequest| {
        let run = run(&ask(&client, request), |_| answer(200, &system_one_response()));
        body(&run.requests[0]).get("model").unwrap().clone()
    };
    assert_eq!(model(&request()), text("client-default"));
    assert_eq!(model(&request().model("per-call".to_string())), text("per-call"));
}

#[test]
fn preserves_null_state_instructions_and_criteria() {
    let mut questions = Questions::new();
    questions.insert("noul".to_string(), noul_with_criteria(Json::Null, Some(Json::Null), Some(Json::Null)));
    questions.insert(
        "choice".to_string(),
        choice(Json::Null, vec![("yes".to_string(), Json::Null), ("no".to_string(), Json::Null)]),
    );
    questions.insert("score".to_string(), score(Json::Null, vec![Json::Null, text("high")]));
    let body = sent_body(&SystemOneRequest::new(Json::Null, questions));

    assert_eq!(body.get("state"), Some(&Json::Null));
    assert_eq!(
        body.get("questions"),
        Some(&json(
            "{\"noul\": {\"type\": \"noul\", \"instructions\": null, \"criteria\": {\"true\": null, \"false\": null}},
              \"choice\": {\"type\": \"choice\", \"instructions\": null, \"criteria\": {\"yes\": null, \"no\": null}},
              \"score\": {\"type\": \"score\", \"instructions\": null, \"criteria\": [null, \"high\"]}}"
        ))
    );
}

#[test]
fn preserves_json_arrays_and_objects_in_state_and_descriptions() {
    let rich = json("{\"summary\": \"warm\", \"examples\": [\"hi!\", \"welcome\"]}");
    let state = json("[null, {\"messages\": [\"hello\"]}]");
    let instructions = json("[null, {\"examples\": [1, false]}]");
    let mut questions = Questions::new();
    questions.insert("q".to_string(), choice(instructions.clone(), vec![("friendly".to_string(), rich.clone())]));
    let body = sent_body(&SystemOneRequest::new(state.clone(), questions));

    assert_eq!(body.get("state"), Some(&state));
    let question = body.get("questions").unwrap().get("q").unwrap();
    assert_eq!(question.get("instructions"), Some(&instructions));
    assert_eq!(question.get("criteria").unwrap().get("friendly"), Some(&rich));
}

#[test]
fn forwards_extra_fields_including_null() {
    let mut with_extra = request();
    with_extra.extra.insert("future_option".to_string(), Json::Null);
    with_extra.extra.insert("nested".to_string(), json("{\"enabled\": true}"));
    let first = sent_body(&with_extra);
    let second = sent_body(&request());

    assert_eq!(first.get("future_option"), Some(&Json::Null));
    assert_eq!(first.get("nested"), Some(&json("{\"enabled\": true}")));
    assert!(second.get("future_option").is_none());
}

#[test]
fn sends_a_question_named_proto_as_an_ordinary_key() {
    let mut questions = Questions::new();
    questions.insert("__proto__".to_string(), noul(text("?")));
    questions.insert("score".to_string(), score(text("?"), vec![text("no"), text("yes")]));
    let body = sent_body(&SystemOneRequest::new(text("s"), questions));

    let questions = body.get("questions").unwrap();
    assert_eq!(questions.get("__proto__"), Some(&json("{\"type\": \"noul\", \"instructions\": \"?\"}")));
    assert_eq!(questions.get("score").unwrap().get("criteria"), Some(&json("[\"no\", \"yes\"]")));
}

// ---------------------------------------------------------------------------
// Headers
// ---------------------------------------------------------------------------

#[test]
fn sends_auth_and_identifying_headers_on_post() {
    let run = run(&ask(&client(), &request()), |_| answer(200, &system_one_response()));
    let sent = &run.requests[0];
    let sdk = format!("typesafe-sdk-rust/{VERSION}");
    assert_eq!(header(sent, "authorization"), Some("Bearer test-key"));
    assert_eq!(header(sent, "accept"), Some("application/json"));
    assert_eq!(header(sent, "content-type"), Some("application/json"));
    assert_eq!(header(sent, "user-agent"), Some(sdk.as_str()));
    assert_eq!(header(sent, "x-typesafe-sdk"), Some(sdk.as_str()));
    assert_eq!(header(sent, "x-typesafe-runtime"), Some(describe_runtime("linux", "x86_64").as_str()));
    assert!(describe_runtime("linux", "x86_64").starts_with("rust ("));
}

#[test]
fn sends_no_content_type_on_get() {
    let run = run(&list(&client(), none()), |_| ok_models());
    assert_eq!(run.requests.len(), 1);
    assert_eq!(run.requests[0].method.as_str(), "GET");
    assert_eq!(run.requests[0].url, format!("{BASE_URL}/v1/models"));
    assert_eq!(run.requests[0].body, None);
    assert_eq!(header(&run.requests[0], "authorization"), Some("Bearer test-key"));
    assert_eq!(header(&run.requests[0], "content-type"), None);
}

#[test]
fn per_call_headers_win_over_default_headers_and_never_replace_auth() {
    let client = make(TypeSafeClientConfig {
        default_headers: vec![
            ("X-Trace".to_string(), "client".to_string()),
            ("X-Only-Default".to_string(), "yes".to_string()),
            ("Authorization".to_string(), "nope".to_string()),
        ],
        ..config()
    });
    let options = RequestOptions {
        headers: vec![
            ("X-Trace".to_string(), Some("call".to_string())),
            ("X-Only-Call".to_string(), Some("yes".to_string())),
        ],
        ..none()
    };
    let run = run(&list(&client, options), |_| ok_models());

    assert_eq!(header(&run.requests[0], "x-trace"), Some("call"));
    assert_eq!(header(&run.requests[0], "x-only-default"), Some("yes"));
    assert_eq!(header(&run.requests[0], "x-only-call"), Some("yes"));
    assert_eq!(header(&run.requests[0], "authorization"), Some("Bearer test-key"));
}

#[test]
fn per_call_none_header_removes_a_default_header() {
    let client = make(TypeSafeClientConfig {
        default_headers: vec![("X-Team".to_string(), "default".to_string())],
        ..config()
    });
    let options = RequestOptions { headers: vec![("x-team".to_string(), None)], ..none() };
    let run = run(&list(&client, options), |_| ok_models());
    assert_eq!(header(&run.requests[0], "x-team"), None);
}

#[test]
fn replaces_mixed_case_defaults_and_protects_every_sdk_header_on_every_attempt() {
    let pair = |name: &str, value: &str| (name.to_string(), value.to_string());
    let client = make(TypeSafeClientConfig {
        api_key: Some("secret".to_string()),
        default_headers: vec![
            pair("X-Team", "default"),
            pair("authorization", "bad"),
            pair("content-type", "text/plain"),
            pair("x-typesafe-retry-count", "99"),
        ],
        retry: Some(RetryOverrides { max_retries: Some(1), backoff_initial_ms: given(0.0), ..Default::default() }),
        ..config()
    });
    let call = |name: &str, value: &str| (name.to_string(), Some(value.to_string()));
    let options = RequestOptions {
        headers: vec![
            call("x-team", "call"),
            call("AUTHORIZATION", "bad-again"),
            call("ACCEPT", "text/plain"),
            call("USER-AGENT", "bad"),
            call("X-TYPESAFE-SDK", "bad"),
            call("X-TYPESAFE-RUNTIME", "bad"),
            call("CONTENT-TYPE", "text/html"),
            call("X-TYPESAFE-RETRY-COUNT", "88"),
        ],
        ..none()
    };
    let call = client.system_one(&mut first(), &request(), &options).ok().unwrap();
    let run = sequence(&call, vec![|| status(503), || answer(200, &system_one_response())]);

    assert_eq!(run.requests.len(), 2);
    for (index, request) in run.requests.iter().enumerate() {
        let all = |name: &str| -> Vec<&str> {
            request.headers.get_all(name).iter().map(|value| value.to_str().unwrap()).collect()
        };
        assert_eq!(all("authorization"), ["Bearer secret"]);
        assert_eq!(all("x-team"), ["call"]);
        assert_eq!(all("content-type"), ["application/json"]);
        assert_eq!(all("accept"), ["application/json"]);
        assert_eq!(all("user-agent"), [format!("typesafe-sdk-rust/{VERSION}")]);
        assert_eq!(all("x-typesafe-sdk"), [format!("typesafe-sdk-rust/{VERSION}")]);
        assert_eq!(all("x-typesafe-runtime"), [describe_runtime("linux", "x86_64")]);
        let retry_count: &[&str] = if index == 0 { &[] } else { &["1"] };
        assert_eq!(all("x-typesafe-retry-count"), retry_count);
    }
}

#[test]
fn does_not_send_a_caller_content_type_or_retry_count_on_get() {
    let client = make(TypeSafeClientConfig {
        default_headers: vec![
            ("content-type".to_string(), "bad".to_string()),
            ("x-typesafe-retry-count".to_string(), "99".to_string()),
        ],
        ..config()
    });
    let run = run(&list(&client, none()), |_| ok_models());
    assert_eq!(header(&run.requests[0], "content-type"), None);
    assert_eq!(header(&run.requests[0], "x-typesafe-retry-count"), None);
}

#[test]
fn an_invalid_header_ends_a_call_before_any_request() {
    let options = RequestOptions { headers: vec![("bad name".to_string(), Some("x".to_string()))], ..none() };
    let run1 = run(&list(&client(), options), |_| ok_models());
    assert!(run1.requests.is_empty());
    assert_eq!(run1.error().to_string(), "The header name `bad name` is not valid.");

    let options = RequestOptions { headers: vec![("X-Bad".to_string(), Some("a\nb".to_string()))], ..none() };
    let run2 = run(&list(&client(), options), |_| ok_models());
    assert!(run2.requests.is_empty());
    assert_eq!(run2.error().to_string(), "The value of the header `x-bad` is not valid.");
}

// ---------------------------------------------------------------------------
// Configuration
// ---------------------------------------------------------------------------

#[test]
fn removes_trailing_slashes_from_the_configured_base_url() {
    let client = make(TypeSafeClientConfig { base_url: Some(format!("{BASE_URL}///")), ..config() });
    assert_eq!(client.base_url(), BASE_URL);
    let run = run(&list(&client, none()), |_| ok_models());
    assert_eq!(run.requests[0].url, format!("{BASE_URL}/v1/models"));
}

#[test]
fn rejects_a_timeout_of_zero_in_the_config() {
    let error = refused(TypeSafeClientConfig { timeout_ms: Some(0), ..with_key() }, &surroundings());
    assert!(matches!(error, Error::TypeSafe(_)));
    assert_eq!(error.to_string(), "`timeout` must be a positive number of milliseconds, got 0.");
}

#[test]
fn rejects_a_per_call_timeout_of_zero_before_any_request() {
    let options = RequestOptions { timeout_ms: Some(0), ..none() };
    let error = client().models().list(&mut first(), &options).err().unwrap();
    assert!(matches!(error, Error::TypeSafe(_)));
    assert!(error.to_string().contains("`timeout`"));
}

#[test]
fn uses_the_defaults_when_config_and_environment_are_empty() {
    let client = make(with_key());
    assert_eq!(client.base_url(), DEFAULT_BASE_URL);
    assert_eq!(client.default_model(), DEFAULT_MODEL);
    assert_eq!(client.default_model(), "jev-latest");
    assert_eq!(client.log_level(), LogLevel::Warn);
    assert_eq!(*client.retry(), RetryPolicy::default());
    assert_eq!(client.timeout_ms(), DEFAULT_TIMEOUT_MS);
    assert_eq!(client.timeout_ms(), 10_000);
}

#[test]
fn missing_api_key_error_names_the_environment_variable() {
    let error = refused(Default::default(), &surroundings());
    assert!(matches!(error, Error::TypeSafe(_)));
    assert_eq!(
        error.to_string(),
        "No API key was provided. Pass `api_key` to the TypeSafeClient constructor or set the TYPESAFE_API_KEY environment variable."
    );
    assert_eq!(typesafe::env::API_KEY, "TYPESAFE_API_KEY");
}

#[test]
fn reads_every_setting_from_the_environment() {
    let environment = Environment {
        api_key: Some("env-key".to_string()),
        base_url: Some(BASE_URL.to_string()),
        default_model: Some("env-model".to_string()),
        log_level: Some("error".to_string()),
        ..surroundings()
    };
    let client = TypeSafeClient::new(Default::default(), &environment).ok().unwrap();
    assert_eq!(client.base_url(), BASE_URL);
    assert_eq!(client.default_model(), "env-model");
    assert_eq!(client.log_level(), LogLevel::Error);

    let run = run(&ask(&client, &request()), |_| answer(200, &system_one_response()));
    assert_eq!(header(&run.requests[0], "authorization"), Some("Bearer env-key"));
    assert_eq!(body(&run.requests[0]).get("model"), Some(&text("env-model")));
}

#[test]
fn explicit_config_wins_over_the_environment() {
    let environment = Environment {
        api_key: Some("env-key".to_string()),
        base_url: Some("https://env.test".to_string()),
        default_model: Some("env-model".to_string()),
        log_level: Some("debug".to_string()),
        ..surroundings()
    };
    let config = TypeSafeClientConfig {
        api_key: Some("code-key".to_string()),
        base_url: Some(BASE_URL.to_string()),
        default_model: Some("code-model".to_string()),
        log_level: Some(LogLevel::Error),
        ..Default::default()
    };
    let client = TypeSafeClient::new(config, &environment).ok().unwrap();
    assert_eq!(client.base_url(), BASE_URL);
    assert_eq!(client.default_model(), "code-model");
    assert_eq!(client.log_level(), LogLevel::Error);

    let run = run(&ask(&client, &request()), |_| answer(200, &system_one_response()));
    assert_eq!(header(&run.requests[0], "authorization"), Some("Bearer code-key"));
    assert_eq!(body(&run.requests[0]).get("model"), Some(&text("code-model")));
}

#[test]
fn blank_environment_values_are_ignored() {
    let blank = Environment {
        api_key: Some("k".to_string()),
        base_url: Some("   ".to_string()),
        default_model: Some(String::new()),
        log_level: Some(String::new()),
        ..surroundings()
    };
    let client = TypeSafeClient::new(Default::default(), &blank).ok().unwrap();
    assert_eq!(client.base_url(), DEFAULT_BASE_URL);
    assert_eq!(client.default_model(), DEFAULT_MODEL);
    assert_eq!(client.log_level(), LogLevel::Warn);

    let keyless = Environment { api_key: Some("  ".to_string()), ..blank };
    assert!(matches!(refused(Default::default(), &keyless), Error::TypeSafe(_)));
}

#[test]
fn environment_values_are_trimmed() {
    let environment = Environment {
        api_key: Some("\t key\u{a0}\n".to_string()),
        log_level: Some(" info ".to_string()),
        ..surroundings()
    };
    let client = TypeSafeClient::new(Default::default(), &environment).ok().unwrap();
    assert_eq!(client.log_level(), LogLevel::Info);
    let run = run(&list(&client, none()), |_| ok_models());
    assert_eq!(header(&run.requests[0], "authorization"), Some("Bearer key"));
}

#[test]
fn removes_trailing_slashes_from_the_base_url_of_either_source() {
    let environment = Environment { base_url: Some("https://example.test///".to_string()), ..surroundings() };
    assert_eq!(TypeSafeClient::new(with_key(), &environment).ok().unwrap().base_url(), "https://example.test");

    let explicit = TypeSafeClientConfig { base_url: Some("https://x.test/".to_string()), ..with_key() };
    assert_eq!(TypeSafeClient::new(explicit, &environment).ok().unwrap().base_url(), "https://x.test");
}

#[test]
fn accepts_each_log_level_from_config_and_environment() {
    let mut environment = surroundings();
    for level in LOG_LEVELS {
        let explicit = TypeSafeClientConfig { log_level: Some(level), ..with_key() };
        assert_eq!(TypeSafeClient::new(explicit, &environment).ok().unwrap().log_level(), level);

        environment.log_level = Some(level.as_str().to_string());
        assert_eq!(TypeSafeClient::new(with_key(), &environment).ok().unwrap().log_level(), level);
    }
}

#[test]
fn rejects_an_invalid_log_level_from_the_environment() {
    let environment = Environment { log_level: Some("loud".to_string()), ..surroundings() };
    let error = refused(with_key(), &environment);
    assert!(matches!(error, Error::TypeSafe(_)));
    assert_eq!(
        error.to_string(),
        "Invalid log level \"loud\" from TYPESAFE_LOG_LEVEL. Expected one of: debug, info, warn, error, off."
    );

    // An explicit level wins, so the invalid environment value is not read.
    let explicit = TypeSafeClientConfig { log_level: Some(LogLevel::Info), ..with_key() };
    assert_eq!(TypeSafeClient::new(explicit, &environment).ok().unwrap().log_level(), LogLevel::Info);
}

// ---------------------------------------------------------------------------
// Validation before any request
// ---------------------------------------------------------------------------

#[test]
fn rejects_empty_questions_before_any_request() {
    let empty = SystemOneRequest::new(text("s"), Questions::new());
    let error = client().system_one(&mut first(), &empty, &none()).err().unwrap();
    assert!(matches!(error, Error::TypeSafe(_)));
    assert_eq!(error.to_string(), "At least one question is required.");
}

#[test]
fn rejects_a_score_with_fewer_than_two_criteria_before_any_request() {
    let client = client();
    for (criteria, message) in [
        (vec![], "Score question \"q\" has 0 criteria; at least two scores are required."),
        (vec![text("only")], "Score question \"q\" has 1 criteria; at least two scores are required."),
    ] {
        let mut questions = Questions::new();
        questions.insert("q".to_string(), score(text("?"), criteria));
        let request = SystemOneRequest::new(text("s"), questions);
        let error = client.system_one(&mut first(), &request, &none()).err().unwrap();
        assert!(matches!(error, Error::TypeSafe(_)));
        assert_eq!(error.to_string(), message);
    }
}

#[test]
fn questions_are_validated_before_options() {
    let empty = SystemOneRequest::new(text("s"), Questions::new());
    let options = RequestOptions { timeout_ms: Some(0), ..none() };
    let error = client().system_one(&mut first(), &empty, &options).err().unwrap();
    assert_eq!(error.to_string(), "At least one question is required.");
}

#[test]
fn an_unexpected_result_is_described() {
    let error = typesafe::client::unexpected_result("missing field `model`");
    assert!(matches!(error, Error::TypeSafe(_)));
    assert_eq!(error.to_string(), "Unexpected response shape from POST /v1/systemone: missing field `model`.");
}

// ---------------------------------------------------------------------------
// API errors
// ---------------------------------------------------------------------------

#[test]
fn maps_each_status_to_its_api_error_kind() {
    for (code, kind) in [
        (400, ApiErrorKind::BadRequest),
        (401, ApiErrorKind::Authentication),
        (403, ApiErrorKind::PermissionDenied),
        (404, ApiErrorKind::NotFound),
        (422, ApiErrorKind::UnprocessableEntity),
        (429, ApiErrorKind::RateLimit),
        (500, ApiErrorKind::InternalServer),
        (503, ApiErrorKind::InternalServer),
        (418, ApiErrorKind::Other),
    ] {
        let nope = json("{\"message\": \"nope\"}");
        let run = run(&list(&client_without_retries(), none()), |_| answer(code, &nope));
        let api = run.error().as_api_error().unwrap();
        assert!(matches!(run.error(), Error::Api(_)));
        assert_eq!(api.status, code);
        assert_eq!(api.kind(), kind, "{code}");
        assert_eq!(api.body, Some(nope));
        assert_eq!(run.error().to_string(), format!("{code} nope"));
    }
}

#[test]
fn extracts_the_error_message_from_the_body() {
    let cases = [
        (401, "{\"error\": \"bad key\"}", "401 bad key"),
        (401, "{\"error\": {\"message\": \"nested\"}}", "401 nested"),
        (400, "{\"detail\": \"detail text\"}", "400 detail text"),
        (
            422,
            "{\"detail\": [{\"loc\": [\"body\", \"questions\", \"q1\"], \"msg\": \"field required\"}]}",
            "422 questions.q1: field required",
        ),
        (400, "plain text", "400 plain text"),
        (500, "", "500 status code (no body)"),
    ];
    for (code, body, message) in cases {
        let run = run(&list(&client_without_retries(), none()), |_| raw(code, body, &[]));
        assert_eq!(run.error().to_string(), message);
    }
}

#[test]
fn api_error_has_the_request_id_and_the_headers() {
    let run1 = run(&ask(&client(), &request()), |_| {
        raw(400, "{\"message\": \"bad\"}", &[("x-typesafe-request-id", "req_err")])
    });
    let api = run1.error().as_api_error().unwrap();
    assert_eq!(api.request_id.as_deref(), Some("req_err"));
    assert_eq!(api.headers.get("x-typesafe-request-id").unwrap(), "req_err");

    let run2 = run(&list(&client(), none()), |_| status(404));
    assert_eq!(run2.error().as_api_error().unwrap().request_id, None);
}

#[test]
fn rate_limit_error_gives_retry_after_in_milliseconds() {
    let limited = || raw(429, "{}", &[("retry-after", "7")]);
    let run = run(&list(&client_without_retries(), none()), |_| limited());
    let api = run.error().as_api_error().unwrap();
    assert_eq!(api.kind(), ApiErrorKind::RateLimit);
    assert_eq!(api.retry_after_ms(&numbers(&limited())), Some(7000));
}

#[test]
fn rate_limit_error_without_retry_after_gives_none() {
    let run = run(&list(&client_without_retries(), none()), |_| status(429));
    assert_eq!(run.error().as_api_error().unwrap().retry_after_ms(&numbers(&status(429))), None);
}

// ---------------------------------------------------------------------------
// Models
// ---------------------------------------------------------------------------

#[test]
fn models_list_parses_the_documented_response() {
    let call = list(&client(), none());
    let run1 = run(&call, |_| ok_models());
    assert_eq!(
        models(&call, &run1),
        [ModelCard { name: "m".to_string(), description: "d".to_string(), release_date: "2026".to_string() }]
    );

    let run2 = run(&call, |_| raw(200, "{\"models\": []}", &[]));
    assert!(models(&call, &run2).is_empty());
    assert_eq!(run2.response().status, 200);
}

#[test]
fn models_list_fails_clearly_on_a_wrong_shape() {
    for wire in ["null", "[]", "{\"models\": {\"models\": []}}", "{\"models\": null}", "{\"models\": \"bad\"}", "{\"ok\": true}"] {
        let call = list(&client(), none());
        let run = run(&call, |_| raw(200, wire, &[]));
        let (_, parsed) = call.read_body(run.response());
        let error = unwrap_models(parsed.as_ref()).unwrap_err();
        assert!(matches!(error, Error::TypeSafe(_)), "{wire}");
        assert_eq!(
            error.to_string(),
            "Unexpected response shape from GET /v1/models; expected { models: [...] }.",
            "{wire}"
        );
    }
    assert!(unwrap_models(None).is_err());
}

#[test]
fn model_cards_are_objects_or_arrays_of_three_texts() {
    let read = |wire: &str| unwrap_models(Some(&json(wire)));
    let card = ModelCard { name: "m".to_string(), description: "d".to_string(), release_date: "r".to_string() };
    assert_eq!(
        read("{\"models\": [{\"release_date\": \"r\", \"name\": \"m\", \"tags\": [1], \"description\": \"d\"}, [\"m\", \"d\", \"r\"]]}").unwrap(),
        [card, ModelCard { name: "m".to_string(), description: "d".to_string(), release_date: "r".to_string() }]
    );
    assert!(read("{\"models\": [{\"name\": \"m\", \"description\": \"d\"}]}").is_err());
    assert!(read("{\"models\": [{\"name\": \"m\", \"description\": \"d\", \"release_date\": 2026}]}").is_err());
    assert!(read("{\"models\": [[\"m\", \"d\"]]}").is_err());
    assert!(read("{\"models\": [[\"m\", \"d\", \"r\", \"x\"]]}").is_err());
    assert!(read("{\"models\": [[\"m\", \"d\", \"r\"], \"x\"]}").is_err());
}

#[test]
fn models_list_keeps_unknown_fields_in_the_raw_response() {
    let wire = json("{\"models\": [{\"name\": \"m\", \"description\": \"d\", \"release_date\": \"2026\", \"tags\": [\"internal\"]}]}");
    let run = run(&list(&client(), none()), |_| answer(200, &wire));
    assert_eq!(run.response().parsed_body(), Some(wire));
}

// ---------------------------------------------------------------------------
// Responses
// ---------------------------------------------------------------------------

#[test]
fn await_gives_the_parsed_data() {
    let call = list(&client_without_retries(), none());
    let models = models(&call, &run(&call, |_| ok_models()));
    assert_eq!(models.len(), 1);
    assert_eq!(models[0].name, "m");
    assert_eq!(models[0].description, "d");
    assert_eq!(models[0].release_date, "2026");
}

#[test]
fn with_response_gives_data_status_headers_and_request_id() {
    let call = list(&client_without_retries(), none());
    let run = run(&call, |_| {
        raw(
            200,
            &models_response().to_string(),
            &[("content-type", "application/json"), ("x-typesafe-request-id", "req_abc")],
        )
    });
    let data = models(&call, &run);
    assert_eq!(run.requests.len(), 1);
    let result = WithResponse::new(data, run.result.ok().unwrap());

    assert_eq!(result.data[0].name, "m");
    assert_eq!(result.response.status, 200);
    assert_eq!(result.response.headers.get("x-typesafe-request-id").unwrap(), "req_abc");
    assert_eq!(result.response.headers.get("content-type").unwrap(), "application/json");
    assert_eq!(result.response.parsed_body(), Some(models_response()));
    assert_eq!(result.request_id.as_deref(), Some("req_abc"));
}

#[test]
fn with_response_gives_no_request_id_when_the_header_is_absent() {
    let call = list(&client_without_retries(), none());
    let run = run(&call, |_| ok_models());
    let data = models(&call, &run);
    assert_eq!(WithResponse::new(data, run.result.ok().unwrap()).request_id, None);
}

#[test]
fn as_response_gives_the_raw_body() {
    let run = run(&list(&client_without_retries(), none()), |_| ok_models());
    assert_eq!(run.response().status, 200);
    assert_eq!(json(std::str::from_utf8(&run.response().body).unwrap()), models_response());
}

#[test]
fn as_response_does_not_parse_the_body() {
    // The shape is wrong for a model list, but the raw response is still available.
    let run = run(&list(&client_without_retries(), none()), |_| raw(200, "not json", &[]));
    assert_eq!(run.response().body, b"not json");
    assert_eq!(run.response().parsed_body(), Some(text("not json")));
}

#[test]
fn non_2xx_response_gives_an_api_error_through_all_three() {
    let run = run(&list(&client_without_retries(), none()), |_| raw(404, "{\"message\": \"nope\"}", &[]));
    let api = run.error().as_api_error().unwrap();
    assert_eq!(api.kind(), ApiErrorKind::NotFound);
    assert_eq!(api.status, 404);
    assert_eq!(run.error().to_string(), "404 nope");
}

#[test]
fn gives_a_response_with_an_empty_body_for_a_204() {
    let run = run(&list(&client(), none()), |_| raw(204, "", &[]));
    assert_eq!(run.response().status, 204);
    assert!(run.response().body.is_empty());
    assert_eq!(run.response().parsed_body(), None);
}

// ---------------------------------------------------------------------------
// Logging
// ---------------------------------------------------------------------------

#[test]
fn debug_log_redacts_the_authorization_value_in_the_headers() {
    let call = ask(&logging_client(LogLevel::Debug), &request());
    let run = run(&call, |_| answer(200, &system_one_response()));
    let sent = run.entries.iter().find(|entry| entry.message == format!("#1 POST /v1/systemone -> {BASE_URL}/v1/systemone"));
    let data = sent.expect("no request line").data.clone().unwrap();
    let headers = data.get("headers").unwrap();
    assert_eq!(headers.get("Authorization"), Some(&text("Bearer ***7890")));
    assert_eq!(headers.get("Accept"), Some(&text("application/json")));
    assert_eq!(data.get("body").unwrap().get("state"), Some(&text("s")));
    let question = data.get("body").unwrap().get("questions").unwrap().get("q1").unwrap();
    assert_eq!(question.get("type"), Some(&text("noul")));

    // The raw key is in no message and in no data.
    let (more, _) = call.read_body(run.response());
    for entry in run.entries.iter().chain(more.iter()) {
        assert!(!entry.message.contains(SECRET), "{entry:?}");
        let data = entry.data.as_ref().map(|data| data.to_string()).unwrap_or_default();
        assert!(!data.contains(SECRET), "{entry:?}");
    }
}

#[test]
fn debug_log_has_the_response_body() {
    let call = ask(&logging_client(LogLevel::Debug), &request());
    let run = run(&call, |_| answer(200, &system_one_response()));
    let (entries, parsed) = call.read_body(run.response());
    assert_eq!(entries.len(), 1);
    assert_eq!(entries[0].message, "#1 POST /v1/systemone <- body");
    assert_eq!(entries[0].level, LogLevel::Debug);
    assert_eq!(entries[0].data, Some(system_one_response()));
    assert_eq!(parsed, Some(system_one_response()));
}

#[test]
fn info_line_has_the_status_and_the_request_id() {
    let run = run(&ask(&logging_client(LogLevel::Debug), &request()), |_| {
        raw(200, &system_one_response().to_string(), &[("x-typesafe-request-id", "req_123")])
    });
    assert_eq!(run.info(), ["#1 POST /v1/systemone <- 200 in 7ms (request req_123)"]);
}

#[test]
fn info_level_logs_one_summary_line_and_no_debug_lines() {
    let call = list(&logging_client(LogLevel::Info), none());
    let run = run(&call, |_| ok_models());
    assert_eq!(run.entries.len(), 1);
    assert_eq!(run.entries[0].level, LogLevel::Info);
    assert_eq!(run.entries[0].message, "#1 GET /v1/models <- 200 in 7ms");
    assert!(call.read_body(run.response()).0.is_empty());
}

#[test]
fn warn_and_off_levels_log_nothing_for_a_successful_request() {
    for level in [LogLevel::Warn, LogLevel::Off] {
        let call = list(&logging_client(level), none());
        let run = run(&call, |_| ok_models());
        assert!(run.entries.is_empty(), "{level:?}");
        assert!(call.read_body(run.response()).0.is_empty(), "{level:?}");
    }
}

#[test]
fn logs_an_error_response_as_a_summary_and_a_debug_body_without_a_warning() {
    let run = run(&list(&logging_client(LogLevel::Debug), none()), |_| raw(400, "{\"message\": \"bad\"}", &[]));
    assert_eq!(run.info(), ["#1 GET /v1/models <- 400 in 7ms"]);
    let body = run.entries.iter().find(|entry| entry.message == "#1 GET /v1/models <- error body").expect("no error body line");
    assert_eq!(body.level, LogLevel::Debug);
    assert_eq!(body.data, Some(json("{\"message\": \"bad\"}")));
    assert!(run.entries.iter().all(|entry| entry.level != LogLevel::Warn && entry.level != LogLevel::Error));
}

#[test]
fn keys_that_agree_in_what_is_shown_are_logged_alike() {
    let log = |key: &str| {
        let client = make(TypeSafeClientConfig {
            api_key: Some(key.to_string()),
            log_level: Some(LogLevel::Debug),
            ..config()
        });
        sequence(&list(&client, none()), vec![|| status(503), ok_models]).entries
    };
    assert_eq!(log("first-secret-abcd"), log("another-abcd"));
    assert_ne!(log("first-secret-abcd"), log("first-secret-abce"));
}

#[test]
fn numbers_the_requests_of_one_client() {
    let client = logging_client(LogLevel::Info);
    let mut counter = RequestCounter::new();
    let mut info = Vec::new();
    for _ in 0..2 {
        let call = client.models().list(&mut counter, &none()).ok().unwrap();
        info.extend(run(&call, |_| ok_models()).info());
    }
    assert!(info[0].starts_with("#1 GET /v1/models"), "{info:?}");
    assert!(info[1].starts_with("#2 GET /v1/models"), "{info:?}");
}

#[test]
fn a_request_takes_a_number_unless_its_questions_are_refused() {
    let client = client();
    let mut counter = RequestCounter::new();
    let refused = SystemOneRequest::new(text("s"), Questions::new());
    assert!(client.system_one(&mut counter, &refused, &none()).is_err());
    let hurried = RequestOptions { timeout_ms: Some(0), ..none() };
    assert!(client.system_one(&mut counter, &request(), &hurried).is_err());
    assert!(client.models().list(&mut counter, &hurried).is_err());
    assert_eq!(counter.next(), 3);
}

#[test]
fn every_message_of_a_call_begins_with_its_tag() {
    let client = make(TypeSafeClientConfig { log_level: Some(LogLevel::Debug), ..config() });
    let call = client.models().list(&mut before(23), &none()).ok().unwrap();
    let outcomes: Vec<fn() -> Outcome> = vec![|| status(503), || Outcome::TimedOut, ok_models];
    let run = sequence(&call, outcomes);
    let (read, _) = call.read_body(run.response());
    assert_eq!(run.entries.len() + read.len(), 10);
    for entry in run.entries.iter().chain(&read) {
        assert!(entry.message.starts_with("#23 GET /v1/models "), "{}", entry.message);
    }
}

#[test]
fn calls_are_tagged_with_their_number() {
    let call = client().request(&mut before(42), Method::Get, "/v1/else", None, &none()).ok().unwrap();
    let run = run(&call, |_| Outcome::Cancelled);
    assert!(run.entries.is_empty());
    let call = logging_client(LogLevel::Info).request(&mut before(42), Method::Get, "/v1/else", None, &none()).ok().unwrap();
    let run = drive(&call, |_| Outcome::Cancelled, None);
    assert_eq!(run.info(), ["#42 GET /v1/else aborted by caller after 7ms"]);
}

// ---------------------------------------------------------------------------
// Retries
// ---------------------------------------------------------------------------

#[test]
fn retries_a_500_up_to_max_retries_then_fails_with_the_last_error() {
    let run = run(&list(&client_with_retry(fast_retry_max(3)), none()), |_| raw(500, "{\"message\": \"down\"}", &[]));
    assert_eq!(kind_of(run.error()), ApiErrorKind::InternalServer);
    assert_eq!(run.error().to_string(), "500 down");
    assert_eq!(run.requests.len(), 4);
}

#[test]
fn retries_a_429_up_to_max_retries_then_fails() {
    let run = run(&ask(&client(), &request()), |_| status(429));
    assert_eq!(kind_of(run.error()), ApiErrorKind::RateLimit);
    assert_eq!(run.requests.len(), 3);
}

#[test]
fn succeeds_when_a_later_attempt_succeeds() {
    let call = list(&client(), none());
    let run = sequence(&call, vec![|| status(503), || status(503), ok_models]);
    assert_eq!(models(&call, &run)[0].name, "m");
    assert_eq!(run.requests.len(), 3);
}

#[test]
fn retry_count_header_is_absent_on_the_first_attempt_then_1_and_2() {
    let run = sequence(&list(&client(), none()), vec![|| status(503), || status(503), ok_models]);
    assert_eq!(run.requests.len(), 3);
    assert_eq!(header(&run.requests[0], "x-typesafe-retry-count"), None);
    assert_eq!(header(&run.requests[1], "x-typesafe-retry-count"), Some("1"));
    assert_eq!(header(&run.requests[2], "x-typesafe-retry-count"), Some("2"));
}

#[test]
fn every_attempt_sends_the_same_request() {
    let run = sequence(&ask(&client(), &request()), vec![|| status(503), || Outcome::TimedOut, || answer(200, &system_one_response())]);
    assert_eq!(run.requests.len(), 3);
    for sent in &run.requests {
        assert_eq!(sent.url, run.requests[0].url);
        assert_eq!(sent.body, run.requests[0].body);
        assert_eq!(sent.timeout_ms, 10_000);
    }
}

#[test]
fn does_not_retry_a_400() {
    let run = run(&list(&client(), none()), |_| status(400));
    assert_eq!(kind_of(run.error()), ApiErrorKind::BadRequest);
    assert_eq!(run.requests.len(), 1);
}

#[test]
fn max_retries_zero_disables_retries() {
    let run = run(&list(&client_with_retry(fast_retry_max(0)), none()), |_| status(503));
    assert_eq!(kind_of(run.error()), ApiErrorKind::InternalServer);
    assert_eq!(run.requests.len(), 1);
}

#[test]
fn per_call_max_retries_wins_over_the_client_policy() {
    let options = RequestOptions { retry: Some(RetryOverrides { max_retries: Some(0), ..Default::default() }), ..none() };
    let run = run(&list(&client_with_retry(fast_retry_max(5)), options), |_| status(503));
    assert_eq!(kind_of(run.error()), ApiErrorKind::InternalServer);
    assert_eq!(run.requests.len(), 1);
}

#[test]
fn per_call_retry_overrides_field_by_field_and_keeps_the_client_policy() {
    let client = make(TypeSafeClientConfig {
        log_level: Some(LogLevel::Info),
        retry: Some(RetryOverrides {
            max_retries: Some(5),
            backoff_initial_ms: given(20.0),
            backoff_jitter: given(0.0),
            ..Default::default()
        }),
        ..config()
    });
    let options = RequestOptions { retry: Some(RetryOverrides { max_retries: Some(1), ..Default::default() }), ..none() };
    let run = run(&list(&client, options), |_| status(503));

    assert_eq!(kind_of(run.error()), ApiErrorKind::InternalServer);
    assert_eq!(run.requests.len(), 2);
    // `backoff_initial_ms` came from the client, `max_retries` from the call.
    assert!(run.info().contains(&"#1 GET /v1/models retrying in 20ms (retry 1/1) after 503".to_string()));
    assert_eq!(client.retry().max_retries, 5);
}

#[test]
fn client_exposes_the_resolved_retry_policy() {
    let overrides = RetryOverrides { max_retries: Some(7), backoff_jitter: given(0.0), ..Default::default() };
    let client = make(TypeSafeClientConfig { retry: Some(overrides), ..with_key() });
    assert_eq!(
        *client.retry(),
        RetryPolicy { max_retries: 7, backoff_jitter: number(0.0), ..RetryPolicy::default() }
    );
}

#[test]
fn retries_only_the_statuses_in_http_statuses() {
    let retry = RetryOverrides { http_statuses: Some([409].into()), ..fast_retry() };
    let conflict = run(&list(&client_with_retry(retry), none()), |_| status(409));
    assert_eq!(kind_of(conflict.error()), ApiErrorKind::Other);
    assert_eq!(conflict.requests.len(), 3);

    let retry = RetryOverrides { http_statuses: Some([].into()), ..fast_retry() };
    let unavailable = run(&list(&client_with_retry(retry), none()), |_| status(503));
    assert_eq!(kind_of(unavailable.error()), ApiErrorKind::InternalServer);
    assert_eq!(unavailable.requests.len(), 1);
}

#[test]
fn a_success_is_returned_even_if_its_status_is_listed() {
    let retry = RetryOverrides { http_statuses: Some([200].into()), ..fast_retry() };
    let run = run(&list(&client_with_retry(retry), none()), |_| ok_models());
    assert_eq!(run.response().status, 200);
    assert_eq!(run.requests.len(), 1);
}

#[test]
fn backs_off_from_the_configured_initial_delay_and_cap() {
    let client = make(TypeSafeClientConfig {
        log_level: Some(LogLevel::Info),
        retry: Some(RetryOverrides {
            max_retries: Some(3),
            backoff_initial_ms: given(10.0),
            backoff_max_ms: given(25.0),
            backoff_jitter: given(0.0),
            ..Default::default()
        }),
        ..config()
    });
    let run = sequence(&list(&client, none()), vec![|| status(503), || status(503), || status(503), ok_models]);
    let retries: Vec<String> = run.info().into_iter().filter(|line| line.contains("retrying")).collect();
    assert_eq!(
        retries,
        [
            "#1 GET /v1/models retrying in 10ms (retry 1/3) after 503",
            "#1 GET /v1/models retrying in 20ms (retry 2/3) after 503",
            "#1 GET /v1/models retrying in 25ms (retry 3/3) after 503",
        ]
    );
    assert_eq!(run.waits, [10, 20, 25]);
}

#[test]
fn honors_the_retry_after_ms_header() {
    let client = make(TypeSafeClientConfig { log_level: Some(LogLevel::Info), ..config() });
    let run = sequence(&list(&client, none()), vec![|| raw(429, "{}", &[("retry-after-ms", "80")]), ok_models]);
    assert_eq!(run.waits, [80]);
    assert_eq!(run.requests.len(), 2);
    assert_eq!(
        run.info(),
        [
            "#1 GET /v1/models <- 429 in 7ms",
            "#1 GET /v1/models retrying in 80ms (retry 1/2) after 429",
            "#1 GET /v1/models <- 200 in 7ms",
        ]
    );
}

#[test]
fn honors_the_retry_after_header_in_seconds() {
    let run = sequence(&list(&client(), none()), vec![|| raw(429, "{}", &[("retry-after", "1")]), ok_models]);
    assert_eq!(run.waits, [1000]);
    assert_eq!(run.requests.len(), 2);
}

#[test]
fn can_ignore_retry_after_and_caps_how_long_it_may_be() {
    let limited = || raw(429, "{}", &[("retry-after", "30")]);
    let ignore = RetryOverrides { respect_retry_after: Some(false), ..fast_retry() };
    let run = sequence(&list(&client_with_retry(ignore), none()), vec![limited, ok_models]);
    assert_eq!(run.waits, [1]);
    assert_eq!(run.requests.len(), 2);

    // A server delay over `max_retry_after_ms` falls back to backoff.
    let capped = RetryOverrides { max_retry_after_ms: given(1000.0), ..fast_retry() };
    let run = sequence(&list(&client_with_retry(capped), none()), vec![limited, ok_models]);
    assert_eq!(run.waits, [1]);
    assert_eq!(run.requests.len(), 2);
}

#[test]
fn rejects_invalid_retry_overrides_from_the_config_and_per_call() {
    let bad = |retry: RetryOverrides| refused(TypeSafeClientConfig { retry: Some(retry), ..with_key() }, &surroundings()).to_string();
    assert!(bad(RetryOverrides { backoff_initial_ms: given(-1.0), ..Default::default() }).contains("retry.backoffInitialMs"));
    assert!(bad(RetryOverrides { backoff_max_ms: given(f64::NAN), ..Default::default() }).contains("retry.backoffMaxMs"));
    assert!(bad(RetryOverrides { backoff_jitter: given(1.5), ..Default::default() }).contains("retry.backoffJitter"));
    assert!(bad(RetryOverrides { backoff_jitter: given(-0.1), ..Default::default() }).contains("retry.backoffJitter"));
    assert!(bad(RetryOverrides { max_retry_after_ms: given(f64::INFINITY), ..Default::default() }).contains("retry.maxRetryAfterMs"));
    assert!(bad(RetryOverrides { http_statuses: Some([503, 42].into()), ..Default::default() }).contains("retry.httpStatuses"));

    let zeros = RetryOverrides {
        backoff_initial_ms: given(0.0),
        backoff_max_ms: given(0.0),
        backoff_jitter: given(0.0),
        max_retry_after_ms: given(0.0),
        ..Default::default()
    };
    assert!(TypeSafeClient::new(TypeSafeClientConfig { retry: Some(zeros), ..with_key() }, &surroundings()).is_ok());

    let options = RequestOptions { retry: Some(RetryOverrides { backoff_jitter: given(2.0), ..Default::default() }), ..none() };
    let error = client().models().list(&mut first(), &options).err().unwrap();
    assert!(matches!(error, Error::TypeSafe(_)));
    assert!(error.to_string().contains("retry.backoffJitter"));
}

// ---------------------------------------------------------------------------
// Connection errors
// ---------------------------------------------------------------------------

fn refused_connection() -> Outcome {
    Outcome::Failed("connection refused".to_string())
}

#[test]
fn connection_errors_are_retried_and_give_a_connection_error() {
    let client = make(TypeSafeClientConfig { log_level: Some(LogLevel::Info), ..config() });
    let run = run(&list(&client, none()), |_| refused_connection());

    assert!(matches!(run.error(), Error::Connection { .. }));
    assert!(run.error().is_connection_error());
    assert!(run.error().to_string().starts_with("Connection error: "));

    let lines = run.info();
    assert_eq!(lines.iter().filter(|line| line.contains("connection error after")).count(), 3, "{lines:?}");
    assert_eq!(lines.iter().filter(|line| line.contains("retrying in")).count(), 2, "{lines:?}");
    assert_eq!(lines[1], "#1 GET /v1/models retrying in 1ms (retry 1/2) after Connection error: connection refused");
    assert_eq!(run.entries[0].data, Some(text("connection refused")));
}

#[test]
fn retries_a_connection_error_then_succeeds() {
    let call = list(&client(), none());
    let run = sequence(&call, vec![refused_connection, ok_models]);
    assert_eq!(models(&call, &run)[0].name, "m");
    assert_eq!(header(&run.requests[1], "x-typesafe-retry-count"), Some("1"));
}

#[test]
fn can_stop_retrying_connection_errors_while_still_retrying_timeouts() {
    let retry = || RetryOverrides { api_connection_error: Some(false), ..fast_retry_max(1) };
    let client = make(TypeSafeClientConfig { retry: Some(retry()), log_level: Some(LogLevel::Info), ..config() });
    let dropped = run(&list(&client, none()), |_| refused_connection());
    assert!(matches!(dropped.error(), Error::Connection { .. }));
    let lines = dropped.info();
    assert_eq!(lines.iter().filter(|line| line.contains("connection error after")).count(), 1, "{lines:?}");

    let client = make(TypeSafeClientConfig { timeout_ms: Some(50), retry: Some(retry()), ..config() });
    let hung = run(&list(&client, none()), |_| Outcome::TimedOut);
    assert!(matches!(hung.error(), Error::Timeout { .. }));
    assert_eq!(hung.requests.len(), 2);
}

#[test]
fn body_failure_gives_a_connection_error_and_honors_disabled_connection_retries() {
    let retry = RetryOverrides { api_connection_error: Some(false), ..fast_retry() };
    let run = run(&list(&client_with_retry(retry), none()), |_| Outcome::Failed("error reading a body".to_string()));
    assert!(matches!(run.error(), Error::Connection { .. }));
    assert_eq!(run.requests.len(), 1);
}

#[test]
fn body_failure_is_retried_by_default() {
    let run = run(&list(&client(), none()), |_| Outcome::Failed("error reading a body".to_string()));
    assert!(matches!(run.error(), Error::Connection { .. }));
    assert_eq!(run.requests.len(), 3);
}

// ---------------------------------------------------------------------------
// Timeouts
// ---------------------------------------------------------------------------

fn hurried(timeout_ms: u64, retry: RetryOverrides) -> TypeSafeClient {
    make(TypeSafeClientConfig {
        timeout_ms: Some(timeout_ms),
        retry: Some(retry),
        log_level: Some(LogLevel::Info),
        ..config()
    })
}

#[test]
fn slow_response_gives_a_timeout_error_which_is_a_connection_error() {
    let run = run(&list(&hurried(50, fast_retry_max(0)), none()), |_| Outcome::TimedOut);
    assert_eq!(run.requests[0].timeout_ms, 50);
    assert!(matches!(run.error(), Error::Timeout { timeout_ms: 50 }));
    assert!(run.error().is_connection_error());
    assert_eq!(run.error().to_string(), "Request timed out after 50ms.");
    assert_eq!(run.info(), ["#1 GET /v1/models timed out after 7ms"]);
}

#[test]
fn timeout_is_retried_by_default() {
    let run = run(&list(&hurried(50, fast_retry()), none()), |_| Outcome::TimedOut);
    assert!(matches!(run.error(), Error::Timeout { timeout_ms: 50 }));
    assert_eq!(run.requests.len(), 3);
    assert_eq!(run.info()[1], "#1 GET /v1/models retrying in 1ms (retry 1/2) after Request timed out after 50ms.");
}

#[test]
fn timeout_is_not_retried_when_api_timeout_error_is_false() {
    let retry = RetryOverrides { api_timeout_error: Some(false), ..fast_retry() };
    let run = run(&list(&hurried(50, retry), none()), |_| Outcome::TimedOut);
    assert!(matches!(run.error(), Error::Timeout { .. }));
    assert_eq!(run.requests.len(), 1);
}

#[test]
fn retries_after_a_timeout_and_each_attempt_gets_its_own_timeout() {
    let call = list(&hurried(100, fast_retry()), none());
    let run = sequence(&call, vec![|| Outcome::TimedOut, ok_models]);
    assert_eq!(models(&call, &run)[0].name, "m");
    assert_eq!(run.requests.len(), 2);
    assert_eq!(run.requests[0].timeout_ms, 100);
    assert_eq!(run.requests[1].timeout_ms, 100);
}

#[test]
fn per_call_timeout_overrides_the_client_timeout() {
    let options = RequestOptions { timeout_ms: Some(50), ..none() };
    let run = run(&list(&hurried(60_000, fast_retry_max(0)), options), |_| Outcome::TimedOut);
    assert!(matches!(run.error(), Error::Timeout { timeout_ms: 50 }));
}

#[test]
fn times_out_a_stalled_body_and_retries_it() {
    let retry = RetryOverrides { max_retries: Some(1), backoff_initial_ms: given(0.0), ..Default::default() };
    let run = run(&list(&hurried(100, retry), none()), |_| Outcome::TimedOut);
    assert!(matches!(run.error(), Error::Timeout { timeout_ms: 100 }));
    assert_eq!(run.requests.len(), 2);
    assert_eq!(run.waits, [0]);
}

// ---------------------------------------------------------------------------
// Cancellation
// ---------------------------------------------------------------------------

#[test]
fn token_cancelled_before_the_call_gives_user_abort_and_no_retry() {
    let client = make(TypeSafeClientConfig { log_level: Some(LogLevel::Info), ..config() });
    let run = run(&list(&client, none()), |_| Outcome::Cancelled);
    assert!(matches!(run.error(), Error::UserAbort));
    assert!(!run.error().is_connection_error());
    assert_eq!(run.error().to_string(), "Request was aborted.");
    assert!(run.waits.is_empty());
    assert_eq!(run.info(), ["#1 GET /v1/models aborted by caller after 7ms"]);
}

#[test]
fn token_cancelled_during_the_backoff_wait_gives_user_abort() {
    let client = make(TypeSafeClientConfig {
        log_level: Some(LogLevel::Info),
        retry: Some(RetryOverrides {
            backoff_initial_ms: given(30_000.0),
            backoff_max_ms: given(30_000.0),
            ..Default::default()
        }),
        ..config()
    });
    let run = drive(&list(&client, none()), |_| status(503), Some(0));
    assert!(matches!(run.error(), Error::UserAbort));
    assert_eq!(run.requests.len(), 1);
    // Half of the jitter of a quarter is taken off.
    assert_eq!(run.waits, [26_250]);
    assert_eq!(run.info().last().unwrap(), "#1 GET /v1/models aborted by caller while waiting to retry");
}

#[test]
fn token_cancelled_during_a_slow_request_gives_user_abort_not_a_timeout() {
    let run = run(&list(&hurried(60_000, fast_retry()), none()), |_| Outcome::Cancelled);
    assert!(matches!(run.error(), Error::UserAbort));
    assert_eq!(run.requests.len(), 1);
}

// ---------------------------------------------------------------------------
// Copies
// ---------------------------------------------------------------------------

#[test]
fn a_copy_of_a_configuration_makes_the_same_client() {
    let settings = TypeSafeClientConfig {
        default_model: Some("m".to_string()),
        log_level: Some(LogLevel::Info),
        timeout_ms: Some(77),
        default_headers: vec![("X-Team".to_string(), "a".to_string())],
        ..config()
    };
    let first = make(settings.clone());
    let second = make(settings);
    assert_eq!(first.base_url(), second.base_url());
    assert_eq!(first.default_model(), second.default_model());
    assert_eq!(first.log_level(), second.log_level());
    assert_eq!(first.timeout_ms(), second.timeout_ms());
    assert_eq!(first.retry(), second.retry());
    let sent = |client: &TypeSafeClient| run(&list(client, none()), |_| ok_models()).requests[0].headers.clone();
    assert_eq!(sent(&first), sent(&second));
    assert_eq!(sent(&first).get("x-team").unwrap(), "a");
}

#[test]
fn a_copy_of_options_has_the_same_effect() {
    let options = RequestOptions {
        timeout_ms: Some(5),
        retry: Some(fast_retry_max(1)),
        headers: vec![("X-Team".to_string(), Some("b".to_string())), ("X-Gone".to_string(), None)],
    };
    let copy = options.clone();
    assert_eq!(copy.timeout_ms, options.timeout_ms);
    assert_eq!(copy.retry, options.retry);
    assert_eq!(copy.headers, options.headers);
    let card = ModelCard { name: "n".to_string(), description: "d".to_string(), release_date: "r".to_string() };
    assert_eq!(card.clone(), card);
}
