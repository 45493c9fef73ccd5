//! The exchange of one call: its attempts, the waits between them, and how it ends.
//!
//! A call starts with `ApiCall::start`. Each step says what to do next: send a request, wait, or
//! return a result. What came of it is handed back to the step, which gives the next one.

use reqwest::header::HeaderMap;
use vstd::prelude::*;

use crate::binary64::Binary64;
use crate::errors::{ApiError, Error, ErrorView, Result};
use crate::headers::{build_header_map, copy_headers, HeaderText};
use crate::json::{Json, JsonObject, JsonView};
use crate::logging::{redact_headers, with_level, LogEntry, LogEntryView, LogLevel};
use crate::response::{request_id_from, RawResponse};
use crate::retry::{
    delay_after, parse_retry_after, system_time, RetryAfterNumbers, RetryPolicy, RetryPolicyView,
    UnixTime,
};
use crate::text::to_decimal;

verus! {

/// The HTTP method of a call.
#[derive(Debug, Clone, Copy, PartialEq, Eq, Structural)]
pub enum Method {
    Get,
    Post,
}

impl Method {
    /// The name of the method.
    pub open spec fn name(self) -> Seq<char> {
        match self {
            Method::Get => "GET"@,
            Method::Post => "POST"@,
        }
    }

    /// The name of the method.
    pub fn as_str(self) -> (text: &'static str)
        ensures
            text@ == self.name(),
    {
        match self {
            Method::Get => "GET",
            Method::Post => "POST",
        }
    }
}

// ---------------------------------------------------------------------------
// Calls
// ---------------------------------------------------------------------------

/// A call of the API, ready to be made.
pub struct ApiCall {
    tag: String,
    url: String,
    method: Method,
    body: Option<Json>,
    headers: Vec<(String, String)>,
    timeout_ms: u64,
    retry: RetryPolicy,
    level: LogLevel,
}

/// What a call is made of.
pub struct CallView {
    /// What log messages call it.
    pub tag: Seq<char>,
    pub url: Seq<char>,
    pub method: Method,
    pub body: Option<JsonView>,
    /// The headers of each attempt.
    pub headers: Seq<HeaderText>,
    /// Timeout per attempt in milliseconds.
    pub timeout_ms: u64,
    pub retry: RetryPolicyView,
    /// The level that it logs at.
    pub level: LogLevel,
}

impl View for ApiCall {
    type V = CallView;

    closed spec fn view(&self) -> CallView {
        CallView {
            tag: self.tag@,
            url: self.url@,
            method: self.method,
            body: crate::errors::body_view(self.body),
            headers: crate::headers::header_texts(self.headers@),
            timeout_ms: self.timeout_ms,
            retry: self.retry@,
            level: self.level,
        }
    }
}

/// A request to send.
pub struct HttpRequest {
    pub method: Method,
    pub url: String,
    pub headers: HeaderMap,
    /// The body as text, if there is one.
    pub body: Option<String>,
    /// How long the full response may take, in milliseconds.
    pub timeout_ms: u64,
}

/// What a request says.
pub struct HttpRequestView {
    pub method: Method,
    pub url: Seq<char>,
    /// The values of each header, by its name in lower case.
    pub headers: Map<Seq<char>, Seq<Seq<u8>>>,
    pub body: Option<Seq<char>>,
    pub timeout_ms: u64,
}

impl View for HttpRequest {
    type V = HttpRequestView;

    open spec fn view(&self) -> HttpRequestView {
        HttpRequestView {
            method: self.method,
            url: self.url@,
            headers: crate::headers::header_values(self.headers),
            body: crate::text::optional(self.body),
            timeout_ms: self.timeout_ms,
        }
    }
}

/// A call that waits for what comes of an attempt.
pub struct Sending<'a> {
    call: &'a ApiCall,
    attempt: u32,
}

/// A call that waits to be retried.
pub struct Waiting<'a> {
    call: &'a ApiCall,
    attempt: u32,
}

/// What to do next.
pub enum Step<'a> {
    /// Send the request, and hand back what came of it.
    Send(Sending<'a>, HttpRequest),
    /// Wait that many milliseconds, and say whether the caller cancelled.
    Wait(Waiting<'a>, u64),
    /// The call is over.
    Done(Result<RawResponse>),
}

impl<'a> Sending<'a> {
    /// The call.
    pub closed spec fn call(self) -> CallView {
        self.call@
    }

    /// The attempt, from zero.
    pub closed spec fn attempt(self) -> u32 {
        self.attempt
    }
}

impl<'a> Waiting<'a> {
    /// The call.
    pub closed spec fn call(self) -> CallView {
        self.call@
    }

    /// The attempt that failed, from zero.
    pub closed spec fn attempt(self) -> u32 {
        self.attempt
    }

    /// There are retries left.
    #[verifier::type_invariant]
    closed spec fn inv(self) -> bool {
        self.attempt < self.call@.retry.max_retries
    }
}

/// What a step says to do.
pub enum StepView {
    Send { attempt: u32, request: HttpRequestView },
    Wait { attempt: u32, delay_ms: u64 },
    Done(std::result::Result<RawResponse, ErrorView>),
}

impl<'a> View for Step<'a> {
    type V = StepView;

    open spec fn view(&self) -> StepView {
        match self {
            Step::Send(sending, request) => StepView::Send {
                attempt: sending.attempt(),
                request: request@,
            },
            Step::Wait(waiting, delay_ms) => StepView::Wait {
                attempt: waiting.attempt(),
                delay_ms: *delay_ms,
            },
            Step::Done(Ok(response)) => StepView::Done(Ok(*response)),
            Step::Done(Err(error)) => StepView::Done(Err(error@)),
        }
    }
}

impl<'a> Step<'a> {
    /// Whether the step goes on with this call, if it goes on.
    pub open spec fn goes_on_with(self, call: CallView) -> bool {
        match self {
            Step::Send(sending, _) => sending.call() == call,
            Step::Wait(waiting, _) => waiting.call() == call,
            Step::Done(_) => true,
        }
    }
}

/// What came of an attempt.
pub enum Outcome {
    /// The caller cancelled it.
    Cancelled,
    /// The full response did not arrive within the timeout.
    TimedOut,
    /// The request or the delivery of the response failed, for a reason.
    Failed(String),
    /// The full response arrived.
    Completed(RawResponse),
}

/// What came of an attempt, with what it takes to go on.
pub struct Report {
    pub outcome: Outcome,
    /// How long the attempt took, in milliseconds.
    pub elapsed_ms: u64,
    /// The numbers in the delay headers of the response, if one arrived.
    pub numbers: RetryAfterNumbers,
    /// A random number from 0 to 1.
    pub random: Binary64,
}

// ---------------------------------------------------------------------------
// Log entries
// ---------------------------------------------------------------------------

pub open spec fn info_entry(message: Seq<char>, data: Option<JsonView>) -> LogEntryView {
    LogEntryView { level: LogLevel::Info, message, data }
}

pub open spec fn debug_entry(message: Seq<char>, data: Option<JsonView>) -> LogEntryView {
    LogEntryView { level: LogLevel::Debug, message, data }
}

/// A number of milliseconds in a message.
pub open spec fn ms_text(ms: u64) -> Seq<char> {
    crate::text::decimal(ms as nat) + "ms"@
}

fn info(message: String, data: Option<Json>) -> (entry: LogEntry)
    ensures
        entry@ == info_entry(message@, crate::errors::body_view(data)),
{
    LogEntry { level: LogLevel::Info, message, data }
}

fn debug(message: String, data: Option<Json>) -> (entry: LogEntry)
    ensures
        entry@ == debug_entry(message@, crate::errors::body_view(data)),
{
    LogEntry { level: LogLevel::Debug, message, data }
}

/// Headers as the members of a JSON object.
pub open spec fn string_members(headers: Seq<HeaderText>) -> Seq<(Seq<char>, JsonView)> {
    headers.map_values(|header: HeaderText| (header.0, JsonView::String(header.1)))
}

/// What is logged of a request before it is sent: its headers, with credentials redacted, and its
/// body.
pub open spec fn request_data(headers: Seq<HeaderText>, body: Option<JsonView>) -> JsonView {
    JsonView::Object(
        seq![
            (
                "headers"@,
                JsonView::Object(
                    crate::json::collected(
                        string_members(crate::logging::redacted_headers(headers)),
                    ),
                ),
            ),
            (
                "body"@,
                match body {
                    Some(value) => value,
                    None => JsonView::Null,
                },
            ),
        ],
    )
}

fn shown_headers(headers: &Vec<(String, String)>) -> (object: JsonObject)
    ensures
        object@ == crate::json::collected(
            string_members(
                crate::logging::redacted_headers(crate::headers::header_texts(headers@)),
            ),
        ),
{
    let redacted = redact_headers(headers.as_slice());
    let ghost members = string_members(crate::headers::header_texts(redacted@));
    let mut object = JsonObject::new();
    let mut i: usize = 0;
    assert(members.take(0) == Seq::<(Seq<char>, JsonView)>::empty());
    while i < redacted.len()
        invariant
            i <= redacted.len(),
            members == string_members(crate::headers::header_texts(redacted@)),
            object@ == crate::json::collected(members.take(i as int)),
        decreases redacted.len() - i,
    {
        proof {
            assert(members.take(i + 1).drop_last() == members.take(i as int));
            assert(members.take(i + 1).last() == (
                redacted@[i as int].0@,
                JsonView::String(redacted@[i as int].1@),
            ));
        }
        object.insert(redacted[i].0.clone(), Json::String(redacted[i].1.clone()));
        i = i + 1;
    }
    assert(members.take(members.len() as int) == members);
    object
}

fn request_json(headers: &Vec<(String, String)>, body: &Option<Json>) -> (data: Json)
    ensures
        data@ == request_data(
            crate::headers::header_texts(headers@),
            crate::errors::body_view(*body),
        ),
{
    let shown = Json::Object(shown_headers(headers));
    let content = match body {
        Some(value) => value.clone(),
        None => Json::Null,
    };
    let mut object = JsonObject::new();
    proof {
        reveal_strlit("headers");
        reveal_strlit("body");
        assert("headers"@.len() == 7 && "body"@.len() == 4);
        reveal_with_fuel(crate::json::member_index, 2);
    }
    object.insert("headers".to_owned(), shown);
    assert(object@ == seq![("headers"@, shown@)]);
    assert(object@.drop_last() == Seq::<(Seq<char>, JsonView)>::empty());
    object.insert("body".to_owned(), content);
    let data = Json::Object(object);
    assert(data@->Object_0 == request_data(
        crate::headers::header_texts(headers@),
        crate::errors::body_view(*body),
    )->Object_0);
    data
}

// ---------------------------------------------------------------------------
// Sending
// ---------------------------------------------------------------------------

/// The headers of an attempt: those of the call, and the number of the retry.
pub open spec fn attempt_headers(call: CallView, attempt: u32) -> Seq<HeaderText> {
    if attempt == 0 {
        call.headers
    } else {
        call.headers.push(("X-TypeSafe-Retry-Count"@, crate::text::decimal(attempt as nat)))
    }
}

/// What is logged before an attempt.
pub open spec fn sending_entries(call: CallView, attempt: u32) -> Seq<LogEntryView> {
    seq![
        debug_entry(
            call.tag + " -> "@ + call.url,
            Some(request_data(attempt_headers(call, attempt), call.body)),
        ),
    ]
}

/// What is logged of the body of a successful response.
pub open spec fn body_entries(call: CallView, body: Option<JsonView>) -> Seq<LogEntryView> {
    seq![debug_entry(call.tag + " <- body"@, body)]
}

/// The step that sends an attempt; a header that is not valid ends the call.
pub open spec fn sending(call: CallView, attempt: u32) -> StepView {
    match crate::headers::header_map_of(attempt_headers(call, attempt)) {
        Ok(headers) => StepView::Send {
            attempt,
            request: HttpRequestView {
                method: call.method,
                url: call.url,
                headers,
                body: match call.body {
                    Some(value) => Some(crate::json::json_text(value)),
                    None => None,
                },
                timeout_ms: call.timeout_ms,
            },
        },
        Err(message) => StepView::Done(Err(ErrorView::TypeSafe(message))),
    }
}

/// Whether a step is the one that sends an attempt. A call with more headers than a map has room
/// for in any case may end for want of room.
pub open spec fn sends(step: StepView, call: CallView, attempt: u32) -> bool {
    ||| step == sending(call, attempt)
    ||| attempt_headers(call, attempt).len() > crate::headers::CERTAIN_ROOM && step
        == StepView::Done(Err(ErrorView::TypeSafe(crate::headers::NO_ROOM@)))
}

impl ApiCall {
    /// A call of the API.
    pub(crate) fn new(
        tag: String,
        url: String,
        method: Method,
        body: Option<Json>,
        headers: Vec<(String, String)>,
        timeout_ms: u64,
        retry: RetryPolicy,
        level: LogLevel,
    ) -> (call: ApiCall)
        ensures
            call@ == (CallView {
                tag: tag@,
                url: url@,
                method,
                body: crate::errors::body_view(body),
                headers: crate::headers::header_texts(headers@),
                timeout_ms,
                retry: retry@,
                level,
            }),
    {
        ApiCall { tag, url, method, body, headers, timeout_ms, retry, level }
    }

    fn message(&self, text: &str) -> (message: String)
        ensures
            message@ == self@.tag + text@,
    {
        let mut message = self.tag.clone();
        message.append(text);
        message
    }

    fn attempt_list(&self, attempt: u32) -> (headers: Vec<(String, String)>)
        ensures
            crate::headers::header_texts(headers@) == attempt_headers(self@, attempt),
    {
        let mut headers = copy_headers(&self.headers);
        if attempt > 0 {
            let ghost before = headers@;
            headers.push(("X-TypeSafe-Retry-Count".to_owned(), to_decimal(attempt as u64)));
            assert(crate::headers::header_texts(headers@) == crate::headers::header_texts(
                before,
            ).push(("X-TypeSafe-Retry-Count"@, crate::text::decimal(attempt as nat))));
        }
        headers
    }

    fn send(&self, attempt: u32) -> (next: (Vec<LogEntry>, Step<'_>))
        ensures
            crate::logging::entry_views(next.0@) == crate::logging::kept(
                sending_entries(self@, attempt),
                self@.level,
            ),
            sends(next.1@, self@, attempt),
            next.1.goes_on_with(self@),
    {
        let headers = self.attempt_list(attempt);
        let logger = with_level(self.level);
        let mut entries: Vec<LogEntry> = Vec::new();
        proof {
            crate::logging::lemma_kept_one(sending_entries(self@, attempt)[0], self@.level);
        }
        if logger.enabled(LogLevel::Debug) {
            let mut message = self.message(" -> ");
            message.append(self.url.as_str());
            entries.push(debug(message, Some(request_json(&headers, &self.body))));
        }
        assert(sending_entries(self@, attempt) == seq![sending_entries(self@, attempt)[0]]);
        assert(crate::logging::entry_views(entries@) == crate::logging::kept(
            sending_entries(self@, attempt),
            self@.level,
        ));
        let step = match build_header_map(&headers) {
            Ok(map) => {
                let body = match &self.body {
                    Some(value) => Some(value.to_string()),
                    None => None,
                };
                let request = HttpRequest {
                    method: self.method,
                    url: self.url.clone(),
                    headers: map,
                    body,
                    timeout_ms: self.timeout_ms,
                };
                Step::Send(Sending { call: self, attempt }, request)
            },
            Err(error) => Step::Done(Err(error)),
        };
        (entries, step)
    }

    /// Start the call with its first attempt.
    pub fn start(&self) -> (next: (Vec<LogEntry>, Step<'_>))
        ensures
            crate::logging::entry_views(next.0@) == crate::logging::kept(
                sending_entries(self@, 0),
                self@.level,
            ),
            sends(next.1@, self@, 0),
            next.1.goes_on_with(self@),
    {
        self.send(0)
    }

    /// The body of a successful response, and what is logged of it.
    pub fn read_body(&self, response: &RawResponse) -> (read: (Vec<LogEntry>, Option<Json>))
        ensures
            crate::errors::body_view(read.1) == crate::response::body_value(response.body@),
            crate::logging::entry_views(read.0@) == crate::logging::kept(
                body_entries(self@, crate::response::body_value(response.body@)),
                self@.level,
            ),
    {
        let parsed = response.parsed_body();
        let mut entries: Vec<LogEntry> = Vec::new();
        entries.push(debug(self.message(" <- body"), parsed.clone()));
        assert(crate::logging::entry_views(entries@) == body_entries(
            self@,
            crate::response::body_value(response.body@),
        ));
        (with_level(self.level).filter(entries), parsed)
    }
}

// ---------------------------------------------------------------------------
// After an attempt
// ---------------------------------------------------------------------------

/// Whether a status code is one of success.
pub open spec fn is_success(status: u16) -> bool {
    200 <= status < 300
}

/// The request ID in a summary of a response.
pub open spec fn id_text(id: Option<Seq<char>>) -> Seq<char> {
    match id {
        Some(text) => " (request "@ + text + ")"@,
        None => Seq::empty(),
    }
}

/// The error that an attempt without a response ends in.
pub open spec fn failure(call: CallView, outcome: Outcome) -> ErrorView {
    match outcome {
        Outcome::TimedOut => ErrorView::Timeout(call.timeout_ms),
        Outcome::Failed(reason) => ErrorView::Connection(
            crate::errors::connection_message(Some(reason@)),
        ),
        _ => ErrorView::UserAbort,
    }
}

/// What is logged of an attempt.
pub open spec fn attempt_entries(call: CallView, report: Report) -> Seq<LogEntryView> {
    let elapsed = ms_text(report.elapsed_ms);
    match report.outcome {
        Outcome::Cancelled => seq![
            info_entry(call.tag + " aborted by caller after "@ + elapsed, None),
        ],
        Outcome::TimedOut => seq![info_entry(call.tag + " timed out after "@ + elapsed, None)],
        Outcome::Failed(reason) => seq![
            info_entry(
                call.tag + " connection error after "@ + elapsed,
                Some(JsonView::String(reason@)),
            ),
        ],
        Outcome::Completed(response) => {
            let summary = info_entry(
                call.tag + " <- "@ + crate::text::decimal(response.status as nat) + " in "@ + elapsed
                    + id_text(crate::response::request_id_in(response.headers)),
                None,
            );
            if is_success(response.status) {
                seq![summary]
            } else {
                seq![
                    summary,
                    debug_entry(
                        call.tag + " <- error body"@,
                        crate::response::body_value(response.body@),
                    ),
                ]
            }
        },
    }
}

/// How a call ends if it ends with this attempt.
pub open spec fn ending(call: CallView, outcome: Outcome) -> std::result::Result<
    RawResponse,
    ErrorView,
> {
    match outcome {
        Outcome::Completed(response) => if is_success(response.status) {
            Ok(response)
        } else {
            Err(
                ErrorView::Api(
                    crate::errors::api_error(
                        response.status,
                        crate::response::body_value(response.body@),
                        response.headers,
                    ),
                ),
            )
        },
        _ => Err(failure(call, outcome)),
    }
}

/// Whether the policy of a call retries what came of an attempt.
pub open spec fn is_retryable(call: CallView, outcome: Outcome) -> bool {
    match outcome {
        Outcome::Completed(response) => !is_success(response.status)
            && call.retry.http_statuses.contains(response.status),
        _ => call.retry.retries_error(failure(call, outcome)),
    }
}

/// Whether a call goes on after an attempt: there are retries left, and the policy retries it.
pub open spec fn goes_on(call: CallView, attempt: u32, outcome: Outcome) -> bool {
    attempt < call.retry.max_retries && is_retryable(call, outcome)
}

/// Why a call is retried.
pub open spec fn reason(call: CallView, outcome: Outcome) -> Seq<char> {
    match outcome {
        Outcome::Completed(response) => crate::text::decimal(response.status as nat),
        _ => failure(call, outcome).message(),
    }
}

/// The server delay that an attempt gives, if a response arrived.
pub open spec fn asked_delay(report: Report, now: UnixTime) -> Option<u64> {
    match report.outcome {
        Outcome::Completed(response) => crate::retry::retry_after_at(
            response.headers,
            report.numbers,
            now,
        ),
        _ => None,
    }
}

/// The delay before the next attempt.
pub open spec fn next_delay(call: CallView, attempt: u32, report: Report, now: UnixTime) -> u64 {
    crate::retry::delay_ms(attempt, asked_delay(report, now), call.retry, report.random)
}

/// What is logged before a wait.
pub open spec fn retry_entry(call: CallView, attempt: u32, delay: u64, reason: Seq<char>) -> LogEntryView {
    info_entry(
        call.tag + " retrying in "@ + crate::text::decimal(delay as nat) + "ms (retry "@
            + crate::text::decimal((attempt + 1) as nat) + "/"@ + crate::text::decimal(
            call.retry.max_retries as nat,
        ) + ") after "@ + reason,
        None,
    )
}

/// All that is logged after an attempt.
pub open spec fn report_entries(call: CallView, attempt: u32, report: Report, now: UnixTime) -> Seq<
    LogEntryView,
> {
    if goes_on(call, attempt, report.outcome) {
        attempt_entries(call, report).push(
            retry_entry(
                call,
                attempt,
                next_delay(call, attempt, report, now),
                reason(call, report.outcome),
            ),
        )
    } else {
        attempt_entries(call, report)
    }
}

/// The step after an attempt.
pub open spec fn after_attempt(call: CallView, attempt: u32, report: Report, now: UnixTime) -> StepView {
    if goes_on(call, attempt, report.outcome) {
        StepView::Wait { attempt, delay_ms: next_delay(call, attempt, report, now) }
    } else {
        StepView::Done(ending(call, report.outcome))
    }
}

fn elapsed_text(ms: u64) -> (text: String)
    ensures
        text@ == ms_text(ms),
{
    let mut text = to_decimal(ms);
    text.append("ms");
    text
}

fn summary_text(call: &ApiCall, response: &RawResponse, elapsed_ms: u64) -> (text: String)
    ensures
        text@ == call@.tag + " <- "@ + crate::text::decimal(response.status as nat) + " in "@ + ms_text(
            elapsed_ms,
        ) + id_text(crate::response::request_id_in(response.headers)),
{
    let mut text = call.message(" <- ");
    text.append(to_decimal(response.status as u64).as_str());
    text.append(" in ");
    text.append(elapsed_text(elapsed_ms).as_str());
    let ghost head = text@;
    match request_id_from(&response.headers) {
        Some(id) => {
            text.append(" (request ");
            text.append(id.as_str());
            text.append(")");
            assert(text@ == head + (" (request "@ + id@ + ")"@));
        },
        None => {
            assert(head + Seq::<char>::empty() == head);
        },
    }
    text
}

fn retry_text(call: &ApiCall, attempt: u32, delay: u64, reason: &str) -> (text: String)
    requires
        attempt < call@.retry.max_retries,
    ensures
        info_entry(text@, None) == retry_entry(call@, attempt, delay, reason@),
{
    let mut text = call.message(" retrying in ");
    text.append(to_decimal(delay).as_str());
    text.append("ms (retry ");
    text.append(to_decimal(attempt as u64 + 1).as_str());
    text.append("/");
    text.append(to_decimal(call.retry.max_retries as u64).as_str());
    text.append(") after ");
    text.append(reason);
    text
}

impl<'a> Sending<'a> {
    /// Wait before retrying, or end the call with the error.
    fn back_off_or_fail(
        self,
        entries: Vec<LogEntry>,
        error: Error,
        random: Binary64,
    ) -> (next: (Vec<LogEntry>, Step<'a>))
        ensures
            ({
                let again = self.attempt() < self.call().retry.max_retries
                    && self.call().retry.retries_error(error@);
                let delay = crate::retry::delay_ms(
                    self.attempt(),
                    None,
                    self.call().retry,
                    random,
                );
                &&& crate::logging::entry_views(next.0@) == if again {
                    crate::logging::entry_views(entries@).push(
                        retry_entry(self.call(), self.attempt(), delay, error@.message()),
                    )
                } else {
                    crate::logging::entry_views(entries@)
                }
                &&& next.1@ == if again {
                    StepView::Wait { attempt: self.attempt(), delay_ms: delay }
                } else {
                    StepView::Done(Err(error@))
                }
            }),
            next.1.goes_on_with(self.call()),
    {
        let call = self.call;
        if self.attempt >= call.retry.max_retries || !call.retry.is_retryable_error(&error) {
            return (entries, Step::Done(Err(error)));
        }
        let delay = delay_after(self.attempt, None, &call.retry, random);
        let mut all = entries;
        let ghost before = all@;
        all.push(info(retry_text(call, self.attempt, delay, error.to_string().as_str()), None));
        assert(crate::logging::entry_views(all@) == crate::logging::entry_views(before).push(
            retry_entry(self.call(), self.attempt(), delay, error@.message()),
        ));
        (all, Step::Wait(Waiting { call, attempt: self.attempt }, delay))
    }

    /// Go on after a response.
    fn completed(
        self,
        response: RawResponse,
        elapsed_ms: u64,
        numbers: &RetryAfterNumbers,
        random: Binary64,
        now: UnixTime,
    ) -> (next: (Vec<LogEntry>, Step<'a>))
        ensures
            ({
                let report = Report {
                    outcome: Outcome::Completed(response),
                    elapsed_ms,
                    numbers: *numbers,
                    random,
                };
                &&& crate::logging::entry_views(next.0@) == report_entries(
                    self.call(),
                    self.attempt(),
                    report,
                    now,
                )
                &&& next.1@ == after_attempt(self.call(), self.attempt(), report, now)
            }),
            next.1.goes_on_with(self.call()),
    {
        let call = self.call;
        let ghost report = Report {
            outcome: Outcome::Completed(response),
            elapsed_ms,
            numbers: *numbers,
            random,
        };
        let mut entries: Vec<LogEntry> = Vec::new();
        entries.push(info(summary_text(call, &response, elapsed_ms), None));
        if response.status >= 200 && response.status < 300 {
            assert(crate::logging::entry_views(entries@) == attempt_entries(self.call(), report));
            return (entries, Step::Done(Ok(response)));
        }
        let error_body = response.parsed_body();
        entries.push(debug(call.message(" <- error body"), error_body.clone()));
        assert(crate::logging::entry_views(entries@) == attempt_entries(self.call(), report));
        let status = response.status;
        if self.attempt >= call.retry.max_retries || !call.retry.is_retryable_status(status) {
            let error = ApiError::from_response(status, error_body, response.headers);
            return (entries, Step::Done(Err(Error::Api(Box::new(error)))));
        }
        let retry_after = parse_retry_after(&response.headers, numbers, Some(now));
        let delay = delay_after(self.attempt, retry_after, &call.retry, random);
        let ghost before = entries@;
        let text = retry_text(call, self.attempt, delay, to_decimal(status as u64).as_str());
        entries.push(info(text, None));
        assert(crate::logging::entry_views(entries@) == crate::logging::entry_views(before).push(
            retry_entry(
                self.call(),
                self.attempt(),
                delay,
                crate::text::decimal(status as nat),
            ),
        ));
        (entries, Step::Wait(Waiting { call, attempt: self.attempt }, delay))
    }

    /// Go on after an attempt. A date in the headers of the response is held against `now`.
    pub fn attempted_at(self, report: Report, now: UnixTime) -> (next: (Vec<LogEntry>, Step<'a>))
        ensures
            crate::logging::entry_views(next.0@) == crate::logging::kept(
                report_entries(self.call(), self.attempt(), report, now),
                self.call().level,
            ),
            next.1@ == after_attempt(self.call(), self.attempt(), report, now),
            next.1.goes_on_with(self.call()),
    {
        let call = self.call;
        let elapsed = elapsed_text(report.elapsed_ms);
        let mut entries: Vec<LogEntry> = Vec::new();
        let (all, step) = match report.outcome {
            Outcome::Cancelled => {
                let mut message = call.message(" aborted by caller after ");
                message.append(elapsed.as_str());
                entries.push(info(message, None));
                assert(crate::logging::entry_views(entries@) == attempt_entries(self.call(), report));
                self.back_off_or_fail(entries, Error::UserAbort, report.random)
            },
            Outcome::TimedOut => {
                let mut message = call.message(" timed out after ");
                message.append(elapsed.as_str());
                entries.push(info(message, None));
                assert(crate::logging::entry_views(entries@) == attempt_entries(self.call(), report));
                let error = Error::Timeout { timeout_ms: call.timeout_ms };
                self.back_off_or_fail(entries, error, report.random)
            },
            Outcome::Failed(ref reason) => {
                let mut message = call.message(" connection error after ");
                message.append(elapsed.as_str());
                entries.push(info(message, Some(Json::String(reason.clone()))));
                assert(crate::logging::entry_views(entries@) == attempt_entries(self.call(), report));
                let error = Error::connection(Some(reason.as_str()));
                self.back_off_or_fail(entries, error, report.random)
            },
            Outcome::Completed(response) => self.completed(
                response,
                report.elapsed_ms,
                &report.numbers,
                report.random,
                now,
            ),
        };
        (with_level(call.level).filter(all), step)
    }

    /// Go on after an attempt. A date in the headers of the response is held against the system
    /// clock.
    pub fn attempted(self, report: Report) -> (next: (Vec<LogEntry>, Step<'a>))
        ensures
            exists|now: UnixTime|
                {
                    &&& now.valid()
                    &&& crate::logging::entry_views(next.0@) == crate::logging::kept(
                        #[trigger] report_entries(self.call(), self.attempt(), report, now),
                        self.call().level,
                    )
                    &&& next.1@ == after_attempt(self.call(), self.attempt(), report, now)
                },
            next.1.goes_on_with(self.call()),
    {
        let now = system_time();
        self.attempted_at(report, now)
    }
}

// ---------------------------------------------------------------------------
// After a wait
// ---------------------------------------------------------------------------

/// What is logged when the caller cancels during a wait.
pub open spec fn cancelled_wait_entries(call: CallView) -> Seq<LogEntryView> {
    seq![info_entry(call.tag + " aborted by caller while waiting to retry"@, None)]
}

impl<'a> Waiting<'a> {
    /// Go on after the wait; caller cancellation ends the call.
    pub fn waited(self, cancelled: bool) -> (next: (Vec<LogEntry>, Step<'a>))
        ensures
            cancelled ==> {
                &&& crate::logging::entry_views(next.0@) == crate::logging::kept(
                    cancelled_wait_entries(self.call()),
                    self.call().level,
                )
                &&& next.1@ == StepView::Done(Err(ErrorView::UserAbort))
            },
            !cancelled ==> {
                &&& crate::logging::entry_views(next.0@) == crate::logging::kept(
                    sending_entries(self.call(), (self.attempt() + 1) as u32),
                    self.call().level,
                )
                &&& sends(next.1@, self.call(), (self.attempt() + 1) as u32)
            },
            next.1.goes_on_with(self.call()),
    {
        let call = self.call;
        if cancelled {
            let mut entries: Vec<LogEntry> = Vec::new();
            entries.push(info(call.message(" aborted by caller while waiting to retry"), None));
            assert(crate::logging::entry_views(entries@) == cancelled_wait_entries(self.call()));
            (with_level(call.level).filter(entries), Step::Done(Err(Error::UserAbort)))
        } else {
            proof {
                use_type_invariant(&self);
            }
            call.send(self.attempt + 1)
        }
    }
}

// ---------------------------------------------------------------------------
// Laws of calls
// ---------------------------------------------------------------------------

/// A successful response ends a call at once and is its result.
pub proof fn law_success_is_returned(
    call: CallView,
    attempt: u32,
    report: Report,
    response: RawResponse,
    now: UnixTime,
)
    requires
        report.outcome == Outcome::Completed(response),
        is_success(response.status),
    ensures
        after_attempt(call, attempt, report, now) == StepView::Done(Ok(response)),
{
}

/// The cancellation of the caller ends a call at once, whatever its policy.
pub proof fn law_abort_is_not_retried(call: CallView, attempt: u32, report: Report, now: UnixTime)
    requires
        report.outcome is Cancelled,
    ensures
        after_attempt(call, attempt, report, now) == StepView::Done(Err(ErrorView::UserAbort)),
{
}

/// Without retries left, a call ends with what came of the attempt.
pub proof fn law_last_attempt_ends(call: CallView, attempt: u32, report: Report, now: UnixTime)
    requires
        attempt >= call.retry.max_retries,
    ensures
        after_attempt(call, attempt, report, now) == StepView::Done(ending(call, report.outcome)),
{
}

/// A status that the policy does not retry ends a call at once, with the error for the response.
pub proof fn law_other_statuses_are_not_retried(
    call: CallView,
    attempt: u32,
    report: Report,
    response: RawResponse,
    now: UnixTime,
)
    requires
        report.outcome == Outcome::Completed(response),
        !is_success(response.status),
        !call.retry.http_statuses.contains(response.status),
    ensures
        after_attempt(call, attempt, report, now) == StepView::Done(
            Err(
                ErrorView::Api(
                    crate::errors::api_error(
                        response.status,
                        crate::response::body_value(response.body@),
                        response.headers,
                    ),
                ),
            ),
        ),
{
}

/// Every attempt sends the same request, but for its headers, and has a timeout of its own.
pub proof fn law_attempts_send_the_same_request(call: CallView, attempt: u32, other: u32)
    requires
        sending(call, attempt) is Send,
        sending(call, other) is Send,
    ensures
        sending(call, attempt)->request == (HttpRequestView {
            headers: sending(call, attempt)->request.headers,
            ..sending(call, other)->request
        }),
        sending(call, attempt)->request.timeout_ms == call.timeout_ms,
{
}

/// A call logs at `debug` and `info` only: with a higher level, it logs nothing.
pub proof fn law_calls_log_no_warnings(
    call: CallView,
    attempt: u32,
    report: Report,
    now: UnixTime,
    level: LogLevel,
)
    requires
        level.rank() > LogLevel::Info.rank(),
    ensures
        crate::logging::kept(sending_entries(call, attempt), level) == Seq::<LogEntryView>::empty(),
        crate::logging::kept(report_entries(call, attempt, report, now), level) == Seq::<
            LogEntryView,
        >::empty(),
        crate::logging::kept(cancelled_wait_entries(call), level) == Seq::<LogEntryView>::empty(),
{
    crate::logging::lemma_kept_none(sending_entries(call, attempt), level);
    crate::logging::lemma_kept_none(report_entries(call, attempt, report, now), level);
    crate::logging::lemma_kept_none(cancelled_wait_entries(call), level);
}

/// Headers and bodies are logged at `debug` only: at `info`, nothing is logged before an attempt,
/// and one summary after a successful one.
pub proof fn law_info_logs_summaries(
    call: CallView,
    attempt: u32,
    report: Report,
    response: RawResponse,
    now: UnixTime,
)
    requires
        report.outcome == Outcome::Completed(response),
        is_success(response.status),
    ensures
        crate::logging::kept(sending_entries(call, attempt), LogLevel::Info) == Seq::<
            LogEntryView,
        >::empty(),
        crate::logging::kept(report_entries(call, attempt, report, now), LogLevel::Info)
            == attempt_entries(call, report),
        attempt_entries(call, report).len() == 1,
        attempt_entries(call, report)[0].data is None,
{
    crate::logging::lemma_kept_none(sending_entries(call, attempt), LogLevel::Info);
    crate::logging::lemma_kept_one(attempt_entries(call, report)[0], LogLevel::Info);
}

/// Whether the messages of all entries begin with a tag.
pub open spec fn tagged(entries: Seq<LogEntryView>, tag: Seq<char>) -> bool {
    forall|i: int|
        0 <= i < entries.len() ==> crate::text::begins_with((#[trigger] entries[i]).message, tag)
}

proof fn lemma_begins_with(start: Seq<char>, rest: Seq<char>)
    ensures
        crate::text::begins_with(start + rest, start),
{
    assert((start + rest).take(start.len() as int) =~= start);
}

proof fn lemma_kept_tagged(entries: Seq<LogEntryView>, level: LogLevel, tag: Seq<char>)
    requires
        tagged(entries, tag),
    ensures
        tagged(crate::logging::kept(entries, level), tag),
    decreases entries.len(),
{
    reveal(Seq::filter);
    if entries.len() > 0 {
        let earlier = entries.drop_last();
        assert forall|i: int| 0 <= i < earlier.len() implies crate::text::begins_with(
            (#[trigger] earlier[i]).message,
            tag,
        ) by {
            assert(earlier[i] == entries[i]);
        }
        lemma_kept_tagged(earlier, level, tag);
        assert(crate::text::begins_with(entries[entries.len() - 1].message, tag));
    }
}

proof fn lemma_attempt_entries_tagged(call: CallView, report: Report)
    ensures
        tagged(attempt_entries(call, report), call.tag),
{
    let elapsed = ms_text(report.elapsed_ms);
    match report.outcome {
        Outcome::Cancelled => {
            let rest = " aborted by caller after "@ + elapsed;
            assert(call.tag + " aborted by caller after "@ + elapsed =~= call.tag + rest);
            lemma_begins_with(call.tag, rest);
        },
        Outcome::TimedOut => {
            let rest = " timed out after "@ + elapsed;
            assert(call.tag + " timed out after "@ + elapsed =~= call.tag + rest);
            lemma_begins_with(call.tag, rest);
        },
        Outcome::Failed(_) => {
            let rest = " connection error after "@ + elapsed;
            assert(call.tag + " connection error after "@ + elapsed =~= call.tag + rest);
            lemma_begins_with(call.tag, rest);
        },
        Outcome::Completed(response) => {
            let status = crate::text::decimal(response.status as nat);
            let id = id_text(crate::response::request_id_in(response.headers));
            let rest = " <- "@ + status + " in "@ + elapsed + id;
            assert(call.tag + " <- "@ + status + " in "@ + elapsed + id =~= call.tag + rest);
            lemma_begins_with(call.tag, rest);
            lemma_begins_with(call.tag, " <- error body"@);
        },
    }
}

/// Every message that a call logs begins with its tag, at whatever level it logs.
pub proof fn law_messages_begin_with_the_tag(
    call: CallView,
    attempt: u32,
    report: Report,
    now: UnixTime,
    body: Option<JsonView>,
)
    ensures
        tagged(sending_entries(call, attempt), call.tag),
        tagged(report_entries(call, attempt, report, now), call.tag),
        tagged(cancelled_wait_entries(call), call.tag),
        tagged(body_entries(call, body), call.tag),
        tagged(crate::logging::kept(sending_entries(call, attempt), call.level), call.tag),
        tagged(
            crate::logging::kept(report_entries(call, attempt, report, now), call.level),
            call.tag,
        ),
        tagged(crate::logging::kept(cancelled_wait_entries(call), call.level), call.tag),
        tagged(crate::logging::kept(body_entries(call, body), call.level), call.tag),
{
    let to = " -> "@ + call.url;
    assert(call.tag + " -> "@ + call.url =~= call.tag + to);
    lemma_begins_with(call.tag, to);
    lemma_begins_with(call.tag, " aborted by caller while waiting to retry"@);
    lemma_begins_with(call.tag, " <- body"@);
    lemma_attempt_entries_tagged(call, report);
    let delay = crate::text::decimal(next_delay(call, attempt, report, now) as nat);
    let retry = crate::text::decimal((attempt + 1) as nat);
    let max = crate::text::decimal(call.retry.max_retries as nat);
    let why = reason(call, report.outcome);
    let rest = " retrying in "@ + delay + "ms (retry "@ + retry + "/"@ + max + ") after "@ + why;
    assert(call.tag + " retrying in "@ + delay + "ms (retry "@ + retry + "/"@ + max + ") after "@
        + why =~= call.tag + rest);
    lemma_begins_with(call.tag, rest);
    lemma_kept_tagged(sending_entries(call, attempt), call.level, call.tag);
    lemma_kept_tagged(report_entries(call, attempt, report, now), call.level, call.tag);
    lemma_kept_tagged(cancelled_wait_entries(call), call.level, call.tag);
    lemma_kept_tagged(body_entries(call, body), call.level, call.tag);
}

/// How many requests a call sends from an attempt on, if its attempts turn out as reported and no
/// wait is cancelled.
pub open spec fn requests_sent(call: CallView, attempt: u32, reports: Seq<Report>) -> nat
    decreases reports.len(),
{
    if reports.len() > 0 && goes_on(call, attempt, reports[0].outcome) {
        1 + requests_sent(call, (attempt + 1) as u32, reports.drop_first())
    } else {
        1
    }
}

/// How a call ends from an attempt on, if its attempts turn out as reported and no wait is
/// cancelled; `None` if the reports do not reach that far.
pub open spec fn result_of(call: CallView, attempt: u32, reports: Seq<Report>) -> Option<
    std::result::Result<RawResponse, ErrorView>,
>
    decreases reports.len(),
{
    if reports.len() == 0 {
        None
    } else if goes_on(call, attempt, reports[0].outcome) {
        result_of(call, (attempt + 1) as u32, reports.drop_first())
    } else {
        Some(ending(call, reports[0].outcome))
    }
}

proof fn lemma_requests_are_bounded(call: CallView, attempt: u32, reports: Seq<Report>)
    requires
        attempt <= call.retry.max_retries,
    ensures
        requests_sent(call, attempt, reports) <= call.retry.max_retries - attempt + 1,
    decreases reports.len(),
{
    if reports.len() > 0 && goes_on(call, attempt, reports[0].outcome) {
        lemma_requests_are_bounded(call, (attempt + 1) as u32, reports.drop_first());
    }
}

/// However its attempts turn out, a call sends one request and at most as many more as its policy
/// has retries.
pub proof fn law_requests_are_bounded(call: CallView, reports: Seq<Report>)
    ensures
        1 <= requests_sent(call, 0, reports) <= call.retry.max_retries + 1,
{
    lemma_requests_are_bounded(call, 0, reports);
}

proof fn lemma_all_retries_are_used(call: CallView, attempt: u32, reports: Seq<Report>)
    requires
        attempt <= call.retry.max_retries,
        reports.len() > call.retry.max_retries - attempt,
        forall|i: int|
            0 <= i < reports.len() ==> is_retryable(call, (#[trigger] reports[i]).outcome),
    ensures
        requests_sent(call, attempt, reports) == call.retry.max_retries - attempt + 1,
        result_of(call, attempt, reports) == Some(
            ending(call, reports[call.retry.max_retries - attempt].outcome),
        ),
    decreases reports.len(),
{
    assert(is_retryable(call, reports[0].outcome));
    if attempt < call.retry.max_retries {
        let rest = reports.drop_first();
        assert forall|i: int| 0 <= i < rest.len() implies is_retryable(
            call,
            (#[trigger] rest[i]).outcome,
        ) by {
            assert(rest[i] == reports[i + 1]);
        }
        lemma_all_retries_are_used(call, (attempt + 1) as u32, rest);
    }
}

/// A call whose attempts all fail in ways that its policy retries uses all its retries, and then
/// fails with the last error.
pub proof fn law_all_retries_are_used(call: CallView, reports: Seq<Report>)
    requires
        reports.len() > call.retry.max_retries,
        forall|i: int|
            0 <= i < reports.len() ==> is_retryable(call, (#[trigger] reports[i]).outcome),
    ensures
        requests_sent(call, 0, reports) == call.retry.max_retries + 1,
        result_of(call, 0, reports) == Some(
            ending(call, reports[call.retry.max_retries as int].outcome),
        ),
{
    lemma_all_retries_are_used(call, 0, reports);
}

proof fn lemma_later_success(
    call: CallView,
    attempt: u32,
    reports: Seq<Report>,
    n: int,
    response: RawResponse,
)
    requires
        0 <= n < reports.len(),
        attempt + n <= call.retry.max_retries,
        forall|i: int| 0 <= i < n ==> is_retryable(call, (#[trigger] reports[i]).outcome),
        reports[n].outcome == Outcome::Completed(response),
        is_success(response.status),
    ensures
        requests_sent(call, attempt, reports) == n + 1,
        result_of(call, attempt, reports) == Some(
            Ok::<RawResponse, ErrorView>(response),
        ),
    decreases n,
{
    if n > 0 {
        let rest = reports.drop_first();
        assert(is_retryable(call, reports[0].outcome));
        assert forall|i: int| 0 <= i < n - 1 implies is_retryable(
            call,
            (#[trigger] rest[i]).outcome,
        ) by {
            assert(rest[i] == reports[i + 1]);
        }
        lemma_later_success(call, (attempt + 1) as u32, rest, n - 1, response);
    }
}

/// A call succeeds when a later attempt succeeds, within its retries, after failures that its
/// policy retries; the failures leave no trace in its result.
pub proof fn law_later_success(
    call: CallView,
    reports: Seq<Report>,
    n: int,
    response: RawResponse,
)
    requires
        0 <= n < reports.len(),
        n <= call.retry.max_retries,
        forall|i: int| 0 <= i < n ==> is_retryable(call, (#[trigger] reports[i]).outcome),
        reports[n].outcome == Outcome::Completed(response),
        is_success(response.status),
    ensures
        requests_sent(call, 0, reports) == n + 1,
        result_of(call, 0, reports) == Some(
            Ok::<RawResponse, ErrorView>(response),
        ),
{
    lemma_later_success(call, 0, reports, n, response);
}

// ---------------------------------------------------------------------------
// Laws of steps
// ---------------------------------------------------------------------------

/// What a policy retries: a response that is no success and whose status is in its set, a timeout
/// and a failed delivery where it says so, and never a cancellation. Nothing else decides.
pub proof fn law_what_is_retried(call: CallView, outcome: Outcome)
    ensures
        is_retryable(call, outcome) <==> match outcome {
            Outcome::Completed(response) => !(200 <= response.status < 300)
                && call.retry.http_statuses.contains(response.status),
            Outcome::TimedOut => call.retry.api_timeout_error,
            Outcome::Failed(_) => call.retry.api_connection_error,
            Outcome::Cancelled => false,
        },
{
}

/// After a response with any status in the set of the policy, and none of success, a call with
/// retries left waits: as long as the headers of the response ask, if the policy honors that, or
/// else for the backoff. The status has no part in the delay.
pub proof fn law_listed_statuses_are_retried(
    call: CallView,
    attempt: u32,
    report: Report,
    response: RawResponse,
    now: UnixTime,
)
    requires
        report.outcome == Outcome::Completed(response),
        response.status < 200 || response.status >= 300,
        call.retry.http_statuses.contains(response.status),
        attempt < call.retry.max_retries,
    ensures
        after_attempt(call, attempt, report, now) == (StepView::Wait {
            attempt,
            delay_ms: match crate::retry::retry_after_at(response.headers, report.numbers, now) {
                Some(ms) if crate::retry::honors(call.retry, ms) => ms,
                _ => crate::retry::jittered_backoff(attempt, call.retry, report.random),
            },
        }),
{
}

/// Two responses with the same headers, whatever their statuses and bodies, are waited for alike
/// if both are retried.
pub proof fn law_delays_do_not_depend_on_the_status(
    call: CallView,
    attempt: u32,
    report: Report,
    other: Report,
    response: RawResponse,
    other_response: RawResponse,
    now: UnixTime,
)
    requires
        report.outcome == Outcome::Completed(response),
        other.outcome == Outcome::Completed(other_response),
        response.headers == other_response.headers,
        report.numbers == other.numbers,
        report.random == other.random,
        after_attempt(call, attempt, report, now) is Wait,
        after_attempt(call, attempt, other, now) is Wait,
    ensures
        after_attempt(call, attempt, report, now) == after_attempt(call, attempt, other, now),
{
}

/// After a timeout or a failed delivery that the policy retries, a call with retries left waits for
/// the backoff: no server asks for another delay.
pub proof fn law_failures_without_a_response_are_retried(
    call: CallView,
    attempt: u32,
    report: Report,
    now: UnixTime,
)
    requires
        attempt < call.retry.max_retries,
        report.outcome is TimedOut && call.retry.api_timeout_error || report.outcome is Failed
            && call.retry.api_connection_error,
    ensures
        after_attempt(call, attempt, report, now) == (StepView::Wait {
            attempt,
            delay_ms: crate::retry::jittered_backoff(attempt, call.retry, report.random),
        }),
{
}

/// A timeout or a failed delivery that is not retried ends a call: with the timeout of the call, or
/// with what failed.
pub proof fn law_failures_without_a_response_are_reported(
    call: CallView,
    attempt: u32,
    report: Report,
    now: UnixTime,
)
    ensures
        report.outcome is TimedOut && (attempt >= call.retry.max_retries
            || !call.retry.api_timeout_error) ==> after_attempt(call, attempt, report, now)
            == StepView::Done(Err(ErrorView::Timeout(call.timeout_ms))),
        report.outcome matches Outcome::Failed(failed) ==> (attempt >= call.retry.max_retries
            || !call.retry.api_connection_error ==> after_attempt(call, attempt, report, now)
            == StepView::Done(Err(ErrorView::Connection("Connection error: "@ + failed@)))),
{
}

/// An unsuccessful response that is not retried ends a call with an error that holds its status,
/// its headers, its body and its request ID.
pub proof fn law_refusals_are_reported(
    call: CallView,
    attempt: u32,
    report: Report,
    response: RawResponse,
    now: UnixTime,
)
    requires
        report.outcome == Outcome::Completed(response),
        response.status < 200 || response.status >= 300,
        attempt >= call.retry.max_retries || !call.retry.http_statuses.contains(response.status),
    ensures
        after_attempt(call, attempt, report, now) matches StepView::Done(Err(ErrorView::Api(error)))
            && {
            &&& error.status == response.status
            &&& error.headers == response.headers
            &&& error.body == crate::response::body_value(response.body@)
            &&& error.request_id == crate::headers::text_in(
                response.headers,
                "x-typesafe-request-id"@,
            )
            &&& error.message == crate::errors::description(response.status, error.body)
        },
{
}

/// Every response with a status of success, and no other, is the result of a call.
pub proof fn law_only_successes_are_returned(
    call: CallView,
    attempt: u32,
    report: Report,
    response: RawResponse,
    now: UnixTime,
)
    requires
        report.outcome == Outcome::Completed(response),
    ensures
        200 <= response.status < 300 <==> after_attempt(call, attempt, report, now)
            == StepView::Done(Ok(response)),
{
}

/// A request that is sent has the method, the URL and the timeout of its call, and the JSON text of
/// its body exactly if there is one.
pub proof fn law_sent_request(
    call: CallView,
    attempt: u32,
    sent: u32,
    request: HttpRequestView,
)
    requires
        sending(call, attempt) == (StepView::Send { attempt: sent, request }),
    ensures
        sent == attempt,
        request.method == call.method,
        request.url == call.url,
        request.timeout_ms == call.timeout_ms,
        call.body matches Some(body) ==> request.body == Some(crate::json::json_text(body)),
        call.body is None ==> request.body is None,
{
}

/// A call whose headers are all valid, and not too many, is sent.
pub proof fn law_valid_calls_are_sent(step: StepView, call: CallView, attempt: u32)
    requires
        sends(step, call, attempt),
        call.headers.len() < 6553,
        forall|i: int|
            0 <= i < call.headers.len() ==> crate::headers::is_header_name(
                (#[trigger] call.headers[i]).0,
            ) && crate::headers::is_header_value(call.headers[i].1),
    ensures
        step is Send,
        step == sending(call, attempt),
{
    let all = attempt_headers(call, attempt);
    let count = crate::text::decimal(attempt as nat);
    reveal_strlit("X-TypeSafe-Retry-Count");
    crate::text::lemma_decimal_is_made_of_digits(attempt as nat);
    assert forall|i: int| 0 <= i < all.len() implies crate::headers::is_header_name(
        (#[trigger] all[i]).0,
    ) && crate::headers::is_header_value(all[i].1) by {
        if i < call.headers.len() {
            assert(all[i] == call.headers[i]);
        } else {
            assert(all[i] == ("X-TypeSafe-Retry-Count"@, count));
        }
    }
    crate::headers::law_valid_headers_make_a_map(all);
}

/// The messages of a call say what it does: where it sends a request, how an attempt turned out and
/// how long it took, and how long it waits for which retry and why.
pub proof fn law_messages_say_what_happens(
    call: CallView,
    attempt: u32,
    report: Report,
    now: UnixTime,
)
    ensures
        sending_entries(call, attempt).len() == 1,
        sending_entries(call, attempt)[0].message == call.tag + " -> "@ + call.url,
        attempt_entries(call, report).len() >= 1,
        ({
            let first = attempt_entries(call, report)[0];
            let took = crate::text::decimal(report.elapsed_ms as nat) + "ms"@;
            &&& first.level == LogLevel::Info
            &&& match report.outcome {
                Outcome::Cancelled => first.message == call.tag + " aborted by caller after "@ + took,
                Outcome::TimedOut => first.message == call.tag + " timed out after "@ + took,
                Outcome::Failed(reason) => first.message == call.tag + " connection error after "@
                    + took && first.data == Some(JsonView::String(reason@)),
                Outcome::Completed(response) => first.message == call.tag + " <- "@
                    + crate::text::decimal(response.status as nat) + " in "@ + took
                    + match crate::headers::text_in(response.headers, "x-typesafe-request-id"@) {
                    Some(id) => " (request "@ + id + ")"@,
                    None => Seq::<char>::empty(),
                },
            }
        }),
        after_attempt(call, attempt, report, now) matches StepView::Wait { delay_ms, .. } ==> {
            let last = report_entries(call, attempt, report, now).last();
            let why = match report.outcome {
                Outcome::Completed(response) => crate::text::decimal(response.status as nat),
                Outcome::Failed(reason) => "Connection error: "@ + reason@,
                _ => "Request timed out after "@ + crate::text::decimal(call.timeout_ms as nat)
                    + "ms."@,
            };
            &&& last.level == LogLevel::Info
            &&& last.message == call.tag + " retrying in "@ + crate::text::decimal(delay_ms as nat)
                + "ms (retry "@ + crate::text::decimal((attempt + 1) as nat) + "/"@
                + crate::text::decimal(call.retry.max_retries as nat) + ") after "@ + why
        },
{
}

/// A response that is no success has its body logged, at `debug`; the body of a success is logged
/// where it is read.
pub proof fn law_bodies_are_logged(
    call: CallView,
    report: Report,
    response: RawResponse,
    body: Option<JsonView>,
)
    requires
        report.outcome == Outcome::Completed(response),
    ensures
        200 <= response.status < 300 ==> attempt_entries(call, report).len() == 1,
        !(200 <= response.status < 300) ==> attempt_entries(call, report).len() == 2
            && attempt_entries(call, report)[1] == (LogEntryView {
            level: LogLevel::Debug,
            message: call.tag + " <- error body"@,
            data: crate::response::body_value(response.body@),
        }),
        body_entries(call, body) == seq![
            LogEntryView { level: LogLevel::Debug, message: call.tag + " <- body"@, data: body },
        ],
{
}

/// What is logged of a request are its headers, each as it is redacted, and its body.
pub proof fn law_requests_are_logged(call: CallView, attempt: u32)
    requires
        crate::json::distinct_names(attempt_headers(call, attempt)),
    ensures
        sending_entries(call, attempt)[0].level == LogLevel::Debug,
        sending_entries(call, attempt)[0].data matches Some(JsonView::Object(members)) && {
            &&& members.len() == 2
            &&& members[0].0 == "headers"@
            &&& members[0].1 matches JsonView::Object(shown) && {
                &&& shown.len() == attempt_headers(call, attempt).len()
                &&& forall|i: int|
                    0 <= i < shown.len() ==> #[trigger] shown[i] == (
                        attempt_headers(call, attempt)[i].0,
                        JsonView::String(
                            crate::logging::redacted(
                                attempt_headers(call, attempt)[i].0,
                                attempt_headers(call, attempt)[i].1,
                            ),
                        ),
                    )
            }
            &&& members[1].0 == "body"@
            &&& call.body matches Some(body) ==> members[1].1 == body
            &&& call.body is None ==> members[1].1 == JsonView::Null
        },
{
    let headers = attempt_headers(call, attempt);
    let shown = string_members(crate::logging::redacted_headers(headers));
    assert forall|i: int, j: int| 0 <= i < j < shown.len() implies (#[trigger] shown[i]).0 != (
    #[trigger] shown[j]).0 by {
        assert(headers[i].0 != headers[j].0);
    }
    crate::json::law_distinct_names_keep_their_order(shown);
}

/// What a step says is what it holds: the attempt and the whole request, or the wait to its
/// millisecond, or the result.
pub proof fn law_steps_say_what_they_hold<'a>(step: Step<'a>)
    ensures
        match step {
            Step::Send(sending, request) => {
                &&& step@ matches StepView::Send { attempt, request: said } && {
                    &&& attempt == sending.attempt()
                    &&& said.method == request.method
                    &&& said.url == request.url@
                    &&& said.headers == crate::headers::header_values(request.headers)
                    &&& said.timeout_ms == request.timeout_ms
                    &&& match request.body {
                        Some(text) => said.body == Some(text@),
                        None => said.body is None,
                    }
                }
            },
            Step::Wait(waiting, ms) => step@ == (StepView::Wait {
                attempt: waiting.attempt(),
                delay_ms: ms,
            }),
            Step::Done(Ok(response)) => step@ == StepView::Done(Ok(response)),
            Step::Done(Err(error)) => step@ == StepView::Done(Err(error@)),
        },
{
}

/// The cancellation of a wait is logged as that.
pub proof fn law_cancelled_waits_are_logged(call: CallView)
    ensures
        cancelled_wait_entries(call) == seq![
            LogEntryView {
                level: LogLevel::Info,
                message: call.tag + " aborted by caller while waiting to retry"@,
                data: None,
            },
        ],
{
}

/// A call sends as many requests as it has failures that its policy retries, and one more: with one
/// failure more, and a retry left, it sends one request more.
pub proof fn law_each_retried_failure_adds_a_request(
    call: CallView,
    attempt: u32,
    reports: Seq<Report>,
    response: RawResponse,
)
    requires
        reports.len() > 0,
        attempt < call.retry.max_retries,
        reports[0].outcome == Outcome::Completed(response),
    ensures
        !(200 <= response.status < 300) && call.retry.http_statuses.contains(response.status)
            ==> requests_sent(call, attempt, reports) == 1 + requests_sent(
            call,
            (attempt + 1) as u32,
            reports.drop_first(),
        ) && result_of(call, attempt, reports) == result_of(
            call,
            (attempt + 1) as u32,
            reports.drop_first(),
        ),
        200 <= response.status < 300 || !call.retry.http_statuses.contains(response.status)
            ==> requests_sent(call, attempt, reports) == 1,
{
}

/// The names of the methods.
pub proof fn law_methods(method: Method)
    ensures
        method.name() == match method {
            Method::Get => "GET"@,
            Method::Post => "POST"@,
        },
{
}

} // verus!
