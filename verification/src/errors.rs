//! Errors, and the messages that describe unsuccessful responses.

use reqwest::header::HeaderMap;
use vstd::prelude::*;

use crate::json::{Json, JsonView};
use crate::response::request_id_from;
use crate::retry::{parse_retry_after, RetryAfterNumbers, UnixTime};
use crate::text::{same_text, to_decimal};

verus! {

/// The result type of this crate.
pub type Result<T> = std::result::Result<T, Error>;

/// All errors of the client.
#[derive(Debug)]
pub enum Error {
    /// The configuration or the request is invalid. No request was sent.
    TypeSafe(String),
    /// An unsuccessful HTTP response from the API.
    Api(Box<ApiError>),
    /// The request or response-body delivery failed (DNS, TLS, connection closed, etc.).
    Connection { message: String },
    /// The full response did not arrive within the timeout. A kind of connection error.
    Timeout {
        /// Configured timeout in milliseconds.
        timeout_ms: u64,
    },
    /// The caller cancelled the request.
    UserAbort,
}

impl Error {
    /// Whether the error refuses a configuration or a request with this message.
    pub open spec fn refuses(self, message: Seq<char>) -> bool {
        self@ == ErrorView::TypeSafe(message)
    }
}

/// The class of an unsuccessful HTTP response.
#[derive(Debug, Clone, Copy, PartialEq, Eq, Structural)]
pub enum ApiErrorKind {
    /// HTTP 400: the request is invalid.
    BadRequest,
    /// HTTP 401: authentication failed.
    Authentication,
    /// HTTP 403: access is denied.
    PermissionDenied,
    /// HTTP 404: the resource was not found.
    NotFound,
    /// HTTP 422: request validation failed.
    UnprocessableEntity,
    /// HTTP 429: the rate limit was exceeded.
    RateLimit,
    /// HTTP 5xx: the server failed to handle the request.
    InternalServer,
    /// Any other status.
    Other,
}

/// An unsuccessful HTTP response from the API.
#[derive(Debug)]
pub struct ApiError {
    /// HTTP response status code.
    pub status: u16,
    /// HTTP response headers.
    pub headers: HeaderMap,
    /// Parsed JSON, response text as a JSON string, or `None` for an empty body.
    pub body: Option<Json>,
    /// Request ID from `x-typesafe-request-id`, or `None` when absent.
    pub request_id: Option<String>,
    message: String,
}

// ---------------------------------------------------------------------------
// Messages
// ---------------------------------------------------------------------------

/// How many characters of a raw body a message shows.
pub const MAX_RAW_BODY_IN_MESSAGE: usize = 200;

pub open spec fn body_view(body: Option<Json>) -> Option<JsonView> {
    match body {
        Some(json) => Some(json@),
        None => None,
    }
}

/// The text of a JSON string.
pub open spec fn string_of(value: Option<JsonView>) -> Option<Seq<char>> {
    match value {
        Some(JsonView::String(text)) => Some(text),
        _ => None,
    }
}

/// The text of the member `message` of a JSON object.
pub open spec fn nested_message(value: Option<JsonView>) -> Option<Seq<char>> {
    match value {
        Some(object) => string_of(crate::json::json_member(object, "message"@)),
        None => None,
    }
}

/// The first of two that there is.
pub open spec fn or(first: Option<Seq<char>>, second: Option<Seq<char>>) -> Option<Seq<char>> {
    match first {
        Some(text) => Some(text),
        None => second,
    }
}

/// The texts of a list with a separator between each two.
pub open spec fn joined(parts: Seq<Seq<char>>, separator: Seq<char>) -> Seq<char>
    decreases parts.len(),
{
    if parts.len() == 0 {
        Seq::empty()
    } else if parts.len() == 1 {
        parts[0]
    } else {
        joined(parts.drop_last(), separator) + separator + parts.last()
    }
}

/// One step of the path to an invalid field: a name as it is, anything else as JSON text.
pub open spec fn path_step(step: JsonView) -> Seq<char> {
    match step {
        JsonView::String(name) => name,
        other => crate::json::json_text(other),
    }
}

/// The steps of a path but for those that say `body`.
pub open spec fn path_steps(steps: Seq<JsonView>) -> Seq<Seq<char>>
    decreases steps.len(),
{
    if steps.len() == 0 {
        Seq::empty()
    } else if steps.last() == JsonView::String("body"@) {
        path_steps(steps.drop_last())
    } else {
        path_steps(steps.drop_last()).push(path_step(steps.last()))
    }
}

/// The path to an invalid field, with dots between its steps.
pub open spec fn location(path: Option<JsonView>) -> Seq<char> {
    match path {
        Some(JsonView::Array(steps)) => joined(path_steps(steps), "."@),
        _ => Seq::empty(),
    }
}

/// A validation error as `path: message`, or as its message where it has no path.
pub open spec fn validation_error(error: JsonView) -> Option<Seq<char>> {
    match string_of(crate::json::json_member(error, "msg"@)) {
        None => None,
        Some(message) => {
            let path = location(crate::json::json_member(error, "loc"@));
            if path.len() == 0 {
                Some(message)
            } else {
                Some(path + ": "@ + message)
            }
        },
    }
}

/// The validation errors that have a message.
pub open spec fn validation_errors(errors: Seq<JsonView>) -> Seq<Seq<char>>
    decreases errors.len(),
{
    if errors.len() == 0 {
        Seq::empty()
    } else {
        match validation_error(errors.last()) {
            Some(text) => validation_errors(errors.drop_last()).push(text),
            None => validation_errors(errors.drop_last()),
        }
    }
}

/// A list of validation errors as text, with `; ` between each two.
pub open spec fn validation_message(errors: Option<JsonView>) -> Option<Seq<char>> {
    match errors {
        Some(JsonView::Array(errors)) => if validation_errors(errors).len() == 0 {
            None
        } else {
            Some(joined(validation_errors(errors), "; "@))
        },
        _ => None,
    }
}

/// The message in a text, error, or validation response body.
pub open spec fn message_in(body: JsonView) -> Option<Seq<char>> {
    match body {
        JsonView::String(text) => if text.len() == 0 {
            None
        } else {
            Some(text)
        },
        JsonView::Object(_) => {
            let error = crate::json::json_member(body, "error"@);
            let message = crate::json::json_member(body, "message"@);
            let detail = crate::json::json_member(body, "detail"@);
            or(
                string_of(error),
                or(
                    nested_message(error),
                    or(
                        string_of(message),
                        or(
                            string_of(detail),
                            or(nested_message(detail), validation_message(detail)),
                        ),
                    ),
                ),
            )
        },
        _ => None,
    }
}

/// A raw body in a message: cut off after the first two hundred characters.
pub open spec fn shortened(raw: Seq<char>) -> Seq<char> {
    if raw.len() > MAX_RAW_BODY_IN_MESSAGE {
        raw.take(MAX_RAW_BODY_IN_MESSAGE as int) + "\u{2026}"@
    } else {
        raw
    }
}

/// The message of an unsuccessful response.
pub open spec fn description(status: u16, body: Option<JsonView>) -> Seq<char> {
    let code = crate::text::decimal(status as nat);
    match body {
        None => code + " status code (no body)"@,
        Some(value) => code + " "@ + match message_in(value) {
            Some(detail) => detail,
            None => shortened(path_step(value)),
        },
    }
}

fn string_text(value: Option<&Json>) -> (text: Option<String>)
    ensures
        crate::text::optional(text) == string_of(crate::json::optional(value)),
{
    match value {
        Some(Json::String(text)) => Some(text.clone()),
        _ => None,
    }
}

fn nested_text(value: Option<&Json>) -> (text: Option<String>)
    ensures
        crate::text::optional(text) == nested_message(crate::json::optional(value)),
{
    match value {
        Some(json) => string_text(json.get("message")),
        None => None,
    }
}

fn step_text(step: &Json) -> (text: String)
    ensures
        text@ == path_step(step@),
{
    match step {
        Json::String(name) => name.clone(),
        other => other.to_string(),
    }
}

pub open spec fn texts(parts: Seq<String>) -> Seq<Seq<char>> {
    parts.map_values(|part: String| part@)
}

fn join(parts: &Vec<String>, separator: &str) -> (text: String)
    ensures
        text@ == joined(texts(parts@), separator@),
{
    let mut text = String::new();
    let mut i: usize = 0;
    assert(texts(parts@).take(0) == Seq::<Seq<char>>::empty());
    while i < parts.len()
        invariant
            i <= parts.len(),
            text@ == joined(texts(parts@).take(i as int), separator@),
        decreases parts.len() - i,
    {
        if i > 0 {
            text.append(separator);
        }
        text.append(parts[i].as_str());
        proof {
            let next = texts(parts@).take(i + 1);
            assert(next.drop_last() == texts(parts@).take(i as int));
            assert(next.last() == parts@[i as int]@);
            assert(Seq::<char>::empty() + parts@[i as int]@ == parts@[i as int]@);
        }
        i = i + 1;
    }
    assert(texts(parts@).take(parts@.len() as int) == texts(parts@));
    text
}

fn location_text(path: Option<&Json>) -> (text: String)
    ensures
        text@ == location(crate::json::optional(path)),
{
    match path {
        Some(Json::Array(steps)) => {
            let ghost all = path->0@->Array_0;
            let mut parts: Vec<String> = Vec::new();
            let mut i: usize = 0;
            assert(all.take(0) == Seq::<JsonView>::empty());
            assert(texts(parts@) == Seq::<Seq<char>>::empty());
            while i < steps.len()
                invariant
                    i <= steps.len(),
                    all.len() == steps.len(),
                    forall|j: int| 0 <= j < all.len() ==> #[trigger] all[j] == steps@[j]@,
                    texts(parts@) == path_steps(all.take(i as int)),
                decreases steps.len() - i,
            {
                let step = &steps[i];
                let named_body = match step {
                    Json::String(name) => same_text(name.as_str(), "body"),
                    _ => false,
                };
                proof {
                    assert(all.take(i + 1).drop_last() == all.take(i as int));
                    assert(all.take(i + 1).last() == step@);
                }
                if !named_body {
                    let ghost before = parts@;
                    parts.push(step_text(step));
                    assert(texts(parts@) == texts(before).push(path_step(step@)));
                }
                i = i + 1;
            }
            assert(all.take(all.len() as int) == all);
            join(&parts, ".")
        },
        _ => String::new(),
    }
}

fn validation_error_text(error: &Json) -> (text: Option<String>)
    ensures
        crate::text::optional(text) == validation_error(error@),
{
    match string_text(error.get("msg")) {
        None => None,
        Some(message) => {
            let path = location_text(error.get("loc"));
            if path.as_str().is_empty() {
                Some(message)
            } else {
                let mut text = path;
                text.append(": ");
                text.append(message.as_str());
                Some(text)
            }
        },
    }
}

/// Format validation errors as semicolon-separated `path: message` entries.
pub fn describe_validation_errors(errors: &Vec<Json>) -> (text: Option<String>)
    ensures
        crate::text::optional(text) == validation_message(Some(Json::Array(*errors)@)),
{
    let ghost all = Json::Array(*errors)@->Array_0;
    let mut parts: Vec<String> = Vec::new();
    let mut i: usize = 0;
    assert(all.take(0) == Seq::<JsonView>::empty());
    assert(texts(parts@) == Seq::<Seq<char>>::empty());
    while i < errors.len()
        invariant
            i <= errors.len(),
            all.len() == errors.len(),
            forall|j: int| 0 <= j < all.len() ==> #[trigger] all[j] == errors@[j]@,
            texts(parts@) == validation_errors(all.take(i as int)),
        decreases errors.len() - i,
    {
        proof {
            assert(all.take(i + 1).drop_last() == all.take(i as int));
            assert(all.take(i + 1).last() == errors@[i as int]@);
        }
        match validation_error_text(&errors[i]) {
            Some(text) => {
                let ghost before = parts@;
                parts.push(text);
                assert(texts(parts@) == texts(before).push(text@));
            },
            None => {},
        }
        i = i + 1;
    }
    assert(all.take(all.len() as int) == all);
    if parts.len() == 0 {
        None
    } else {
        Some(join(&parts, "; "))
    }
}

/// Extract a message from a text, error, or validation response body.
fn extract_message(body: &Json) -> (text: Option<String>)
    ensures
        crate::text::optional(text) == message_in(body@),
{
    match body {
        Json::String(text) => if text.as_str().is_empty() {
            None
        } else {
            Some(text.clone())
        },
        Json::Object(record) => {
            let error = record.get("error");
            let message = record.get("message");
            let detail = record.get("detail");
            if let Some(text) = string_text(error) {
                return Some(text);
            }
            if let Some(text) = nested_text(error) {
                return Some(text);
            }
            if let Some(text) = string_text(message) {
                return Some(text);
            }
            if let Some(text) = string_text(detail) {
                return Some(text);
            }
            if let Some(text) = nested_text(detail) {
                return Some(text);
            }
            match detail {
                Some(Json::Array(errors)) => describe_validation_errors(errors),
                _ => None,
            }
        },
        _ => None,
    }
}

/// The message of an unsuccessful response.
pub fn describe(status: u16, body: Option<&Json>) -> (message: String)
    ensures
        message@ == description(status, crate::json::optional(body)),
{
    let mut text = to_decimal(status as u64);
    match body {
        None => {
            text.append(" status code (no body)");
        },
        Some(body) => {
            text.append(" ");
            match extract_message(body) {
                Some(detail) => {
                    text.append(detail.as_str());
                },
                None => {
                    let raw = step_text(body);
                    if raw.as_str().unicode_len() > MAX_RAW_BODY_IN_MESSAGE {
                        let mut cut = raw.as_str().substring_char(0, MAX_RAW_BODY_IN_MESSAGE).to_owned();
                        cut.append("\u{2026}");
                        assert(raw@.subrange(0, 200) == raw@.take(200));
                        text.append(cut.as_str());
                    } else {
                        text.append(raw.as_str());
                    }
                },
            }
        },
    }
    text
}

// ---------------------------------------------------------------------------
// Errors
// ---------------------------------------------------------------------------

/// The class of a status code.
pub open spec fn kind_of(status: u16) -> ApiErrorKind {
    if status == 400 {
        ApiErrorKind::BadRequest
    } else if status == 401 {
        ApiErrorKind::Authentication
    } else if status == 403 {
        ApiErrorKind::PermissionDenied
    } else if status == 404 {
        ApiErrorKind::NotFound
    } else if status == 422 {
        ApiErrorKind::UnprocessableEntity
    } else if status == 429 {
        ApiErrorKind::RateLimit
    } else if 500 <= status < 600 {
        ApiErrorKind::InternalServer
    } else {
        ApiErrorKind::Other
    }
}

/// What the error for an unsuccessful response holds.
pub struct ApiErrorView {
    pub status: u16,
    pub headers: HeaderMap,
    pub body: Option<JsonView>,
    pub request_id: Option<Seq<char>>,
    pub message: Seq<char>,
}

impl View for ApiError {
    type V = ApiErrorView;

    closed spec fn view(&self) -> ApiErrorView {
        ApiErrorView {
            status: self.status,
            headers: self.headers,
            body: body_view(self.body),
            request_id: crate::text::optional(self.request_id),
            message: self.message@,
        }
    }
}

/// The error for an unsuccessful response.
pub open spec fn api_error(status: u16, body: Option<JsonView>, headers: HeaderMap) -> ApiErrorView {
    ApiErrorView {
        status,
        headers,
        body,
        request_id: crate::response::request_id_in(headers),
        message: description(status, body),
    }
}

impl ApiError {
    /// Create the error for an HTTP status code.
    pub fn from_response(status: u16, body: Option<Json>, headers: HeaderMap) -> (error: ApiError)
        ensures
            error@ == api_error(status, body_view(body), headers),
    {
        let message = describe(status, body.as_ref());
        let request_id = request_id_from(&headers);
        ApiError { status, headers, body, request_id, message }
    }

    /// The class of the status.
    pub fn kind(&self) -> (kind: ApiErrorKind)
        ensures
            kind == kind_of(self@.status),
    {
        match self.status {
            400 => ApiErrorKind::BadRequest,
            401 => ApiErrorKind::Authentication,
            403 => ApiErrorKind::PermissionDenied,
            404 => ApiErrorKind::NotFound,
            422 => ApiErrorKind::UnprocessableEntity,
            429 => ApiErrorKind::RateLimit,
            500..=599 => ApiErrorKind::InternalServer,
            _ => ApiErrorKind::Other,
        }
    }

    /// Server retry delay in milliseconds of a rate limit error, or `None` when absent or invalid.
    /// A date in the headers is held against the system clock.
    pub fn retry_after_ms(&self, numbers: &RetryAfterNumbers) -> (delay: Option<u64>)
        ensures
            kind_of(self@.status) != ApiErrorKind::RateLimit ==> delay is None,
            kind_of(self@.status) == ApiErrorKind::RateLimit ==> exists|time: UnixTime|
                time.valid() && delay == #[trigger] crate::retry::retry_after_at(
                    self@.headers,
                    *numbers,
                    time,
                ),
    {
        if self.kind() == ApiErrorKind::RateLimit {
            let delay = parse_retry_after(&self.headers, numbers, None);
            assert(self@.headers == self.headers);
            delay
        } else {
            None
        }
    }

    /// The message of the error.
    pub fn to_string(&self) -> (text: String)
        ensures
            text@ == self@.message,
    {
        self.message.clone()
    }
}

/// What an error says.
pub enum ErrorView {
    TypeSafe(Seq<char>),
    Api(ApiErrorView),
    Connection(Seq<char>),
    Timeout(u64),
    UserAbort,
}

impl View for Error {
    type V = ErrorView;

    open spec fn view(&self) -> ErrorView {
        match self {
            Error::TypeSafe(text) => ErrorView::TypeSafe(text@),
            Error::Api(error) => ErrorView::Api(error@),
            Error::Connection { message } => ErrorView::Connection(message@),
            Error::Timeout { timeout_ms } => ErrorView::Timeout(*timeout_ms),
            Error::UserAbort => ErrorView::UserAbort,
        }
    }
}

impl ErrorView {
    /// The message of the error.
    pub open spec fn message(self) -> Seq<char> {
        match self {
            ErrorView::TypeSafe(text) => text,
            ErrorView::Api(error) => error.message,
            ErrorView::Connection(message) => message,
            ErrorView::Timeout(timeout_ms) => "Request timed out after "@ + crate::text::decimal(
                timeout_ms as nat,
            ) + "ms."@,
            ErrorView::UserAbort => "Request was aborted."@,
        }
    }
}

/// The message of a failed delivery, with what failed if that is known.
pub open spec fn connection_message(reason: Option<Seq<char>>) -> Seq<char> {
    match reason {
        Some(text) => "Connection error: "@ + text,
        None => "Connection error."@,
    }
}

impl Error {
    /// The error of a failed delivery, with what failed if that is known.
    pub fn connection(reason: Option<&str>) -> (error: Error)
        ensures
            error@ == ErrorView::Connection(
                connection_message(
                    match reason {
                        Some(text) => Some(text@),
                        None => None,
                    },
                ),
            ),
    {
        let message = match reason {
            Some(reason) => {
                let mut text = "Connection error: ".to_owned();
                text.append(reason);
                text
            },
            None => "Connection error.".to_owned(),
        };
        Error::Connection { message }
    }

    /// `true` for a connection error and for a timeout, which is a kind of connection error.
    pub fn is_connection_error(&self) -> (is: bool)
        ensures
            is == (self is Connection || self is Timeout),
    {
        match self {
            Error::Connection { .. } => true,
            Error::Timeout { .. } => true,
            _ => false,
        }
    }

    /// The API error, when the server returned an unsuccessful response.
    pub fn as_api_error(&self) -> (error: Option<&ApiError>)
        ensures
            match error {
                Some(e) => self matches Error::Api(api) && *api == *e,
                None => !(self is Api),
            },
    {
        match self {
            Error::Api(error) => Some(error),
            _ => None,
        }
    }

    /// The message of the error.
    pub fn to_string(&self) -> (text: String)
        ensures
            text@ == self@.message(),
    {
        match self {
            Error::TypeSafe(text) => text.clone(),
            Error::Api(error) => error.to_string(),
            Error::Connection { message } => message.clone(),
            Error::Timeout { timeout_ms } => {
                let mut text = "Request timed out after ".to_owned();
                text.append(to_decimal(*timeout_ms).as_str());
                text.append("ms.");
                text
            },
            Error::UserAbort => "Request was aborted.".to_owned(),
        }
    }
}

// ---------------------------------------------------------------------------
// Laws of messages
// ---------------------------------------------------------------------------

/// The message of an unsuccessful response starts with its status.
pub proof fn law_message_starts_with_the_status(status: u16, body: Option<JsonView>)
    ensures
        (crate::text::decimal(status as nat) + " "@).is_prefix_of(description(status, body)),
{
    reveal_strlit(" ");
    reveal_strlit(" status code (no body)");
    let head = crate::text::decimal(status as nat) + " "@;
    let message = description(status, body);
    assert(" status code (no body)"@[0] == ' ');
    assert(message.subrange(0, head.len() as int) =~= head);
}

/// A body without a message of its own is shown up to two hundred characters.
pub proof fn law_raw_bodies_are_cut(status: u16, body: JsonView)
    requires
        message_in(body) is None,
    ensures
        description(status, Some(body)).len() <= crate::text::decimal(status as nat).len() + 1 + 201,
        path_step(body).len() <= 200 ==> description(status, Some(body)) == crate::text::decimal(
            status as nat,
        ) + " "@ + path_step(body),
{
    reveal_strlit(" ");
    reveal_strlit("\u{2026}");
}

// ---------------------------------------------------------------------------
// Laws of validation messages
// ---------------------------------------------------------------------------

proof fn lemma_validation_errors_of_two(first: Seq<JsonView>, second: Seq<JsonView>)
    ensures
        validation_errors(first + second) == validation_errors(first) + validation_errors(second),
    decreases second.len(),
{
    let all = first + second;
    if second.len() == 0 {
        assert(all =~= first);
        assert(validation_errors(first) + validation_errors(second) =~= validation_errors(first));
    } else {
        lemma_validation_errors_of_two(first, second.drop_last());
        assert(all.drop_last() =~= first + second.drop_last());
        assert(all.last() == second.last());
        assert(validation_errors(all) =~= validation_errors(first) + validation_errors(second));
    }
}

proof fn lemma_joined_of_two(first: Seq<Seq<char>>, second: Seq<Seq<char>>, separator: Seq<char>)
    requires
        first.len() > 0,
        second.len() > 0,
    ensures
        joined(first + second, separator) == joined(first, separator) + separator + joined(
            second,
            separator,
        ),
    decreases second.len(),
{
    let all = first + second;
    assert(all.last() == second.last());
    assert(all.drop_last() =~= first + second.drop_last());
    if second.len() == 1 {
        assert(all.drop_last() =~= first);
    } else {
        lemma_joined_of_two(first, second.drop_last(), separator);
        assert(joined(all, separator) =~= joined(first, separator) + separator + joined(
            second,
            separator,
        ));
    }
}

/// The message of two lists of validation errors in a row is that of the one, `; `, and that of
/// the other; where one has none, it is that of the other.
pub proof fn law_validation_messages_are_joined(first: Seq<JsonView>, second: Seq<JsonView>)
    ensures
        validation_message(Some(JsonView::Array(first + second))) == match (
            validation_message(Some(JsonView::Array(first))),
            validation_message(Some(JsonView::Array(second))),
        ) {
            (Some(a), Some(b)) => Some(a + "; "@ + b),
            (Some(a), None) => Some(a),
            (None, other) => other,
        },
{
    let a = validation_errors(first);
    let b = validation_errors(second);
    lemma_validation_errors_of_two(first, second);
    if a.len() == 0 {
        assert(a + b =~= b);
    } else if b.len() == 0 {
        assert(a + b =~= a);
    } else {
        lemma_joined_of_two(a, b, "; "@);
    }
}

/// A validation error alone has a message exactly if its member `msg` is a string, and then the
/// message is that of the error.
pub proof fn law_validation_message_of_one(error: JsonView)
    ensures
        validation_message(Some(JsonView::Array(seq![error]))) == validation_error(error),
        validation_message(Some(JsonView::Array(seq![error]))) is None <==> string_of(
            crate::json::json_member(error, "msg"@),
        ) is None,
{
    reveal_with_fuel(validation_errors, 2);
    assert(seq![error].drop_last() =~= Seq::<JsonView>::empty());
}

// ---------------------------------------------------------------------------
// Laws of errors
// ---------------------------------------------------------------------------

/// The class of each status.
pub proof fn law_kinds(status: u16)
    ensures
        kind_of(status) == ApiErrorKind::BadRequest <==> status == 400,
        kind_of(status) == ApiErrorKind::Authentication <==> status == 401,
        kind_of(status) == ApiErrorKind::PermissionDenied <==> status == 403,
        kind_of(status) == ApiErrorKind::NotFound <==> status == 404,
        kind_of(status) == ApiErrorKind::UnprocessableEntity <==> status == 422,
        kind_of(status) == ApiErrorKind::RateLimit <==> status == 429,
        kind_of(status) == ApiErrorKind::InternalServer <==> 500 <= status <= 599,
{
}

/// The error for a response holds its status, its headers, its body and its request ID, and its
/// message is the status with the message in the body.
pub proof fn law_errors_hold_the_response(
    status: u16,
    body: Option<JsonView>,
    headers: HeaderMap,
    detail: Seq<char>,
)
    ensures
        api_error(status, body, headers).status == status,
        api_error(status, body, headers).headers == headers,
        api_error(status, body, headers).body == body,
        api_error(status, body, headers).request_id == crate::headers::text_in(
            headers,
            "x-typesafe-request-id"@,
        ),
        body matches Some(value) ==> (message_in(value) == Some(detail) ==> api_error(
            status,
            body,
            headers,
        ).message == crate::text::decimal(status as nat) + " "@ + detail),
        body is None ==> api_error(status, body, headers).message == crate::text::decimal(
            status as nat,
        ) + " status code (no body)"@,
{
}

/// Where the message of an object comes from: the text `error`, the text `message` in `error`, the
/// text `message`, the text `detail`, the text `message` in `detail`, or the validation errors in
/// `detail`, whichever comes first; where none of them is there, there is no message.
pub proof fn law_message_of_an_object(
    members: Seq<(Seq<char>, JsonView)>,
    error: Option<JsonView>,
    message: Option<JsonView>,
    detail: Option<JsonView>,
    text: Seq<char>,
)
    requires
        error == crate::json::member(members, "error"@),
        message == crate::json::member(members, "message"@),
        detail == crate::json::member(members, "detail"@),
    ensures
        ({
            let found = message_in(JsonView::Object(members));
            let in_error = match error {
                Some(object) => crate::json::json_member(object, "message"@),
                None => None,
            };
            let in_detail = match detail {
                Some(object) => crate::json::json_member(object, "message"@),
                None => None,
            };
            let no_text = |value: Option<JsonView>| !(value matches Some(JsonView::String(_)));
            let is_text = |value: Option<JsonView>| value == Some(JsonView::String(text));
            &&& is_text(error) ==> found == Some(text)
            &&& no_text(error) && is_text(in_error) ==> found == Some(text)
            &&& no_text(error) && no_text(in_error) && is_text(message) ==> found == Some(text)
            &&& no_text(error) && no_text(in_error) && no_text(message) && is_text(detail) ==> found
                == Some(text)
            &&& no_text(error) && no_text(in_error) && no_text(message) && no_text(detail)
                && is_text(in_detail) ==> found == Some(text)
            &&& no_text(error) && no_text(in_error) && no_text(message) && no_text(detail)
                && no_text(in_detail) ==> found == match detail {
                Some(JsonView::Array(errors)) => validation_message(
                    Some(JsonView::Array(errors)),
                ),
                _ => None,
            }
        }),
{
}

/// A text that is not empty is its own message; numbers, arrays and other values have none.
pub proof fn law_message_of_other_values(value: JsonView)
    requires
        !(value is Object),
    ensures
        value matches JsonView::String(text) ==> (text.len() > 0 ==> message_in(value) == Some(
            text,
        )) && (text.len() == 0 ==> message_in(value) is None),
        !(value is String) ==> message_in(value) is None,
{
}

/// A body without a message is shown as its JSON text, or as it is if it is a text: whole up to two
/// hundred characters, and of a longer one the first two hundred and an ellipsis.
pub proof fn law_bodies_without_a_message(status: u16, body: JsonView, raw: Seq<char>)
    requires
        message_in(body) is None,
        raw == match body {
            JsonView::String(text) => text,
            _ => crate::json::json_text(body),
        },
    ensures
        raw.len() <= 200 ==> description(status, Some(body)) == crate::text::decimal(status as nat)
            + " "@ + raw,
        raw.len() > 200 ==> description(status, Some(body)) == crate::text::decimal(status as nat)
            + " "@ + (raw.take(200) + "\u{2026}"@),
{
}

/// Texts are joined with the separator between each two: one text is itself, and two lists in a row
/// are the one, the separator, and the other.
pub proof fn law_joined(
    first: Seq<Seq<char>>,
    second: Seq<Seq<char>>,
    one: Seq<char>,
    separator: Seq<char>,
)
    ensures
        joined(Seq::empty(), separator) == Seq::<char>::empty(),
        joined(seq![one], separator) == one,
        first.len() > 0 && second.len() > 0 ==> joined(first + second, separator) == joined(
            first,
            separator,
        ) + separator + joined(second, separator),
{
    if first.len() > 0 && second.len() > 0 {
        lemma_joined_of_two(first, second, separator);
    }
}

proof fn lemma_path_steps_of_two(first: Seq<JsonView>, second: Seq<JsonView>)
    ensures
        path_steps(first + second) == path_steps(first) + path_steps(second),
    decreases second.len(),
{
    let all = first + second;
    if second.len() == 0 {
        assert(all =~= first);
        assert(path_steps(first) + path_steps(second) =~= path_steps(first));
    } else {
        lemma_path_steps_of_two(first, second.drop_last());
        assert(all.drop_last() =~= first + second.drop_last());
        assert(all.last() == second.last());
        assert(path_steps(all) =~= path_steps(first) + path_steps(second));
    }
}

/// The path to an invalid field is made of its steps with dots between them: names as they are,
/// positions as numbers, and without the steps that say `body`.
pub proof fn law_paths(first: Seq<JsonView>, second: Seq<JsonView>, step: JsonView)
    ensures
        location(Some(JsonView::Array(first))) == joined(path_steps(first), "."@),
        path_steps(first + second) == path_steps(first) + path_steps(second),
        step == JsonView::String("body"@) ==> path_steps(seq![step]) == Seq::<Seq<char>>::empty(),
        step matches JsonView::String(name) ==> (name != "body"@ ==> path_steps(seq![step]) == seq![
            name,
        ]),
        !(step is String) ==> path_steps(seq![step]) == seq![crate::json::json_text(step)],
{
    lemma_path_steps_of_two(first, second);
    reveal_with_fuel(path_steps, 2);
    assert(seq![step].drop_last() =~= Seq::<JsonView>::empty());
}

/// A validation error with a message is shown as its path, a colon and the message, and without a
/// path as the message.
pub proof fn law_validation_error(error: JsonView, message: Seq<char>)
    requires
        crate::json::json_member(error, "msg"@) == Some(JsonView::String(message)),
    ensures
        ({
            let path = location(crate::json::json_member(error, "loc"@));
            &&& path.len() > 0 ==> validation_error(error) == Some(path + ": "@ + message)
            &&& path.len() == 0 ==> validation_error(error) == Some(message)
        }),
        !(crate::json::json_member(error, "loc"@) matches Some(JsonView::Array(_)))
            ==> validation_error(error) == Some(message),
{
}

/// What each error says of itself.
pub proof fn law_messages_of_errors(error: Error)
    ensures
        error matches Error::TypeSafe(text) ==> error@.message() == text@,
        error matches Error::Api(api) ==> error@.message() == api@.message,
        error matches Error::Connection { message } ==> error@.message() == message@,
        error matches Error::Timeout { timeout_ms } ==> error@.message()
            == "Request timed out after "@ + crate::text::decimal(timeout_ms as nat) + "ms."@,
        error is UserAbort ==> error@.message() == "Request was aborted."@,
{
}

/// The message of a failed delivery is what failed, behind the words that say so.
pub proof fn law_connection_messages(reason: Seq<char>)
    ensures
        connection_message(Some(reason)) == "Connection error: "@ + reason,
        connection_message(None) == "Connection error."@,
{
}

} // verus!
