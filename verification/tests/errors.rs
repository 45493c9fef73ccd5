use reqwest::header::{HeaderMap, HeaderValue};
use typesafe::errors::describe_validation_errors;
use typesafe::json::parse_json;
use typesafe::retry::retry_after_texts;
use typesafe::{ApiError, ApiErrorKind, Binary64, Error, Json, RetryAfterNumbers};

fn json(text: &str) -> Json {
    parse_json(text).expect("valid JSON")
}

fn message(status: u16, body: Option<Json>) -> String {
    ApiError::from_response(status, body, HeaderMap::new()).to_string()
}

fn numbers(headers: &HeaderMap) -> RetryAfterNumbers {
    let parse = |text: Option<String>| text.and_then(|text| text.parse::<f64>().ok()).map(|n| Binary64 { bits: n.to_bits() });
    let texts = retry_after_texts(headers);
    RetryAfterNumbers { ms: parse(texts.ms), seconds: parse(texts.seconds) }
}

#[test]
fn describes_the_body() {
    assert_eq!(message(500, None), "500 status code (no body)");
    assert_eq!(message(400, Some(json("\"plain text\""))), "400 plain text");
    assert_eq!(message(401, Some(json("{\"error\": \"bad key\"}"))), "401 bad key");
    assert_eq!(message(401, Some(json("{\"error\": {\"message\": \"nested\"}}"))), "401 nested");
    assert_eq!(message(400, Some(json("{\"message\": \"top\"}"))), "400 top");
    assert_eq!(message(400, Some(json("{\"detail\": \"detail text\"}"))), "400 detail text");
    assert_eq!(message(400, Some(json("{\"detail\": {\"message\": \"in detail\"}}"))), "400 in detail");
    assert_eq!(message(418, Some(json("{\"other\": 1}"))), "418 {\"other\":1}");
}

#[test]
fn prefers_the_error_member_and_then_the_message() {
    let body = "{\"detail\": \"d\", \"message\": \"m\", \"error\": {\"message\": \"nested\"}}";
    assert_eq!(message(400, Some(json(body))), "400 nested");
    assert_eq!(message(400, Some(json("{\"detail\": \"d\", \"message\": \"m\"}"))), "400 m");
    assert_eq!(message(400, Some(json("{\"error\": 7, \"detail\": \"d\"}"))), "400 d");
}

#[test]
fn describes_an_empty_text_and_other_values_as_they_are() {
    assert_eq!(message(400, Some(Json::String(String::new()))), "400 ");
    assert_eq!(message(400, Some(json("[1, null]"))), "400 [1,null]");
    assert_eq!(message(400, Some(json("{\"detail\": []}"))), "400 {\"detail\":[]}");
}

#[test]
fn describes_validation_errors() {
    let body = json(
        "{\"detail\": [
            {\"loc\": [\"body\", \"questions\", \"q1\"], \"msg\": \"field required\"},
            {\"loc\": [\"body\"], \"msg\": \"invalid\"},
            {\"no_msg\": true}
        ]}",
    );
    assert_eq!(message(422, Some(body)), "422 questions.q1: field required; invalid");
}

#[test]
fn writes_the_steps_of_a_path_that_are_no_names_as_json() {
    let body = json("{\"detail\": [{\"loc\": [\"body\", \"items\", 3, null], \"msg\": \"bad\"}]}");
    assert_eq!(message(422, Some(body)), "422 items.3.null: bad");
}

#[test]
fn truncates_a_long_raw_body() {
    let mut object = typesafe::JsonObject::new();
    object.insert("data".to_string(), Json::String("x".repeat(400)));
    let text = message(418, Some(Json::Object(object)));
    assert!(text.ends_with('…'));
    assert_eq!(text.chars().count(), "418 ".len() + 200 + 1);
}

#[test]
fn keeps_a_raw_body_of_two_hundred_characters() {
    let mut object = typesafe::JsonObject::new();
    object.insert("d".to_string(), Json::String("é".repeat(192)));
    let text = message(418, Some(Json::Object(object)));
    assert_eq!(text, format!("418 {{\"d\":\"{}\"}}", "é".repeat(192)));
    assert_eq!(text.chars().count(), 204);
}

#[test]
fn maps_the_status_to_a_kind() {
    let kind = |status| ApiError::from_response(status, None, HeaderMap::new()).kind();
    assert_eq!(kind(400), ApiErrorKind::BadRequest);
    assert_eq!(kind(401), ApiErrorKind::Authentication);
    assert_eq!(kind(403), ApiErrorKind::PermissionDenied);
    assert_eq!(kind(404), ApiErrorKind::NotFound);
    assert_eq!(kind(422), ApiErrorKind::UnprocessableEntity);
    assert_eq!(kind(429), ApiErrorKind::RateLimit);
    assert_eq!(kind(503), ApiErrorKind::InternalServer);
    assert_eq!(kind(418), ApiErrorKind::Other);
}

#[test]
fn reads_retry_after_only_for_a_rate_limit() {
    let mut headers = HeaderMap::new();
    headers.insert("retry-after-ms", HeaderValue::from_static("1500"));
    let read = numbers(&headers);
    assert_eq!(ApiError::from_response(429, None, headers.clone()).retry_after_ms(&read), Some(1500));
    assert_eq!(ApiError::from_response(500, None, headers).retry_after_ms(&read), None);
}

#[test]
fn an_api_error_keeps_its_response() {
    let mut headers = HeaderMap::new();
    headers.insert("x-typesafe-request-id", HeaderValue::from_static("req_9"));
    let error = ApiError::from_response(404, Some(json("{\"message\": \"gone\"}")), headers);
    assert_eq!(error.status, 404);
    assert_eq!(error.request_id.as_deref(), Some("req_9"));
    assert_eq!(error.body, Some(json("{\"message\": \"gone\"}")));
    assert_eq!(error.headers.get("x-typesafe-request-id").unwrap(), "req_9");
}

#[test]
fn errors_have_their_messages() {
    assert_eq!(Error::TypeSafe("wrong".to_string()).to_string(), "wrong");
    assert_eq!(Error::connection(None).to_string(), "Connection error.");
    assert_eq!(Error::connection(Some("reset")).to_string(), "Connection error: reset");
    assert_eq!(Error::Timeout { timeout_ms: 50 }.to_string(), "Request timed out after 50ms.");
    assert_eq!(Error::UserAbort.to_string(), "Request was aborted.");
    let api = ApiError::from_response(500, None, HeaderMap::new());
    assert_eq!(Error::Api(Box::new(api)).to_string(), "500 status code (no body)");
}

#[test]
fn a_timeout_is_a_connection_error() {
    assert!(Error::connection(None).is_connection_error());
    assert!(Error::Timeout { timeout_ms: 1 }.is_connection_error());
    assert!(!Error::UserAbort.is_connection_error());
    assert!(!Error::TypeSafe(String::new()).is_connection_error());
    assert!(Error::UserAbort.as_api_error().is_none());
    let api = Error::Api(Box::new(ApiError::from_response(401, None, HeaderMap::new())));
    assert_eq!(api.as_api_error().unwrap().status, 401);
    assert!(!api.is_connection_error());
}

#[test]
fn server_errors_are_the_statuses_from_500_to_599() {
    let kind = |status| ApiError::from_response(status, None, HeaderMap::new()).kind();
    assert_eq!(kind(500), ApiErrorKind::InternalServer);
    assert_eq!(kind(599), ApiErrorKind::InternalServer);
    assert_eq!(kind(499), ApiErrorKind::Other);
    assert_eq!(kind(600), ApiErrorKind::Other);
    assert_eq!(kind(999), ApiErrorKind::Other);
}

#[test]
fn validation_errors_are_joined_and_those_without_a_message_left_out() {
    let message = |text: &str| ApiError::from_response(422, parse_json(text), HeaderMap::new()).to_string();
    let of = |errors: &str| message(&format!("{{\"detail\": [{errors}]}}"));
    let first = "{\"msg\": \"a\", \"loc\": [\"body\", \"x\", 1]}";
    let second = "{\"msg\": \"b\"}";
    let silent = "{\"msg\": 3}";
    assert_eq!(of(first), "422 x.1: a");
    assert_eq!(of(second), "422 b");
    assert_eq!(of(&format!("{first}, {second}")), "422 x.1: a; b");
    assert_eq!(of(&format!("{silent}, {first}, {silent}, {second}")), "422 x.1: a; b");
    assert_eq!(of(&format!("{first}, {silent}")), of(first));
}

#[test]
fn lists_of_validation_errors_give_their_messages_in_order() {
    let first = json("{\"msg\": \"a\", \"loc\": [\"body\", \"x\"]}");
    let second = json("{\"msg\": \"b\"}");
    let silent = json("{\"msg\": null}");
    let message = |errors: &[&Json]| describe_validation_errors(&errors.iter().map(|error| (*error).clone()).collect());
    assert_eq!(message(&[]), None);
    assert_eq!(message(&[&silent]), None);
    assert_eq!(message(&[&silent, &silent]), None);
    assert_eq!(message(&[&first]).unwrap(), "x: a");
    assert_eq!(message(&[&first, &second]).unwrap(), "x: a; b");
    assert_eq!(message(&[&second, &silent, &first]).unwrap(), "b; x: a");
}
