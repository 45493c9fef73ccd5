//! Responses: the HTTP response with its full body, and what it is read as.

use reqwest::header::HeaderMap;
use vstd::prelude::*;

use crate::headers::{header_map_clone, header_text_in};
use crate::json::{parse_json, Json, JsonView};

verus! {

pub const REQUEST_ID_HEADER: &'static str = "x-typesafe-request-id";

/// The request ID in response headers.
pub open spec fn request_id_in(headers: HeaderMap) -> Option<Seq<char>> {
    crate::headers::text_in(headers, REQUEST_ID_HEADER@)
}

/// The request ID in response headers, or `None` when absent.
pub fn request_id_from(headers: &HeaderMap) -> (id: Option<String>)
    ensures
        crate::text::optional(id) == request_id_in(*headers),
{
    match header_text_in(headers, REQUEST_ID_HEADER) {
        Some(id) => Some(id.to_owned()),
        None => None,
    }
}

/// An HTTP response with its full body, which is read under the request timeout.
#[derive(Debug)]
pub struct RawResponse {
    pub status: u16,
    pub headers: HeaderMap,
    pub body: Vec<u8>,
}

impl RawResponse {
    /// Whether two responses have the same status, headers and body.
    pub open spec fn same_as(self, other: RawResponse) -> bool {
        &&& self.status == other.status
        &&& crate::headers::header_values(self.headers)
            == crate::headers::header_values(other.headers)
        &&& self.body@ == other.body@
    }
}

impl Clone for RawResponse {
    fn clone(&self) -> (copy: RawResponse)
        ensures
            copy.same_as(*self),
    {
        RawResponse {
            status: self.status,
            headers: header_map_clone(&self.headers),
            body: self.body.clone(),
        }
    }
}

/// The text that `String::from_utf8_lossy` makes of bytes.
pub uninterp spec fn lossy_text(bytes: Seq<u8>) -> Seq<char>;

/// `String::from_utf8_lossy`: valid UTF-8 as its text; of other bytes a text that depends on the
/// bytes alone.
#[verifier::external_body]
fn text_from_utf8_lossy(bytes: &Vec<u8>) -> (text: String)
    ensures
        text@ == lossy_text(bytes@),
        vstd::utf8::valid_utf8(bytes@) ==> text@ == vstd::utf8::decode_utf8(bytes@),
{
    String::from_utf8_lossy(bytes).into_owned()
}

/// What a text is read as: JSON if it is that, or else the text itself.
pub open spec fn json_or_text(text: Seq<char>) -> JsonView {
    match crate::json::parsed_json(text) {
        Some(value) => value,
        None => JsonView::String(text),
    }
}

/// What a body is read as; nothing for an empty body.
pub open spec fn body_value(body: Seq<u8>) -> Option<JsonView> {
    if body.len() == 0 {
        None
    } else {
        Some(json_or_text(lossy_text(body)))
    }
}

/// The JSON value of a text, or the text as a JSON string.
pub fn read_text(text: String) -> (value: Json)
    ensures
        value@ == json_or_text(text@),
{
    match parse_json(text.as_str()) {
        Some(value) => value,
        None => Json::String(text),
    }
}

impl RawResponse {
    /// The body as parsed JSON, as text in a JSON string, or `None` for an empty body.
    ///
    /// It is lenient: servers and proxies do not always set the content type.
    pub fn parsed_body(&self) -> (value: Option<Json>)
        ensures
            crate::errors::body_view(value) == body_value(self.body@),
            vstd::utf8::valid_utf8(self.body@) && self.body@.len() > 0 ==> crate::errors::body_view(
                value,
            ) == Some(json_or_text(vstd::utf8::decode_utf8(self.body@))),
    {
        if self.body.len() == 0 {
            None
        } else {
            Some(read_text(text_from_utf8_lossy(&self.body)))
        }
    }
}

/// Parsed data with its HTTP response and request ID.
#[derive(Debug)]
pub struct WithResponse<T> {
    /// The parsed response body.
    pub data: T,
    /// The HTTP response.
    pub response: RawResponse,
    /// Request ID from `x-typesafe-request-id`, or `None` when absent.
    pub request_id: Option<String>,
}

impl<T: Clone> Clone for WithResponse<T> {
    fn clone(&self) -> (copy: WithResponse<T>)
        ensures
            cloned(self.data, copy.data),
            copy.response.same_as(self.response),
            crate::text::optional(copy.request_id) == crate::text::optional(self.request_id),
    {
        WithResponse {
            data: self.data.clone(),
            response: self.response.clone(),
            request_id: self.request_id.clone(),
        }
    }
}

impl<T> WithResponse<T> {
    /// Put parsed data and the response that it came in together.
    pub fn new(data: T, response: RawResponse) -> (with: WithResponse<T>)
        ensures
            with.data == data,
            with.response == response,
            crate::text::optional(with.request_id) == request_id_in(response.headers),
    {
        let request_id = request_id_from(&response.headers);
        WithResponse { data, response, request_id }
    }
}

/// A body is read as the JSON value that its text is, and as its text where it is none; an empty
/// body is read as nothing.
pub proof fn law_bodies_are_read(body: Seq<u8>, value: JsonView)
    ensures
        body_value(Seq::empty()) is None,
        body.len() > 0 && crate::json::parsed_json(lossy_text(body)) == Some(value) ==> body_value(
            body,
        ) == Some(value),
        body.len() > 0 && crate::json::parsed_json(lossy_text(body)) is None ==> body_value(body)
            == Some(JsonView::String(lossy_text(body))),
{
}

/// The request ID of a response is the text of its header `x-typesafe-request-id`.
pub proof fn law_request_ids(headers: HeaderMap)
    ensures
        request_id_in(headers) == crate::headers::text_in(headers, "x-typesafe-request-id"@),
{
}

/// Responses that are the same agree in their status, in all values of all headers, and in each
/// byte of the body.
pub proof fn law_same_responses(left: RawResponse, right: RawResponse)
    ensures
        left.same_as(right) <==> left.status == right.status && crate::headers::header_values(
            left.headers,
        ) == crate::headers::header_values(right.headers) && left.body@ == right.body@,
{
}

} // verus!
