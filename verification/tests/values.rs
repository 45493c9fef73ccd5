//! JSON values, header lists and maps, numbers, and the answers in responses.

use indexmap::IndexMap;
use reqwest::header::{HeaderMap, HeaderValue};
use typesafe::headers::{build_header_map, header_text_in, merge_headers, NO_ROOM};
use typesafe::json::parse_json;
use typesafe::response::request_id_from;
use typesafe::{
    describe_runtime, Answer, Answers, Binary64, ChoiceResponse, Json, JsonObject, NoulResponse, RawResponse, ScoreResponse,
    SystemOneResult, Usage, WithResponse,
};

fn number(value: f64) -> Binary64 {
    Binary64 { bits: value.to_bits() }
}

fn pair(name: &str, value: Option<&str>) -> (String, Option<String>) {
    (name.to_string(), value.map(str::to_string))
}

fn header(name: &str, value: &str) -> (String, String) {
    (name.to_string(), value.to_string())
}

#[test]
fn merges_headers_without_regard_to_case() {
    let first = [pair("X-Custom", Some("a")), pair("authorization", Some("user value"))];
    let second = [pair("Authorization", Some("Bearer key")), pair("x-custom", None)];
    assert_eq!(
        merge_headers(&[&first, &second]),
        [("Authorization".to_string(), "Bearer key".to_string())]
    );
}

#[test]
fn merged_headers_stand_in_the_order_of_their_last_changes() {
    let first = [pair("A", Some("1")), pair("B", Some("2")), pair("Ä", Some("3"))];
    let second = [pair("a", Some("4")), pair("ä", Some("5"))];
    assert_eq!(merge_headers(&[&first, &second]), [header("B", "2"), header("a", "4"), header("ä", "5")]);
    assert!(merge_headers(&[]).is_empty());
}

#[test]
fn header_maps_are_built_from_valid_headers() {
    let map = build_header_map(&vec![header("X-One", "1"), header("x-one", "2"), header("X-Two", "tab\there")]).unwrap();
    assert_eq!(map.len(), 2);
    assert_eq!(map.get("x-one").unwrap(), "2");
    assert_eq!(map.get("x-two").unwrap(), "tab\there");
}

#[test]
fn header_maps_refuse_the_first_invalid_header() {
    let message = |list: Vec<(String, String)>| build_header_map(&list).unwrap_err().to_string();
    assert_eq!(message(vec![header("ok", "1"), header("bad name", "1")]), "The header name `bad name` is not valid.");
    assert_eq!(message(vec![header("", "1")]), "The header name `` is not valid.");
    assert_eq!(
        message(vec![header("X-Bad", "a\nb"), header("bad name", "1")]),
        "The value of the header `x-bad` is not valid."
    );
    assert_eq!(message(vec![header("X-Bad", "\u{7f}")]), "The value of the header `x-bad` is not valid.");
    assert!(build_header_map(&vec![header("x", "naïve")]).is_ok());
}

#[test]
fn header_maps_have_room_for_thousands_of_headers_but_not_for_any_number() {
    let list = |count: usize| (0..count).map(|i| header(&format!("h{i}"), "v")).collect::<Vec<_>>();
    assert_eq!(build_header_map(&list(6553)).unwrap().len(), 6553);
    assert_eq!(build_header_map(&list(40000)).unwrap_err().to_string(), NO_ROOM);
}

#[test]
fn header_texts_are_found_in_any_case_if_they_are_visible() {
    let mut map = HeaderMap::new();
    map.insert("x-plain", HeaderValue::from_static("yes"));
    map.append("x-plain", HeaderValue::from_static("no"));
    map.insert("x-odd", HeaderValue::from_str("naïve").unwrap());
    assert_eq!(header_text_in(&map, "X-Plain"), Some("yes"));
    assert_eq!(header_text_in(&map, "x-odd"), None);
    assert_eq!(header_text_in(&map, "x-none"), None);
}

#[test]
fn json_texts_are_read_and_written() {
    let text = "{\"b\":[1,2.5,-3e2,true,null],\"a\":{\"\":\"\\\"\\u00e9\"},\"b2\":\"x\"}";
    let value = parse_json(text).unwrap();
    assert_eq!(value.to_string(), "{\"b\":[1,2.5,-300.0,true,null],\"a\":{\"\":\"\\\"é\"},\"b2\":\"x\"}");
    assert!(parse_json("{\"a\":}").is_none());
    assert!(parse_json("").is_none());
    assert_eq!(value.clone(), value);
}

#[test]
fn json_values_convert_both_ways() {
    let text = "{\"z\":[1,-2,3.5,18446744073709551615],\"a\":null,\"m\":{\"t\":true}}";
    let value: serde_json::Value = serde_json::from_str(text).unwrap();
    let tree = typesafe::json::from_value(value.clone());
    assert_eq!(tree, parse_json(text).unwrap());
    assert_eq!(typesafe::json::to_value(&tree), value);
    assert_eq!(typesafe::json::to_value(&tree).to_string(), text);
}

#[test]
fn json_members_are_found_by_name() {
    let value = parse_json("{\"a\": 1, \"b\": [\"x\"], \"a\": null}").unwrap();
    assert_eq!(value.get("a"), Some(&Json::Null));
    assert_eq!(value.get("b").unwrap().as_array().unwrap().len(), 1);
    assert_eq!(value.get("b").unwrap().as_array().unwrap()[0].as_str(), Some("x"));
    assert_eq!(value.get("c"), None);
    assert_eq!(Json::Null.get("a"), None);
    assert!(value.as_str().is_none() && value.as_array().is_none());
    let object = value.as_object().unwrap();
    assert_eq!(object.len(), 2);
    assert_eq!(object.entry(0).0, "a");
}

#[test]
fn json_objects_keep_the_place_of_a_name() {
    let mut object = JsonObject::new();
    object.insert("x".to_string(), Json::Bool(false));
    object.insert("y".to_string(), Json::Null);
    object.insert("x".to_string(), Json::Bool(true));
    assert_eq!(Json::Object(object).to_string(), "{\"x\":true,\"y\":null}");
}

fn response(status: u16, body: &[u8]) -> RawResponse {
    RawResponse { status, headers: HeaderMap::new(), body: body.to_vec() }
}

#[test]
fn bodies_are_read_as_json_or_as_text() {
    assert_eq!(response(200, b"").parsed_body(), None);
    assert_eq!(response(200, b"{\"a\":1}").parsed_body(), parse_json("{\"a\":1}"));
    assert_eq!(response(200, b"not json").parsed_body(), Some(Json::String("not json".to_string())));
    assert_eq!(response(200, b"a\xffb").parsed_body(), Some(Json::String("a\u{fffd}b".to_string())));
    assert_eq!(response(200, b"\"\xc3\xa9\"").parsed_body(), Some(Json::String("é".to_string())));
}

#[test]
fn responses_carry_their_request_id() {
    let mut raw = response(201, b"x");
    assert_eq!(request_id_from(&raw.headers), None);
    raw.headers.insert("X-TypeSafe-Request-Id", HeaderValue::from_static("req_1"));
    let with = WithResponse::new(7, raw).clone();
    assert_eq!(with.data, 7);
    assert_eq!(with.response.status, 201);
    assert_eq!(with.response.body, b"x");
    assert_eq!(with.response.headers.get("x-typesafe-request-id").unwrap(), "req_1");
    assert_eq!(with.request_id.as_deref(), Some("req_1"));
}

#[test]
fn describes_the_runtime() {
    assert_eq!(describe_runtime("macos", "aarch64"), "rust (macos; aarch64)");
}

fn score_response(probabilities: &[(&str, f64)]) -> ScoreResponse {
    ScoreResponse {
        score: number(1.6),
        confidence: number(0.7),
        legend: IndexMap::new(),
        probabilities: probabilities.iter().map(|(key, value)| (key.to_string(), number(*value))).collect(),
    }
}

#[test]
fn lists_probabilities_by_score() {
    let list = score_response(&[("2", 0.7), ("0", 0.1), ("1", 0.2)]).probabilities_by_score();
    assert_eq!(list, [number(0.1), number(0.2), number(0.7)]);
    let gaps = score_response(&[("3", 0.5), ("0", 0.1)]).probabilities_by_score();
    assert_eq!(gaps, [number(0.1), number(0.0)]);
    assert!(score_response(&[]).probabilities_by_score().is_empty());
}

#[test]
fn answers_are_found_by_name_and_type() {
    let mut answers = Answers::new();
    answers.insert("urgent".to_string(), Answer::Noul(NoulResponse { noul: number(0.87) }));
    answers.insert(
        "category".to_string(),
        Answer::Choice(ChoiceResponse {
            choice: "b".to_string(),
            confidence: number(0.9),
            probabilities: IndexMap::new(),
        }),
    );
    answers.insert("rating".to_string(), Answer::Score(score_response(&[("0", 1.0)])));
    let result = SystemOneResult {
        model: "jev-1".to_string(),
        answers,
        usage: Usage { input_tokens: 12, output_tokens: 3 },
    };
    assert_eq!(result.answers.len(), 3);
    let mut names: Vec<&str> = result.answers.names().iter().map(|name| name.as_str()).collect();
    names.sort();
    assert_eq!(names, ["category", "rating", "urgent"]);
    assert_eq!(result.noul("urgent").unwrap().noul, number(0.87));
    assert_eq!(result.choice("category").unwrap().choice, "b");
    assert_eq!(result.score("rating").unwrap().score, number(1.6));
    assert!(result.noul("missing").is_none());
    assert!(result.noul("rating").is_none());
    assert!(result.choice("urgent").is_none());
    assert!(result.score("category").is_none());
}

#[test]
fn answer_accessors_give_none_for_a_wrong_name_or_type() {
    let mut answers = Answers::new();
    answers.insert("q1".to_string(), Answer::Noul(NoulResponse { noul: number(0.5) }));
    let usage = Usage { input_tokens: 1, output_tokens: 1 };
    let result = SystemOneResult { model: "m".to_string(), answers, usage };
    assert!(result.noul("q1").is_some());
    assert!(result.noul("missing").is_none());
    assert!(result.choice("q1").is_none());
    assert!(result.score("q1").is_none());
}

#[test]
fn numbers_compare_as_floats_do() {
    assert_eq!(number(0.0), number(-0.0));
    assert_ne!(number(f64::NAN), number(f64::NAN));
    assert_ne!(number(1.0), number(-1.0));
    for value in [0.0, -0.0, 1.0, -1.0, 0.5, 1.0000000000000002, 5e-324, f64::MAX, f64::INFINITY, f64::NEG_INFINITY, f64::NAN, -f64::NAN] {
        assert_eq!(number(value).finite(), value.is_finite(), "{value}");
        assert_eq!(number(value).non_negative(), value >= 0.0, "{value}");
        assert_eq!(number(value).fraction_of_one(), (0.0..=1.0).contains(&value), "{value}");
    }
}

#[test]
fn an_answer_that_is_set_again_keeps_its_name_once() {
    let mut answers = Answers::new();
    assert!(answers.names().is_empty());
    answers.insert("q1".to_string(), Answer::Noul(NoulResponse { noul: number(0.5) }));
    answers.insert("q1".to_string(), Answer::Noul(NoulResponse { noul: number(0.7) }));
    assert_eq!(answers.names(), &["q1"]);
    assert_eq!(answers.get("q1"), Some(&Answer::Noul(NoulResponse { noul: number(0.7) })));
}
