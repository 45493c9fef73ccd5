use typesafe::json::parse_json;
use typesafe::{
    choice, noul, noul_with_criteria, score, validate_questions, Json, NoulCriteria, Question, Questions, SystemOneRequest,
};

fn json(text: &str) -> Json {
    parse_json(text).expect("valid JSON")
}

fn text(text: &str) -> Json {
    Json::from(text.to_string())
}

fn texts(list: &[&str]) -> Vec<Json> {
    list.iter().map(|item| text(item)).collect()
}

fn labels(list: Vec<(&str, Json)>) -> Vec<(String, Json)> {
    list.into_iter().map(|(label, description)| (label.to_string(), description)).collect()
}

#[test]
fn serializes_as_the_api_expects() {
    assert_eq!(
        noul(text("Is it urgent?")).to_json(),
        json("{\"type\": \"noul\", \"instructions\": \"Is it urgent?\"}")
    );
    assert_eq!(noul(Json::Null).to_json(), json("{\"type\": \"noul\", \"instructions\": null}"));
    assert_eq!(
        noul_with_criteria(text("Urgent?"), Some(text("yes, now")), None).to_json(),
        json("{\"type\": \"noul\", \"instructions\": \"Urgent?\", \"criteria\": {\"true\": \"yes, now\"}}")
    );
    assert_eq!(
        score(text("Rate it"), texts(&["bad", "good"])).to_json(),
        json("{\"type\": \"score\", \"instructions\": \"Rate it\", \"criteria\": [\"bad\", \"good\"]}")
    );
    assert_eq!(
        choice(text("Pick"), labels(vec![("billing", text("about money")), ("other", Json::Null)])).to_json(),
        json("{\"type\": \"choice\", \"instructions\": \"Pick\", \"criteria\": {\"billing\": \"about money\", \"other\": null}}")
    );
}

#[test]
fn choice_keeps_the_order_of_the_labels() {
    let question = choice(text("Pick"), labels(vec![("zebra", Json::Null), ("apple", Json::Null), ("mango", Json::Null)]));
    let text = question.to_json().to_string();
    assert!(text.find("zebra").unwrap() < text.find("apple").unwrap());
    assert!(text.find("apple").unwrap() < text.find("mango").unwrap());
}

#[test]
fn a_repeated_label_keeps_its_place_and_takes_the_last_description() {
    let question = choice(text("Pick"), labels(vec![("b", text("1")), ("a", text("2")), ("b", text("3"))]));
    assert_eq!(
        question.to_json().to_string(),
        "{\"type\":\"choice\",\"instructions\":\"Pick\",\"criteria\":{\"b\":\"3\",\"a\":\"2\"}}"
    );
}

#[test]
fn describes_the_outcomes_of_a_noul_question_that_are_given() {
    let both = NoulCriteria { yes: Some(Json::Null), no: Some(text("never")) };
    assert_eq!(both.to_json().to_string(), "{\"true\":null,\"false\":\"never\"}");
    assert_eq!(NoulCriteria { yes: None, no: None }.to_json().to_string(), "{}");
}

#[test]
fn validates() {
    assert_eq!(
        validate_questions(&Questions::new()).unwrap_err().to_string(),
        "At least one question is required."
    );
    let mut questions = Questions::new();
    questions.insert("rating".to_string(), score(text("Rate"), texts(&["only one"])));
    assert_eq!(
        validate_questions(&questions).unwrap_err().to_string(),
        "Score question \"rating\" has 1 criteria; at least two scores are required."
    );
    questions.insert("rating".to_string(), score(text("Rate"), texts(&["bad", "good"])));
    assert!(validate_questions(&questions).is_ok());
}

#[test]
fn the_first_wrong_question_is_reported() {
    let mut questions = Questions::new();
    questions.insert("fine".to_string(), noul(text("?")));
    questions.insert("second".to_string(), score(text("?"), Vec::new()));
    questions.insert("third".to_string(), score(text("?"), texts(&["one"])));
    assert_eq!(
        validate_questions(&questions).unwrap_err().to_string(),
        "Score question \"second\" has 0 criteria; at least two scores are required."
    );
}

#[test]
fn request_bodies_hold_the_state_the_questions_and_the_model() {
    let mut questions = Questions::new();
    questions.insert("z".to_string(), noul(text("?")));
    questions.insert("a".to_string(), noul(Json::Null));
    let request = SystemOneRequest::new(text("s"), questions);
    assert_eq!(
        request.body("fallback").to_string(),
        "{\"state\":\"s\",\"questions\":{\"z\":{\"type\":\"noul\",\"instructions\":\"?\"},\
         \"a\":{\"type\":\"noul\",\"instructions\":null}},\"model\":\"fallback\"}"
    );
    let request = request.model("own".to_string());
    assert_eq!(request.body("fallback").get("model"), Some(&text("own")));
}

#[test]
fn additional_properties_replace_all_but_the_model() {
    let mut questions = Questions::new();
    questions.insert("q".to_string(), noul(text("?")));
    let mut request = SystemOneRequest::new(text("s"), questions);
    request.extra.insert("model".to_string(), text("extra"));
    request.extra.insert("state".to_string(), Json::Null);
    request.extra.insert("more".to_string(), Json::Bool(true));
    let body = request.body("fallback");
    assert_eq!(body.get("model"), Some(&text("fallback")));
    assert_eq!(body.get("state"), Some(&Json::Null));
    assert_eq!(body.get("more"), Some(&Json::Bool(true)));
    assert_eq!(body.as_object().unwrap().len(), 4);
}

#[test]
fn questions_are_told_apart() {
    assert!(matches!(noul(Json::Null), Question::Noul { criteria: None, .. }));
    assert_ne!(noul(text("a")), noul(text("b")));
    assert_eq!(score(text("a"), texts(&["x", "y"])), score(text("a"), texts(&["x", "y"])));
}

#[test]
fn criteria_can_be_left_out_and_copied() {
    let none = NoulCriteria::default();
    assert!(none.yes.is_none() && none.no.is_none());
    let criteria = NoulCriteria { yes: Some(Json::String("y".to_string())), no: None };
    assert_eq!(criteria.clone(), criteria);
}
