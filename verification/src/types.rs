//! Requests and their options, and the answers in responses.

use indexmap::IndexMap;
use vstd::hash_map::StringHashMap;
use vstd::prelude::*;

use crate::binary64::Binary64;
use crate::headers::copy_changes;
use crate::json::{Json, JsonObject, JsonView};
use crate::questions::{questions_to_json, Questions};
use crate::retry::{clone_overrides, RetryOverrides};
use crate::text::to_decimal;

verus! {

// ---------------------------------------------------------------------------
// Responses
// ---------------------------------------------------------------------------

/// A yes/no answer.
#[derive(Debug, Clone, Copy, PartialEq)]
pub struct NoulResponse {
    /// Probability of a yes answer, from zero to one.
    pub noul: Binary64,
}

/// A selected label and its probabilities.
#[derive(Debug, PartialEq)]
pub struct ChoiceResponse {
    /// The selected label.
    pub choice: String,
    /// Reported confidence in the selected label.
    pub confidence: Binary64,
    /// Probabilities keyed by label.
    pub probabilities: IndexMap<String, Binary64>,
}

/// An expected score with its rubric and probabilities.
#[derive(Debug, PartialEq)]
pub struct ScoreResponse {
    /// Expected score, which may fall between integer rubric levels.
    pub score: Binary64,
    /// Reported confidence in the score.
    pub confidence: Binary64,
    /// Rubric descriptions keyed by score, as in `"0"`, `"1"`.
    pub legend: IndexMap<String, Json>,
    /// Probabilities keyed by score, as in `"0"`, `"1"`.
    pub probabilities: IndexMap<String, Binary64>,
}

/// The probabilities of a response by their keys.
pub uninterp spec fn probability_entries(probabilities: IndexMap<String, Binary64>) -> Map<
    Seq<char>,
    Binary64,
>;

/// `IndexMap::len`: the number of keys.
#[verifier::external_body]
fn probabilities_len(probabilities: &IndexMap<String, Binary64>) -> (len: usize)
    ensures
        len == probability_entries(*probabilities).dom().len(),
{
    probabilities.len()
}

/// `IndexMap::get`: the value of a key.
#[verifier::external_body]
fn probability_of(probabilities: &IndexMap<String, Binary64>, key: &str) -> (value: Option<Binary64>)
    ensures
        match value {
            Some(v) => probability_entries(*probabilities).contains_pair(key@, v),
            None => !probability_entries(*probabilities).contains_key(key@),
        },
{
    probabilities.get(key).copied()
}

/// The probability of a score, which is zero if none is reported.
pub open spec fn probability_of_score(probabilities: Map<Seq<char>, Binary64>, score: nat) -> Binary64 {
    let key = crate::text::decimal(score);
    if probabilities.contains_key(key) {
        probabilities[key]
    } else {
        Binary64 { bits: 0 }
    }
}

impl ScoreResponse {
    /// The probabilities as a list indexed by score.
    pub fn probabilities_by_score(&self) -> (list: Vec<Binary64>)
        ensures
            list@ == Seq::new(
                probability_entries(self.probabilities).dom().len(),
                |score: int|
                    probability_of_score(probability_entries(self.probabilities), score as nat),
            ),
    {
        let len = probabilities_len(&self.probabilities);
        let mut list: Vec<Binary64> = Vec::new();
        let mut score: usize = 0;
        while score < len
            invariant
                score <= len,
                list.len() == score,
                forall|i: int|
                    0 <= i < score ==> #[trigger] list@[i] == probability_of_score(
                        probability_entries(self.probabilities),
                        i as nat,
                    ),
            decreases len - score,
        {
            let value = match probability_of(&self.probabilities, to_decimal(score as u64).as_str()) {
                Some(value) => value,
                None => Binary64 { bits: 0 },
            };
            list.push(value);
            score = score + 1;
        }
        list
    }
}

/// The answer to one question, identified by its `type` field.
#[derive(Debug, PartialEq)]
pub enum Answer {
    Noul(NoulResponse),
    Choice(ChoiceResponse),
    Score(ScoreResponse),
}

/// Token usage for a request.
#[derive(Debug, Clone, Copy, PartialEq, Eq, Structural)]
pub struct Usage {
    /// Number of input tokens used.
    pub input_tokens: u64,
    /// Number of output tokens used.
    pub output_tokens: u64,
}

/// Answers keyed by the names of the questions.
pub struct Answers {
    entries: StringHashMap<Answer>,
    /// The names, each once.
    names: Vec<String>,
}

/// The texts of a list of names.
pub open spec fn name_texts(names: Seq<String>) -> Seq<Seq<char>> {
    names.map_values(|name: String| name@)
}

impl View for Answers {
    type V = Map<Seq<char>, Answer>;

    closed spec fn view(&self) -> Map<Seq<char>, Answer> {
        self.entries@
    }
}

impl Answers {
    #[verifier::type_invariant]
    closed spec fn inv(self) -> bool {
        &&& name_texts(self.names@).no_duplicates()
        &&& name_texts(self.names@).to_set() == self.entries@.dom()
    }

    /// No answers.
    pub fn new() -> (answers: Answers)
        ensures
            answers@ == Map::<Seq<char>, Answer>::empty(),
    {
        let entries: StringHashMap<Answer> = StringHashMap::new();
        let names: Vec<String> = Vec::new();
        assert(name_texts(names@).to_set() =~= entries@.dom());
        Answers { entries, names }
    }

    /// Set the answer to the question `name`.
    pub fn insert(&mut self, name: String, answer: Answer)
        ensures
            final(self)@ == old(self)@.insert(name@, answer),
    {
        let mut whole = Answers::new();
        std::mem::swap(self, &mut whole);
        proof {
            use_type_invariant(&whole);
        }
        let Answers { mut entries, mut names } = whole;
        let ghost before = name_texts(names@);
        if !entries.contains_key(name.as_str()) {
            names.push(name.clone());
            proof {
                assert(!before.to_set().contains(name@));
                assert(name_texts(names@) =~= before.push(name@));
                assert(before.push(name@).to_set() =~= before.to_set().insert(name@)) by {
                    broadcast use vstd::seq_lib::group_seq_properties;

                }
            }
        } else {
            assert(entries@.dom().insert(name@) =~= entries@.dom());
        }
        entries.insert(name, answer);
        *self = Answers { entries, names };
    }

    /// The answer to the question `name`.
    pub fn get(&self, name: &str) -> (answer: Option<&Answer>)
        ensures
            match answer {
                Some(a) => self@.contains_pair(name@, *a),
                None => !self@.contains_key(name@),
            },
    {
        self.entries.get(name)
    }

    /// The names of the questions that have an answer, each once.
    pub fn names(&self) -> (names: &Vec<String>)
        ensures
            name_texts(names@).no_duplicates(),
            name_texts(names@).to_set() == self@.dom(),
    {
        proof {
            use_type_invariant(self);
        }
        &self.names
    }

    /// The number of answers.
    pub fn len(&self) -> (len: usize)
        ensures
            len == self@.len(),
    {
        self.entries.len()
    }
}

/// Answers keyed by question name, with model and usage metadata.
pub struct SystemOneResult {
    /// The model used to answer the request.
    pub model: String,
    /// Answers keyed by the names of the questions.
    pub answers: Answers,
    /// Token usage for the request.
    pub usage: Usage,
}

impl SystemOneResult {
    /// The answer to the noul question `name`. `None` when the name or the type does not match.
    pub fn noul(&self, name: &str) -> (answer: Option<&NoulResponse>)
        ensures
            match answer {
                Some(a) => self.answers@.contains_pair(name@, Answer::Noul(*a)),
                None => self.answers@.contains_key(name@) ==> !(self.answers@[name@] is Noul),
            },
    {
        match self.answers.get(name) {
            Some(Answer::Noul(answer)) => Some(answer),
            _ => None,
        }
    }

    /// The answer to the choice question `name`. `None` when the name or the type does not match.
    pub fn choice(&self, name: &str) -> (answer: Option<&ChoiceResponse>)
        ensures
            match answer {
                Some(a) => self.answers@.contains_pair(name@, Answer::Choice(*a)),
                None => self.answers@.contains_key(name@) ==> !(self.answers@[name@] is Choice),
            },
    {
        match self.answers.get(name) {
            Some(Answer::Choice(answer)) => Some(answer),
            _ => None,
        }
    }

    /// The answer to the score question `name`. `None` when the name or the type does not match.
    pub fn score(&self, name: &str) -> (answer: Option<&ScoreResponse>)
        ensures
            match answer {
                Some(a) => self.answers@.contains_pair(name@, Answer::Score(*a)),
                None => self.answers@.contains_key(name@) ==> !(self.answers@[name@] is Score),
            },
    {
        match self.answers.get(name) {
            Some(Answer::Score(answer)) => Some(answer),
            _ => None,
        }
    }
}

/// Metadata for an available model.
#[derive(Debug, PartialEq, Eq)]
pub struct ModelCard {
    pub name: String,
    pub description: String,
    pub release_date: String,
}

impl Clone for ModelCard {
    fn clone(&self) -> (copy: ModelCard)
        ensures
            copy@ == self@,
    {
        ModelCard {
            name: self.name.clone(),
            description: self.description.clone(),
            release_date: self.release_date.clone(),
        }
    }
}

// ---------------------------------------------------------------------------
// Requests
// ---------------------------------------------------------------------------

/// State and named questions for `system_one`.
#[derive(Debug, PartialEq)]
pub struct SystemOneRequest {
    /// Text, a JSON object or array, or `null` to evaluate.
    pub state: Json,
    /// Nonempty questions keyed by the names used to identify their answers.
    pub questions: Questions,
    /// Model override; `None` inherits the default model of the client.
    pub model: Option<String>,
    /// Additional properties. They are forwarded in the request body, including `null` values.
    pub extra: JsonObject,
}

/// The members of a request that are its own.
pub open spec fn own_members(request: SystemOneRequest) -> Seq<(Seq<char>, JsonView)> {
    seq![
        ("state"@, request.state@),
        (
            "questions"@,
            crate::questions::questions_json(
                crate::questions::question_entries(request.questions),
            ),
        ),
    ] + match request.model {
        Some(model) => seq![("model"@, JsonView::String(model@))],
        None => Seq::empty(),
    }
}

/// The members of a request: its own, and the additional properties, which replace its own.
pub open spec fn request_members(request: SystemOneRequest) -> Seq<(Seq<char>, JsonView)> {
    crate::json::extended(own_members(request), request.extra@)
}

/// The model that answers a request.
pub open spec fn model_for(request: SystemOneRequest, default_model: Seq<char>) -> Seq<char> {
    match request.model {
        Some(model) => model@,
        None => default_model,
    }
}

/// The body of a request: its members, with the model that answers it.
pub open spec fn request_body(request: SystemOneRequest, default_model: Seq<char>) -> Seq<
    (Seq<char>, JsonView),
> {
    crate::json::with_member(
        request_members(request),
        "model"@,
        JsonView::String(model_for(request, default_model)),
    )
}

proof fn lemma_member_names()
    ensures
        "state"@ != "questions"@,
        "state"@ != "model"@,
        "questions"@ != "model"@,
{
    reveal_strlit("state");
    reveal_strlit("questions");
    reveal_strlit("model");
    assert("state"@.len() == 5 && "questions"@.len() == 9 && "model"@.len() == 5);
    assert("state"@[0] == 's' && "model"@[0] == 'm');
}

impl SystemOneRequest {
    /// A request without a model of its own and without additional properties.
    pub fn new(state: Json, questions: Questions) -> (request: SystemOneRequest)
        ensures
            request.state == state,
            request.questions == questions,
            request.model is None,
            request.extra@ == Seq::<(Seq<char>, JsonView)>::empty(),
    {
        SystemOneRequest { state, questions, model: None, extra: JsonObject::new() }
    }

    /// The request with a model of its own.
    pub fn model(self, model: String) -> (request: SystemOneRequest)
        ensures
            request.state == self.state,
            request.questions == self.questions,
            request.model == Some(model),
            request.extra == self.extra,
    {
        SystemOneRequest {
            state: self.state,
            questions: self.questions,
            model: Some(model),
            extra: self.extra,
        }
    }

    /// The body of the request.
    pub fn body(&self, default_model: &str) -> (body: Json)
        ensures
            body@ == JsonView::Object(request_body(*self, default_model@)),
    {
        let mut object = JsonObject::new();
        let questions = questions_to_json(&self.questions);
        proof {
            lemma_member_names();
            reveal_with_fuel(crate::json::member_index, 3);
        }
        object.insert("state".to_owned(), self.state.clone());
        object.insert("questions".to_owned(), questions);
        let ghost own = seq![("state"@, self.state@), ("questions"@, questions@)];
        assert(object@ == own);
        if let Some(model) = &self.model {
            assert(own.drop_last() == seq![("state"@, self.state@)]);
            assert(own.drop_last().drop_last() == Seq::<(Seq<char>, JsonView)>::empty());
            object.insert("model".to_owned(), Json::String(model.clone()));
        }
        let ghost start = object@;
        assert(start == own + match self.model {
            Some(model) => seq![("model"@, JsonView::String(model@))],
            None => Seq::empty(),
        });
        let mut i: usize = 0;
        assert(self.extra@.take(0) == Seq::<(Seq<char>, JsonView)>::empty());
        while i < self.extra.len()
            invariant
                i <= self.extra@.len(),
                object@ == crate::json::extended(start, self.extra@.take(i as int)),
            decreases self.extra@.len() - i,
        {
            let (name, value) = self.extra.entry(i);
            proof {
                assert(self.extra@.take(i + 1).drop_last() == self.extra@.take(i as int));
                assert(self.extra@.take(i + 1).last() == self.extra@[i as int]);
            }
            object.insert(name.to_owned(), value.clone());
            i = i + 1;
        }
        assert(self.extra@.take(self.extra@.len() as int) == self.extra@);
        assert(object@ == request_members(*self));
        let model = match &self.model {
            Some(model) => model.clone(),
            None => default_model.to_owned(),
        };
        object.insert("model".to_owned(), Json::String(model));
        Json::Object(object)
    }
}

proof fn lemma_own_members_distinct(request: SystemOneRequest)
    ensures
        crate::json::distinct_names(request_members(request)),
{
    lemma_member_names();
    let own = own_members(request);
    assert(crate::json::distinct_names(own));
    crate::json::lemma_extended_distinct(own, request.extra@);
}

/// The last value of a name in a list of members.
proof fn lemma_member_of_extended(
    members: Seq<(Seq<char>, JsonView)>,
    further: Seq<(Seq<char>, JsonView)>,
    name: Seq<char>,
)
    requires
        crate::json::distinct_names(members),
    ensures
        crate::json::member(crate::json::extended(members, further), name) == match crate::json::member(
            further,
            name,
        ) {
            Some(value) => Some(value),
            None => crate::json::member(members, name),
        },
    decreases further.len(),
{
    if further.len() > 0 {
        let earlier = further.drop_last();
        lemma_member_of_extended(members, earlier, name);
        crate::json::lemma_extended_distinct(members, earlier);
        crate::json::lemma_member_after(
            crate::json::extended(members, earlier),
            further.last().0,
            further.last().1,
            name,
        );
        crate::json::lemma_member_index(earlier, name);
        if further.last().0 != name && crate::json::member_index(earlier, name) is Some {
            let i = crate::json::member_index(earlier, name)->0;
            assert(earlier[i] == further[i]);
        }
    }
}

/// A request body names the model that answers it: that of the request, or else the default.
pub proof fn law_body_names_the_model(request: SystemOneRequest, default_model: Seq<char>)
    ensures
        crate::json::member(request_body(request, default_model), "model"@) == Some(
            JsonView::String(model_for(request, default_model)),
        ),
{
    lemma_own_members_distinct(request);
    crate::json::lemma_member_after(
        request_members(request),
        "model"@,
        JsonView::String(model_for(request, default_model)),
        "model"@,
    );
}

/// Additional properties are forwarded with their values, `null` among them; only the model is
/// not theirs to set.
pub proof fn law_body_forwards_extra(
    request: SystemOneRequest,
    default_model: Seq<char>,
    name: Seq<char>,
    value: JsonView,
)
    requires
        crate::json::member(request.extra@, name) == Some(value),
        name != "model"@,
    ensures
        crate::json::member(request_body(request, default_model), name) == Some(value),
{
    lemma_own_members_distinct(request);
    lemma_member_names();
    crate::json::lemma_member_after(
        request_members(request),
        "model"@,
        JsonView::String(model_for(request, default_model)),
        name,
    );
    let own = own_members(request);
    assert(crate::json::distinct_names(own));
    lemma_member_of_extended(own, request.extra@, name);
}

/// State and questions are sent as they are, unless an additional property replaces them.
pub proof fn law_body_sends_state_and_questions(request: SystemOneRequest, default_model: Seq<char>)
    ensures
        crate::json::member(request.extra@, "state"@) is None ==> crate::json::member(
            request_body(request, default_model),
            "state"@,
        ) == Some(request.state@),
        crate::json::member(request.extra@, "questions"@) is None ==> crate::json::member(
            request_body(request, default_model),
            "questions"@,
        ) == Some(
            crate::questions::questions_json(
                crate::questions::question_entries(request.questions),
            ),
        ),
{
    lemma_own_members_distinct(request);
    lemma_member_names();
    let own = own_members(request);
    assert(crate::json::distinct_names(own));
    let model = JsonView::String(model_for(request, default_model));
    crate::json::lemma_member_after(request_members(request), "model"@, model, "state"@);
    crate::json::lemma_member_after(request_members(request), "model"@, model, "questions"@);
    lemma_member_of_extended(own, request.extra@, "state"@);
    lemma_member_of_extended(own, request.extra@, "questions"@);
    assert(own[0].0 == "state"@ && own[1].0 == "questions"@);
    crate::json::lemma_member_index_unique(own, 0);
    crate::json::lemma_member_index_unique(own, 1);
}

/// Per-call options that override client settings.
#[derive(Debug)]
pub struct RequestOptions {
    /// Timeout per attempt in milliseconds; there is no total retry budget.
    pub timeout_ms: Option<u64>,
    /// Retry overrides for this call; omitted fields inherit client settings.
    pub retry: Option<RetryOverrides>,
    /// Additional headers, merged over the default headers. A `None` value removes the header.
    pub headers: Vec<(String, Option<String>)>,
}

impl Clone for RequestOptions {
    fn clone(&self) -> (copy: RequestOptions)
        ensures
            copy.timeout_ms == self.timeout_ms,
            crate::retry::same_overrides(copy.retry, self.retry),
            crate::headers::header_changes(copy.headers@) == crate::headers::header_changes(
                self.headers@,
            ),
    {
        RequestOptions {
            timeout_ms: self.timeout_ms,
            retry: clone_overrides(&self.retry),
            headers: copy_changes(&self.headers),
        }
    }
}

impl Default for RequestOptions {
    /// Options that override nothing.
    fn default() -> (options: RequestOptions)
        ensures
            options.timeout_ms is None,
            options.retry is None,
            options.headers@ == Seq::<(String, Option<String>)>::empty(),
    {
        RequestOptions { timeout_ms: None, retry: None, headers: Vec::new() }
    }
}

/// A model that a request names answers it, whatever the default; without one the default does.
pub proof fn law_own_model_wins(request: SystemOneRequest, default_model: Seq<char>)
    ensures
        request.model matches Some(model) ==> crate::json::member(
            request_body(request, default_model),
            "model"@,
        ) == Some(JsonView::String(model@)),
        request.model is None ==> crate::json::member(
            request_body(request, default_model),
            "model"@,
        ) == Some(JsonView::String(default_model)),
{
    law_body_names_the_model(request, default_model);
}

/// All the questions of a request are sent, each under its name, in its place and in its JSON form,
/// unless an additional property replaces them.
pub proof fn law_body_sends_all_questions(request: SystemOneRequest, default_model: Seq<char>)
    requires
        crate::json::member(request.extra@, "questions"@) is None,
    ensures
        crate::json::member(request_body(request, default_model), "questions"@) matches Some(
            JsonView::Object(sent),
        ) && {
            let questions = crate::questions::question_entries(request.questions);
            &&& sent.len() == questions.len()
            &&& forall|i: int|
                0 <= i < sent.len() ==> #[trigger] sent[i] == (
                    questions[i].0,
                    crate::questions::question_json(questions[i].1),
                )
        },
{
    law_body_sends_state_and_questions(request, default_model);
}

/// Nothing is sent but the state, the questions, the model and the additional properties.
pub proof fn law_body_holds_nothing_else(
    request: SystemOneRequest,
    default_model: Seq<char>,
    name: Seq<char>,
)
    requires
        name != "state"@,
        name != "questions"@,
        name != "model"@,
        crate::json::member(request.extra@, name) is None,
    ensures
        crate::json::member(request_body(request, default_model), name) is None,
        crate::json::distinct_names(request_body(request, default_model)),
{
    lemma_own_members_distinct(request);
    lemma_member_names();
    let own = own_members(request);
    assert(crate::json::distinct_names(own));
    let model = JsonView::String(model_for(request, default_model));
    crate::json::lemma_member_after(request_members(request), "model"@, model, name);
    crate::json::lemma_with_member_distinct(request_members(request), "model"@, model);
    lemma_member_of_extended(own, request.extra@, name);
    crate::json::lemma_member_index(own, name);
}

/// The probability of a score is the one reported under its numeral, and zero where none is.
pub proof fn law_probabilities_by_score(probabilities: Map<Seq<char>, Binary64>, score: nat)
    ensures
        probabilities.contains_key(crate::text::decimal(score)) ==> probability_of_score(
            probabilities,
            score,
        ) == probabilities[crate::text::decimal(score)],
        !probabilities.contains_key(crate::text::decimal(score)) ==> probability_of_score(
            probabilities,
            score,
        ).scaled() == 0,
{
    vstd::arithmetic::power2::lemma2_to64();
}

/// What a list of names says, name by name.
pub proof fn law_names_say_what_they_hold(names: Seq<String>, i: int)
    ensures
        name_texts(names).len() == names.len(),
        0 <= i < names.len() ==> name_texts(names)[i] == names[i]@,
{
}

} // verus!
