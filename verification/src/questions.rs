//! Questions: their builders, their validation, and their JSON form.

use indexmap::IndexMap;
use vstd::prelude::*;

use crate::errors::{Error, Result};
use crate::json::{Json, JsonObject, JsonView};
use crate::text::to_decimal;

verus! {

#[verifier::external_type_specification]
#[verifier::external_body]
#[verifier::reject_recursive_types(K)]
#[verifier::reject_recursive_types(V)]
#[verifier::reject_recursive_types(S)]
pub struct ExIndexMap<K, V, S>(indexmap::IndexMap<K, V, S>);

/// Optional descriptions of the yes and no outcomes of a noul question.
#[derive(Debug, PartialEq)]
pub struct NoulCriteria {
    /// Description of the yes outcome.
    pub yes: Option<Json>,
    /// Description of the no outcome.
    pub no: Option<Json>,
}

/// A question identified by its `type` field.
///
/// Instructions and descriptions are text, a JSON object or array, or `null`.
#[derive(Debug, PartialEq)]
pub enum Question {
    /// A yes/no question with optional descriptions for either outcome.
    Noul { instructions: Json, criteria: Option<NoulCriteria> },
    /// A question that selects between named alternatives. The labels keep their order, because
    /// the model sees them in this order.
    Choice {
        instructions: Json,
        /// Labels mapped to descriptions, or `null` for undescribed labels.
        criteria: IndexMap<String, Json>,
    },
    /// A question that assigns a score using an ordered rubric.
    Score {
        instructions: Json,
        /// At least two descriptions indexed by score from zero; `null` leaves a score undescribed.
        criteria: Vec<Json>,
    },
}

/// Questions keyed by the names used to identify their answers.
pub type Questions = IndexMap<String, Question>;

/// What the descriptions of a noul question say.
pub struct NoulCriteriaView {
    pub yes: Option<JsonView>,
    pub no: Option<JsonView>,
}

/// What a question says.
pub enum QuestionView {
    Noul { instructions: JsonView, criteria: Option<NoulCriteriaView> },
    Choice { instructions: JsonView, criteria: Seq<(Seq<char>, JsonView)> },
    Score { instructions: JsonView, criteria: Seq<JsonView> },
}

/// The labels of a choice question with their descriptions, in order.
pub uninterp spec fn label_entries(labels: IndexMap<String, Json>) -> Seq<(Seq<char>, JsonView)>;

/// The questions of a request with their names, in order.
pub uninterp spec fn question_entries(questions: IndexMap<String, Question>) -> Seq<
    (Seq<char>, QuestionView),
>;

impl View for NoulCriteria {
    type V = NoulCriteriaView;

    open spec fn view(&self) -> NoulCriteriaView {
        NoulCriteriaView {
            yes: crate::errors::body_view(self.yes),
            no: crate::errors::body_view(self.no),
        }
    }
}

impl Clone for NoulCriteria {
    fn clone(&self) -> (copy: NoulCriteria)
        ensures
            copy@ == self@,
    {
        NoulCriteria {
            yes: match &self.yes {
                Some(value) => Some(value.clone()),
                None => None,
            },
            no: match &self.no {
                Some(value) => Some(value.clone()),
                None => None,
            },
        }
    }
}

impl Default for NoulCriteria {
    /// No descriptions.
    fn default() -> (criteria: NoulCriteria)
        ensures
            criteria.yes is None,
            criteria.no is None,
    {
        NoulCriteria { yes: None, no: None }
    }
}

impl View for Question {
    type V = QuestionView;

    open spec fn view(&self) -> QuestionView {
        match self {
            Question::Noul { instructions, criteria } => QuestionView::Noul {
                instructions: instructions@,
                criteria: match criteria {
                    Some(c) => Some(c@),
                    None => None,
                },
            },
            Question::Choice { instructions, criteria } => QuestionView::Choice {
                instructions: instructions@,
                criteria: label_entries(*criteria),
            },
            Question::Score { instructions, criteria } => QuestionView::Score {
                instructions: instructions@,
                criteria: crate::json::json_views(criteria@),
            },
        }
    }
}

pub open spec fn label_views(labels: Seq<(String, Json)>) -> Seq<(Seq<char>, JsonView)> {
    labels.map_values(|label: (String, Json)| (label.0@, label.1@))
}

/// `IndexMap::from_iter`: like `IndexMap::insert` of each pair in order, which puts a new key at
/// the end and gives a known key a new value in its place.
#[verifier::external_body]
fn labels_from(list: Vec<(String, Json)>) -> (labels: IndexMap<String, Json>)
    ensures
        label_entries(labels) == crate::json::collected(label_views(list@)),
{
    list.into_iter().collect()
}

/// `IndexMap::iter`: each label once, with its description, in order.
#[verifier::external_body]
fn label_list<'a>(labels: &'a IndexMap<String, Json>) -> (list: Vec<(&'a String, &'a Json)>)
    ensures
        list@.map_values(|label: (&String, &Json)| (label.0@, label.1@)) == label_entries(*labels),
        crate::json::distinct_names(
            list@.map_values(|label: (&String, &Json)| (label.0@, label.1@)),
        ),
{
    labels.iter().collect()
}

/// `IndexMap::iter`: each name once, with its question, in order.
#[verifier::external_body]
fn question_list<'a>(questions: &'a IndexMap<String, Question>) -> (list: Vec<
    (&'a String, &'a Question),
>)
    ensures
        list@.map_values(|entry: (&String, &Question)| (entry.0@, entry.1@)) == question_entries(
            *questions,
        ),
        crate::json::distinct_names(
            list@.map_values(|entry: (&String, &Question)| (entry.0@, entry.1@)),
        ),
{
    questions.iter().collect()
}

// ---------------------------------------------------------------------------
// Builders
// ---------------------------------------------------------------------------

/// Create a yes/no question.
///
/// `instructions` is the question as text, a JSON object or array, or `null`.
pub fn noul(instructions: Json) -> (question: Question)
    ensures
        question == (Question::Noul { instructions, criteria: None }),
        question@ == (QuestionView::Noul { instructions: instructions@, criteria: None }),
{
    Question::Noul { instructions, criteria: None }
}

/// Create a yes/no question with descriptions of the yes and no outcomes.
pub fn noul_with_criteria(instructions: Json, yes: Option<Json>, no: Option<Json>) -> (question:
    Question)
    ensures
        question == (Question::Noul { instructions, criteria: Some(NoulCriteria { yes, no }) }),
        question@ == (QuestionView::Noul {
            instructions: instructions@,
            criteria: Some(
                NoulCriteriaView {
                    yes: crate::errors::body_view(yes),
                    no: crate::errors::body_view(no),
                },
            ),
        }),
{
    Question::Noul { instructions, criteria: Some(NoulCriteria { yes, no }) }
}

/// Create a score question using an ordered rubric.
///
/// `criteria` has at least two descriptions indexed by score from zero; entries may be `null`.
pub fn score(instructions: Json, criteria: Vec<Json>) -> (question: Question)
    ensures
        question == (Question::Score { instructions, criteria }),
        question@ == (QuestionView::Score {
            instructions: instructions@,
            criteria: crate::json::json_views(criteria@),
        }),
{
    Question::Score { instructions, criteria }
}

/// Create a question that selects between named alternatives.
///
/// `criteria` maps labels to descriptions, or to `null` for undescribed labels.
pub fn choice(instructions: Json, criteria: Vec<(String, Json)>) -> (question: Question)
    ensures
        question matches Question::Choice { instructions: i, criteria: labels } && i == instructions
            && label_entries(labels) == crate::json::collected(label_views(criteria@)),
        question@ == (QuestionView::Choice {
            instructions: instructions@,
            criteria: crate::json::collected(label_views(criteria@)),
        }),
{
    Question::Choice { instructions, criteria: labels_from(criteria) }
}

// ---------------------------------------------------------------------------
// Validation
// ---------------------------------------------------------------------------

/// What is wrong with a question: a rubric of fewer than two scores.
pub open spec fn wrong_question(name: Seq<char>, question: QuestionView) -> Option<Seq<char>> {
    match question {
        QuestionView::Score { criteria, .. } => if criteria.len() < 2 {
            Some(
                "Score question \""@ + name + "\" has "@ + crate::text::decimal(criteria.len())
                    + " criteria; at least two scores are required."@,
            )
        } else {
            None
        },
        _ => None,
    }
}

/// What is wrong with the first question that is not right.
pub open spec fn first_wrong_question(questions: Seq<(Seq<char>, QuestionView)>) -> Option<
    Seq<char>,
>
    decreases questions.len(),
{
    if questions.len() == 0 {
        None
    } else if first_wrong_question(questions.drop_last()) is Some {
        first_wrong_question(questions.drop_last())
    } else {
        wrong_question(questions.last().0, questions.last().1)
    }
}

/// What is wrong with a set of questions.
pub open spec fn wrong_questions(questions: Seq<(Seq<char>, QuestionView)>) -> Option<Seq<char>> {
    if questions.len() == 0 {
        Some("At least one question is required."@)
    } else {
        first_wrong_question(questions)
    }
}

proof fn lemma_first_wrong_stays(questions: Seq<(Seq<char>, QuestionView)>, n: int)
    requires
        0 <= n <= questions.len(),
        first_wrong_question(questions.take(n)) is Some,
    ensures
        first_wrong_question(questions) == first_wrong_question(questions.take(n)),
    decreases questions.len(),
{
    if n == questions.len() {
        assert(questions.take(n) == questions);
    } else {
        assert(questions.drop_last().take(n) == questions.take(n));
        lemma_first_wrong_stays(questions.drop_last(), n);
    }
}

/// Reject empty question sets and score questions without at least two criteria.
pub fn validate_questions(questions: &Questions) -> (valid: Result<()>)
    ensures
        match valid {
            Ok(_) => wrong_questions(question_entries(*questions)) is None,
            Err(error) => wrong_questions(question_entries(*questions)) matches Some(message)
                && error.refuses(message),
        },
{
    let list = question_list(questions);
    let ghost all = question_entries(*questions);
    if list.len() == 0 {
        return Err(Error::TypeSafe("At least one question is required.".to_owned()));
    }
    let mut i: usize = 0;
    while i < list.len()
        invariant
            i <= list.len(),
            all == question_entries(*questions),
            all == list@.map_values(|entry: (&String, &Question)| (entry.0@, entry.1@)),
            all.len() > 0,
            first_wrong_question(all.take(i as int)) is None,
        decreases list.len() - i,
    {
        let (name, question) = list[i];
        proof {
            assert(all[i as int] == (name@, question@));
            assert(all.take(i + 1).drop_last() == all.take(i as int));
            assert(all.take(i + 1).last() == all[i as int]);
        }
        if let Question::Score { criteria, .. } = question {
            if criteria.len() < 2 {
                let mut text = "Score question \"".to_owned();
                text.append(name.as_str());
                text.append("\" has ");
                text.append(to_decimal(criteria.len() as u64).as_str());
                text.append(" criteria; at least two scores are required.");
                proof {
                    assert(question@->Score_criteria.len() == criteria.len());
                    lemma_first_wrong_stays(all, i + 1);
                }
                return Err(Error::TypeSafe(text));
            }
        }
        i = i + 1;
    }
    assert(all.take(all.len() as int) == all);
    Ok(())
}

// ---------------------------------------------------------------------------
// JSON form
// ---------------------------------------------------------------------------

/// The members of an optional description.
pub open spec fn described(name: Seq<char>, description: Option<JsonView>) -> Seq<
    (Seq<char>, JsonView),
> {
    match description {
        Some(value) => seq![(name, value)],
        None => Seq::empty(),
    }
}

/// The JSON form of the descriptions of a noul question: each outcome that is described.
pub open spec fn noul_criteria_json(criteria: NoulCriteriaView) -> JsonView {
    JsonView::Object(described("true"@, criteria.yes) + described("false"@, criteria.no))
}

/// The JSON form of a question.
pub open spec fn question_json(question: QuestionView) -> JsonView {
    match question {
        QuestionView::Noul { instructions, criteria } => JsonView::Object(
            seq![("type"@, JsonView::String("noul"@)), ("instructions"@, instructions)] + match criteria {
                Some(c) => seq![("criteria"@, noul_criteria_json(c))],
                None => Seq::empty(),
            },
        ),
        QuestionView::Choice { instructions, criteria } => JsonView::Object(
            seq![
                ("type"@, JsonView::String("choice"@)),
                ("instructions"@, instructions),
                ("criteria"@, JsonView::Object(criteria)),
            ],
        ),
        QuestionView::Score { instructions, criteria } => JsonView::Object(
            seq![
                ("type"@, JsonView::String("score"@)),
                ("instructions"@, instructions),
                ("criteria"@, JsonView::Array(criteria)),
            ],
        ),
    }
}

/// The JSON form of named questions, in their order.
pub open spec fn questions_json(questions: Seq<(Seq<char>, QuestionView)>) -> JsonView {
    JsonView::Object(
        questions.map_values(
            |entry: (Seq<char>, QuestionView)| (entry.0, question_json(entry.1)),
        ),
    )
}

proof fn lemma_field_names()
    ensures
        "type"@ != "instructions"@,
        "type"@ != "criteria"@,
        "instructions"@ != "criteria"@,
        "true"@ != "false"@,
{
    reveal_strlit("type");
    reveal_strlit("instructions");
    reveal_strlit("criteria");
    reveal_strlit("true");
    reveal_strlit("false");
    assert("type"@.len() == 4 && "instructions"@.len() == 12 && "criteria"@.len() == 8);
    assert("true"@.len() == 4 && "false"@.len() == 5);
}

/// Setting a new name adds a member at the end.
proof fn lemma_new_member<V>(members: Seq<(Seq<char>, V)>, name: Seq<char>, value: V)
    requires
        forall|i: int| 0 <= i < members.len() ==> (#[trigger] members[i]).0 != name,
    ensures
        crate::json::with_member(members, name, value) == members.push((name, value)),
{
    crate::json::lemma_member_index(members, name);
}

impl NoulCriteria {
    /// The JSON form of the descriptions.
    pub fn to_json(&self) -> (json: Json)
        ensures
            json@ == noul_criteria_json(self@),
    {
        let mut object = JsonObject::new();
        proof {
            lemma_field_names();
        }
        if let Some(yes) = &self.yes {
            proof {
                lemma_new_member(object@, "true"@, yes@);
            }
            object.insert("true".to_owned(), yes.clone());
        }
        assert(object@ == described("true"@, self@.yes));
        if let Some(no) = &self.no {
            proof {
                lemma_new_member(object@, "false"@, no@);
            }
            object.insert("false".to_owned(), no.clone());
        }
        assert(object@ == described("true"@, self@.yes) + described("false"@, self@.no));
        Json::Object(object)
    }
}

fn labels_json(labels: &IndexMap<String, Json>) -> (json: Json)
    ensures
        json@ == JsonView::Object(label_entries(*labels)),
{
    let list = label_list(labels);
    let ghost all = label_entries(*labels);
    let mut object = JsonObject::new();
    let mut i: usize = 0;
    while i < list.len()
        invariant
            i <= list.len(),
            all == list@.map_values(|label: (&String, &Json)| (label.0@, label.1@)),
            crate::json::distinct_names(all),
            object@ == all.take(i as int),
        decreases list.len() - i,
    {
        let (name, description) = list[i];
        proof {
            assert(all[i as int] == (name@, description@));
            assert forall|j: int| 0 <= j < object@.len() implies (#[trigger] object@[j]).0 != name@ by {
                assert(all[j].0 != all[i as int].0);
            }
            lemma_new_member(object@, name@, description@);
        }
        object.insert(name.clone(), description.clone());
        assert(all.take(i + 1) == all.take(i as int).push(all[i as int]));
        i = i + 1;
    }
    assert(all.take(all.len() as int) == all);
    Json::Object(object)
}

impl Question {
    /// The JSON form of the question.
    pub fn to_json(&self) -> (json: Json)
        ensures
            json@ == question_json(self@),
    {
        let mut object = JsonObject::new();
        let name = match self {
            Question::Noul { .. } => "noul",
            Question::Choice { .. } => "choice",
            Question::Score { .. } => "score",
        };
        let instructions = match self {
            Question::Noul { instructions, .. } => instructions,
            Question::Choice { instructions, .. } => instructions,
            Question::Score { instructions, .. } => instructions,
        };
        let criteria = match self {
            Question::Noul { criteria: Some(criteria), .. } => Some(criteria.to_json()),
            Question::Noul { criteria: None, .. } => None,
            Question::Choice { criteria, .. } => Some(labels_json(criteria)),
            Question::Score { criteria, .. } => {
                let list = Json::Array(clone_all(criteria));
                assert(list@->Array_0 == crate::json::json_views(criteria@));
                Some(list)
            },
        };
        proof {
            lemma_field_names();
            lemma_new_member(object@, "type"@, JsonView::String(name@));
        }
        object.insert("type".to_owned(), Json::String(name.to_owned()));
        proof {
            lemma_new_member(object@, "instructions"@, instructions@);
        }
        object.insert("instructions".to_owned(), instructions.clone());
        let ghost head = object@;
        assert(head == seq![("type"@, JsonView::String(name@)), ("instructions"@, instructions@)]);
        if let Some(criteria) = criteria {
            proof {
                lemma_new_member(object@, "criteria"@, criteria@);
            }
            object.insert("criteria".to_owned(), criteria);
            assert(object@ == head + seq![("criteria"@, criteria@)]);
        }
        assert(object@ == question_json(self@)->Object_0);
        Json::Object(object)
    }
}

fn clone_all(items: &Vec<Json>) -> (copies: Vec<Json>)
    ensures
        crate::json::json_views(copies@) == crate::json::json_views(items@),
{
    let mut copies: Vec<Json> = Vec::new();
    let mut i: usize = 0;
    while i < items.len()
        invariant
            i <= items.len(),
            copies.len() == i,
            forall|j: int| 0 <= j < i ==> (#[trigger] copies@[j])@ == items@[j]@,
        decreases items.len() - i,
    {
        copies.push(items[i].clone());
        i = i + 1;
    }
    copies
}

/// The JSON form of named questions.
pub(crate) fn questions_to_json(questions: &Questions) -> (json: Json)
    ensures
        json@ == questions_json(question_entries(*questions)),
{
    let list = question_list(questions);
    let ghost all = question_entries(*questions);
    let ghost encoded = questions_json(all)->Object_0;
    let mut object = JsonObject::new();
    let mut i: usize = 0;
    while i < list.len()
        invariant
            i <= list.len(),
            all == list@.map_values(|entry: (&String, &Question)| (entry.0@, entry.1@)),
            crate::json::distinct_names(all),
            encoded == questions_json(all)->Object_0,
            object@ == encoded.take(i as int),
        decreases list.len() - i,
    {
        let (name, question) = list[i];
        proof {
            assert(all[i as int] == (name@, question@));
            assert forall|j: int| 0 <= j < object@.len() implies (#[trigger] object@[j]).0 != name@ by {
                assert(all[j].0 != all[i as int].0);
            }
            lemma_new_member(object@, name@, question_json(question@));
        }
        object.insert(name.clone(), question.to_json());
        assert(encoded.take(i + 1) == encoded.take(i as int).push(encoded[i as int]));
        i = i + 1;
    }
    assert(encoded.take(encoded.len() as int) == encoded);
    Json::Object(object)
}

// ---------------------------------------------------------------------------
// Laws
// ---------------------------------------------------------------------------

/// The labels of a choice question are sent in the order in which they were given.
pub proof fn law_labels_keep_their_order(instructions: JsonView, labels: Seq<(Seq<char>, JsonView)>)
    requires
        crate::json::distinct_names(labels),
    ensures
        question_json(
            (QuestionView::Choice {
                instructions,
                criteria: crate::json::collected(labels),
            }),
        ) == JsonView::Object(
            seq![
                ("type"@, JsonView::String("choice"@)),
                ("instructions"@, instructions),
                ("criteria"@, JsonView::Object(labels)),
            ],
        ),
{
    crate::json::law_distinct_names_keep_their_order(labels);
}

/// Questions pass exactly if there is one and each rubric has two scores at least.
pub proof fn law_valid_questions(questions: Seq<(Seq<char>, QuestionView)>)
    ensures
        wrong_questions(questions) is None <==> questions.len() > 0 && forall|i: int|
            0 <= i < questions.len() ==> ((#[trigger] questions[i]).1 is Score
                ==> questions[i].1->Score_criteria.len() >= 2),
{
    lemma_first_wrong_none(questions);
}

proof fn lemma_first_wrong_none(questions: Seq<(Seq<char>, QuestionView)>)
    ensures
        first_wrong_question(questions) is None <==> forall|i: int|
            0 <= i < questions.len() ==> ((#[trigger] questions[i]).1 is Score
                ==> questions[i].1->Score_criteria.len() >= 2),
    decreases questions.len(),
{
    if questions.len() > 0 {
        let earlier = questions.drop_last();
        lemma_first_wrong_none(earlier);
        assert(forall|i: int| 0 <= i < earlier.len() ==> #[trigger] earlier[i] == questions[i]);
        assert(questions.last() == questions[questions.len() - 1]);
        if first_wrong_question(earlier) is None {
            assert forall|i: int|
                0 <= i < questions.len() && (#[trigger] questions[i]).1 is Score && wrong_question(
                    questions.last().0,
                    questions.last().1,
                ) is None implies questions[i].1->Score_criteria.len() >= 2 by {
                if i < earlier.len() {
                    assert(earlier[i] == questions[i]);
                }
            }
        } else {
            let i = choose|i: int|
                0 <= i < earlier.len() && !((#[trigger] earlier[i]).1 is Score
                    ==> earlier[i].1->Score_criteria.len() >= 2);
            assert(questions[i] == earlier[i]);
        }
    }
}

proof fn lemma_question_members(question: QuestionView)
    ensures
        question_json(question) matches JsonView::Object(members) && crate::json::distinct_names(
            members,
        ),
{
    lemma_field_names();
}

/// The value of a member of a JSON object, by its position.
proof fn lemma_member_at(members: Seq<(Seq<char>, JsonView)>, i: int)
    requires
        crate::json::distinct_names(members),
        0 <= i < members.len(),
    ensures
        crate::json::json_member(JsonView::Object(members), members[i].0) == Some(members[i].1),
{
    crate::json::lemma_member_index_unique(members, i);
}

/// A rubric is sent whole: the JSON form of a score question has as many criteria as the rubric has
/// scores, and at each score the description of that score.
pub proof fn law_rubrics_are_sent_whole(question: Question, instructions: Json, rubric: Vec<Json>)
    requires
        question == (Question::Score { instructions, criteria: rubric }),
    ensures
        crate::json::json_member(question_json(question@), "type"@) == Some(
            JsonView::String("score"@),
        ),
        crate::json::json_member(question_json(question@), "instructions"@) == Some(instructions@),
        crate::json::json_member(question_json(question@), "criteria"@) matches Some(
            JsonView::Array(items),
        ) && items.len() == rubric@.len() && forall|score: int|
            0 <= score < rubric@.len() ==> #[trigger] items[score] == rubric@[score]@,
{
    lemma_question_members(question@);
    let members = question_json(question@)->Object_0;
    lemma_member_at(members, 0);
    lemma_member_at(members, 1);
    lemma_member_at(members, 2);
}

/// The labels of a choice question are sent whole: the JSON form has as many criteria as there are
/// labels, and at each position the label and the description of that position.
pub proof fn law_labels_are_sent_whole(
    question: Question,
    instructions: Json,
    labels: IndexMap<String, Json>,
)
    requires
        question == (Question::Choice { instructions, criteria: labels }),
    ensures
        crate::json::json_member(question_json(question@), "type"@) == Some(
            JsonView::String("choice"@),
        ),
        crate::json::json_member(question_json(question@), "instructions"@) == Some(instructions@),
        crate::json::json_member(question_json(question@), "criteria"@) matches Some(
            JsonView::Object(sent),
        ) && sent.len() == label_entries(labels).len() && forall|i: int|
            0 <= i < sent.len() ==> #[trigger] sent[i] == label_entries(labels)[i],
{
    lemma_question_members(question@);
    let members = question_json(question@)->Object_0;
    lemma_member_at(members, 0);
    lemma_member_at(members, 1);
    lemma_member_at(members, 2);
}

/// A yes/no question is sent with what describes its outcomes: each outcome that is described, with
/// its description, and no criteria at all where none were given.
pub proof fn law_outcomes_are_sent(
    question: Question,
    instructions: Json,
    criteria: Option<NoulCriteria>,
)
    requires
        question == (Question::Noul { instructions, criteria }),
    ensures
        crate::json::json_member(question_json(question@), "type"@) == Some(
            JsonView::String("noul"@),
        ),
        crate::json::json_member(question_json(question@), "instructions"@) == Some(instructions@),
        criteria is None ==> crate::json::json_member(question_json(question@), "criteria"@) is None,
        criteria matches Some(c) ==> {
            &&& crate::json::json_member(question_json(question@), "criteria"@) matches Some(sent)
                && {
                &&& crate::json::json_member(sent, "true"@) == match c.yes {
                    Some(yes) => Some(yes@),
                    None => None,
                }
                &&& crate::json::json_member(sent, "false"@) == match c.no {
                    Some(no) => Some(no@),
                    None => None,
                }
            }
        },
{
    lemma_question_members(question@);
    lemma_field_names();
    let members = question_json(question@)->Object_0;
    lemma_member_at(members, 0);
    lemma_member_at(members, 1);
    match criteria {
        Some(c) => {
            lemma_member_at(members, 2);
            let sent = noul_criteria_json(c@)->Object_0;
            crate::json::lemma_member_index(sent, "true"@);
            crate::json::lemma_member_index(sent, "false"@);
            if c.yes is Some {
                lemma_member_at(sent, 0);
            }
            if c.no is Some {
                lemma_member_at(sent, sent.len() - 1);
            }
        },
        None => {
            crate::json::lemma_member_index(members, "criteria"@);
        },
    }
}

/// Questions are sent whole: as many as there are, each under its name and in its place.
pub proof fn law_questions_are_sent_whole(questions: Seq<(Seq<char>, QuestionView)>)
    ensures
        questions_json(questions) matches JsonView::Object(sent) && sent.len() == questions.len()
            && forall|i: int|
            0 <= i < sent.len() ==> #[trigger] sent[i] == (
                questions[i].0,
                question_json(questions[i].1),
            ),
{
}

/// A set of questions without one is refused, and of questions that are not right the first is
/// named, with how many criteria it has.
pub proof fn law_first_wrong_question_is_named(questions: Seq<(Seq<char>, QuestionView)>, n: int)
    requires
        0 <= n < questions.len(),
        questions[n].1 is Score,
        questions[n].1->Score_criteria.len() < 2,
        forall|i: int|
            0 <= i < n ==> ((#[trigger] questions[i]).1 is Score
                ==> questions[i].1->Score_criteria.len() >= 2),
    ensures
        wrong_questions(questions) == Some(
            "Score question \""@ + questions[n].0 + "\" has "@ + crate::text::decimal(
                questions[n].1->Score_criteria.len(),
            ) + " criteria; at least two scores are required."@,
        ),
        wrong_questions(Seq::empty()) == Some("At least one question is required."@),
{
    let right = questions.take(n);
    assert(forall|i: int| 0 <= i < n ==> #[trigger] right[i] == questions[i]);
    lemma_first_wrong_none(right);
    let upto = questions.take(n + 1);
    assert(upto.drop_last() == right);
    assert(upto.last() == questions[n]);
    lemma_first_wrong_stays(questions, n + 1);
}

} // verus!
