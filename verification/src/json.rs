//! JSON values: the tree that the client reads and builds, and its text form.

use serde_json::{Number, Value};
use vstd::prelude::*;

use crate::text::same_text;

verus! {

#[verifier::external_type_specification]
#[verifier::external_body]
pub struct ExValue(serde_json::Value);

#[verifier::external_type_specification]
#[verifier::external_body]
pub struct ExNumber(serde_json::Number);

// ---------------------------------------------------------------------------
// Values
// ---------------------------------------------------------------------------

/// A JSON value.
#[derive(Debug, PartialEq)]
pub enum Json {
    Null,
    Bool(bool),
    Number(Number),
    String(String),
    Array(Vec<Json>),
    Object(JsonObject),
}

/// The members of a JSON object, in the order in which their names first came. No name occurs
/// twice.
#[derive(Debug, PartialEq)]
pub struct JsonObject {
    entries: Vec<(String, Json)>,
}

/// What a JSON value is: the same tree over mathematical sequences.
pub enum JsonView {
    Null,
    Bool(bool),
    Number(Number),
    String(Seq<char>),
    Array(Seq<JsonView>),
    Object(Seq<(Seq<char>, JsonView)>),
}

/// Whether no two members have the same name.
pub open spec fn distinct_names<V>(members: Seq<(Seq<char>, V)>) -> bool {
    forall|i: int, j: int|
        0 <= i < j < members.len() ==> (#[trigger] members[i]).0 != (#[trigger] members[j]).0
}

/// The position of the member `name`, if there is one.
pub open spec fn member_index<V>(members: Seq<(Seq<char>, V)>, name: Seq<char>) -> Option<int>
    decreases members.len(),
{
    if members.len() == 0 {
        None
    } else if members.last().0 == name {
        Some(members.len() - 1)
    } else {
        member_index(members.drop_last(), name)
    }
}

/// The value of the member `name`, if there is one.
pub open spec fn member<V>(members: Seq<(Seq<char>, V)>, name: Seq<char>) -> Option<V> {
    match member_index(members, name) {
        Some(i) => Some(members[i].1),
        None => None,
    }
}

/// `members` with `name` set to `value`: in the place of the member of that name, or at the end.
pub open spec fn with_member<V>(members: Seq<(Seq<char>, V)>, name: Seq<char>, value: V) -> Seq<
    (Seq<char>, V),
> {
    match member_index(members, name) {
        Some(i) => members.update(i, (name, value)),
        None => members.push((name, value)),
    }
}

pub proof fn lemma_member_index<V>(members: Seq<(Seq<char>, V)>, name: Seq<char>)
    ensures
        match member_index(members, name) {
            Some(i) => 0 <= i < members.len() && members[i].0 == name,
            None => forall|i: int| 0 <= i < members.len() ==> (#[trigger] members[i]).0 != name,
        },
    decreases members.len(),
{
    if members.len() > 0 && members.last().0 != name {
        lemma_member_index(members.drop_last(), name);
        assert forall|i: int| 0 <= i < members.len() && member_index(members, name) is None implies (
        #[trigger] members[i]).0 != name by {
            if i < members.len() - 1 {
                assert(members.drop_last()[i] == members[i]);
            }
        }
    }
}

/// A name occurs at one position at most.
pub proof fn lemma_member_index_unique<V>(members: Seq<(Seq<char>, V)>, i: int)
    requires
        distinct_names(members),
        0 <= i < members.len(),
    ensures
        member_index(members, members[i].0) == Some(i),
{
    lemma_member_index(members, members[i].0);
    let j = member_index(members, members[i].0)->0;
    if i < j {
        assert(members[i].0 != members[j].0);
    } else if j < i {
        assert(members[j].0 != members[i].0);
    }
}

pub proof fn lemma_with_member_distinct<V>(
    members: Seq<(Seq<char>, V)>,
    name: Seq<char>,
    value: V,
)
    requires
        distinct_names(members),
    ensures
        distinct_names(with_member(members, name, value)),
{
    lemma_member_index(members, name);
    let after = with_member(members, name, value);
    assert forall|i: int, j: int| 0 <= i < j < after.len() implies (#[trigger] after[i]).0 != (
    #[trigger] after[j]).0 by {
        if i < members.len() && j < members.len() {
            assert(members[i].0 != members[j].0);
        }
        if member_index(members, name) is None && j == members.len() {
            assert(members[i].0 != name);
        }
    }
}

/// `members` with each of a list of further members set, in order.
pub open spec fn extended<V>(
    members: Seq<(Seq<char>, V)>,
    further: Seq<(Seq<char>, V)>,
) -> Seq<(Seq<char>, V)>
    decreases further.len(),
{
    if further.len() == 0 {
        members
    } else {
        with_member(extended(members, further.drop_last()), further.last().0, further.last().1)
    }
}

/// The members that a list of names and values makes: each name in the place where it first comes,
/// with its last value.
pub open spec fn collected<V>(list: Seq<(Seq<char>, V)>) -> Seq<(Seq<char>, V)> {
    extended(Seq::empty(), list)
}

pub proof fn lemma_extended_distinct<V>(
    members: Seq<(Seq<char>, V)>,
    further: Seq<(Seq<char>, V)>,
)
    requires
        distinct_names(members),
    ensures
        distinct_names(extended(members, further)),
    decreases further.len(),
{
    if further.len() > 0 {
        lemma_extended_distinct(members, further.drop_last());
        lemma_with_member_distinct(
            extended(members, further.drop_last()),
            further.last().0,
            further.last().1,
        );
    }
}

/// A list of distinct names and values keeps its order.
pub proof fn law_distinct_names_keep_their_order<V>(list: Seq<(Seq<char>, V)>)
    requires
        distinct_names(list),
    ensures
        collected(list) == list,
    decreases list.len(),
{
    if list.len() > 0 {
        let earlier = list.drop_last();
        assert forall|i: int, j: int| 0 <= i < j < earlier.len() implies (#[trigger] earlier[i]).0
            != (#[trigger] earlier[j]).0 by {
            assert(list[i].0 != list[j].0);
        }
        law_distinct_names_keep_their_order(earlier);
        lemma_member_index(earlier, list.last().0);
        if member_index(earlier, list.last().0) is Some {
            let i = member_index(earlier, list.last().0)->0;
            assert(list[i].0 != list[list.len() - 1].0);
        }
        assert(earlier.push((list.last().0, list.last().1)) == list);
    }
}

/// What setting a member does to each name.
pub proof fn lemma_member_after<V>(
    members: Seq<(Seq<char>, V)>,
    name: Seq<char>,
    value: V,
    other: Seq<char>,
)
    requires
        distinct_names(members),
    ensures
        member(with_member(members, name, value), other) == if other == name {
            Some(value)
        } else {
            member(members, other)
        },
{
    let after = with_member(members, name, value);
    lemma_with_member_distinct(members, name, value);
    lemma_member_index(members, name);
    lemma_member_index(members, other);
    lemma_member_index(after, other);
    let at = match member_index(members, name) {
        Some(i) => i,
        None => members.len() as int,
    };
    assert(after[at] == (name, value));
    if other == name {
        lemma_member_index_unique(after, at);
    } else {
        match member_index(members, other) {
            Some(j) => {
                assert(after[j] == members[j]);
                lemma_member_index_unique(after, j);
            },
            None => {
                if member_index(after, other) is Some {
                    let j = member_index(after, other)->0;
                    assert(j != at);
                    assert(after[j] == members[j]);
                }
            },
        }
    }
}

/// The values of a list.
pub open spec fn json_views(items: Seq<Json>) -> Seq<JsonView> {
    items.map_values(|item: Json| item@)
}

/// A value that may be missing.
pub open spec fn optional(value: Option<&Json>) -> Option<JsonView> {
    match value {
        Some(json) => Some(json@),
        None => None,
    }
}

impl Json {
    pub open spec fn view(self) -> JsonView
        decreases self,
    {
        match self {
            Json::Null => JsonView::Null,
            Json::Bool(b) => JsonView::Bool(b),
            Json::Number(n) => JsonView::Number(n),
            Json::String(s) => JsonView::String(s@),
            Json::Array(items) => JsonView::Array(
                Seq::new(
                    items@.len(),
                    |i: int|
                        if 0 <= i < items@.len() {
                            items@[i].view()
                        } else {
                            arbitrary()
                        },
                ),
            ),
            Json::Object(object) => JsonView::Object(object.view()),
        }
    }
}

impl JsonObject {
    /// The members by their positions.
    pub closed spec fn view(self) -> Seq<(Seq<char>, JsonView)>
        decreases self,
    {
        Seq::new(
            self.entries@.len(),
            |i: int|
                if 0 <= i < self.entries@.len() {
                    (self.entries@[i].0@, self.entries@[i].1.view())
                } else {
                    arbitrary()
                },
        )
    }

    #[verifier::type_invariant]
    closed spec fn inv(self) -> bool {
        distinct_names(self@)
    }

    /// An object without members.
    pub fn new() -> (object: JsonObject)
        ensures
            object@ == Seq::<(Seq<char>, JsonView)>::empty(),
    {
        let entries: Vec<(String, Json)> = Vec::new();
        let object = JsonObject { entries };
        assert(object@ == Seq::<(Seq<char>, JsonView)>::empty());
        object
    }

    /// The number of members.
    pub fn len(&self) -> (len: usize)
        ensures
            len == self@.len(),
    {
        self.entries.len()
    }

    /// The name and the value at a position.
    pub fn entry(&self, index: usize) -> (entry: (&str, &Json))
        requires
            index < self@.len(),
        ensures
            (entry.0@, entry.1@) == self@[index as int],
            decreases_to!(self => entry.1),
            distinct_names(self@),
    {
        proof {
            use_type_invariant(self);
        }
        let entry = &self.entries[index];
        (entry.0.as_str(), &entry.1)
    }

    /// The position of the member `name`.
    fn position(&self, name: &str) -> (index: Option<usize>)
        ensures
            match index {
                Some(i) => member_index(self@, name@) == Some(i as int) && i < self@.len(),
                None => member_index(self@, name@) is None,
            },
    {
        proof {
            use_type_invariant(self);
            lemma_member_index(self@, name@);
        }
        let mut i: usize = 0;
        while i < self.entries.len()
            invariant
                i <= self.entries.len(),
                distinct_names(self@),
                forall|j: int| 0 <= j < i ==> (#[trigger] self@[j]).0 != name@,
            decreases self.entries.len() - i,
        {
            assert(self@[i as int].0 == self.entries@[i as int].0@);
            if same_text(self.entries[i].0.as_str(), name) {
                proof {
                    lemma_member_index_unique(self@, i as int);
                }
                return Some(i);
            }
            i = i + 1;
        }
        None
    }

    /// The value of the member `name`.
    pub fn get(&self, name: &str) -> (value: Option<&Json>)
        ensures
            match value {
                Some(v) => member(self@, name@) == Some(v@),
                None => member(self@, name@) is None,
            },
    {
        match self.position(name) {
            Some(i) => Some(&self.entries[i].1),
            None => None,
        }
    }

    /// Set the member `name`: in its place if there is one, or else at the end.
    pub fn insert(&mut self, name: String, value: Json)
        ensures
            final(self)@ == with_member(old(self)@, name@, value@),
    {
        proof {
            use_type_invariant(&*self);
            lemma_with_member_distinct(self@, name@, value@);
            lemma_member_index(self@, name@);
        }
        let ghost before = self@;
        let position = self.position(name.as_str());
        let mut entries: Vec<(String, Json)> = Vec::new();
        std::mem::swap(&mut entries, &mut self.entries);
        match position {
            Some(i) => {
                entries.set(i, (name, value));
            },
            None => {
                entries.push((name, value));
            },
        }
        assert(JsonObject { entries }@ == with_member(before, name@, value@));
        *self = JsonObject { entries };
    }
}

// ---------------------------------------------------------------------------
// Copies
// ---------------------------------------------------------------------------

/// `Clone` of `serde_json::Number`: the copy is the same number.
pub assume_specification[ <serde_json::Number as std::clone::Clone>::clone ](
    number: &serde_json::Number,
) -> (copy: serde_json::Number)
    ensures
        copy == *number,
;

impl Clone for Json {
    fn clone(&self) -> (copy: Json)
        ensures
            copy@ == self@,
        decreases self,
    {
        match self {
            Json::Null => Json::Null,
            Json::Bool(b) => Json::Bool(*b),
            Json::Number(n) => Json::Number(n.clone()),
            Json::String(s) => Json::String(s.clone()),
            Json::Array(items) => {
                let mut copies: Vec<Json> = Vec::new();
                let mut i: usize = 0;
                while i < items.len()
                    invariant
                        i <= items.len(),
                        copies.len() == i,
                        forall|j: int| 0 <= j < i ==> (#[trigger] copies@[j])@ == items@[j]@,
                        decreases_to!(self => items),
                    decreases items.len() - i,
                {
                    let copy = items[i].clone();
                    copies.push(copy);
                    i = i + 1;
                }
                let copy = Json::Array(copies);
                assert(copy@->Array_0 == self@->Array_0);
                copy
            },
            Json::Object(object) => Json::Object(object.clone()),
        }
    }
}

impl Clone for JsonObject {
    fn clone(&self) -> (copy: JsonObject)
        ensures
            copy@ == self@,
        decreases self,
    {
        proof {
            use_type_invariant(self);
        }
        let mut entries: Vec<(String, Json)> = Vec::new();
        let mut i: usize = 0;
        while i < self.entries.len()
            invariant
                i <= self.entries.len(),
                entries.len() == i,
                forall|j: int|
                    0 <= j < i ==> (#[trigger] entries@[j]).0@ == self.entries@[j].0@
                        && entries@[j].1@ == self.entries@[j].1@,
            decreases self.entries.len() - i,
        {
            let name = self.entries[i].0.clone();
            let value = self.entries[i].1.clone();
            entries.push((name, value));
            i = i + 1;
        }
        assert(JsonObject { entries }@ == self@);
        JsonObject { entries }
    }
}

// ---------------------------------------------------------------------------
// Text form
// ---------------------------------------------------------------------------

/// The tree that a `serde_json::Value` holds.
pub uninterp spec fn json_of(value: Value) -> JsonView;

/// The value that `serde_json::from_str` reads from a text; `None` where it reports an error.
pub uninterp spec fn parsed_json(text: Seq<char>) -> Option<JsonView>;

/// The compact JSON text that `serde_json` writes for a value.
pub uninterp spec fn json_text(value: JsonView) -> Seq<char>;

pub open spec fn json_of_members(members: Seq<(String, Value)>) -> Seq<(Seq<char>, JsonView)> {
    members.map_values(|member: (String, Value)| (member.0@, json_of(member.1)))
}

/// One level of a `serde_json::Value`.
enum Parts {
    Null,
    Bool(bool),
    Number(Number),
    String(String),
    Array(Vec<Value>),
    Object(Vec<(String, Value)>),
}

impl Parts {
    spec fn view(self) -> JsonView {
        match self {
            Parts::Null => JsonView::Null,
            Parts::Bool(b) => JsonView::Bool(b),
            Parts::Number(n) => JsonView::Number(n),
            Parts::String(s) => JsonView::String(s@),
            Parts::Array(items) => JsonView::Array(items@.map_values(|item: Value| json_of(item))),
            Parts::Object(members) => JsonView::Object(json_of_members(members@)),
        }
    }

    /// Whether the parts are those of a value: an object has no name twice.
    spec fn valid(self) -> bool {
        self matches Parts::Object(members) ==> distinct_names(json_of_members(members@))
    }
}

/// `serde_json::from_str` into a `serde_json::Value`. Whether it succeeds, and with which value,
/// depends on the text alone.
#[verifier::external_body]
fn value_from_str(text: &str) -> (value: Option<Value>)
    ensures
        match value {
            Some(v) => parsed_json(text@) == Some(json_of(v)),
            None => parsed_json(text@) is None,
        },
{
    serde_json::from_str(text).ok()
}

/// The variants of `serde_json::Value`, and `serde_json::Map::into_iter`, which gives each
/// member once.
#[verifier::external_body]
fn value_parts(value: Value) -> (parts: Parts)
    ensures
        parts@ == json_of(value),
        parts.valid(),
{
    match value {
        Value::Null => Parts::Null,
        Value::Bool(b) => Parts::Bool(b),
        Value::Number(n) => Parts::Number(n),
        Value::String(s) => Parts::String(s),
        Value::Array(items) => Parts::Array(items),
        Value::Object(members) => Parts::Object(members.into_iter().collect()),
    }
}

/// The variants of `serde_json::Value`, and `serde_json::Map::from_iter`, which keeps the order
/// of distinct names.
#[verifier::external_body]
fn value_from_parts(parts: Parts) -> (value: Value)
    requires
        parts.valid(),
    ensures
        json_of(value) == parts@,
{
    match parts {
        Parts::Null => Value::Null,
        Parts::Bool(b) => Value::Bool(b),
        Parts::Number(n) => Value::Number(n),
        Parts::String(s) => Value::String(s),
        Parts::Array(items) => Value::Array(items),
        Parts::Object(members) => Value::Object(members.into_iter().collect()),
    }
}

/// `Display` of `serde_json::Value`: the compact JSON text, a function of the value alone.
#[verifier::external_body]
fn value_to_string(value: &Value) -> (text: String)
    ensures
        text@ == json_text(json_of(*value)),
{
    value.to_string()
}

/// The tree of a `serde_json::Value`.
pub fn from_value(value: Value) -> (json: Json)
    ensures
        json@ == json_of(value),
    decreases json_of(value),
{
    let ghost whole = json_of(value);
    match value_parts(value) {
        Parts::Null => Json::Null,
        Parts::Bool(b) => Json::Bool(b),
        Parts::Number(n) => Json::Number(n),
        Parts::String(s) => Json::String(s),
        Parts::Array(values) => {
            let ghost all = values@;
            let mut items: Vec<Json> = Vec::new();
            for item in it: values
                invariant
                    it.seq() == all,
                    whole == JsonView::Array(all.map_values(|item: Value| json_of(item))),
                    whole == json_of(value),
                    items.len() == it.index(),
                    forall|j: int| 0 <= j < items.len() ==> (#[trigger] items@[j])@ == json_of(all[j]),
            {
                assert(whole->Array_0[items.len() as int] == json_of(item));
                items.push(from_value(item));
            }
            let json = Json::Array(items);
            assert(json@->Array_0 == whole->Array_0);
            json
        },
        Parts::Object(values) => {
            let ghost all = values@;
            let mut entries: Vec<(String, Json)> = Vec::new();
            for (name, item) in it: values
                invariant
                    it.seq() == all,
                    whole == JsonView::Object(json_of_members(all)),
                    whole == json_of(value),
                    entries.len() == it.index(),
                    forall|j: int|
                        0 <= j < entries.len() ==> ((#[trigger] entries@[j]).0@, entries@[j].1@)
                            == json_of_members(all)[j],
            {
                proof {
                    let members = whole->Object_0;
                    let here = members[entries.len() as int];
                    assert(here == (name@, json_of(item)));
                    assert(decreases_to!(whole => members));
                    assert(decreases_to!(members => here));
                    assert(decreases_to!(here => here.1));
                }
                entries.push((name, from_value(item)));
            }
            assert(JsonObject { entries }@ == json_of_members(all));
            Json::Object(JsonObject { entries })
        },
    }
}

/// The `serde_json::Value` of a tree.
pub fn to_value(json: &Json) -> (value: Value)
    ensures
        json_of(value) == json@,
    decreases json,
{
    let ghost whole = json@;
    let parts = match json {
        Json::Null => Parts::Null,
        Json::Bool(b) => Parts::Bool(*b),
        Json::Number(n) => Parts::Number(n.clone()),
        Json::String(s) => Parts::String(s.clone()),
        Json::Array(items) => {
            let mut values: Vec<Value> = Vec::new();
            let mut i: usize = 0;
            while i < items.len()
                invariant
                    i <= items.len(),
                    values.len() == i,
                    forall|j: int| 0 <= j < i ==> json_of(#[trigger] values@[j]) == items@[j]@,
                    decreases_to!(json => items),
                decreases items.len() - i,
            {
                values.push(to_value(&items[i]));
                i = i + 1;
            }
            assert(values@.map_values(|item: Value| json_of(item)) == whole->Array_0);
            Parts::Array(values)
        },
        Json::Object(object) => {
            proof {
                use_type_invariant(object);
            }
            let mut values: Vec<(String, Value)> = Vec::new();
            let mut i: usize = 0;
            while i < object.len()
                invariant
                    i <= object@.len(),
                    values.len() == i,
                    forall|j: int|
                        0 <= j < i ==> ((#[trigger] values@[j]).0@, json_of(values@[j].1))
                            == object@[j],
                    decreases_to!(json => object),
                decreases object@.len() - i,
            {
                let (name, item) = object.entry(i);
                values.push((name.to_owned(), to_value(item)));
                i = i + 1;
            }
            assert(json_of_members(values@) == object@);
            Parts::Object(values)
        },
    };
    value_from_parts(parts)
}

/// The JSON value that `text` holds; `None` if it is no JSON text.
pub fn parse_json(text: &str) -> (json: Option<Json>)
    ensures
        match json {
            Some(value) => parsed_json(text@) == Some(value@),
            None => parsed_json(text@) is None,
        },
{
    match value_from_str(text) {
        Some(value) => Some(from_value(value)),
        None => None,
    }
}

impl Json {
    /// The compact JSON text of the value.
    pub fn to_string(&self) -> (text: String)
        ensures
            text@ == json_text(self@),
    {
        value_to_string(&to_value(self))
    }

    /// The text of a JSON string.
    pub fn as_str(&self) -> (text: Option<&str>)
        ensures
            match text {
                Some(t) => self@ == JsonView::String(t@),
                None => !(self@ is String),
            },
    {
        match self {
            Json::String(s) => Some(s.as_str()),
            _ => None,
        }
    }

    /// The members of a JSON object.
    pub fn as_object(&self) -> (object: Option<&JsonObject>)
        ensures
            match object {
                Some(o) => self@ == JsonView::Object(o@),
                None => !(self@ is Object),
            },
    {
        match self {
            Json::Object(object) => Some(object),
            _ => None,
        }
    }

    /// The items of a JSON array.
    pub fn as_array(&self) -> (items: Option<&Vec<Json>>)
        ensures
            match items {
                Some(i) => self@ is Array && self@->Array_0.len() == i@.len() && (forall|j: int|
                    0 <= j < i@.len() ==> #[trigger] self@->Array_0[j] == i@[j]@),
                None => !(self@ is Array),
            },
    {
        match self {
            Json::Array(items) => Some(items),
            _ => None,
        }
    }

    /// The member `name` of a JSON object.
    pub fn get(&self, name: &str) -> (value: Option<&Json>)
        ensures
            match value {
                Some(v) => json_member(self@, name@) == Some(v@),
                None => json_member(self@, name@) is None,
            },
    {
        match self {
            Json::Object(object) => object.get(name),
            _ => None,
        }
    }
}

/// The member `name` of a JSON object; no other value has members.
pub open spec fn json_member(value: JsonView, name: Seq<char>) -> Option<JsonView> {
    match value {
        JsonView::Object(members) => member(members, name),
        _ => None,
    }
}

impl From<String> for Json {
    fn from(text: String) -> (json: Json) {
        Json::String(text)
    }
}

impl vstd::std_specs::convert::FromSpecImpl<String> for Json {
    open spec fn obeys_from_spec() -> bool {
        true
    }

    open spec fn from_spec(text: String) -> Json {
        Json::String(text)
    }
}

// ---------------------------------------------------------------------------
// Laws of members
// ---------------------------------------------------------------------------

/// Setting a member gives it the value, keeps the value and the place of every other, and adds one
/// member at most.
pub proof fn law_setting_a_member<V>(
    members: Seq<(Seq<char>, V)>,
    name: Seq<char>,
    value: V,
    i: int,
)
    requires
        distinct_names(members),
    ensures
        ({
            let after = with_member(members, name, value);
            &&& distinct_names(after)
            &&& member(after, name) == Some(value)
            &&& 0 <= i < members.len() ==> after[i] == if members[i].0 == name {
                (name, value)
            } else {
                members[i]
            }
            &&& after.len() == members.len() + if member(members, name) is Some {
                0int
            } else {
                1
            }
        }),
{
    lemma_with_member_distinct(members, name, value);
    lemma_member_after(members, name, value, name);
    lemma_member_index(members, name);
    if 0 <= i < members.len() && members[i].0 == name {
        lemma_member_index_unique(members, i);
    }
}

/// The value of a member is the one that stands beside its name, and there is one exactly if the
/// name occurs.
pub proof fn law_value_of_a_member<V>(members: Seq<(Seq<char>, V)>, name: Seq<char>, i: int)
    requires
        distinct_names(members),
    ensures
        0 <= i < members.len() && members[i].0 == name ==> member(members, name) == Some(
            members[i].1,
        ),
        member(members, name) is None <==> forall|j: int|
            0 <= j < members.len() ==> (#[trigger] members[j]).0 != name,
{
    lemma_member_index(members, name);
    if 0 <= i < members.len() && members[i].0 == name {
        lemma_member_index_unique(members, i);
    }
}

/// Only objects have members.
pub proof fn law_only_objects_have_members(value: JsonView, name: Seq<char>)
    ensures
        !(value is Object) ==> json_member(value, name) is None,
        value matches JsonView::Object(members) ==> json_member(value, name) == member(
            members,
            name,
        ),
{
}

/// What an array and a text are, and what a list of values says, item by item.
pub proof fn law_values_are_what_they_hold(items: Vec<Json>, text: String, i: int)
    ensures
        Json::String(text)@ == JsonView::String(text@),
        Json::Array(items)@ matches JsonView::Array(views) && views.len() == items@.len() && (0 <= i
            < views.len() ==> views[i] == items@[i]@),
        json_views(items@).len() == items@.len(),
        0 <= i < items@.len() ==> json_views(items@)[i] == items@[i]@,
        Json::Null@ == JsonView::Null,
        Json::Bool(true)@ == JsonView::Bool(true),
        Json::Bool(false)@ == JsonView::Bool(false),
{
}

/// Of a list of names and values, each name has its last value.
pub proof fn law_last_values_count<V>(list: Seq<(Seq<char>, V)>, i: int)
    requires
        0 <= i < list.len(),
        forall|j: int| i < j < list.len() ==> (#[trigger] list[j]).0 != list[i].0,
    ensures
        member(collected(list), list[i].0) == Some(list[i].1),
        distinct_names(collected(list)),
    decreases list.len(),
{
    let earlier = list.drop_last();
    lemma_extended_distinct(Seq::<(Seq<char>, V)>::empty(), list);
    lemma_extended_distinct(Seq::<(Seq<char>, V)>::empty(), earlier);
    lemma_member_after(collected(earlier), list.last().0, list.last().1, list[i].0);
    if i < earlier.len() {
        assert(list[list.len() - 1].0 != list[i].0);
        assert forall|j: int| i < j < earlier.len() implies (#[trigger] earlier[j]).0
            != earlier[i].0 by {
            assert(earlier[j] == list[j]);
        }
        law_last_values_count(earlier, i);
    }
}

/// What further members do to each name: their value counts, and other names keep theirs.
pub proof fn law_further_members_replace<V>(
    members: Seq<(Seq<char>, V)>,
    further: Seq<(Seq<char>, V)>,
    name: Seq<char>,
)
    requires
        distinct_names(members),
        distinct_names(further),
    ensures
        member(extended(members, further), name) == if member(further, name) is Some {
            member(further, name)
        } else {
            member(members, name)
        },
    decreases further.len(),
{
    if further.len() > 0 {
        let earlier = further.drop_last();
        assert forall|i: int, j: int| 0 <= i < j < earlier.len() implies (#[trigger] earlier[i]).0
            != (#[trigger] earlier[j]).0 by {
            assert(further[i].0 != further[j].0);
        }
        law_further_members_replace(members, earlier, name);
        lemma_extended_distinct(members, earlier);
        lemma_member_after(extended(members, earlier), further.last().0, further.last().1, name);
        lemma_member_index(earlier, name);
        if further.last().0 != name && member_index(earlier, name) is Some {
            let i = member_index(earlier, name)->0;
            assert(earlier[i] == further[i]);
        }
    }
}

} // verus!
