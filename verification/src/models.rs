//! The Models API resource.

use vstd::prelude::*;

use crate::client::{RequestCounter, TypeSafeClient};
use crate::errors::{Error, Result};
use crate::exchange::{ApiCall, Method};
use crate::json::{Json, JsonView};
use crate::types::{ModelCard, RequestOptions};

verus! {

pub const MODELS_PATH: &'static str = "/v1/models";

/// Access to the Models API resource.
pub struct Models<'a> {
    pub client: &'a TypeSafeClient,
}

impl<'a> Models<'a> {
    /// Prepare the call that lists the models available to the account. It takes the next number.
    pub fn list(&self, requests: &mut RequestCounter, options: &RequestOptions) -> (call: Result<
        ApiCall,
    >)
        ensures
            final(requests).made() == crate::client::number_after(old(requests).made()),
            match call {
                Ok(c) => crate::client::called(
                    self.client@,
                    crate::client::number_after(old(requests).made()),
                    Method::Get,
                    MODELS_PATH@,
                    None,
                    *options,
                ) == Ok::<crate::exchange::CallView, Seq<char>>(c@),
                Err(error) => crate::client::called(
                    self.client@,
                    crate::client::number_after(old(requests).made()),
                    Method::Get,
                    MODELS_PATH@,
                    None,
                    *options,
                ) matches Err(message) && error.refuses(message),
            },
    {
        self.client.request(requests, Method::Get, MODELS_PATH, None, options)
    }
}

// ---------------------------------------------------------------------------
// Model lists
// ---------------------------------------------------------------------------

/// What a model card says.
pub struct ModelCardView {
    pub name: Seq<char>,
    pub description: Seq<char>,
    pub release_date: Seq<char>,
}

impl View for ModelCard {
    type V = ModelCardView;

    open spec fn view(&self) -> ModelCardView {
        ModelCardView {
            name: self.name@,
            description: self.description@,
            release_date: self.release_date@,
        }
    }
}

pub open spec fn card_views(cards: Seq<ModelCard>) -> Seq<ModelCardView> {
    cards.map_values(|card: ModelCard| card@)
}

/// A card of three texts, if they are that.
pub open spec fn card_of(
    name: Option<JsonView>,
    description: Option<JsonView>,
    release_date: Option<JsonView>,
) -> Option<ModelCardView> {
    match (name, description, release_date) {
        (
            Some(JsonView::String(n)),
            Some(JsonView::String(d)),
            Some(JsonView::String(r)),
        ) => Some(ModelCardView { name: n, description: d, release_date: r }),
        _ => None,
    }
}

/// A model card in JSON: an object with its three members, whatever else there is in it, or an
/// array of exactly the three.
pub open spec fn card_in(value: JsonView) -> Option<ModelCardView> {
    match value {
        JsonView::Object(members) => card_of(
            crate::json::member(members, "name"@),
            crate::json::member(members, "description"@),
            crate::json::member(members, "release_date"@),
        ),
        JsonView::Array(items) => if items.len() == 3 {
            card_of(Some(items[0]), Some(items[1]), Some(items[2]))
        } else {
            None
        },
        _ => None,
    }
}

/// The cards in a list, if each item is one.
pub open spec fn cards_in(items: Seq<JsonView>) -> Option<Seq<ModelCardView>>
    decreases items.len(),
{
    if items.len() == 0 {
        Some(Seq::empty())
    } else {
        match (cards_in(items.drop_last()), card_in(items.last())) {
            (Some(cards), Some(card)) => Some(cards.push(card)),
            _ => None,
        }
    }
}

/// The models in a response body: the cards in the list of its member `models`.
pub open spec fn models_in(wire: Option<JsonView>) -> Option<Seq<ModelCardView>> {
    match wire {
        Some(value) => match crate::json::json_member(value, "models"@) {
            Some(JsonView::Array(items)) => cards_in(items),
            _ => None,
        },
        None => None,
    }
}

fn text_of(value: Option<&Json>) -> (text: Option<String>)
    ensures
        match text {
            Some(t) => crate::json::optional(value) == Some(JsonView::String(t@)),
            None => !(crate::json::optional(value) matches Some(JsonView::String(_))),
        },
{
    match value {
        Some(Json::String(text)) => Some(text.clone()),
        _ => None,
    }
}

fn card(name: Option<&Json>, description: Option<&Json>, release_date: Option<&Json>) -> (card: Option<
    ModelCard,
>)
    ensures
        match card {
            Some(c) => card_of(
                crate::json::optional(name),
                crate::json::optional(description),
                crate::json::optional(release_date),
            ) == Some(c@),
            None => card_of(
                crate::json::optional(name),
                crate::json::optional(description),
                crate::json::optional(release_date),
            ) is None,
        },
{
    let name = match text_of(name) {
        Some(text) => text,
        None => return None,
    };
    let description = match text_of(description) {
        Some(text) => text,
        None => return None,
    };
    let release_date = match text_of(release_date) {
        Some(text) => text,
        None => return None,
    };
    Some(ModelCard { name, description, release_date })
}

fn read_card(value: &Json) -> (read: Option<ModelCard>)
    ensures
        match read {
            Some(c) => card_in(value@) == Some(c@),
            None => card_in(value@) is None,
        },
{
    match value {
        Json::Object(object) => card(
            object.get("name"),
            object.get("description"),
            object.get("release_date"),
        ),
        Json::Array(items) => if items.len() == 3 {
            card(Some(&items[0]), Some(&items[1]), Some(&items[2]))
        } else {
            None
        },
        _ => None,
    }
}

proof fn lemma_no_cards(items: Seq<JsonView>, n: int)
    requires
        0 <= n <= items.len(),
        cards_in(items.take(n)) is None,
    ensures
        cards_in(items) is None,
    decreases items.len(),
{
    if n == items.len() {
        assert(items.take(n) == items);
    } else {
        assert(items.drop_last().take(n) == items.take(n));
        lemma_no_cards(items.drop_last(), n);
    }
}

fn read_cards(items: &Vec<Json>) -> (read: Option<Vec<ModelCard>>)
    ensures
        match read {
            Some(cards) => cards_in(Json::Array(*items)@->Array_0) == Some(card_views(cards@)),
            None => cards_in(Json::Array(*items)@->Array_0) is None,
        },
{
    let ghost all = Json::Array(*items)@->Array_0;
    let mut cards: Vec<ModelCard> = Vec::new();
    let mut i: usize = 0;
    assert(all.take(0) == Seq::<JsonView>::empty());
    assert(card_views(cards@) == Seq::<ModelCardView>::empty());
    while i < items.len()
        invariant
            i <= items.len(),
            all == Json::Array(*items)@->Array_0,
            all.len() == items.len(),
            cards_in(all.take(i as int)) == Some(card_views(cards@)),
        decreases items.len() - i,
    {
        proof {
            assert(all.take(i + 1).drop_last() == all.take(i as int));
            assert(all.take(i + 1).last() == items@[i as int]@);
        }
        match read_card(&items[i]) {
            Some(card) => {
                let ghost before = cards@;
                cards.push(card);
                assert(card_views(cards@) == card_views(before).push(card@));
            },
            None => {
                proof {
                    lemma_no_cards(all, i + 1);
                }
                return None;
            },
        }
        i = i + 1;
    }
    assert(all.take(all.len() as int) == all);
    Some(cards)
}

/// The model list in the response body of `GET /v1/models`.
pub fn unwrap_models(wire: Option<&Json>) -> (models: Result<Vec<ModelCard>>)
    ensures
        match models {
            Ok(cards) => models_in(crate::json::optional(wire)) == Some(card_views(cards@)),
            Err(error) => models_in(crate::json::optional(wire)) is None && error.refuses(
                "Unexpected response shape from GET /v1/models; expected { models: [...] }."@,
            ),
        },
{
    let list = match wire {
        Some(wire) => wire.get("models"),
        None => None,
    };
    if let Some(Json::Array(items)) = list {
        if let Some(cards) = read_cards(items) {
            return Ok(cards);
        }
    }
    Err(
        Error::TypeSafe(
            "Unexpected response shape from GET /v1/models; expected { models: [...] }.".to_owned(),
        ),
    )
}

// ---------------------------------------------------------------------------
// Laws
// ---------------------------------------------------------------------------

proof fn lemma_cards_in(items: Seq<JsonView>)
    ensures
        cards_in(items) is Some <==> forall|i: int|
            0 <= i < items.len() ==> card_in(#[trigger] items[i]) is Some,
        cards_in(items) matches Some(cards) ==> cards.len() == items.len() && forall|i: int|
            0 <= i < items.len() ==> card_in(#[trigger] items[i]) == Some(cards[i]),
    decreases items.len(),
{
    if items.len() > 0 {
        let earlier = items.drop_last();
        lemma_cards_in(earlier);
        assert(forall|i: int| 0 <= i < earlier.len() ==> #[trigger] earlier[i] == items[i]);
        assert(items.last() == items[items.len() - 1]);
        if cards_in(earlier) is None {
            let i = choose|i: int| 0 <= i < earlier.len() && card_in(#[trigger] earlier[i]) is None;
            assert(card_in(items[i]) is None);
        } else if card_in(items.last()) is Some {
            let cards = cards_in(items)->0;
            assert forall|i: int| 0 <= i < items.len() implies card_in(#[trigger] items[i]) == Some(
                cards[i],
            ) by {
                if i < earlier.len() {
                    assert(earlier[i] == items[i]);
                }
            }
        }
    }
}

/// A model list is read whole: it has as many cards as the array `models` has items, and at each
/// position the card that the item there holds.
pub proof fn law_models_are_read_whole(body: JsonView, cards: Seq<ModelCardView>)
    requires
        models_in(Some(body)) == Some(cards),
    ensures
        crate::json::json_member(body, "models"@) matches Some(JsonView::Array(items))
            && cards.len() == items.len() && forall|i: int|
            0 <= i < items.len() ==> card_in(#[trigger] items[i]) == Some(cards[i]),
{
    lemma_cards_in(crate::json::json_member(body, "models"@)->0->Array_0);
}

/// A body gives a model list exactly if its member `models` is an array of which each item is a
/// model card.
pub proof fn law_model_lists(body: JsonView)
    ensures
        models_in(None) is None,
        models_in(Some(body)) is Some <==> (crate::json::json_member(body, "models"@) matches Some(
            JsonView::Array(items),
        ) && forall|i: int| 0 <= i < items.len() ==> card_in(#[trigger] items[i]) is Some),
{
    if let Some(JsonView::Array(items)) = crate::json::json_member(body, "models"@) {
        lemma_cards_in(items);
    }
}

/// An object is a model card exactly if its members `name`, `description` and `release_date` are
/// texts, and these are what the card says; what else is in it makes no difference.
pub proof fn law_cards_of_objects(members: Seq<(Seq<char>, JsonView)>, card: ModelCardView)
    ensures
        card_in(JsonView::Object(members)) == Some(card) <==> {
            &&& crate::json::member(members, "name"@) == Some(JsonView::String(card.name))
            &&& crate::json::member(members, "description"@) == Some(
                JsonView::String(card.description),
            )
            &&& crate::json::member(members, "release_date"@) == Some(
                JsonView::String(card.release_date),
            )
        },
{
}

/// An array is a model card exactly if it holds the three texts of the card and nothing more; no
/// other value is one.
pub proof fn law_cards_of_arrays(value: JsonView, card: ModelCardView)
    requires
        !(value is Object),
    ensures
        card_in(value) == Some(card) <==> value == JsonView::Array(
            seq![
                JsonView::String(card.name),
                JsonView::String(card.description),
                JsonView::String(card.release_date),
            ],
        ),
{
    if let JsonView::Array(items) = value {
        if items.len() == 3 {
            assert(items =~= seq![items[0], items[1], items[2]]);
        }
    }
}

/// What a list of cards says, card by card.
pub proof fn law_cards_say_what_they_hold(cards: Seq<ModelCard>, i: int)
    ensures
        card_views(cards).len() == cards.len(),
        0 <= i < cards.len() ==> {
            &&& card_views(cards)[i].name == cards[i].name@
            &&& card_views(cards)[i].description == cards[i].description@
            &&& card_views(cards)[i].release_date == cards[i].release_date@
        },
{
}

} // verus!
