//! HTTP headers: lists of named values, how they are merged, and the maps of the HTTP library.

use reqwest::header::{HeaderMap, HeaderName, HeaderValue};
use vstd::prelude::*;

use crate::errors::{Error, Result};
use crate::text::{copy_text, same_text, to_lowercase};

verus! {

// ---------------------------------------------------------------------------
// Header lists
// ---------------------------------------------------------------------------

/// A header of a list: its name and its value.
pub type HeaderText = (Seq<char>, Seq<char>);

/// A change to a list of headers: a name with the value to set, or with `None` to remove it.
pub type HeaderChange = (Seq<char>, Option<Seq<char>>);

pub open spec fn header_text(header: (String, String)) -> HeaderText {
    (header.0@, header.1@)
}

pub open spec fn header_texts(headers: Seq<(String, String)>) -> Seq<HeaderText> {
    headers.map_values(|header: (String, String)| header_text(header))
}

pub open spec fn header_change(change: (String, Option<String>)) -> HeaderChange {
    (
        change.0@,
        match change.1 {
            Some(value) => Some(value@),
            None => None,
        },
    )
}

pub open spec fn header_changes(changes: Seq<(String, Option<String>)>) -> Seq<HeaderChange> {
    changes.map_values(|change: (String, Option<String>)| header_change(change))
}

/// Each header as a change that sets it.
pub open spec fn settings(headers: Seq<HeaderText>) -> Seq<HeaderChange> {
    headers.map_values(|header: HeaderText| (header.0, Some(header.1)))
}

/// All the changes of a list of sources, in order.
pub open spec fn all_changes(sources: Seq<&[(String, Option<String>)]>) -> Seq<HeaderChange>
    decreases sources.len(),
{
    if sources.len() == 0 {
        Seq::empty()
    } else {
        all_changes(sources.drop_last()) + header_changes(sources.last()@)
    }
}

/// Whether two header names are the same but for their case.
pub open spec fn same_name(left: Seq<char>, right: Seq<char>) -> bool {
    crate::text::lowercase(left) == crate::text::lowercase(right)
}

/// `headers` without those called `name`, in whatever case.
pub open spec fn without_header(headers: Seq<HeaderText>, name: Seq<char>) -> Seq<HeaderText> {
    headers.filter(|header: HeaderText| !same_name(header.0, name))
}

/// `headers` after one change.
pub open spec fn changed(headers: Seq<HeaderText>, change: HeaderChange) -> Seq<HeaderText> {
    match change.1 {
        Some(value) => without_header(headers, change.0).push((change.0, value)),
        None => without_header(headers, change.0),
    }
}

/// The headers that a sequence of changes leaves, starting from none.
pub open spec fn merged(changes: Seq<HeaderChange>) -> Seq<HeaderText>
    decreases changes.len(),
{
    if changes.len() == 0 {
        Seq::empty()
    } else {
        changed(merged(changes.drop_last()), changes.last())
    }
}

fn change_entries(entries: &mut Vec<(String, String)>, change: &(String, Option<String>))
    ensures
        header_texts(final(entries)@) == changed(header_texts(old(entries)@), header_change(*change)),
{
    let key = to_lowercase(change.0.as_str());
    let mut kept: Vec<(String, String)> = Vec::new();
    let ghost all = header_texts(entries@);
    let ghost keep = |header: HeaderText| !same_name(header.0, change.0@);
    let mut i: usize = 0;
    assert(all.take(0).filter(keep) == Seq::<HeaderText>::empty()) by {
        reveal(Seq::filter);
    }
    while i < entries.len()
        invariant
            i <= entries.len(),
            all == header_texts(entries@),
            key@ == crate::text::lowercase(change.0@),
            keep == (|header: HeaderText| !same_name(header.0, change.0@)),
            header_texts(kept@) == all.take(i as int).filter(keep),
        decreases entries.len() - i,
    {
        let existing = to_lowercase(entries[i].0.as_str());
        proof {
            reveal(Seq::filter);
            assert(all.take(i + 1).drop_last() == all.take(i as int));
            assert(all.take(i + 1).last() == header_text(entries@[i as int]));
        }
        if !same_text(existing.as_str(), key.as_str()) {
            let ghost before = kept@;
            kept.push((entries[i].0.clone(), entries[i].1.clone()));
            assert(header_texts(kept@) == header_texts(before).push(header_text(entries@[i as int])));
        }
        i = i + 1;
    }
    assert(all.take(all.len() as int) == all);
    match &change.1 {
        Some(value) => {
            let ghost before = kept@;
            kept.push((change.0.clone(), value.clone()));
            assert(header_texts(kept@) == header_texts(before).push((change.0@, value@)));
        },
        None => {},
    }
    *entries = kept;
}

/// Merge header sources. The last value of a name wins regardless of its case; `None` removes a
/// header.
pub fn merge_headers(sources: &[&[(String, Option<String>)]]) -> (headers: Vec<(String, String)>)
    ensures
        header_texts(headers@) == merged(all_changes(sources@)),
{
    let mut entries: Vec<(String, String)> = Vec::new();
    let mut i: usize = 0;
    assert(sources@.take(0) == Seq::<&[(String, Option<String>)]>::empty());
    assert(header_texts(entries@) == Seq::<HeaderText>::empty());
    while i < sources.len()
        invariant
            i <= sources.len(),
            header_texts(entries@) == merged(all_changes(sources@.take(i as int))),
        decreases sources.len() - i,
    {
        let source = sources[i];
        let ghost earlier = all_changes(sources@.take(i as int));
        let mut j: usize = 0;
        assert(earlier + header_changes(source@.take(0)) == earlier);
        while j < source.len()
            invariant
                j <= source.len(),
                header_texts(entries@) == merged(earlier + header_changes(source@.take(j as int))),
            decreases source.len() - j,
        {
            proof {
                let next = earlier + header_changes(source@.take(j + 1));
                assert(next.drop_last() == earlier + header_changes(source@.take(j as int)));
                assert(next.last() == header_change(source@[j as int]));
            }
            change_entries(&mut entries, &source[j]);
            j = j + 1;
        }
        proof {
            assert(source@.take(source@.len() as int) == source@);
            assert(sources@.take(i + 1).drop_last() == sources@.take(i as int));
        }
        i = i + 1;
    }
    assert(sources@.take(sources@.len() as int) == sources@);
    entries
}

// ---------------------------------------------------------------------------
// Laws of merging
// ---------------------------------------------------------------------------

/// The headers called `name`, in whatever case.
pub open spec fn named(headers: Seq<HeaderText>, name: Seq<char>) -> Seq<HeaderText> {
    headers.filter(|header: HeaderText| same_name(header.0, name))
}

/// The last change to `name`, in whatever case: the header that it sets, if it sets one.
pub open spec fn last_setting(changes: Seq<HeaderChange>, name: Seq<char>) -> Option<HeaderText>
    decreases changes.len(),
{
    if changes.len() == 0 {
        None
    } else if same_name(changes.last().0, name) {
        match changes.last().1 {
            Some(value) => Some((changes.last().0, value)),
            None => None,
        }
    } else {
        last_setting(changes.drop_last(), name)
    }
}

proof fn lemma_named_without(headers: Seq<HeaderText>, name: Seq<char>, removed: Seq<char>)
    ensures
        named(without_header(headers, removed), name) == if same_name(name, removed) {
            Seq::<HeaderText>::empty()
        } else {
            named(headers, name)
        },
    decreases headers.len(),
{
    reveal(Seq::filter);
    if headers.len() > 0 {
        lemma_named_without(headers.drop_last(), name, removed);
        let kept = without_header(headers.drop_last(), removed);
        if !same_name(headers.last().0, removed) {
            assert(without_header(headers, removed) == kept.push(headers.last()));
            assert(kept.push(headers.last()).drop_last() == kept);
        }
    }
}

/// Of the headers that a sequence of changes leaves, those of one name are the header that the
/// last change to that name sets, and none other: the last value wins regardless of case, and
/// `None` removes a header.
pub proof fn law_last_change_wins(changes: Seq<HeaderChange>, name: Seq<char>)
    ensures
        named(merged(changes), name) == match last_setting(changes, name) {
            Some(header) => seq![header],
            None => Seq::<HeaderText>::empty(),
        },
    decreases changes.len(),
{
    reveal(Seq::filter);
    if changes.len() > 0 {
        let earlier = merged(changes.drop_last());
        let change = changes.last();
        law_last_change_wins(changes.drop_last(), name);
        lemma_named_without(earlier, name, change.0);
        let kept = without_header(earlier, change.0);
        if change.1 is Some {
            assert(kept.push((change.0, change.1->0)).drop_last() == kept);
        }
    }
}

/// No two headers of a merged list have the same name, in whatever case.
pub proof fn law_merged_names_differ(changes: Seq<HeaderChange>, i: int, j: int)
    requires
        0 <= i < j < merged(changes).len(),
    ensures
        !same_name(merged(changes)[i].0, merged(changes)[j].0),
{
    let headers = merged(changes);
    let name = headers[i].0;
    if same_name(name, headers[j].0) {
        law_last_change_wins(changes, name);
        lemma_two_named(headers, name, i, j);
    }
}

proof fn lemma_two_named(headers: Seq<HeaderText>, name: Seq<char>, i: int, j: int)
    requires
        0 <= i < j < headers.len(),
        same_name(headers[i].0, name),
        same_name(headers[j].0, name),
    ensures
        named(headers, name).len() >= 2,
    decreases headers.len(),
{
    reveal(Seq::filter);
    if j < headers.len() - 1 {
        lemma_two_named(headers.drop_last(), name, i, j);
    } else {
        lemma_one_named(headers.drop_last(), name, i);
    }
}

proof fn lemma_one_named(headers: Seq<HeaderText>, name: Seq<char>, i: int)
    requires
        0 <= i < headers.len(),
        same_name(headers[i].0, name),
    ensures
        named(headers, name).len() >= 1,
    decreases headers.len(),
{
    reveal(Seq::filter);
    if i < headers.len() - 1 {
        lemma_one_named(headers.drop_last(), name, i);
    }
}

/// The last change to a name in the later of two lists decides.
pub proof fn lemma_last_setting_in_suffix(
    first: Seq<HeaderChange>,
    second: Seq<HeaderChange>,
    name: Seq<char>,
    i: int,
)
    requires
        0 <= i < second.len(),
        same_name(second[i].0, name),
        forall|j: int| i < j < second.len() ==> !same_name((#[trigger] second[j]).0, name),
    ensures
        last_setting(first + second, name) == match second[i].1 {
            Some(value) => Some((second[i].0, value)),
            None => None,
        },
    decreases second.len(),
{
    let all = first + second;
    assert(all.last() == second.last());
    if i < second.len() - 1 {
        assert(!same_name(second[second.len() - 1].0, name));
        assert(all.drop_last() == first + second.drop_last());
        lemma_last_setting_in_suffix(first, second.drop_last(), name, i);
    }
}

/// Where the later of two lists does not change a name, the earlier one decides.
pub proof fn lemma_last_setting_in_prefix(
    first: Seq<HeaderChange>,
    second: Seq<HeaderChange>,
    name: Seq<char>,
)
    requires
        forall|j: int| 0 <= j < second.len() ==> !same_name((#[trigger] second[j]).0, name),
    ensures
        last_setting(first + second, name) == last_setting(first, name),
    decreases second.len(),
{
    let all = first + second;
    if second.len() == 0 {
        assert(all == first);
    } else {
        assert(all.last() == second.last());
        assert(!same_name(second[second.len() - 1].0, name));
        assert(all.drop_last() == first + second.drop_last());
        lemma_last_setting_in_prefix(first, second.drop_last(), name);
    }
}

/// Setting the headers of a list again sets the last of each name.
pub proof fn lemma_last_of_settings(headers: Seq<HeaderText>, name: Seq<char>)
    ensures
        last_setting(settings(headers), name) == if named(headers, name).len() == 0 {
            None
        } else {
            Some(named(headers, name).last())
        },
    decreases headers.len(),
{
    reveal(Seq::filter);
    if headers.len() > 0 {
        assert(settings(headers).drop_last() == settings(headers.drop_last()));
        assert(settings(headers).last() == (headers.last().0, Some(headers.last().1)));
        lemma_last_of_settings(headers.drop_last(), name);
    }
}

// ---------------------------------------------------------------------------
// Copies
// ---------------------------------------------------------------------------

pub(crate) fn copy_headers(headers: &Vec<(String, String)>) -> (copies: Vec<(String, String)>)
    ensures
        header_texts(copies@) == header_texts(headers@),
{
    let mut copies: Vec<(String, String)> = Vec::new();
    let mut i: usize = 0;
    while i < headers.len()
        invariant
            i <= headers.len(),
            copies.len() == i,
            forall|j: int|
                0 <= j < i ==> header_text(#[trigger] copies@[j]) == header_text(headers@[j]),
        decreases headers.len() - i,
    {
        copies.push((headers[i].0.clone(), headers[i].1.clone()));
        i = i + 1;
    }
    assert(header_texts(copies@) == header_texts(headers@));
    copies
}

pub(crate) fn copy_changes(changes: &Vec<(String, Option<String>)>) -> (copies: Vec<
    (String, Option<String>),
>)
    ensures
        header_changes(copies@) == header_changes(changes@),
{
    let mut copies: Vec<(String, Option<String>)> = Vec::new();
    let mut i: usize = 0;
    while i < changes.len()
        invariant
            i <= changes.len(),
            copies.len() == i,
            forall|j: int|
                0 <= j < i ==> header_change(#[trigger] copies@[j]) == header_change(changes@[j]),
        decreases changes.len() - i,
    {
        copies.push((changes[i].0.clone(), copy_text(&changes[i].1)));
        i = i + 1;
    }
    assert(header_changes(copies@) == header_changes(changes@));
    copies
}

// ---------------------------------------------------------------------------
// Header maps
// ---------------------------------------------------------------------------

#[verifier::external_type_specification]
#[verifier::external_body]
#[verifier::reject_recursive_types(T)]
pub struct ExHeaderMap<T>(reqwest::header::HeaderMap<T>);

#[verifier::external_type_specification]
#[verifier::external_body]
pub struct ExHeaderValue(reqwest::header::HeaderValue);

#[verifier::external_type_specification]
#[verifier::external_body]
pub struct ExHeaderName(reqwest::header::HeaderName);

/// The names of a header map, in lower case, each with all its values, in order.
pub uninterp spec fn header_values(headers: HeaderMap) -> Map<Seq<char>, Seq<Seq<u8>>>;

/// The bytes of a header value.
pub uninterp spec fn header_value_bytes(value: HeaderValue) -> Seq<u8>;

/// The text of a header name, which is in lower case.
pub uninterp spec fn header_name_text(name: HeaderName) -> Seq<char>;

/// The characters of a header name: the token characters of HTTP.
pub open spec fn is_token_char(c: char) -> bool {
    ||| 'a' <= c <= 'z'
    ||| 'A' <= c <= 'Z'
    ||| '0' <= c <= '9'
    ||| c == '!' || c == '#' || c == '$' || c == '%' || c == '&'
    ||| c == '\'' || c == '*' || c == '+' || c == '-' || c == '.'
    ||| c == '^' || c == '_' || c == '`' || c == '|' || c == '~'
}

/// Whether a text is a header name.
pub open spec fn is_header_name(name: Seq<char>) -> bool {
    &&& 0 < name.len() <= 65535
    &&& forall|i: int| 0 <= i < name.len() ==> is_token_char(#[trigger] name[i])
}

/// Whether a text can be the value of a header: no control characters but the tab.
pub open spec fn is_header_value(value: Seq<char>) -> bool {
    forall|i: int|
        0 <= i < value.len() ==> (#[trigger] value[i] >= ' ' && value[i] != '\u{7f}') || value[i]
            == '\t'
}

/// The bytes of a header value that can be read as text.
pub open spec fn is_visible(byte: u8) -> bool {
    32 <= byte < 127 || byte == 9
}

/// A header value as text, if all its bytes are visible ASCII.
pub open spec fn visible_text(bytes: Seq<u8>) -> Option<Seq<char>> {
    if forall|i: int| 0 <= i < bytes.len() ==> is_visible(#[trigger] bytes[i]) {
        Some(bytes.map_values(|byte: u8| byte as char))
    } else {
        None
    }
}

/// The first value of the header `name` as text.
pub open spec fn text_in(headers: HeaderMap, name: Seq<char>) -> Option<Seq<char>> {
    let key = crate::text::ascii_lowercase(name);
    if header_values(headers).contains_key(key) {
        visible_text(header_values(headers)[key].first())
    } else {
        None
    }
}

/// `HeaderMap::new`: a map without headers.
#[verifier::external_body]
pub(crate) fn header_map_new() -> (headers: HeaderMap)
    ensures
        header_values(headers).dom() == Set::<Seq<char>>::empty(),
{
    HeaderMap::new()
}

/// `Clone` of `HeaderMap`: a map with the same names and values.
#[verifier::external_body]
pub(crate) fn header_map_clone(headers: &HeaderMap) -> (copy: HeaderMap)
    ensures
        header_values(copy) == header_values(*headers),
{
    headers.clone()
}

/// `HeaderMap::get` with a text: the first value of that name, whose case does not matter.
#[verifier::external_body]
fn header_map_get<'a>(headers: &'a HeaderMap, name: &str) -> (value: Option<&'a HeaderValue>)
    ensures
        match value {
            Some(v) => {
                let key = crate::text::ascii_lowercase(name@);
                &&& header_values(*headers).contains_key(key)
                &&& header_values(*headers)[key].len() > 0
                &&& header_values(*headers)[key].first() == header_value_bytes(*v)
            },
            None => !header_values(*headers).contains_key(crate::text::ascii_lowercase(name@)),
        },
{
    headers.get(name)
}

/// `HeaderMap::try_insert`, after which the value is the only one of the name. It fails, and then changes
/// nothing, only where the map has to grow past its largest size: not with up to 6553 names.
#[verifier::external_body]
pub(crate) fn header_map_insert(headers: &mut HeaderMap, name: HeaderName, value: HeaderValue) -> (done:
    bool)
    ensures
        done ==> header_values(*final(headers)) == header_values(*old(headers)).insert(
            header_name_text(name),
            seq![header_value_bytes(value)],
        ),
        !done ==> header_values(*final(headers)) == header_values(*old(headers)),
        header_values(*old(headers)).dom().finite() && header_values(
            *old(headers),
        ).dom().len() <= 6553 ==> done,
{
    headers.try_insert(name, value).is_ok()
}

/// `HeaderName::from_bytes`: a name of token characters, at most 65535 of them, in lower case.
#[verifier::external_body]
pub(crate) fn header_name_from_text(text: &str) -> (name: Option<HeaderName>)
    ensures
        match name {
            Some(n) => is_header_name(text@) && header_name_text(n) == crate::text::ascii_lowercase(
                text@,
            ),
            None => !is_header_name(text@),
        },
{
    HeaderName::from_bytes(text.as_bytes()).ok()
}

/// `HeaderName::as_str`: the text of the name.
#[verifier::external_body]
pub(crate) fn header_name_as_str(name: &HeaderName) -> (text: &str)
    ensures
        text@ == header_name_text(*name),
{
    name.as_str()
}

/// `HeaderValue::from_str`: the UTF-8 bytes of a text without control characters but the tab.
#[verifier::external_body]
pub(crate) fn header_value_from_text(text: &str) -> (value: Option<HeaderValue>)
    ensures
        match value {
            Some(v) => is_header_value(text@) && header_value_bytes(v) == vstd::utf8::encode_utf8(
                text@,
            ),
            None => !is_header_value(text@),
        },
{
    HeaderValue::from_str(text).ok()
}

/// `HeaderValue::to_str`: the text of a value whose bytes are all visible ASCII.
#[verifier::external_body]
fn header_value_to_str(value: &HeaderValue) -> (text: Option<&str>)
    ensures
        match text {
            Some(t) => visible_text(header_value_bytes(*value)) == Some(t@),
            None => visible_text(header_value_bytes(*value)) is None,
        },
{
    value.to_str().ok()
}

/// The first value of the header `name` as text; `None` if there is none, or if it is not
/// visible ASCII.
pub fn header_text_in<'a>(headers: &'a HeaderMap, name: &str) -> (text: Option<&'a str>)
    ensures
        match text {
            Some(t) => text_in(*headers, name@) == Some(t@),
            None => text_in(*headers, name@) is None,
        },
{
    match header_map_get(headers, name) {
        Some(value) => header_value_to_str(value),
        None => None,
    }
}

// ---------------------------------------------------------------------------
// From lists to maps
// ---------------------------------------------------------------------------

/// How many headers a map has room for in any case.
pub const CERTAIN_ROOM: usize = 6553;

/// The message for a list of headers that a map has no room for.
pub const NO_ROOM: &'static str = "There are too many headers.";

/// What is wrong with a header: its name, or else its value.
pub open spec fn wrong_header(header: HeaderText) -> Option<Seq<char>> {
    if !is_header_name(header.0) {
        Some("The header name `"@ + header.0 + "` is not valid."@)
    } else if !is_header_value(header.1) {
        Some(
            "The value of the header `"@ + crate::text::ascii_lowercase(header.0)
                + "` is not valid."@,
        )
    } else {
        None
    }
}

/// The map of a list of headers, or the message that refuses the first that is not valid.
pub open spec fn header_map_of(headers: Seq<HeaderText>) -> std::result::Result<
    Map<Seq<char>, Seq<Seq<u8>>>,
    Seq<char>,
>
    decreases headers.len(),
{
    if headers.len() == 0 {
        Ok(Map::empty())
    } else {
        match header_map_of(headers.drop_last()) {
            Err(message) => Err(message),
            Ok(map) => match wrong_header(headers.last()) {
                Some(message) => Err(message),
                None => Ok(
                    map.insert(
                        crate::text::ascii_lowercase(headers.last().0),
                        seq![vstd::utf8::encode_utf8(headers.last().1)],
                    ),
                ),
            },
        }
    }
}

proof fn lemma_first_refusal_stays(headers: Seq<HeaderText>, n: int)
    requires
        0 <= n <= headers.len(),
        header_map_of(headers.take(n)) is Err,
    ensures
        header_map_of(headers) == header_map_of(headers.take(n)),
    decreases headers.len(),
{
    if n == headers.len() {
        assert(headers.take(n) == headers);
    } else {
        assert(headers.drop_last().take(n) == headers.take(n));
        lemma_first_refusal_stays(headers.drop_last(), n);
    }
}

/// Put a list of headers into a map.
pub fn build_header_map(headers: &Vec<(String, String)>) -> (map: Result<HeaderMap>)
    ensures
        match map {
            Ok(m) => header_map_of(header_texts(headers@)) == Ok::<
                Map<Seq<char>, Seq<Seq<u8>>>,
                Seq<char>,
            >(header_values(m)),
            Err(error) => {
                ||| header_map_of(header_texts(headers@)) matches Err(message) && error.refuses(message)
                ||| headers.len() > CERTAIN_ROOM && error.refuses(NO_ROOM@)
            },
        },
{
    let ghost all = header_texts(headers@);
    let mut map = header_map_new();
    let mut i: usize = 0;
    assert(header_values(map) == Map::<Seq<char>, Seq<Seq<u8>>>::empty());
    while i < headers.len()
        invariant
            i <= headers.len(),
            all == header_texts(headers@),
            header_map_of(all.take(i as int)) == Ok::<Map<Seq<char>, Seq<Seq<u8>>>, Seq<char>>(
                header_values(map),
            ),
            header_values(map).dom().finite(),
            header_values(map).dom().len() <= i,
        decreases headers.len() - i,
    {
        let (name, value) = &headers[i];
        proof {
            assert(all.take(i + 1).drop_last() == all.take(i as int));
            assert(all.take(i + 1).last() == (name@, value@));
        }
        let key = match header_name_from_text(name.as_str()) {
            Some(key) => key,
            None => {
                let mut text = "The header name `".to_owned();
                text.append(name.as_str());
                text.append("` is not valid.");
                proof {
                    lemma_first_refusal_stays(all, i + 1);
                }
                return Err(Error::TypeSafe(text));
            },
        };
        let content = match header_value_from_text(value.as_str()) {
            Some(content) => content,
            None => {
                let mut text = "The value of the header `".to_owned();
                text.append(header_name_as_str(&key));
                text.append("` is not valid.");
                proof {
                    lemma_first_refusal_stays(all, i + 1);
                }
                return Err(Error::TypeSafe(text));
            },
        };
        if !header_map_insert(&mut map, key, content) {
            return Err(Error::TypeSafe(NO_ROOM.to_owned()));
        }
        i = i + 1;
    }
    assert(all.take(all.len() as int) == all);
    Ok(map)
}

proof fn lemma_header_names_are_ascii(name: Seq<char>)
    requires
        is_header_name(name),
    ensures
        vstd::utf8::is_ascii_chars(name),
{
    assert forall|i: int| 0 <= i < name.len() implies '\0' <= #[trigger] name[i] <= '\u{7f}' by {
        assert(is_token_char(name[i]));
    }
}

/// The map of a list has a name exactly if the list has it, in whatever case, and then with one
/// value, the last of those that the list has for it.
pub proof fn law_map_has_the_last_of_each_name(headers: Seq<HeaderText>, name: Seq<char>)
    requires
        header_map_of(headers) is Ok,
        vstd::utf8::is_ascii_chars(name),
    ensures
        ({
            let map = header_map_of(headers)->Ok_0;
            let key = crate::text::ascii_lowercase(name);
            &&& map.contains_key(key) <==> named(headers, name).len() > 0
            &&& named(headers, name).len() > 0 ==> map[key] == seq![
                vstd::utf8::encode_utf8(named(headers, name).last().1),
            ]
        }),
    decreases headers.len(),
{
    reveal(Seq::filter);
    if headers.len() > 0 {
        law_map_has_the_last_of_each_name(headers.drop_last(), name);
        lemma_header_names_are_ascii(headers.last().0);
    }
}

/// A list of headers makes a map exactly if each of them is valid.
pub proof fn law_valid_headers_make_a_map(headers: Seq<HeaderText>)
    ensures
        header_map_of(headers) is Ok <==> forall|i: int|
            0 <= i < headers.len() ==> is_header_name((#[trigger] headers[i]).0) && is_header_value(
                headers[i].1,
            ),
    decreases headers.len(),
{
    if headers.len() > 0 {
        let earlier = headers.drop_last();
        law_valid_headers_make_a_map(earlier);
        assert(forall|i: int| 0 <= i < earlier.len() ==> #[trigger] earlier[i] == headers[i]);
        assert(headers[headers.len() - 1] == headers.last());
        if header_map_of(earlier) is Err {
            let i = choose|i: int|
                0 <= i < earlier.len() && !(is_header_name((#[trigger] earlier[i]).0)
                    && is_header_value(earlier[i].1));
            assert(earlier[i] == headers[i]);
        }
        if header_map_of(headers) is Ok {
            assert forall|i: int| 0 <= i < headers.len() implies is_header_name(
                (#[trigger] headers[i]).0,
            ) && is_header_value(headers[i].1) by {
                if i < earlier.len() {
                    assert(earlier[i] == headers[i]);
                }
            }
        }
    }
}

/// The first header of a list that is not valid is refused, by its name or else by its value.
pub proof fn law_first_wrong_header_is_refused(headers: Seq<HeaderText>, n: int)
    requires
        0 <= n < headers.len(),
        forall|i: int|
            0 <= i < n ==> is_header_name((#[trigger] headers[i]).0) && is_header_value(headers[i].1),
        !is_header_name(headers[n].0) || !is_header_value(headers[n].1),
    ensures
        !is_header_name(headers[n].0) ==> header_map_of(headers) == Err::<
            Map<Seq<char>, Seq<Seq<u8>>>,
            Seq<char>,
        >("The header name `"@ + headers[n].0 + "` is not valid."@),
        is_header_name(headers[n].0) ==> header_map_of(headers) == Err::<
            Map<Seq<char>, Seq<Seq<u8>>>,
            Seq<char>,
        >(
            "The value of the header `"@ + crate::text::ascii_lowercase(headers[n].0)
                + "` is not valid."@,
        ),
{
    let valid = headers.take(n);
    assert(forall|i: int| 0 <= i < n ==> #[trigger] valid[i] == headers[i]);
    law_valid_headers_make_a_map(valid);
    let upto = headers.take(n + 1);
    assert(upto.drop_last() == valid);
    assert(upto.last() == headers[n]);
    lemma_first_refusal_stays(headers, n + 1);
}

/// The text of a header is that of the first of its values, if all its bytes are visible ASCII;
/// the case of the name makes no difference.
pub proof fn law_header_text(headers: HeaderMap, name: Seq<char>)
    ensures
        ({
            let values = header_values(headers);
            let key = crate::text::ascii_lowercase(name);
            &&& text_in(headers, name) is Some <==> values.contains_key(key) && forall|i: int|
                0 <= i < values[key][0].len() ==> {
                    let byte = #[trigger] values[key][0][i];
                    32 <= byte < 127 || byte == 9
                }
            &&& text_in(headers, name) matches Some(text) ==> text.len() == values[key][0].len()
                && forall|i: int|
                0 <= i < text.len() ==> (#[trigger] text[i]) as int == values[key][0][i]
        }),
{
    let key = crate::text::ascii_lowercase(name);
    let bytes = header_values(headers)[key][0];
    if forall|i: int|
        0 <= i < bytes.len() ==> {
            let byte = #[trigger] bytes[i];
            32 <= byte < 127 || byte == 9
        } {
        assert forall|i: int| 0 <= i < bytes.len() implies is_visible(#[trigger] bytes[i]) by {}
    }
    if visible_text(bytes) is Some {
        assert forall|i: int| 0 <= i < bytes.len() implies {
            let byte = #[trigger] bytes[i];
            32 <= byte < 127 || byte == 9
        } by {
            assert(is_visible(bytes[i]));
        }
    }
}

/// What lists of headers and of changes say, item by item.
pub proof fn law_lists_say_what_they_hold(
    headers: Seq<(String, String)>,
    changes: Seq<(String, Option<String>)>,
    i: int,
)
    ensures
        header_texts(headers).len() == headers.len(),
        0 <= i < headers.len() ==> header_texts(headers)[i] == (headers[i].0@, headers[i].1@),
        header_changes(changes).len() == changes.len(),
        0 <= i < changes.len() ==> header_changes(changes)[i].0 == changes[i].0@ && match changes[i].1 {
            Some(value) => header_changes(changes)[i].1 == Some(value@),
            None => header_changes(changes)[i].1 is None,
        },
{
}

/// A header that no later change of that name follows is in the merged list as it was set; one that
/// a later change removes or replaces is not.
pub proof fn law_settings_stay_until_changed(changes: Seq<HeaderChange>, i: int)
    requires
        0 <= i < changes.len(),
        forall|j: int| i < j < changes.len() ==> !same_name((#[trigger] changes[j]).0, changes[i].0),
    ensures
        named(merged(changes), changes[i].0) == match changes[i].1 {
            Some(value) => seq![(changes[i].0, value)],
            None => Seq::<HeaderText>::empty(),
        },
{
    law_last_change_wins(changes, changes[i].0);
    lemma_last_setting_in_suffix(Seq::empty(), changes, changes[i].0, i);
    assert(Seq::<HeaderChange>::empty() + changes =~= changes);
}

/// Names that differ in the case of ASCII letters alone are the same, and no others of ASCII are.
pub proof fn law_names_are_told_by_letters(left: Seq<char>, right: Seq<char>)
    requires
        vstd::utf8::is_ascii_chars(left),
        vstd::utf8::is_ascii_chars(right),
    ensures
        same_name(left, right) <==> left.len() == right.len() && forall|i: int|
            0 <= i < left.len() ==> {
                ||| #[trigger] left[i] == right[i]
                ||| 'A' <= left[i] <= 'Z' && right[i] as int == left[i] as int + 32
                ||| 'A' <= right[i] <= 'Z' && left[i] as int == right[i] as int + 32
            },
{
    let a = crate::text::ascii_lowercase(left);
    let b = crate::text::ascii_lowercase(right);
    if left.len() == right.len() && forall|i: int|
        0 <= i < left.len() ==> {
            ||| #[trigger] left[i] == right[i]
            ||| 'A' <= left[i] <= 'Z' && right[i] as int == left[i] as int + 32
            ||| 'A' <= right[i] <= 'Z' && left[i] as int == right[i] as int + 32
        } {
        assert forall|i: int| 0 <= i < a.len() implies #[trigger] a[i] == b[i] by {
            assert(left[i] == left[i]);
        }
        assert(a =~= b);
    }
    if a == b {
        assert(a.len() == left.len() && b.len() == right.len());
        assert forall|i: int| 0 <= i < left.len() implies {
            ||| #[trigger] left[i] == right[i]
            ||| 'A' <= left[i] <= 'Z' && right[i] as int == left[i] as int + 32
            ||| 'A' <= right[i] <= 'Z' && left[i] as int == right[i] as int + 32
        } by {
            assert(a[i] == b[i]);
            assert(a[i] as int == if 'A' <= left[i] <= 'Z' {
                left[i] as int + 32
            } else {
                left[i] as int
            });
            assert(b[i] as int == if 'A' <= right[i] <= 'Z' {
                right[i] as int + 32
            } else {
                right[i] as int
            });
            if 'A' <= left[i] <= 'Z' && 'A' <= right[i] <= 'Z' {
                assert(left[i] as int == right[i] as int);
            }
        }
    }
}

/// The changes of a list of sources are those of each source, in order: a further source adds its
/// changes at the end.
pub proof fn law_sources_come_in_order(
    sources: Seq<&[(String, Option<String>)]>,
    source: &[(String, Option<String>)],
)
    ensures
        all_changes(Seq::empty()) == Seq::<HeaderChange>::empty(),
        all_changes(sources.push(source)) == all_changes(sources) + header_changes(source@),
{
    assert(sources.push(source).drop_last() =~= sources);
}

/// The characters of a header name are the visible ones of ASCII but for the delimiters of HTTP.
pub proof fn law_token_characters(c: char)
    ensures
        is_token_char(c) <==> {
            &&& '!' <= c <= '~'
            &&& !(seq![
                '"',
                '(',
                ')',
                ',',
                '/',
                ':',
                ';',
                '<',
                '=',
                '>',
                '?',
                '@',
                '[',
                '\\',
                ']',
                '{',
                '}',
            ].contains(c))
        },
{
    let delimiters = seq![
        '"',
        '(',
        ')',
        ',',
        '/',
        ':',
        ';',
        '<',
        '=',
        '>',
        '?',
        '@',
        '[',
        '\\',
        ']',
        '{',
        '}',
    ];
    assert(delimiters[0] == '"' && delimiters[1] == '(' && delimiters[2] == ')');
    assert(delimiters[3] == ',' && delimiters[4] == '/' && delimiters[5] == ':');
    assert(delimiters[6] == ';' && delimiters[7] == '<' && delimiters[8] == '=');
    assert(delimiters[9] == '>' && delimiters[10] == '?' && delimiters[11] == '@');
    assert(delimiters[12] == '[' && delimiters[13] == '\\' && delimiters[14] == ']');
    assert(delimiters[15] == '{' && delimiters[16] == '}');
    assert(delimiters.len() == 17);
}

/// A text can be the value of a header exactly if none of its characters is a control character
/// other than the tab.
pub proof fn law_header_values(value: Seq<char>)
    ensures
        is_header_value(value) <==> !(exists|i: int|
            0 <= i < value.len() && ((#[trigger] value[i] as int) < 32 && value[i] as int != 9
                || value[i] as int == 127)),
{
    if is_header_value(value) {
        assert forall|i: int| 0 <= i < value.len() implies !(((#[trigger] value[i]) as int) < 32
            && value[i] as int != 9 || value[i] as int == 127) by {}
    } else {
        let i = choose|i: int|
            0 <= i < value.len() && !((#[trigger] value[i] >= ' ' && value[i] != '\u{7f}')
                || value[i] == '\t');
        assert((value[i] as int) < 32 && value[i] as int != 9 || value[i] as int == 127);
    }
}

} // verus!
