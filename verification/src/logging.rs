//! Log levels, log entries and the filter on them, and the redaction of credentials.

use vstd::prelude::*;

use crate::errors::{Error, Result};
use crate::json::{Json, JsonView};
use crate::text::{has_char, same_text, split_first_word, to_lowercase};

verus! {

// ---------------------------------------------------------------------------
// Levels
// ---------------------------------------------------------------------------

/// Log verbosity; `Off` disables logging.
#[derive(Debug, Clone, Copy, PartialEq, Eq, PartialOrd, Ord, Structural)]
pub enum LogLevel {
    Debug,
    Info,
    Warn,
    Error,
    Off,
}

/// Supported log levels, from most to least verbose.
pub const LOG_LEVELS: [LogLevel; 5] = [
    LogLevel::Debug,
    LogLevel::Info,
    LogLevel::Warn,
    LogLevel::Error,
    LogLevel::Off,
];

pub const DEFAULT_LOG_LEVEL: LogLevel = LogLevel::Warn;

impl LogLevel {
    /// The name of the level.
    pub open spec fn name(self) -> Seq<char> {
        match self {
            LogLevel::Debug => "debug"@,
            LogLevel::Info => "info"@,
            LogLevel::Warn => "warn"@,
            LogLevel::Error => "error"@,
            LogLevel::Off => "off"@,
        }
    }

    /// The position of the level, from most to least verbose.
    pub open spec fn rank(self) -> int {
        match self {
            LogLevel::Debug => 0,
            LogLevel::Info => 1,
            LogLevel::Warn => 2,
            LogLevel::Error => 3,
            LogLevel::Off => 4,
        }
    }

    /// The name of the level.
    pub fn as_str(self) -> (text: &'static str)
        ensures
            text@ == self.name(),
    {
        match self {
            LogLevel::Debug => "debug",
            LogLevel::Info => "info",
            LogLevel::Warn => "warn",
            LogLevel::Error => "error",
            LogLevel::Off => "off",
        }
    }

    fn position(self) -> (position: u8)
        ensures
            position == self.rank(),
    {
        match self {
            LogLevel::Debug => 0,
            LogLevel::Info => 1,
            LogLevel::Warn => 2,
            LogLevel::Error => 3,
            LogLevel::Off => 4,
        }
    }
}

/// The level of a name.
pub open spec fn level_named(name: Seq<char>) -> Option<LogLevel> {
    if name == LogLevel::Debug.name() {
        Some(LogLevel::Debug)
    } else if name == LogLevel::Info.name() {
        Some(LogLevel::Info)
    } else if name == LogLevel::Warn.name() {
        Some(LogLevel::Warn)
    } else if name == LogLevel::Error.name() {
        Some(LogLevel::Error)
    } else if name == LogLevel::Off.name() {
        Some(LogLevel::Off)
    } else {
        None
    }
}

/// The message that refuses a log level.
pub open spec fn invalid_level(value: Seq<char>, source: Seq<char>) -> Seq<char> {
    "Invalid log level \""@ + value + "\" from "@ + source
        + ". Expected one of: debug, info, warn, error, off."@
}

/// Validate a configured log level, returning `Error::TypeSafe` for unknown values.
pub fn parse_log_level(value: &str, source: &str) -> (level: Result<LogLevel>)
    ensures
        match level {
            Ok(l) => level_named(value@) == Some(l),
            Err(error) => level_named(value@) is None && error.refuses(
                invalid_level(value@, source@),
            ),
        },
{
    let mut i: usize = 0;
    while i < 5
        invariant
            i <= 5,
            forall|j: int| 0 <= j < i ==> (#[trigger] LOG_LEVELS@[j]).name() != value@,
        decreases 5 - i,
    {
        let level = LOG_LEVELS[i];
        if same_text(level.as_str(), value) {
            proof {
                assert(i > 0 ==> LOG_LEVELS@[0].name() != value@);
                assert(i > 1 ==> LOG_LEVELS@[1].name() != value@);
                assert(i > 2 ==> LOG_LEVELS@[2].name() != value@);
                assert(i > 3 ==> LOG_LEVELS@[3].name() != value@);
            }
            return Ok(level);
        }
        i = i + 1;
    }
    proof {
        assert(LOG_LEVELS@[0].name() != value@);
        assert(LOG_LEVELS@[1].name() != value@);
        assert(LOG_LEVELS@[2].name() != value@);
        assert(LOG_LEVELS@[3].name() != value@);
        assert(LOG_LEVELS@[4].name() != value@);
    }
    let mut text = "Invalid log level \"".to_owned();
    text.append(value);
    text.append("\" from ");
    text.append(source);
    text.append(". Expected one of: debug, info, warn, error, off.");
    Err(Error::TypeSafe(text))
}

/// Each level is the one of its name.
pub proof fn law_level_of_its_name(level: LogLevel)
    ensures
        level_named(level.name()) == Some(level),
{
    reveal_strlit("debug");
    reveal_strlit("info");
    reveal_strlit("warn");
    reveal_strlit("error");
    reveal_strlit("off");
    assert(LogLevel::Debug.name()[0] == 'd');
    assert(LogLevel::Info.name()[0] == 'i');
    assert(LogLevel::Warn.name()[0] == 'w');
    assert(LogLevel::Error.name()[0] == 'e');
    assert(LogLevel::Off.name()[0] == 'o');
}

// ---------------------------------------------------------------------------
// Entries
// ---------------------------------------------------------------------------

/// A call of a logger: its level, a message and a structured value.
#[derive(Debug, PartialEq)]
pub struct LogEntry {
    pub level: LogLevel,
    pub message: String,
    pub data: Option<Json>,
}

/// What a log entry says.
pub struct LogEntryView {
    pub level: LogLevel,
    pub message: Seq<char>,
    pub data: Option<JsonView>,
}

impl View for LogEntry {
    type V = LogEntryView;

    open spec fn view(&self) -> LogEntryView {
        LogEntryView {
            level: self.level,
            message: self.message@,
            data: crate::errors::body_view(self.data),
        }
    }
}

pub open spec fn entry_views(entries: Seq<LogEntry>) -> Seq<LogEntryView> {
    entries.map_values(|entry: LogEntry| entry@)
}

/// The prefix of what the default logger writes.
pub const PREFIX: &'static str = "[typesafe-sdk]";

/// Default logger. It writes to standard error with the `[typesafe-sdk]` prefix.
pub struct ConsoleLogger;

impl ConsoleLogger {
    /// The line that the logger writes for a call.
    pub fn line(level: LogLevel, message: &str, data: Option<&Json>) -> (line: String)
        ensures
            line@ == PREFIX@ + " "@ + level.name() + ": "@ + message@ + match data {
                Some(value) => " "@ + crate::json::json_text(value@),
                None => Seq::<char>::empty(),
            },
    {
        let mut text = PREFIX.to_owned();
        text.append(" ");
        text.append(level.as_str());
        text.append(": ");
        text.append(message);
        match data {
            Some(value) => {
                let ghost head = text@;
                text.append(" ");
                text.append(value.to_string().as_str());
                assert(head + " "@ + crate::json::json_text(value@) == head + (" "@
                    + crate::json::json_text(value@)));
            },
            None => {
                assert(text@ + Seq::<char>::empty() == text@);
            },
        }
        text
    }
}

/// A logger that filters the calls to the configured level and above.
#[derive(Debug, Clone, Copy)]
pub struct LeveledLogger {
    pub level: LogLevel,
}

/// Filter logger calls to the configured level and above.
pub fn with_level(level: LogLevel) -> (logger: LeveledLogger)
    ensures
        logger.level == level,
{
    LeveledLogger { level }
}

/// The entries that a logger of a level lets through, in order.
pub open spec fn kept(entries: Seq<LogEntryView>, level: LogLevel) -> Seq<LogEntryView> {
    entries.filter(|entry: LogEntryView| entry.level.rank() >= level.rank())
}

impl LeveledLogger {
    /// `true` when a call at `at` goes through. Use it to skip the work of building the data.
    pub fn enabled(&self, at: LogLevel) -> (enabled: bool)
        ensures
            enabled == (at.rank() >= self.level.rank()),
    {
        at.position() >= self.level.position()
    }

    /// The entries that go through, in order.
    pub fn filter(&self, entries: Vec<LogEntry>) -> (through: Vec<LogEntry>)
        ensures
            entry_views(through@) == kept(entry_views(entries@), self.level),
    {
        let ghost given = entries@;
        let ghost all = entry_views(entries@);
        let ghost keep = |entry: LogEntryView| entry.level.rank() >= self.level.rank();
        let mut through: Vec<LogEntry> = Vec::new();
        proof {
            reveal(Seq::filter);
            assert(all.take(0).filter(keep) == entry_views(through@));
        }
        for entry in it: entries
            invariant
                it.seq() == given,
                all == entry_views(given),
                keep == (|entry: LogEntryView| entry.level.rank() >= self.level.rank()),
                entry_views(through@) == all.take(it.index()).filter(keep),
        {
            let ghost done = it.index();
            proof {
                reveal(Seq::filter);
                assert(all.take(done + 1).drop_last() == all.take(done));
                assert(all.take(done + 1).last() == entry@);
            }
            if self.enabled(entry.level) {
                let ghost earlier = through@;
                through.push(entry);
                assert(entry_views(through@) == entry_views(earlier).push(entry@));
            }
        }
        assert(all.take(given.len() as int) == all);
        through
    }
}

pub proof fn lemma_kept_one(entry: LogEntryView, level: LogLevel)
    ensures
        kept(seq![entry], level) == if entry.level.rank() >= level.rank() {
            seq![entry]
        } else {
            Seq::empty()
        },
{
    reveal_with_fuel(Seq::filter, 2);
    assert(seq![entry].drop_last() == Seq::<LogEntryView>::empty());
}

/// A logger lets nothing through that is all below its level.
pub proof fn lemma_kept_none(entries: Seq<LogEntryView>, level: LogLevel)
    requires
        forall|i: int|
            0 <= i < entries.len() ==> (#[trigger] entries[i]).level.rank() < level.rank(),
    ensures
        kept(entries, level) == Seq::<LogEntryView>::empty(),
    decreases entries.len(),
{
    reveal(Seq::filter);
    if entries.len() > 0 {
        let earlier = entries.drop_last();
        assert forall|i: int| 0 <= i < earlier.len() implies (#[trigger] earlier[i]).level.rank()
            < level.rank() by {
            assert(earlier[i] == entries[i]);
        }
        lemma_kept_none(earlier, level);
        assert(entries[entries.len() - 1].level.rank() < level.rank());
    }
}

/// A logger that is off lets nothing through but what is itself at that level.
pub proof fn law_off_is_silent(entries: Seq<LogEntryView>)
    requires
        forall|i: int| 0 <= i < entries.len() ==> (#[trigger] entries[i]).level != LogLevel::Off,
    ensures
        kept(entries, LogLevel::Off) == Seq::<LogEntryView>::empty(),
{
    assert forall|i: int| 0 <= i < entries.len() implies (#[trigger] entries[i]).level.rank()
        < LogLevel::Off.rank() by {
        assert(entries[i].level != LogLevel::Off);
    }
    lemma_kept_none(entries, LogLevel::Off);
}

/// The most verbose logger lets everything through.
pub proof fn law_debug_keeps_all(entries: Seq<LogEntryView>)
    ensures
        kept(entries, LogLevel::Debug) == entries,
    decreases entries.len(),
{
    reveal(Seq::filter);
    if entries.len() > 0 {
        law_debug_keeps_all(entries.drop_last());
        assert(entries.drop_last().push(entries.last()) == entries);
    }
}

// ---------------------------------------------------------------------------
// Redaction
// ---------------------------------------------------------------------------

/// Whether a header, by its name in lower case, holds a credential of which a suffix is shown.
pub open spec fn is_key_header(lower: Seq<char>) -> bool {
    lower == "authorization"@ || lower == "proxy-authorization"@ || lower == "x-api-key"@
}

/// Whether a header, by its name in lower case, is redacted in full.
pub open spec fn is_opaque_header(lower: Seq<char>) -> bool {
    lower == "cookie"@ || lower == "set-cookie"@
}

/// What is shown of a secret: the last four characters if it has more than eight.
pub open spec fn shown_tail(secret: Option<Seq<char>>) -> Seq<char> {
    match secret {
        Some(text) => if text.len() > 8 {
            text.skip(text.len() - 4)
        } else {
            Seq::empty()
        },
        None => Seq::empty(),
    }
}

/// The scheme in front of a secret: the first word of a value with a space in it, if a second
/// word follows.
pub open spec fn scheme_of(value: Seq<char>) -> Option<Seq<char>> {
    if value.contains(' ') && crate::text::first_word(crate::text::after_first_word(value)) is Some {
        crate::text::first_word(value)
    } else {
        None
    }
}

/// The secret in a value: of a value with a space in it the second word, or the only one; or else
/// the value.
pub open spec fn secret_of(value: Seq<char>) -> Option<Seq<char>> {
    if value.contains(' ') {
        let second = crate::text::first_word(crate::text::after_first_word(value));
        if second is Some {
            second
        } else {
            crate::text::first_word(value)
        }
    } else {
        Some(value)
    }
}

/// A masked key: its scheme, and what is shown of its secret.
pub open spec fn masked(scheme: Option<Seq<char>>, tail: Seq<char>) -> Seq<char> {
    match scheme {
        Some(s) => s + " ***"@ + tail,
        None => "***"@ + tail,
    }
}

/// A key, with its scheme if it has one, as it is shown in logs.
pub open spec fn masked_key(value: Seq<char>) -> Seq<char> {
    masked(scheme_of(value), shown_tail(secret_of(value)))
}

/// The value of a header as it is shown in logs.
pub open spec fn redacted(name: Seq<char>, value: Seq<char>) -> Seq<char> {
    if is_key_header(crate::text::lowercase(name)) {
        masked_key(value)
    } else if is_opaque_header(crate::text::lowercase(name)) {
        "***"@
    } else {
        value
    }
}

/// A list of headers as it is shown in logs.
pub open spec fn redacted_headers(headers: Seq<crate::headers::HeaderText>) -> Seq<
    crate::headers::HeaderText,
> {
    headers.map_values(
        |header: crate::headers::HeaderText| (header.0, redacted(header.0, header.1)),
    )
}

fn tail_text(secret: Option<&str>) -> (tail: String)
    ensures
        match secret {
            Some(s) => tail@ == shown_tail(Some(s@)),
            None => tail@ == shown_tail(None),
        },
{
    match secret {
        Some(secret) => {
            let len = secret.unicode_len();
            if len > 8 {
                assert(secret@.subrange(len - 4, len as int) == secret@.skip(len - 4));
                secret.substring_char(len - 4, len).to_owned()
            } else {
                String::new()
            }
        },
        None => String::new(),
    }
}

fn mask_secret(secret: Option<&str>) -> (text: String)
    ensures
        match secret {
            Some(s) => text@ == masked(None, shown_tail(Some(s@))),
            None => text@ == masked(None, shown_tail(None)),
        },
{
    let mut text = "***".to_owned();
    text.append(tail_text(secret).as_str());
    text
}

/// Mask a key, preserving its scheme and the last four characters of secrets longer than eight.
pub fn redact_key(value: &str) -> (text: String)
    ensures
        text@ == masked_key(value@),
{
    if has_char(value, ' ') {
        match split_first_word(value) {
            Some((first, rest)) => match split_first_word(rest) {
                Some((secret, _)) => {
                    let mut text = first.to_owned();
                    text.append(" ***");
                    text.append(tail_text(Some(secret)).as_str());
                    text
                },
                None => mask_secret(Some(first)),
            },
            None => {
                proof {
                    let rest = crate::text::without_leading_space(value@);
                    assert(rest.skip(0).len() == 0);
                }
                mask_secret(None)
            },
        }
    } else {
        mask_secret(Some(value))
    }
}

fn redact(name: &str, value: &str) -> (text: String)
    ensures
        text@ == redacted(name@, value@),
{
    let lower = to_lowercase(name);
    let lower = lower.as_str();
    if same_text(lower, "authorization") || same_text(lower, "proxy-authorization") || same_text(
        lower,
        "x-api-key",
    ) {
        redact_key(value)
    } else if same_text(lower, "cookie") || same_text(lower, "set-cookie") {
        "***".to_owned()
    } else {
        value.to_owned()
    }
}

/// Copy headers with known credential values redacted.
pub fn redact_headers(headers: &[(String, String)]) -> (copies: Vec<(String, String)>)
    ensures
        crate::headers::header_texts(copies@) == redacted_headers(
            crate::headers::header_texts(headers@),
        ),
{
    let mut copies: Vec<(String, String)> = Vec::new();
    let mut i: usize = 0;
    while i < headers.len()
        invariant
            i <= headers.len(),
            copies.len() == i,
            forall|j: int|
                0 <= j < i ==> (#[trigger] copies@[j]).0@ == headers@[j].0@ && copies@[j].1@
                    == redacted(headers@[j].0@, headers@[j].1@),
        decreases headers.len() - i,
    {
        let name = headers[i].0.clone();
        let value = redact(headers[i].0.as_str(), headers[i].1.as_str());
        copies.push((name, value));
        i = i + 1;
    }
    copies
}

/// Of a credential no more is shown than its scheme and the last four characters of a secret of
/// more than eight: what agrees in those is shown alike.
pub proof fn law_redaction_hides_keys(name: Seq<char>, value: Seq<char>, other: Seq<char>)
    requires
        is_key_header(crate::text::lowercase(name)),
        scheme_of(value) == scheme_of(other),
        shown_tail(secret_of(value)) == shown_tail(secret_of(other)),
    ensures
        redacted(name, value) == redacted(name, other),
{
}

/// Whether a text is a word: not empty, and without white space.
pub open spec fn is_word(text: Seq<char>) -> bool {
    &&& text.len() > 0
    &&& forall|i: int| 0 <= i < text.len() ==> !crate::text::is_white_space(#[trigger] text[i])
}

/// The first words of a text that starts with a word and a space.
proof fn lemma_words_after_scheme(scheme: Seq<char>, rest: Seq<char>)
    requires
        is_word(scheme),
    ensures
        (scheme + " "@ + rest).contains(' '),
        crate::text::first_word(scheme + " "@ + rest) == Some(scheme),
        crate::text::first_word(crate::text::after_first_word(scheme + " "@ + rest))
            == crate::text::first_word(rest),
{
    reveal_strlit(" ");
    let value = scheme + " "@ + rest;
    let n = scheme.len() as int;
    assert(value[n] == ' ');
    assert(value[0] == scheme[0]);
    assert(crate::text::without_leading_space(value) == value);
    assert forall|i: int| 0 <= i < n implies !crate::text::is_white_space(#[trigger] value[i]) by {
        assert(value[i] == scheme[i]);
    }
    crate::text::lemma_leading_word(value, n);
    assert(value.take(n) =~= scheme);
    let after = value.skip(n);
    assert(after.first() == ' ');
    assert(after.drop_first() =~= rest);
}

/// A word is its own first word, and nothing follows it.
proof fn lemma_word_alone(word: Seq<char>)
    requires
        is_word(word),
    ensures
        !word.contains(' '),
        crate::text::first_word(word) == Some(word),
{
    assert(!crate::text::is_white_space(word[0]));
    crate::text::lemma_leading_word(word, word.len() as int);
    assert(word.take(word.len() as int) =~= word);
    if word.contains(' ') {
        let i = choose|i: int| 0 <= i < word.len() && word[i] == ' ';
        assert(!crate::text::is_white_space(word[i]));
    }
}

/// What is shown of a key of one word are the last four characters of one of more than eight, and
/// nothing of a shorter one. Keys that agree in that are shown alike. A scheme in front of the
/// key is shown in front of it, and changes nothing else.
pub proof fn law_masked_keys(scheme: Seq<char>, key: Seq<char>, other: Seq<char>)
    requires
        is_word(scheme),
        is_word(key),
        is_word(other),
        ({
            ||| key.len() <= 8 && other.len() <= 8
            ||| key.len() > 8 && other.len() > 8 && key.skip(key.len() - 4) == other.skip(
                other.len() - 4,
            )
        }),
    ensures
        masked_key(key) == "***"@ + if key.len() > 8 {
            key.skip(key.len() - 4)
        } else {
            Seq::empty()
        },
        masked_key(key) == masked_key(other),
        masked_key(scheme + " "@ + key) == scheme + " "@ + masked_key(key),
{
    lemma_word_alone(key);
    lemma_word_alone(other);
    lemma_words_after_scheme(scheme, key);
    reveal_strlit(" ");
    reveal_strlit("***");
    reveal_strlit(" ***");
    assert(" ***"@ =~= " "@ + "***"@);
    let tail = shown_tail(Some(key));
    assert(scheme + " ***"@ + tail =~= scheme + " "@ + ("***"@ + tail));
}

/// White space around a key of one word is not shown, and makes no scheme of the key.
pub proof fn law_space_around_a_key_is_no_scheme(value: Seq<char>)
    requires
        value.contains(' '),
        crate::text::first_word(value) is Some,
        crate::text::first_word(crate::text::after_first_word(value)) is None,
    ensures
        masked_key(value) == "***"@ + shown_tail(crate::text::first_word(value)),
{
}

/// What is shown of a secret is at most four characters, and nothing of one of up to eight.
pub proof fn law_shown_tail_is_short(secret: Option<Seq<char>>)
    ensures
        shown_tail(secret).len() <= 4,
        secret matches Some(text) && text.len() <= 8 ==> shown_tail(secret).len() == 0,
{
}

/// Cookies are shown alike, whatever they are.
pub proof fn law_redaction_hides_cookies(name: Seq<char>, value: Seq<char>)
    requires
        is_opaque_header(crate::text::lowercase(name)),
    ensures
        redacted(name, value) == "***"@,
{
    reveal_strlit("authorization");
    reveal_strlit("proxy-authorization");
    reveal_strlit("x-api-key");
    reveal_strlit("cookie");
    reveal_strlit("set-cookie");
    assert("cookie"@.len() == 6 && "set-cookie"@.len() == 10);
}

/// The case of a header name makes no difference to its redaction.
pub proof fn law_redaction_ignores_case(name: Seq<char>, other: Seq<char>, value: Seq<char>)
    requires
        crate::headers::same_name(name, other),
    ensures
        redacted(name, value) == redacted(other, value),
{
}

/// Headers that hold no known credential are shown as they are.
pub proof fn law_other_headers_are_shown(name: Seq<char>, value: Seq<char>)
    requires
        !is_key_header(crate::text::lowercase(name)),
        !is_opaque_header(crate::text::lowercase(name)),
    ensures
        redacted(name, value) == value,
{
}

/// Whether two changes to a list of headers are shown alike.
pub open spec fn shown_alike(
    left: crate::headers::HeaderChange,
    right: crate::headers::HeaderChange,
) -> bool {
    &&& left.0 == right.0
    &&& match (left.1, right.1) {
        (Some(value), Some(other)) => redacted(left.0, value) == redacted(left.0, other),
        (None, None) => true,
        _ => false,
    }
}

proof fn lemma_redaction_keeps_names(headers: Seq<crate::headers::HeaderText>, name: Seq<char>)
    ensures
        redacted_headers(crate::headers::without_header(headers, name))
            == crate::headers::without_header(redacted_headers(headers), name),
    decreases headers.len(),
{
    reveal(Seq::filter);
    if headers.len() > 0 {
        let earlier = headers.drop_last();
        lemma_redaction_keeps_names(earlier, name);
        assert(redacted_headers(headers).drop_last() == redacted_headers(earlier));
        let kept = crate::headers::without_header(earlier, name);
        assert(redacted_headers(kept.push(headers.last())) == redacted_headers(kept).push(
            (headers.last().0, redacted(headers.last().0, headers.last().1)),
        ));
    } else {
        assert(redacted_headers(headers) == headers);
    }
}

/// What is merged from changes that are shown alike is shown alike.
pub proof fn lemma_merged_alike(
    left: Seq<crate::headers::HeaderChange>,
    right: Seq<crate::headers::HeaderChange>,
)
    requires
        left.len() == right.len(),
        forall|i: int| 0 <= i < left.len() ==> shown_alike(#[trigger] left[i], right[i]),
    ensures
        redacted_headers(crate::headers::merged(left)) == redacted_headers(
            crate::headers::merged(right),
        ),
    decreases left.len(),
{
    if left.len() > 0 {
        assert forall|i: int| 0 <= i < left.drop_last().len() implies shown_alike(
            #[trigger] left.drop_last()[i],
            right.drop_last()[i],
        ) by {
            assert(shown_alike(left[i], right[i]));
        }
        lemma_merged_alike(left.drop_last(), right.drop_last());
        assert(shown_alike(left[left.len() - 1], right[left.len() - 1]));
        let name = left.last().0;
        let a = crate::headers::merged(left.drop_last());
        let b = crate::headers::merged(right.drop_last());
        lemma_redaction_keeps_names(a, name);
        lemma_redaction_keeps_names(b, name);
        if left.last().1 is Some {
            let value = left.last().1->0;
            let other = right.last().1->0;
            let kept_a = crate::headers::without_header(a, name);
            let kept_b = crate::headers::without_header(b, name);
            assert(redacted_headers(kept_a.push((name, value))) == redacted_headers(kept_a).push(
                (name, redacted(name, value)),
            ));
            assert(redacted_headers(kept_b.push((name, other))) == redacted_headers(kept_b).push(
                (name, redacted(name, other)),
            ));
        }
    }
}

/// A bearer key is shown by the last four characters of its first word, if that has more than
/// eight; of one without a word nothing is shown.
pub proof fn law_bearer_keys_are_masked(key: Seq<char>)
    ensures
        redacted("Authorization"@, "Bearer "@ + key) == match crate::text::first_word(key) {
            Some(word) => "Bearer ***"@ + shown_tail(Some(word)),
            None => "***"@,
        },
{
    reveal_strlit("Authorization");
    reveal_strlit("authorization");
    reveal_strlit("Bearer ");
    reveal_strlit("Bearer");
    reveal_strlit(" ");
    reveal_strlit(" ***");
    reveal_strlit("***");
    reveal_strlit("Bearer ***");
    assert(crate::text::ascii_lowercase("Authorization"@) =~= "authorization"@);
    assert(crate::text::lowercase("Authorization"@) == "authorization"@);
    assert(is_word("Bearer"@));
    assert("Bearer"@ + " "@ + key =~= "Bearer "@ + key);
    lemma_words_after_scheme("Bearer"@, key);
    assert("Bearer"@ + " ***"@ =~= "Bearer ***"@);
    assert("***"@ + Seq::<char>::empty() =~= "***"@);
}

// ---------------------------------------------------------------------------
// Laws of what is shown
// ---------------------------------------------------------------------------

/// The credentials in `Authorization`, `Proxy-Authorization` and `X-Api-Key` are masked as keys,
/// whatever the case of the name; cookies are hidden, and everything else is shown.
pub proof fn law_credential_headers(name: Seq<char>, value: Seq<char>)
    ensures
        ({
            let lower = crate::text::lowercase(name);
            if lower == "authorization"@ || lower == "proxy-authorization"@ || lower
                == "x-api-key"@ {
                redacted(name, value) == masked_key(value)
            } else if lower == "cookie"@ || lower == "set-cookie"@ {
                redacted(name, value) == "***"@
            } else {
                redacted(name, value) == value
            }
        }),
{
    if is_opaque_header(crate::text::lowercase(name)) {
        law_redaction_hides_cookies(name, value);
    }
}

/// A list of headers is shown header by header, under the names as they are.
pub proof fn law_headers_are_redacted_one_by_one(headers: Seq<crate::headers::HeaderText>, i: int)
    ensures
        redacted_headers(headers).len() == headers.len(),
        0 <= i < headers.len() ==> redacted_headers(headers)[i] == (
            headers[i].0,
            redacted(headers[i].0, headers[i].1),
        ),
{
}

proof fn lemma_kept_of_two(first: Seq<LogEntryView>, second: Seq<LogEntryView>, level: LogLevel)
    ensures
        kept(first + second, level) == kept(first, level) + kept(second, level),
    decreases second.len(),
{
    reveal(Seq::filter);
    let all = first + second;
    if second.len() == 0 {
        assert(all =~= first);
        assert(kept(first, level) + kept(second, level) =~= kept(first, level));
    } else {
        lemma_kept_of_two(first, second.drop_last(), level);
        assert(all.drop_last() =~= first + second.drop_last());
        assert(all.last() == second.last());
        assert(kept(all, level) =~= kept(first, level) + kept(second, level));
    }
}

/// A logger lets entries through one by one and in order: those of its level and of the less
/// verbose ones.
pub proof fn law_entries_go_through_one_by_one(
    first: Seq<LogEntryView>,
    second: Seq<LogEntryView>,
    entry: LogEntryView,
    level: LogLevel,
)
    ensures
        kept(first + second, level) == kept(first, level) + kept(second, level),
        kept(seq![entry], level) == if match level {
            LogLevel::Debug => true,
            LogLevel::Info => entry.level != LogLevel::Debug,
            LogLevel::Warn => entry.level != LogLevel::Debug && entry.level != LogLevel::Info,
            LogLevel::Error => entry.level == LogLevel::Error || entry.level == LogLevel::Off,
            LogLevel::Off => entry.level == LogLevel::Off,
        } {
            seq![entry]
        } else {
            Seq::<LogEntryView>::empty()
        },
{
    lemma_kept_of_two(first, second, level);
    lemma_kept_one(entry, level);
}

/// A text names a level exactly if it is the name of that level.
pub proof fn law_levels_are_named(name: Seq<char>, level: LogLevel)
    ensures
        level_named(name) == Some(level) <==> name == match level {
            LogLevel::Debug => "debug"@,
            LogLevel::Info => "info"@,
            LogLevel::Warn => "warn"@,
            LogLevel::Error => "error"@,
            LogLevel::Off => "off"@,
        },
{
    law_level_of_its_name(level);
}

/// What a list of entries says, entry by entry.
pub proof fn law_entries_say_what_they_hold(entries: Seq<LogEntry>, i: int)
    ensures
        entry_views(entries).len() == entries.len(),
        0 <= i < entries.len() ==> {
            &&& entry_views(entries)[i].level == entries[i].level
            &&& entry_views(entries)[i].message == entries[i].message@
            &&& match entries[i].data {
                Some(data) => entry_views(entries)[i].data == Some(data@),
                None => entry_views(entries)[i].data is None,
            }
        },
{
}

/// Of a value of several words the first is the scheme and the second the secret: what follows them
/// is not shown, and changes nothing.
pub proof fn law_further_words_are_hidden(scheme: Seq<char>, key: Seq<char>, rest: Seq<char>)
    requires
        is_word(scheme),
        is_word(key),
    ensures
        masked_key(scheme + " "@ + (key + " "@ + rest)) == masked_key(scheme + " "@ + key),
{
    lemma_word_alone(key);
    lemma_words_after_scheme(scheme, key);
    lemma_words_after_scheme(scheme, key + " "@ + rest);
    lemma_words_after_scheme(key, rest);
}

} // verus!
