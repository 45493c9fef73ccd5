//! Retry defaults, overrides, and the calculation of delays.

use std::collections::BTreeSet;

use reqwest::header::HeaderMap;
use vstd::prelude::*;

use crate::arithmetic::Operand;
use crate::binary64::Binary64;
use crate::errors::{Error, Result};
use crate::headers::header_text_in;
use crate::text::{to_decimal, trim};

verus! {

broadcast use vstd::laws_cmp::group_laws_cmp;

pub const DEFAULT_TIMEOUT_MS: u64 = 10_000;

/// Server delay in milliseconds.
pub const RETRY_AFTER_MS_HEADER: &'static str = "retry-after-ms";

/// Server delay in seconds, or the date at which it ends.
pub const RETRY_AFTER_HEADER: &'static str = "retry-after";

// ---------------------------------------------------------------------------
// Policies
// ---------------------------------------------------------------------------

/// Retry configuration. Partial overrides inherit unset fields from the client or the defaults.
#[derive(Debug, PartialEq)]
pub struct RetryPolicy {
    /// Maximum retries after the initial attempt; `0` disables retries. Default: 2.
    pub max_retries: u32,
    /// First backoff delay in milliseconds, doubled up to `backoff_max_ms`. Default: 500.
    pub backoff_initial_ms: Binary64,
    /// Maximum backoff delay in milliseconds. Default: 5000.
    pub backoff_max_ms: Binary64,
    /// Fraction of each backoff delay randomly subtracted, from 0 to 1. Default: 0.25.
    pub backoff_jitter: Binary64,
    /// HTTP status codes to retry. Default: 408, 429, and 500 to 599.
    pub http_statuses: BTreeSet<u16>,
    /// Honor `Retry-After` and `retry-after-ms` up to `max_retry_after_ms`. Default: true.
    pub respect_retry_after: bool,
    /// Maximum server retry delay in milliseconds; longer delays use backoff. Default: 60000.
    pub max_retry_after_ms: Binary64,
    /// Retry connection failures, including interrupted response bodies. Default: true.
    pub api_connection_error: bool,
    /// Whether to retry a timeout. Default: true.
    pub api_timeout_error: bool,
}

/// What a policy says, with its status codes as a set.
#[verifier::ext_equal]
pub struct RetryPolicyView {
    pub max_retries: u32,
    pub backoff_initial_ms: Binary64,
    pub backoff_max_ms: Binary64,
    pub backoff_jitter: Binary64,
    pub http_statuses: Set<u16>,
    pub respect_retry_after: bool,
    pub max_retry_after_ms: Binary64,
    pub api_connection_error: bool,
    pub api_timeout_error: bool,
}

impl View for RetryPolicy {
    type V = RetryPolicyView;

    open spec fn view(&self) -> RetryPolicyView {
        RetryPolicyView {
            max_retries: self.max_retries,
            backoff_initial_ms: self.backoff_initial_ms,
            backoff_max_ms: self.backoff_max_ms,
            backoff_jitter: self.backoff_jitter,
            http_statuses: self.http_statuses@,
            respect_retry_after: self.respect_retry_after,
            max_retry_after_ms: self.max_retry_after_ms,
            api_connection_error: self.api_connection_error,
            api_timeout_error: self.api_timeout_error,
        }
    }
}

impl RetryPolicyView {
    /// Whether the delays are amounts of time and the jitter is a fraction.
    pub open spec fn valid(self) -> bool {
        &&& self.backoff_initial_ms.is_amount()
        &&& self.backoff_max_ms.is_amount()
        &&& self.backoff_jitter.is_fraction()
        &&& self.max_retry_after_ms.is_amount()
    }
}

/// The default policy.
pub open spec fn default_policy() -> RetryPolicyView {
    RetryPolicyView {
        max_retries: 2,
        backoff_initial_ms: Binary64 { bits: 0x407f_4000_0000_0000 },
        backoff_max_ms: Binary64 { bits: 0x40b3_8800_0000_0000 },
        backoff_jitter: Binary64 { bits: 0x3fd0_0000_0000_0000 },
        http_statuses: Set::new(|status: u16| status == 408 || status == 429 || 500 <= status < 600),
        respect_retry_after: true,
        max_retry_after_ms: Binary64 { bits: 0x40ed_4c00_0000_0000 },
        api_connection_error: true,
        api_timeout_error: true,
    }
}

pub proof fn lemma_default_policy_is_valid()
    ensures
        default_policy().valid(),
{
    default_policy().backoff_jitter.lemma_fraction();
}

impl Default for RetryPolicy {
    /// The default policy.
    fn default() -> (policy: RetryPolicy)
        ensures
            policy@ == default_policy(),
            policy@.valid(),
    {
        let mut http_statuses: BTreeSet<u16> = BTreeSet::new();
        http_statuses.insert(408);
        http_statuses.insert(429);
        let mut status: u16 = 500;
        while status < 600
            invariant
                500 <= status <= 600,
                http_statuses@ == Set::new(|s: u16| s == 408 || s == 429 || 500 <= s < status),
            decreases 600 - status,
        {
            http_statuses.insert(status);
            status = status + 1;
        }
        let policy = RetryPolicy {
            max_retries: 2,
            backoff_initial_ms: Binary64 { bits: 0x407f_4000_0000_0000 },
            backoff_max_ms: Binary64 { bits: 0x40b3_8800_0000_0000 },
            backoff_jitter: Binary64 { bits: 0x3fd0_0000_0000_0000 },
            http_statuses,
            respect_retry_after: true,
            max_retry_after_ms: Binary64 { bits: 0x40ed_4c00_0000_0000 },
            api_connection_error: true,
            api_timeout_error: true,
        };
        proof {
            lemma_default_policy_is_valid();
        }
        policy
    }
}

impl Clone for RetryPolicy {
    fn clone(&self) -> (copy: RetryPolicy)
        ensures
            copy@ == self@,
    {
        RetryPolicy {
            max_retries: self.max_retries,
            backoff_initial_ms: self.backoff_initial_ms,
            backoff_max_ms: self.backoff_max_ms,
            backoff_jitter: self.backoff_jitter,
            http_statuses: self.http_statuses.clone(),
            respect_retry_after: self.respect_retry_after,
            max_retry_after_ms: self.max_retry_after_ms,
            api_connection_error: self.api_connection_error,
            api_timeout_error: self.api_timeout_error,
        }
    }
}

/// A number as the caller gave it: its value, and how messages write it.
#[derive(Debug, PartialEq)]
pub struct GivenNumber {
    pub value: Binary64,
    pub text: String,
}

impl Clone for GivenNumber {
    fn clone(&self) -> (copy: GivenNumber)
        ensures
            copy.value == self.value,
            copy.text@ == self.text@,
    {
        GivenNumber { value: self.value, text: self.text.clone() }
    }
}

/// Overrides for a `RetryPolicy`. A field that is `None` inherits the value of the base policy.
#[derive(Debug, PartialEq)]
pub struct RetryOverrides {
    pub max_retries: Option<u32>,
    pub backoff_initial_ms: Option<GivenNumber>,
    pub backoff_max_ms: Option<GivenNumber>,
    pub backoff_jitter: Option<GivenNumber>,
    pub http_statuses: Option<BTreeSet<u16>>,
    pub respect_retry_after: Option<bool>,
    pub max_retry_after_ms: Option<GivenNumber>,
    pub api_connection_error: Option<bool>,
    pub api_timeout_error: Option<bool>,
}

/// Whether two numbers that may be missing have the same value and text.
pub open spec fn same_number(left: Option<GivenNumber>, right: Option<GivenNumber>) -> bool {
    match (left, right) {
        (Some(l), Some(r)) => l.value == r.value && l.text@ == r.text@,
        (None, None) => true,
        _ => false,
    }
}

fn clone_number(number: &Option<GivenNumber>) -> (copy: Option<GivenNumber>)
    ensures
        same_number(copy, *number),
{
    match number {
        Some(number) => Some(number.clone()),
        None => None,
    }
}

impl RetryOverrides {
    /// Whether two sets of overrides say the same.
    pub open spec fn same_as(self, other: RetryOverrides) -> bool {
        &&& self.max_retries == other.max_retries
        &&& same_number(self.backoff_initial_ms, other.backoff_initial_ms)
        &&& same_number(self.backoff_max_ms, other.backoff_max_ms)
        &&& same_number(self.backoff_jitter, other.backoff_jitter)
        &&& match (self.http_statuses, other.http_statuses) {
            (Some(s), Some(o)) => s@ == o@,
            (None, None) => true,
            _ => false,
        }
        &&& self.respect_retry_after == other.respect_retry_after
        &&& same_number(self.max_retry_after_ms, other.max_retry_after_ms)
        &&& self.api_connection_error == other.api_connection_error
        &&& self.api_timeout_error == other.api_timeout_error
    }
}

/// Whether two sets of overrides that may be missing say the same.
pub open spec fn same_overrides(left: Option<RetryOverrides>, right: Option<RetryOverrides>) -> bool {
    match (left, right) {
        (Some(l), Some(r)) => l.same_as(r),
        (None, None) => true,
        _ => false,
    }
}

pub(crate) fn clone_overrides(overrides: &Option<RetryOverrides>) -> (copy: Option<RetryOverrides>)
    ensures
        same_overrides(copy, *overrides),
{
    match overrides {
        Some(overrides) => Some(overrides.clone()),
        None => None,
    }
}

impl Clone for RetryOverrides {
    fn clone(&self) -> (copy: RetryOverrides)
        ensures
            copy.same_as(*self),
    {
        RetryOverrides {
            max_retries: self.max_retries,
            backoff_initial_ms: clone_number(&self.backoff_initial_ms),
            backoff_max_ms: clone_number(&self.backoff_max_ms),
            backoff_jitter: clone_number(&self.backoff_jitter),
            http_statuses: match &self.http_statuses {
                Some(statuses) => Some(statuses.clone()),
                None => None,
            },
            respect_retry_after: self.respect_retry_after,
            max_retry_after_ms: clone_number(&self.max_retry_after_ms),
            api_connection_error: self.api_connection_error,
            api_timeout_error: self.api_timeout_error,
        }
    }
}

impl Default for RetryOverrides {
    /// Overrides nothing.
    fn default() -> (overrides: RetryOverrides)
        ensures
            overrides == no_overrides(),
    {
        RetryOverrides {
            max_retries: None,
            backoff_initial_ms: None,
            backoff_max_ms: None,
            backoff_jitter: None,
            http_statuses: None,
            respect_retry_after: None,
            max_retry_after_ms: None,
            api_connection_error: None,
            api_timeout_error: None,
        }
    }
}

pub open spec fn no_overrides() -> RetryOverrides {
    RetryOverrides {
        max_retries: None,
        backoff_initial_ms: None,
        backoff_max_ms: None,
        backoff_jitter: None,
        http_statuses: None,
        respect_retry_after: None,
        max_retry_after_ms: None,
        api_connection_error: None,
        api_timeout_error: None,
    }
}

/// The override if there is one, or else the value of the base policy.
pub open spec fn chosen<T>(given: Option<T>, base: T) -> T {
    match given {
        Some(value) => value,
        None => base,
    }
}

pub open spec fn chosen_number(given: Option<GivenNumber>, base: Binary64) -> Binary64 {
    match given {
        Some(number) => number.value,
        None => base,
    }
}

/// A policy with overrides applied, field by field.
pub open spec fn overridden(base: RetryPolicyView, overrides: RetryOverrides) -> RetryPolicyView {
    RetryPolicyView {
        max_retries: chosen(overrides.max_retries, base.max_retries),
        backoff_initial_ms: chosen_number(overrides.backoff_initial_ms, base.backoff_initial_ms),
        backoff_max_ms: chosen_number(overrides.backoff_max_ms, base.backoff_max_ms),
        backoff_jitter: chosen_number(overrides.backoff_jitter, base.backoff_jitter),
        http_statuses: match overrides.http_statuses {
            Some(statuses) => statuses@,
            None => base.http_statuses,
        },
        respect_retry_after: chosen(overrides.respect_retry_after, base.respect_retry_after),
        max_retry_after_ms: chosen_number(overrides.max_retry_after_ms, base.max_retry_after_ms),
        api_connection_error: chosen(overrides.api_connection_error, base.api_connection_error),
        api_timeout_error: chosen(overrides.api_timeout_error, base.api_timeout_error),
    }
}

/// Whether a number has the form of an HTTP status code.
pub open spec fn is_status(status: u16) -> bool {
    100 <= status <= 999
}

/// Whether `status` is the smallest number of a set that is no status code.
pub open spec fn first_wrong_status(statuses: Set<u16>, status: u16) -> bool {
    &&& statuses.contains(status)
    &&& !is_status(status)
    &&& forall|other: u16| #[trigger] statuses.contains(other) && !is_status(other) ==> status <= other
}

/// What is wrong with an amount of time.
pub open spec fn wrong_ms(name: Seq<char>, given: Option<GivenNumber>) -> Option<Seq<char>> {
    match given {
        Some(number) => if number.value.is_amount() {
            None
        } else {
            Some(
                "`"@ + name + "` must be a non-negative number of milliseconds, got "@ + number.text@
                    + "."@,
            )
        },
        None => None,
    }
}

/// What is wrong with a jitter.
pub open spec fn wrong_jitter(given: Option<GivenNumber>) -> Option<Seq<char>> {
    match given {
        Some(number) => if number.value.is_fraction() {
            None
        } else {
            Some("`retry.backoffJitter` must be between 0 and 1, got "@ + number.text@ + "."@)
        },
        None => None,
    }
}

/// What is wrong with a set of status codes.
pub open spec fn wrong_statuses(given: Option<BTreeSet<u16>>) -> Option<Seq<char>> {
    match given {
        Some(statuses) => if exists|status: u16| first_wrong_status(statuses@, status) {
            let status = choose|status: u16| first_wrong_status(statuses@, status);
            Some(
                "`retry.httpStatuses` must contain HTTP status codes, got "@ + crate::text::decimal(
                    status as nat,
                ) + "."@,
            )
        } else {
            None
        },
        None => None,
    }
}

/// The first thing that is wrong with overrides: the jitter, the status codes, then the delays.
pub open spec fn wrong_overrides(overrides: RetryOverrides) -> Option<Seq<char>> {
    let initial = wrong_ms("retry.backoffInitialMs"@, overrides.backoff_initial_ms);
    let max = wrong_ms("retry.backoffMaxMs"@, overrides.backoff_max_ms);
    let after = wrong_ms("retry.maxRetryAfterMs"@, overrides.max_retry_after_ms);
    if wrong_jitter(overrides.backoff_jitter) is Some {
        wrong_jitter(overrides.backoff_jitter)
    } else if wrong_statuses(overrides.http_statuses) is Some {
        wrong_statuses(overrides.http_statuses)
    } else if initial is Some {
        initial
    } else if max is Some {
        max
    } else {
        after
    }
}

/// The policy that overrides make of a base policy, or the message that refuses them.
pub open spec fn resolved(
    base: RetryPolicyView,
    overrides: Option<RetryOverrides>,
) -> std::result::Result<RetryPolicyView, Seq<char>> {
    match overrides {
        None => Ok(base),
        Some(o) => match wrong_overrides(o) {
            Some(message) => Err(message),
            None => Ok(overridden(base, o)),
        },
    }
}

/// The overrides behind a reference.
pub open spec fn referred(overrides: Option<&RetryOverrides>) -> Option<RetryOverrides> {
    match overrides {
        Some(o) => Some(*o),
        None => None,
    }
}

/// The value of an amount of time, or the base if none is given.
fn non_negative_ms(name: &str, given: &Option<GivenNumber>, base: Binary64) -> (value: Result<Binary64>)
    ensures
        match value {
            Ok(v) => wrong_ms(name@, *given) is None && v == chosen_number(*given, base),
            Err(error) => wrong_ms(name@, *given) matches Some(message) && error.refuses(message),
        },
{
    match given {
        None => Ok(base),
        Some(number) => if number.value.finite() && number.value.non_negative() {
            Ok(number.value)
        } else {
            let mut text = "`".to_owned();
            text.append(name);
            text.append("` must be a non-negative number of milliseconds, got ");
            text.append(number.text.as_str());
            text.append(".");
            Err(Error::TypeSafe(text))
        },
    }
}

/// The smallest number of a set that is no status code.
fn wrong_status(statuses: &BTreeSet<u16>) -> (wrong: Option<u16>)
    ensures
        match wrong {
            Some(status) => first_wrong_status(statuses@, status),
            None => forall|status: u16| #[trigger] statuses@.contains(status) ==> is_status(status),
        },
{
    let mut wrong: Option<u16> = None;
    for status in it: statuses.iter()
        invariant
            it.seq().unref().to_set() == statuses@,
            match wrong {
                Some(smallest) => {
                    &&& statuses@.contains(smallest)
                    &&& !is_status(smallest)
                    &&& forall|i: int|
                        0 <= i < it.index() && !is_status(*#[trigger] it.seq()[i]) ==> smallest
                            <= *it.seq()[i]
                },
                None => forall|i: int| 0 <= i < it.index() ==> is_status(*#[trigger] it.seq()[i]),
            },
    {
        proof {
            assert(it.seq().unref()[it.index()] == *status);
            assert(it.seq().unref().to_set().contains(*status));
        }
        if *status < 100 || *status > 999 {
            match wrong {
                Some(smallest) => {
                    if *status < smallest {
                        wrong = Some(*status);
                    }
                },
                None => {
                    wrong = Some(*status);
                },
            }
        }
    }
    wrong
}

impl RetryPolicy {
    /// Merge and validate retry overrides.
    pub fn resolve(&self, overrides: Option<&RetryOverrides>) -> (policy: Result<RetryPolicy>)
        ensures
            match policy {
                Ok(p) => resolved(self@, referred(overrides)) == Ok::<RetryPolicyView, Seq<char>>(p@),
                Err(error) => resolved(self@, referred(overrides)) matches Err(message)
                    && error.refuses(message),
            },
    {
        let o = match overrides {
            None => return Ok(self.clone()),
            Some(o) => o,
        };
        let backoff_jitter = match &o.backoff_jitter {
            Some(number) => {
                if !number.value.fraction_of_one() {
                    let mut text = "`retry.backoffJitter` must be between 0 and 1, got ".to_owned();
                    text.append(number.text.as_str());
                    text.append(".");
                    return Err(Error::TypeSafe(text));
                }
                number.value
            },
            None => self.backoff_jitter,
        };
        if let Some(statuses) = &o.http_statuses {
            if let Some(status) = wrong_status(statuses) {
                let mut text = "`retry.httpStatuses` must contain HTTP status codes, got ".to_owned();
                text.append(to_decimal(status as u64).as_str());
                text.append(".");
                return Err(Error::TypeSafe(text));
            }
        }
        let backoff_initial_ms = match non_negative_ms(
            "retry.backoffInitialMs",
            &o.backoff_initial_ms,
            self.backoff_initial_ms,
        ) {
            Ok(value) => value,
            Err(error) => return Err(error),
        };
        let backoff_max_ms = match non_negative_ms(
            "retry.backoffMaxMs",
            &o.backoff_max_ms,
            self.backoff_max_ms,
        ) {
            Ok(value) => value,
            Err(error) => return Err(error),
        };
        let max_retry_after_ms = match non_negative_ms(
            "retry.maxRetryAfterMs",
            &o.max_retry_after_ms,
            self.max_retry_after_ms,
        ) {
            Ok(value) => value,
            Err(error) => return Err(error),
        };
        Ok(
            RetryPolicy {
                max_retries: or_base(o.max_retries, self.max_retries),
                backoff_initial_ms,
                backoff_max_ms,
                backoff_jitter,
                http_statuses: match &o.http_statuses {
                    Some(statuses) => statuses.clone(),
                    None => self.http_statuses.clone(),
                },
                respect_retry_after: or_base(o.respect_retry_after, self.respect_retry_after),
                max_retry_after_ms,
                api_connection_error: or_base(o.api_connection_error, self.api_connection_error),
                api_timeout_error: or_base(o.api_timeout_error, self.api_timeout_error),
            },
        )
    }

    /// Whether the policy retries an HTTP status code.
    pub fn is_retryable_status(&self, status: u16) -> (retryable: bool)
        ensures
            retryable == self@.http_statuses.contains(status),
    {
        self.http_statuses.contains(&status)
    }

    /// Whether the policy retries a connection error or timeout.
    pub fn is_retryable_error(&self, error: &Error) -> (retryable: bool)
        ensures
            retryable == self@.retries_error(error@),
    {
        match error {
            Error::Timeout { .. } => self.api_timeout_error,
            Error::Connection { .. } => self.api_connection_error,
            _ => false,
        }
    }
}

impl RetryPolicyView {
    /// Whether the policy retries a connection error or timeout.
    pub open spec fn retries_error(self, error: crate::errors::ErrorView) -> bool {
        match error {
            crate::errors::ErrorView::Timeout(_) => self.api_timeout_error,
            crate::errors::ErrorView::Connection(_) => self.api_connection_error,
            _ => false,
        }
    }
}

fn or_base<T: Copy>(given: Option<T>, base: T) -> (value: T)
    ensures
        value == chosen(given, base),
{
    match given {
        Some(value) => value,
        None => base,
    }
}

/// Overrides of a valid policy give a valid policy.
pub proof fn law_resolved_is_valid(base: RetryPolicyView, overrides: Option<RetryOverrides>)
    requires
        base.valid(),
    ensures
        resolved(base, overrides) matches Ok(policy) ==> policy.valid(),
{
}

/// Overrides that set nothing leave a policy as it is.
pub proof fn law_no_overrides(base: RetryPolicyView)
    ensures
        resolved(base, Some(no_overrides())) == Ok::<RetryPolicyView, Seq<char>>(base),
{
}

// ---------------------------------------------------------------------------
// Server delays
// ---------------------------------------------------------------------------

/// A point in time by its distance from the Unix epoch.
#[derive(Debug, Clone, Copy)]
pub struct UnixTime {
    /// Whether the point lies before the epoch.
    pub before_epoch: bool,
    /// Whole seconds of the distance.
    pub secs: u64,
    /// Nanoseconds of the distance beyond the whole seconds.
    pub nanos: u32,
}

impl UnixTime {
    /// Whether the nanoseconds are less than a second.
    pub open spec fn valid(self) -> bool {
        self.nanos < 1_000_000_000
    }

    /// Nanoseconds since the Unix epoch.
    pub open spec fn since_epoch(self) -> int {
        let distance = self.secs * 1_000_000_000 + self.nanos;
        if self.before_epoch {
            -distance
        } else {
            distance
        }
    }
}

/// The delay headers of a response as texts, for reading numbers in them.
#[derive(Debug)]
pub struct RetryAfterTexts {
    /// The value of `retry-after-ms`, trimmed.
    pub ms: Option<String>,
    /// The value of `retry-after`, trimmed.
    pub seconds: Option<String>,
}

/// The delay headers of a response as decimal numbers: what `str::parse` reads in each of the
/// `RetryAfterTexts`, where it reads a number.
#[derive(Debug, Clone, Copy)]
pub struct RetryAfterNumbers {
    /// The number in `retry-after-ms`.
    pub ms: Option<Binary64>,
    /// The number in `retry-after`.
    pub seconds: Option<Binary64>,
}

/// The date in an HTTP header, in seconds since the Unix epoch, as `httpdate::parse_http_date`
/// reads it; `None` where it reads none.
pub uninterp spec fn http_date(text: Seq<char>) -> Option<u64>;

/// `httpdate::parse_http_date`. What it reads depends on the text alone. Its dates lie in the
/// years 1970 to 9999 and have no fraction of a second.
#[verifier::external_body]
fn parse_http_date(text: &str) -> (date: Option<u64>)
    ensures
        date == http_date(text@),
        date matches Some(secs) ==> secs < 253_402_300_800,
{
    let date = httpdate::parse_http_date(text).ok()?;
    date.duration_since(std::time::UNIX_EPOCH).ok().map(|since| since.as_secs())
}

/// `SystemTime::now`. The nanoseconds are what `Duration::subsec_nanos` gives, which is less than
/// a second; nothing more is promised of what the clock shows.
#[verifier::external_body]
fn system_clock() -> (now: UnixTime)
    ensures
        now.valid(),
{
    match std::time::SystemTime::now().duration_since(std::time::UNIX_EPOCH) {
        Ok(since) => UnixTime { before_epoch: false, secs: since.as_secs(), nanos: since.subsec_nanos() },
        Err(error) => UnixTime {
            before_epoch: true,
            secs: error.duration().as_secs(),
            nanos: error.duration().subsec_nanos(),
        },
    }
}

/// What the system clock shows.
pub(crate) fn system_time() -> (now: UnixTime)
    ensures
        now.valid(),
{
    system_clock()
}

/// A header value as a number: an empty value is zero, and an infinite one is none.
pub open spec fn number_in(text: Seq<char>, parsed: Option<Binary64>) -> Option<Binary64> {
    if crate::text::trimmed(text).len() == 0 {
        Some(Binary64 { bits: 0 })
    } else {
        match parsed {
            Some(number) if number.is_finite() => Some(number),
            _ => None,
        }
    }
}

/// The milliseconds from `now` to a date, or zero if it is past. A distance that does not fit is
/// cut off to its lowest sixty-four bits.
pub open spec fn millis_until(date: u64, now: UnixTime) -> u64 {
    let distance = date * 1_000_000_000 - now.since_epoch();
    if distance <= 0 {
        0
    } else {
        (distance / 1_000_000 % 0x1_0000_0000_0000_0000) as u64
    }
}

/// The delay in a value of `retry-after`: seconds to the nearest millisecond, or until a date.
pub open spec fn delay_in(text: Seq<char>, parsed: Option<Binary64>, now: UnixTime) -> Option<u64> {
    match number_in(text, parsed) {
        Some(seconds) => if seconds.at_least_zero() {
            Some(crate::binary64::whole(crate::binary64::nearest(seconds.scaled() * 1000, 0)))
        } else {
            None
        },
        None => match http_date(crate::text::trimmed(text)) {
            Some(date) => Some(millis_until(date, now)),
            None => None,
        },
    }
}

/// The server delay that response headers ask for, in milliseconds.
pub open spec fn retry_after_at(
    headers: HeaderMap,
    numbers: RetryAfterNumbers,
    now: UnixTime,
) -> Option<u64> {
    let ms = match crate::headers::text_in(headers, RETRY_AFTER_MS_HEADER@) {
        Some(text) => number_in(text, numbers.ms),
        None => None,
    };
    if ms is Some && ms->0.at_least_zero() {
        Some(crate::binary64::whole(ms->0.scaled()))
    } else {
        match crate::headers::text_in(headers, RETRY_AFTER_HEADER@) {
            Some(text) => delay_in(text, numbers.seconds, now),
            None => None,
        }
    }
}

/// A header value that may be missing, without white space at its ends.
pub open spec fn trimmed_value(text: Option<Seq<char>>) -> Option<Seq<char>> {
    match text {
        Some(t) => Some(crate::text::trimmed(t)),
        None => None,
    }
}

fn trimmed_header(headers: &HeaderMap, name: &str) -> (text: Option<String>)
    ensures
        crate::text::optional(text) == trimmed_value(crate::headers::text_in(*headers, name@)),
{
    match header_text_in(headers, name) {
        Some(text) => Some(trim(text).to_owned()),
        None => None,
    }
}

/// The texts in which the delay headers of a response have their numbers.
pub fn retry_after_texts(headers: &HeaderMap) -> (texts: RetryAfterTexts)
    ensures
        crate::text::optional(texts.ms) == trimmed_value(
            crate::headers::text_in(*headers, RETRY_AFTER_MS_HEADER@),
        ),
        crate::text::optional(texts.seconds) == trimmed_value(
            crate::headers::text_in(*headers, RETRY_AFTER_HEADER@),
        ),
{
    RetryAfterTexts {
        ms: trimmed_header(headers, RETRY_AFTER_MS_HEADER),
        seconds: trimmed_header(headers, RETRY_AFTER_HEADER),
    }
}

/// A header value as a number. An empty value is zero.
fn number(text: &str, parsed: Option<Binary64>) -> (value: Option<Binary64>)
    ensures
        value == number_in(text@, parsed),
{
    if trim(text).is_empty() {
        return Some(Binary64 { bits: 0 });
    }
    match parsed {
        Some(number) => if number.finite() {
            Some(number)
        } else {
            None
        },
        None => None,
    }
}

fn distance_ms(date: u64, now: UnixTime) -> (ms: u64)
    requires
        date < 253_402_300_800,
    ensures
        ms == millis_until(date, now),
{
    let offset: i128 = now.secs as i128 * 1_000_000_000 + now.nanos as i128;
    let since: i128 = if now.before_epoch {
        -offset
    } else {
        offset
    };
    let distance: i128 = date as i128 * 1_000_000_000 - since;
    if distance <= 0 {
        0
    } else {
        ((distance as u128 / 1_000_000) % 0x1_0000_0000_0000_0000) as u64
    }
}

/// Parse `retry-after-ms` or `Retry-After` into milliseconds, preferring `retry-after-ms`.
///
/// Return `None` when neither header contains a valid delay. A date is held against `now`, or
/// against the system clock.
pub fn parse_retry_after(headers: &HeaderMap, numbers: &RetryAfterNumbers, now: Option<UnixTime>) -> (delay:
    Option<u64>)
    ensures
        match now {
            Some(time) => delay == retry_after_at(*headers, *numbers, time),
            None => exists|time: UnixTime|
                time.valid() && delay == #[trigger] retry_after_at(*headers, *numbers, time),
        },
{
    let ghost shown = match now {
        Some(time) => time,
        None => UnixTime { before_epoch: false, secs: 0, nanos: 0 },
    };
    if let Some(text) = header_text_in(headers, RETRY_AFTER_MS_HEADER) {
        if let Some(ms) = number(text, numbers.ms) {
            if ms.non_negative() {
                proof {
                    assert(ms.is_finite()) by {
                        assert(Binary64 { bits: 0 }.is_finite());
                    }
                }
                let delay = Some(ms.magnitude().to_whole());
                assert(delay == retry_after_at(*headers, *numbers, shown));
                return delay;
            }
        }
    }
    let text = match header_text_in(headers, RETRY_AFTER_HEADER) {
        Some(text) => text,
        None => {
            assert(retry_after_at(*headers, *numbers, shown) is None);
            return None;
        },
    };
    if let Some(seconds) = number(text, numbers.seconds) {
        let delay = if seconds.non_negative() {
            Some(thousandfold(seconds))
        } else {
            None
        };
        assert(delay == retry_after_at(*headers, *numbers, shown));
        return delay;
    }
    let date = match parse_http_date(trim(text)) {
        Some(date) => date,
        None => {
            assert(retry_after_at(*headers, *numbers, shown) is None);
            return None;
        },
    };
    let time = match now {
        Some(time) => time,
        None => system_clock(),
    };
    let delay = Some(distance_ms(date, time));
    assert(delay == retry_after_at(*headers, *numbers, time));
    delay
}

/// A number of seconds in milliseconds.
fn thousandfold(seconds: Binary64) -> (ms: u64)
    requires
        seconds.is_amount(),
    ensures
        ms == crate::binary64::whole(crate::binary64::nearest(seconds.scaled() * 1000, 0)),
{
    seconds.magnitude().times_whole(1000).to_whole()
}

// ---------------------------------------------------------------------------
// Delays
// ---------------------------------------------------------------------------

/// The backoff before a retry, in milliseconds: doubled with each attempt, up to the maximum.
pub open spec fn capped_backoff(attempt: u32, policy: RetryPolicyView) -> crate::arithmetic::Quantity {
    crate::arithmetic::minimum(
        crate::arithmetic::doubled(policy.backoff_initial_ms.value(), attempt),
        policy.backoff_max_ms.value(),
    )
}

/// The backoff before a retry with jitter, in whole milliseconds: the share of it that is left
/// once a random part of the jitter is taken off.
pub open spec fn jittered_backoff(attempt: u32, policy: RetryPolicyView, random: Binary64) -> u64 {
    crate::arithmetic::whole_of(
        crate::arithmetic::product(
            capped_backoff(attempt, policy),
            crate::arithmetic::one_minus(
                crate::arithmetic::product(random.value(), policy.backoff_jitter.value()),
            ),
        ),
    )
}

/// Whether a server delay in milliseconds is honored.
pub open spec fn honors(policy: RetryPolicyView, retry_after: u64) -> bool {
    policy.respect_retry_after && crate::arithmetic::at_most(
        crate::arithmetic::of_whole(retry_after),
        policy.max_retry_after_ms.value(),
    )
}

/// The delay before a retry, in milliseconds: the server delay if it is honored, or else backoff.
pub open spec fn delay_ms(
    attempt: u32,
    retry_after: Option<u64>,
    policy: RetryPolicyView,
    random: Binary64,
) -> u64 {
    match retry_after {
        Some(ms) if honors(policy, ms) => ms,
        _ => jittered_backoff(attempt, policy, random),
    }
}

/// The server delay that a response asks for, if it is honored.
pub fn honored_delay(retry_after: Option<u64>, policy: &RetryPolicy) -> (delay: Option<u64>)
    ensures
        delay == match retry_after {
            Some(ms) if honors(policy@, ms) => Some(ms),
            _ => None,
        },
{
    match retry_after {
        Some(ms) => if policy.respect_retry_after && Operand::of_whole(ms).at_most(
            Operand::of(policy.max_retry_after_ms),
        ) {
            Some(ms)
        } else {
            None
        },
        None => None,
    }
}

/// Calculate the backoff in milliseconds for a zero-based retry attempt.
pub fn backoff_delay(attempt: u32, policy: &RetryPolicy, random: Binary64) -> (delay: u64)
    ensures
        delay == jittered_backoff(attempt, policy@, random),
{
    let exponential = Operand::of(policy.backoff_initial_ms).doubled(attempt).minimum(
        Operand::of(policy.backoff_max_ms),
    );
    let cut = Operand::of(random).product(Operand::of(policy.backoff_jitter));
    exponential.product(cut.one_minus()).to_whole()
}

/// Calculate the delay in milliseconds for a zero-based retry attempt from the server delay that
/// the response asks for.
pub fn delay_after(
    attempt: u32,
    retry_after: Option<u64>,
    policy: &RetryPolicy,
    random: Binary64,
) -> (delay: u64)
    ensures
        delay == delay_ms(attempt, retry_after, policy@, random),
{
    match honored_delay(retry_after, policy) {
        Some(ms) => ms,
        None => backoff_delay(attempt, policy, random),
    }
}

/// Calculate the delay in milliseconds for a zero-based retry attempt.
///
/// Use an allowed server delay; otherwise use capped exponential backoff with jitter. `random` is
/// a number from 0 to 1. A date in the headers is held against the system clock.
pub fn retry_delay_ms(
    attempt: u32,
    headers: Option<&HeaderMap>,
    numbers: &RetryAfterNumbers,
    policy: &RetryPolicy,
    random: Binary64,
) -> (delay: u64)
    ensures
        match headers {
            Some(h) => exists|time: UnixTime|
                time.valid() && delay == delay_ms(
                    attempt,
                    #[trigger] retry_after_at(*h, *numbers, time),
                    policy@,
                    random,
                ),
            None => delay == delay_ms(attempt, None, policy@, random),
        },
{
    let retry_after = match headers {
        Some(headers) => parse_retry_after(headers, numbers, None),
        None => None,
    };
    delay_after(attempt, retry_after, policy, random)
}

// ---------------------------------------------------------------------------
// Laws of delays
// ---------------------------------------------------------------------------

/// The backoff of a valid policy, in units of 2^-1074 milliseconds: doubled with each attempt, up
/// to the maximum.
pub open spec fn backoff(attempt: u32, policy: RetryPolicyView) -> nat {
    let grown = policy.backoff_initial_ms.scaled() * vstd::arithmetic::power2::pow2(attempt as nat);
    if grown > policy.backoff_max_ms.scaled() {
        policy.backoff_max_ms.scaled()
    } else {
        grown
    }
}

/// The share of a backoff that is left once a random part of a valid jitter is taken off, in units
/// of 2^-1074.
pub open spec fn share(random: Binary64, jitter: Binary64) -> nat {
    let cut = crate::binary64::nearest(random.scaled() * jitter.scaled(), 1074);
    crate::binary64::nearest((vstd::arithmetic::power2::pow2(1074) - cut) as nat, 0)
}

/// An amount is finite, and has a sign only if it is zero.
proof fn lemma_amount(number: Binary64)
    requires
        number.is_amount(),
    ensures
        number.value() == (crate::arithmetic::Quantity::Finite {
            negative: number.has_sign(),
            scaled: number.scaled(),
        }),
        number.has_sign() ==> number.scaled() == 0,
        number.scaled() < vstd::arithmetic::power2::pow2(2098),
{
    number.lemma_scaled_bound();
}

/// The backoff of a valid policy is finite, and has a sign only if it is zero.
proof fn lemma_capped_backoff(attempt: u32, policy: RetryPolicyView) -> (negative: bool)
    requires
        policy.valid(),
    ensures
        capped_backoff(attempt, policy) == (crate::arithmetic::Quantity::Finite {
            negative,
            scaled: backoff(attempt, policy),
        }),
        negative ==> backoff(attempt, policy) == 0,
        backoff(attempt, policy) < vstd::arithmetic::power2::pow2(2098),
{
    let initial = policy.backoff_initial_ms;
    let max = policy.backoff_max_ms;
    lemma_amount(initial);
    lemma_amount(max);
    let p = vstd::arithmetic::power2::pow2(attempt as nat);
    vstd::arithmetic::mul::lemma_mul_basics(p as int);
    if initial.scaled() * p <= max.scaled() && !(max.has_sign()
        && !initial.has_sign() && initial.scaled() * p > 0) {
        initial.has_sign()
    } else {
        max.has_sign()
    }
}

/// Zero is the whole number zero.
proof fn lemma_whole_of_zero()
    ensures
        crate::binary64::whole(0) == 0,
{
    vstd::arithmetic::power2::lemma_pow2_unfold(1075);
    vstd::arithmetic::power2::lemma_pow2_pos(1074);
    vstd::arithmetic::div_mod::lemma_basic_div(
        vstd::arithmetic::power2::pow2(1074) as int,
        vstd::arithmetic::power2::pow2(1075) as int,
    );
}

/// The jittered backoff of a valid policy.
proof fn lemma_jittered_backoff(attempt: u32, policy: RetryPolicyView, random: Binary64)
    requires
        policy.valid(),
        random.is_fraction(),
    ensures
        jittered_backoff(attempt, policy, random) == crate::binary64::whole(
            crate::binary64::nearest(
                backoff(attempt, policy) * share(random, policy.backoff_jitter),
                1074,
            ),
        ),
{
    let one = vstd::arithmetic::power2::pow2(1074);
    let jitter = policy.backoff_jitter;
    vstd::arithmetic::power2::lemma_pow2_strictly_increases(1074, 2098);
    lemma_amount(random);
    lemma_amount(jitter);
    crate::binary64::lemma_nearest_product_of_fractions(random.scaled(), jitter.scaled());
    lemma_share_at_most_one(random, jitter);
    crate::binary64::lemma_nearest_of_format(0, 0, 1074);
    vstd::arithmetic::mul::lemma_mul_basics(random.scaled() as int);
    vstd::arithmetic::mul::lemma_mul_basics(jitter.scaled() as int);
    assert(0 * vstd::arithmetic::power2::pow2(0) * one == 0) by {
        vstd::arithmetic::mul::lemma_mul_basics(vstd::arithmetic::power2::pow2(0) as int);
        vstd::arithmetic::mul::lemma_mul_basics(one as int);
    }
    let cut = crate::binary64::nearest(random.scaled() * jitter.scaled(), 1074);
    assert(random.has_sign() != jitter.has_sign() ==> cut == 0);
    let part = share(random, jitter);
    let exponential = backoff(attempt, policy);
    let negative = lemma_capped_backoff(attempt, policy);
    let (m, j) = lemma_backoff_parts(attempt, policy);
    assert(exponential * part <= exponential * one) by (nonlinear_arith)
        requires
            part <= one,
    ;
    crate::binary64::lemma_nearest_at_most(exponential * part, 1074, m, j);
    vstd::arithmetic::mul::lemma_mul_basics(part as int);
    lemma_whole_of_zero();
}

/// A server delay is honored by a valid policy up to its maximum.
pub proof fn law_honored_up_to_the_maximum(policy: RetryPolicyView, retry_after: u64)
    requires
        policy.valid(),
    ensures
        honors(policy, retry_after) <==> policy.respect_retry_after && crate::binary64::nearest(
            retry_after as nat * vstd::arithmetic::power2::pow2(1074),
            0,
        ) <= policy.max_retry_after_ms.scaled(),
{
    lemma_amount(policy.max_retry_after_ms);
}

/// A backoff is a number of the format.
proof fn lemma_backoff_parts(attempt: u32, policy: RetryPolicyView) -> (parts: (nat, nat))
    ensures
        parts.0 < 0x20_0000_0000_0000,
        backoff(attempt, policy) == parts.0 * vstd::arithmetic::power2::pow2(parts.1),
{
    let grown = policy.backoff_initial_ms.scaled() * vstd::arithmetic::power2::pow2(attempt as nat);
    if grown > policy.backoff_max_ms.scaled() {
        policy.backoff_max_ms.lemma_scaled_parts()
    } else {
        let (m, j) = policy.backoff_initial_ms.lemma_scaled_parts();
        vstd::arithmetic::power2::lemma_pow2_adds(j, attempt as nat);
        vstd::arithmetic::mul::lemma_mul_is_associative(
            m as int,
            vstd::arithmetic::power2::pow2(j) as int,
            vstd::arithmetic::power2::pow2(attempt as nat) as int,
        );
        (m, j + attempt as nat)
    }
}

proof fn lemma_share_at_most_one(random: Binary64, jitter: Binary64)
    requires
        random.is_fraction(),
        jitter.is_fraction(),
    ensures
        share(random, jitter) <= vstd::arithmetic::power2::pow2(1074),
{
    let one = vstd::arithmetic::power2::pow2(1074);
    crate::binary64::lemma_nearest_product_of_fractions(random.scaled(), jitter.scaled());
    let cut = crate::binary64::nearest(random.scaled() * jitter.scaled(), 1074);
    vstd::arithmetic::power2::lemma2_to64();
    crate::binary64::lemma_nearest_at_most((one - cut) as nat, 0, 1, 1074);
}

/// Jitter only shortens a backoff.
pub proof fn law_jitter_only_shortens(attempt: u32, policy: RetryPolicyView, random: Binary64)
    requires
        policy.valid(),
        random.is_fraction(),
    ensures
        jittered_backoff(attempt, policy, random) <= crate::binary64::whole(
            backoff(attempt, policy),
        ),
{
    let one = vstd::arithmetic::power2::pow2(1074);
    let exponential = backoff(attempt, policy);
    let part = share(random, policy.backoff_jitter);
    let (m, j) = lemma_backoff_parts(attempt, policy);
    lemma_jittered_backoff(attempt, policy, random);
    lemma_share_at_most_one(random, policy.backoff_jitter);
    assert(exponential * part <= exponential * one) by (nonlinear_arith)
        requires
            part <= one,
    ;
    crate::binary64::lemma_nearest_at_most(exponential * part, 1074, m, j);
    crate::binary64::lemma_whole_grows(
        crate::binary64::nearest(exponential * part, 1074),
        exponential,
    );
}

/// A backoff is never above the maximum of the policy.
pub proof fn law_backoff_is_capped(attempt: u32, policy: RetryPolicyView, random: Binary64)
    requires
        policy.valid(),
        random.is_fraction(),
    ensures
        jittered_backoff(attempt, policy, random) <= crate::binary64::whole(
            policy.backoff_max_ms.scaled(),
        ),
{
    law_jitter_only_shortens(attempt, policy, random);
    crate::binary64::lemma_whole_grows(backoff(attempt, policy), policy.backoff_max_ms.scaled());
}

/// Where chance takes nothing off, or the policy has no jitter, a backoff is exact.
pub proof fn law_no_jitter_is_exact(attempt: u32, policy: RetryPolicyView, random: Binary64)
    requires
        policy.valid(),
        random.is_fraction(),
        random.scaled() == 0 || policy.backoff_jitter.scaled() == 0,
    ensures
        jittered_backoff(attempt, policy, random) == crate::binary64::whole(
            backoff(attempt, policy),
        ),
{
    let exponential = backoff(attempt, policy);
    let (m, j) = lemma_backoff_parts(attempt, policy);
    lemma_jittered_backoff(attempt, policy, random);
    assert(random.scaled() * policy.backoff_jitter.scaled() == 0) by (nonlinear_arith)
        requires
            random.scaled() == 0 || policy.backoff_jitter.scaled() == 0,
    ;
    let one = vstd::arithmetic::power2::pow2(1074);
    vstd::arithmetic::power2::lemma2_to64();
    vstd::arithmetic::mul::lemma_mul_basics(one as int);
    crate::binary64::lemma_nearest_of_format(0, 0, 1074);
    crate::binary64::lemma_nearest_of_format(1, 1074, 0);
    crate::binary64::lemma_nearest_of_format(m, j, 1074);
    assert(0 * vstd::arithmetic::power2::pow2(0) * one == 0);
    assert(one * vstd::arithmetic::power2::pow2(0) == one);
}

/// Jitter takes off at most the whole of its fraction: no delay is shorter than the one with a
/// random number of one.
pub proof fn law_jitter_is_bounded(
    attempt: u32,
    policy: RetryPolicyView,
    random: Binary64,
    one: Binary64,
)
    requires
        policy.valid(),
        random.is_fraction(),
        one.is_fraction(),
        one.scaled() == vstd::arithmetic::power2::pow2(1074),
    ensures
        jittered_backoff(attempt, policy, one) <= jittered_backoff(attempt, policy, random),
{
    lemma_jittered_backoff(attempt, policy, random);
    lemma_jittered_backoff(attempt, policy, one);
    let jitter = policy.backoff_jitter.scaled();
    let r = random.scaled();
    let unit = vstd::arithmetic::power2::pow2(1074);
    assert(r * jitter <= unit * jitter) by (nonlinear_arith)
        requires
            r <= unit,
    ;
    crate::binary64::lemma_nearest_grows(r * jitter, unit * jitter, 1074);
    crate::binary64::lemma_nearest_product_of_fractions(unit, jitter);
    let cut = crate::binary64::nearest(r * jitter, 1074);
    let most = crate::binary64::nearest(unit * jitter, 1074);
    crate::binary64::lemma_nearest_grows((unit - most) as nat, (unit - cut) as nat, 0);
    let exponential = backoff(attempt, policy);
    let least = share(one, policy.backoff_jitter);
    let part = share(random, policy.backoff_jitter);
    assert(exponential * least <= exponential * part) by (nonlinear_arith)
        requires
            least <= part,
    ;
    crate::binary64::lemma_nearest_grows(exponential * least, exponential * part, 1074);
    crate::binary64::lemma_whole_grows(
        crate::binary64::nearest(exponential * least, 1074),
        crate::binary64::nearest(exponential * part, 1074),
    );
}

/// Each backoff is twice the one before, up to the maximum of the policy.
pub proof fn law_backoff_doubles(attempt: u32, policy: RetryPolicyView)
    requires
        policy.valid(),
        attempt < u32::MAX,
    ensures
        backoff((attempt + 1) as u32, policy) == if 2 * backoff(attempt, policy)
            <= policy.backoff_max_ms.scaled() {
            2 * backoff(attempt, policy)
        } else {
            policy.backoff_max_ms.scaled()
        },
{
    vstd::arithmetic::power2::lemma_pow2_unfold((attempt + 1) as nat);
    let p = vstd::arithmetic::power2::pow2(attempt as nat);
    let initial = policy.backoff_initial_ms.scaled();
    assert(initial * (2 * p) == 2 * (initial * p)) by (nonlinear_arith);
}

/// The first backoff is the initial one, up to the maximum of the policy.
pub proof fn law_backoff_starts(policy: RetryPolicyView)
    requires
        policy.valid(),
    ensures
        backoff(0, policy) == if policy.backoff_initial_ms.scaled()
            <= policy.backoff_max_ms.scaled() {
            policy.backoff_initial_ms.scaled()
        } else {
            policy.backoff_max_ms.scaled()
        },
{
    vstd::arithmetic::power2::lemma2_to64();
    vstd::arithmetic::mul::lemma_mul_basics(policy.backoff_initial_ms.scaled() as int);
}

/// A delay in `retry-after-ms` goes before one in `retry-after`, and before the clock.
pub proof fn law_ms_header_goes_first(
    headers: HeaderMap,
    numbers: RetryAfterNumbers,
    now: UnixTime,
    text: Seq<char>,
    ms: Binary64,
)
    requires
        crate::headers::text_in(headers, RETRY_AFTER_MS_HEADER@) == Some(text),
        number_in(text, numbers.ms) == Some(ms),
        ms.at_least_zero(),
    ensures
        retry_after_at(headers, numbers, now) == Some(crate::binary64::whole(ms.scaled())),
{
}

/// Without a delay header, a response asks for no delay.
pub proof fn law_no_header_no_delay(headers: HeaderMap, numbers: RetryAfterNumbers, now: UnixTime)
    requires
        crate::headers::text_in(headers, RETRY_AFTER_MS_HEADER@) is None,
        crate::headers::text_in(headers, RETRY_AFTER_HEADER@) is None,
    ensures
        retry_after_at(headers, numbers, now) is None,
{
}

/// The server decides the delay exactly when the policy honors the delay that it asks for.
pub proof fn law_server_delay(
    attempt: u32,
    retry_after: u64,
    policy: RetryPolicyView,
    random: Binary64,
)
    ensures
        honors(policy, retry_after) ==> delay_ms(attempt, Some(retry_after), policy, random)
            == retry_after,
        !honors(policy, retry_after) ==> delay_ms(attempt, Some(retry_after), policy, random)
            == delay_ms(attempt, None, policy, random),
        !policy.respect_retry_after ==> !honors(policy, retry_after),
{
}

// ---------------------------------------------------------------------------
// Laws of policies
// ---------------------------------------------------------------------------

/// Whether overrides can be applied: the jitter is from zero to one, the delays are finite and not
/// negative, and the numbers of the set have the form of status codes.
pub open spec fn acceptable(overrides: RetryOverrides) -> bool {
    &&& overrides.backoff_jitter matches Some(jitter) ==> jitter.value.is_fraction()
    &&& overrides.backoff_initial_ms matches Some(ms) ==> ms.value.is_amount()
    &&& overrides.backoff_max_ms matches Some(ms) ==> ms.value.is_amount()
    &&& overrides.max_retry_after_ms matches Some(ms) ==> ms.value.is_amount()
    &&& overrides.http_statuses matches Some(statuses) ==> forall|status: u16| #[trigger]
        statuses@.contains(status) ==> 100 <= status <= 999
}

/// Whether a policy is what overrides make of a base policy: each field that is set is as it is
/// set, and each other as in the base.
pub open spec fn applies(
    overrides: RetryOverrides,
    base: RetryPolicyView,
    policy: RetryPolicyView,
) -> bool {
    &&& match overrides.max_retries {
        Some(retries) => policy.max_retries == retries,
        None => policy.max_retries == base.max_retries,
    }
    &&& match overrides.backoff_initial_ms {
        Some(ms) => policy.backoff_initial_ms == ms.value,
        None => policy.backoff_initial_ms == base.backoff_initial_ms,
    }
    &&& match overrides.backoff_max_ms {
        Some(ms) => policy.backoff_max_ms == ms.value,
        None => policy.backoff_max_ms == base.backoff_max_ms,
    }
    &&& match overrides.backoff_jitter {
        Some(jitter) => policy.backoff_jitter == jitter.value,
        None => policy.backoff_jitter == base.backoff_jitter,
    }
    &&& match overrides.http_statuses {
        Some(statuses) => policy.http_statuses == statuses@,
        None => policy.http_statuses == base.http_statuses,
    }
    &&& match overrides.respect_retry_after {
        Some(respect) => policy.respect_retry_after == respect,
        None => policy.respect_retry_after == base.respect_retry_after,
    }
    &&& match overrides.max_retry_after_ms {
        Some(ms) => policy.max_retry_after_ms == ms.value,
        None => policy.max_retry_after_ms == base.max_retry_after_ms,
    }
    &&& match overrides.api_connection_error {
        Some(retried) => policy.api_connection_error == retried,
        None => policy.api_connection_error == base.api_connection_error,
    }
    &&& match overrides.api_timeout_error {
        Some(retried) => policy.api_timeout_error == retried,
        None => policy.api_timeout_error == base.api_timeout_error,
    }
}

/// The smallest number of a set that is no status code, if there is one.
proof fn lemma_first_wrong_status(statuses: Set<u16>, wrong: u16)
    requires
        statuses.contains(wrong),
        !is_status(wrong),
    ensures
        exists|status: u16| first_wrong_status(statuses, status),
    decreases wrong,
{
    if !first_wrong_status(statuses, wrong) {
        let smaller = choose|other: u16| #[trigger]
            statuses.contains(other) && !is_status(other) && other < wrong;
        lemma_first_wrong_status(statuses, smaller);
    }
}

/// Overrides are applied field by field, exactly if they are acceptable.
pub proof fn law_overrides_apply_field_by_field(base: RetryPolicyView, overrides: RetryOverrides)
    ensures
        resolved(base, Some(overrides)) is Ok <==> acceptable(overrides),
        resolved(base, Some(overrides)) matches Ok(policy) ==> applies(overrides, base, policy),
        resolved(base, None) == Ok::<RetryPolicyView, Seq<char>>(base),
{
    if let Some(statuses) = overrides.http_statuses {
        if exists|status: u16| #[trigger] statuses@.contains(status) && !is_status(status) {
            let wrong = choose|status: u16| #[trigger]
                statuses@.contains(status) && !is_status(status);
            lemma_first_wrong_status(statuses@, wrong);
        } else {
            assert forall|status: u16| #[trigger] statuses@.contains(status) implies 100 <= status
                <= 999 by {
                assert(is_status(status));
            }
            assert(!(exists|status: u16| first_wrong_status(statuses@, status)));
        }
    }
}

/// By default a call is retried twice, after timeouts, failed deliveries and the statuses 408, 429
/// and 500 to 599, and server delays are honored.
pub proof fn law_default_policy(status: u16)
    ensures
        default_policy().max_retries == 2,
        default_policy().http_statuses.contains(status) <==> status == 408 || status == 429 || 500
            <= status <= 599,
        default_policy().respect_retry_after,
        default_policy().api_connection_error,
        default_policy().api_timeout_error,
{
}

/// A policy retries timeouts and failed deliveries as it says, and no other error.
pub proof fn law_retried_errors(policy: RetryPolicyView, error: crate::errors::ErrorView)
    ensures
        error is Timeout ==> policy.retries_error(error) == policy.api_timeout_error,
        error is Connection ==> policy.retries_error(error) == policy.api_connection_error,
        !(error is Timeout) && !(error is Connection) ==> !policy.retries_error(error),
{
}

// ---------------------------------------------------------------------------
// Laws of server delays
// ---------------------------------------------------------------------------

/// Without a valid `retry-after-ms`, the number in `retry-after` is a delay in seconds: the nearest
/// whole milliseconds to a thousand times that. An empty value is no delay, and a negative one is
/// none that counts.
pub proof fn law_seconds_header(
    headers: HeaderMap,
    numbers: RetryAfterNumbers,
    now: UnixTime,
    text: Seq<char>,
    seconds: Binary64,
)
    requires
        crate::headers::text_in(headers, "retry-after-ms"@) is None,
        crate::headers::text_in(headers, "retry-after"@) == Some(text),
        crate::text::trimmed(text).len() > 0,
        numbers.seconds == Some(seconds),
        seconds.is_finite(),
    ensures
        seconds.at_least_zero() ==> retry_after_at(headers, numbers, now) == Some(
            crate::binary64::whole(crate::binary64::nearest(1000 * seconds.scaled(), 0)),
        ),
        !seconds.at_least_zero() ==> retry_after_at(headers, numbers, now) is None,
{
    vstd::arithmetic::mul::lemma_mul_is_commutative(seconds.scaled() as int, 1000);
}

/// An empty value of either delay header is a delay of zero.
pub proof fn law_empty_delay(
    headers: HeaderMap,
    numbers: RetryAfterNumbers,
    now: UnixTime,
    text: Seq<char>,
)
    requires
        crate::text::trimmed(text).len() == 0,
        crate::headers::text_in(headers, "retry-after-ms"@) == Some(text)
            || crate::headers::text_in(headers, "retry-after-ms"@) is None
            && crate::headers::text_in(headers, "retry-after"@) == Some(text),
    ensures
        retry_after_at(headers, numbers, now) == Some(0u64),
{
    let zero = Binary64 { bits: 0 };
    assert(zero.scaled() == 0);
    crate::binary64::lemma_nearest_of_format(0, 0, 0);
    vstd::arithmetic::mul::lemma_mul_basics(vstd::arithmetic::power2::pow2(0) as int);
    lemma_whole_of_zero();
}

/// A number in `retry-after-ms` that is no valid delay leaves the decision to `retry-after`.
pub proof fn law_wrong_ms_header_is_passed_over(
    headers: HeaderMap,
    numbers: RetryAfterNumbers,
    now: UnixTime,
    text: Seq<char>,
    after: Seq<char>,
)
    requires
        crate::headers::text_in(headers, "retry-after-ms"@) == Some(text),
        crate::text::trimmed(text).len() > 0,
        numbers.ms matches Some(ms) ==> !ms.is_finite() || !ms.at_least_zero(),
        crate::headers::text_in(headers, "retry-after"@) == Some(after),
    ensures
        retry_after_at(headers, numbers, now) == delay_in(after, numbers.seconds, now),
{
}

/// A date in `retry-after` is a delay of the whole milliseconds from now until then, and of none if
/// it is past.
pub proof fn law_date_header(
    headers: HeaderMap,
    numbers: RetryAfterNumbers,
    now: UnixTime,
    text: Seq<char>,
    date: u64,
)
    requires
        crate::headers::text_in(headers, "retry-after-ms"@) is None,
        crate::headers::text_in(headers, "retry-after"@) == Some(text),
        crate::text::trimmed(text).len() > 0,
        numbers.seconds matches Some(seconds) ==> !seconds.is_finite(),
        http_date(crate::text::trimmed(text)) == Some(date),
        date * 1_000_000_000 - now.since_epoch() < 0x1_0000_0000_0000_0000 * 1_000_000,
    ensures
        retry_after_at(headers, numbers, now) matches Some(delay) && {
            let left = date * 1_000_000_000 - now.since_epoch();
            &&& left <= 0 ==> delay == 0
            &&& left > 0 ==> delay * 1_000_000 <= left < (delay + 1) * 1_000_000
        },
{
    let left = date * 1_000_000_000 - now.since_epoch();
    if left > 0 {
        assert(0 <= left / 1_000_000 < 0x1_0000_0000_0000_0000);
        assert(left / 1_000_000 % 0x1_0000_0000_0000_0000 == left / 1_000_000);
    }
}

/// The backoff with jitter of a valid policy, from its numbers: the first delay times two to the
/// power of the attempt, up to the maximum, less the random part of the jitter; each product and
/// the difference rounded to the format, and the result to whole milliseconds.
pub proof fn law_jittered_backoff(attempt: u32, policy: RetryPolicyView, random: Binary64)
    requires
        policy.valid(),
        random.is_fraction(),
    ensures
        ({
            let one = vstd::arithmetic::power2::pow2(1074);
            let grown = policy.backoff_initial_ms.scaled() * vstd::arithmetic::power2::pow2(
                attempt as nat,
            );
            let max = policy.backoff_max_ms.scaled();
            let capped = if grown > max {
                max
            } else {
                grown
            };
            let cut = crate::binary64::nearest(
                random.scaled() * policy.backoff_jitter.scaled(),
                1074,
            );
            let left = crate::binary64::nearest((one - cut) as nat, 0);
            jittered_backoff(attempt, policy, random) == crate::binary64::whole(
                crate::binary64::nearest(capped * left, 1074),
            )
        }),
{
    lemma_jittered_backoff(attempt, policy, random);
}

/// What a policy says is what it holds, field by field.
pub proof fn law_policies_say_what_they_hold(policy: RetryPolicy)
    ensures
        policy@.max_retries == policy.max_retries,
        policy@.backoff_initial_ms == policy.backoff_initial_ms,
        policy@.backoff_max_ms == policy.backoff_max_ms,
        policy@.backoff_jitter == policy.backoff_jitter,
        policy@.http_statuses == policy.http_statuses@,
        policy@.respect_retry_after == policy.respect_retry_after,
        policy@.max_retry_after_ms == policy.max_retry_after_ms,
        policy@.api_connection_error == policy.api_connection_error,
        policy@.api_timeout_error == policy.api_timeout_error,
{
}

/// Overrides that say the same make the same of every policy.
pub proof fn law_same_overrides(base: RetryPolicyView, left: RetryOverrides, right: RetryOverrides)
    requires
        left.same_as(right),
    ensures
        resolved(base, Some(left)) == resolved(base, Some(right)),
{
}

/// A point in time is its seconds and nanoseconds after the epoch, or before it.
pub proof fn law_points_in_time(time: UnixTime)
    ensures
        !time.before_epoch ==> time.since_epoch() == time.secs * 1_000_000_000 + time.nanos,
        time.before_epoch ==> time.since_epoch() == -(time.secs * 1_000_000_000 + time.nanos),
{
}

/// Which override is refused, and how: the jitter first, then a wrong status, then the delays.
pub proof fn law_refused_overrides(base: RetryPolicyView, overrides: RetryOverrides, status: u16)
    ensures
        ({
            let refused = resolved(base, Some(overrides));
            let right_jitter = overrides.backoff_jitter matches Some(jitter)
                ==> jitter.value.is_fraction();
            let right_statuses = overrides.http_statuses matches Some(statuses)
                ==> forall|other: u16| #[trigger]
                statuses@.contains(other) ==> 100 <= other <= 999;
            let right_initial = overrides.backoff_initial_ms matches Some(ms)
                ==> ms.value.is_amount();
            let right_max = overrides.backoff_max_ms matches Some(ms) ==> ms.value.is_amount();
            let right_after = overrides.max_retry_after_ms matches Some(ms)
                ==> ms.value.is_amount();
            let unit = "` must be a non-negative number of milliseconds, got "@;
            &&& !right_jitter ==> refused == Err::<RetryPolicyView, Seq<char>>(
                "`retry.backoffJitter` must be between 0 and 1, got "@
                    + overrides.backoff_jitter->0.text@ + "."@,
            )
            &&& right_jitter && !right_statuses && first_wrong_status(
                overrides.http_statuses->0@,
                status,
            ) ==> refused == Err::<RetryPolicyView, Seq<char>>(
                "`retry.httpStatuses` must contain HTTP status codes, got "@ + crate::text::decimal(
                    status as nat,
                ) + "."@,
            )
            &&& right_jitter && right_statuses && !right_initial ==> refused == Err::<
                RetryPolicyView,
                Seq<char>,
            >("`"@ + "retry.backoffInitialMs"@ + unit + overrides.backoff_initial_ms->0.text@ + "."@)
            &&& right_jitter && right_statuses && right_initial && !right_max ==> refused == Err::<
                RetryPolicyView,
                Seq<char>,
            >("`"@ + "retry.backoffMaxMs"@ + unit + overrides.backoff_max_ms->0.text@ + "."@)
            &&& right_jitter && right_statuses && right_initial && right_max && !right_after
                ==> refused == Err::<RetryPolicyView, Seq<char>>(
                "`"@ + "retry.maxRetryAfterMs"@ + unit + overrides.max_retry_after_ms->0.text@
                    + "."@,
            )
        }),
{
    if let Some(statuses) = overrides.http_statuses {
        if first_wrong_status(statuses@, status) {
            let chosen_status = choose|other: u16| first_wrong_status(statuses@, other);
            assert(chosen_status == status);
        }
        if forall|other: u16| #[trigger] statuses@.contains(other) ==> 100 <= other <= 999 {
            assert(!(exists|other: u16| first_wrong_status(statuses@, other)));
        }
    }
}

/// A value of `retry-after` that is neither a number nor a date is no delay.
pub proof fn law_other_values_are_no_delay(
    headers: HeaderMap,
    numbers: RetryAfterNumbers,
    now: UnixTime,
    text: Seq<char>,
)
    requires
        crate::headers::text_in(headers, "retry-after-ms"@) is None,
        crate::headers::text_in(headers, "retry-after"@) == Some(text),
        crate::text::trimmed(text).len() > 0,
        numbers.seconds matches Some(seconds) ==> !seconds.is_finite(),
        http_date(crate::text::trimmed(text)) is None,
    ensures
        retry_after_at(headers, numbers, now) is None,
{
}

/// The time that is left until a date goes by as the time does: a millisecond later, it is a
/// millisecond less.
pub proof fn law_dates_come_nearer(date: u64, now: UnixTime, later: UnixTime)
    requires
        later.since_epoch() == now.since_epoch() + 1_000_000,
        1_000_000 <= date * 1_000_000_000 - now.since_epoch() < 0x1_0000_0000_0000_0000 * 1_000_000,
    ensures
        millis_until(date, later) == millis_until(date, now) - 1,
{
    let left = date * 1_000_000_000 - now.since_epoch();
    assert((left - 1_000_000) / 1_000_000 == left / 1_000_000 - 1);
    assert(left / 1_000_000 % 0x1_0000_0000_0000_0000 == left / 1_000_000);
}

} // verus!
