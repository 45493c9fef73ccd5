use reqwest::header::{HeaderMap, HeaderValue};
use typesafe::retry::{backoff_delay, delay_after, honored_delay, retry_after_texts};
use typesafe::{
    parse_retry_after, retry_delay_ms, Binary64, Error, GivenNumber, RetryAfterNumbers, RetryOverrides, RetryPolicy, UnixTime,
};

fn number(value: f64) -> Binary64 {
    Binary64 { bits: value.to_bits() }
}

fn given(value: f64) -> Option<GivenNumber> {
    Some(GivenNumber { value: number(value), text: value.to_string() })
}

fn headers(pairs: &[(&'static str, &str)]) -> HeaderMap {
    let mut map = HeaderMap::new();
    for (name, value) in pairs {
        map.insert(*name, HeaderValue::from_str(value).unwrap());
    }
    map
}

fn numbers(headers: &HeaderMap) -> RetryAfterNumbers {
    let parse = |text: Option<String>| text.and_then(|text| text.parse::<f64>().ok()).map(number);
    let texts = retry_after_texts(headers);
    RetryAfterNumbers { ms: parse(texts.ms), seconds: parse(texts.seconds) }
}

fn parsed(pairs: &[(&'static str, &str)], now: Option<UnixTime>) -> Option<u64> {
    let headers = headers(pairs);
    parse_retry_after(&headers, &numbers(&headers), now)
}

fn delay(attempt: u32, pairs: Option<&[(&'static str, &str)]>, policy: &RetryPolicy, random: f64) -> u64 {
    let none = RetryAfterNumbers { ms: None, seconds: None };
    match pairs {
        Some(pairs) => {
            let headers = headers(pairs);
            retry_delay_ms(attempt, Some(&headers), &numbers(&headers), policy, number(random))
        }
        None => retry_delay_ms(attempt, None, &none, policy, number(random)),
    }
}

#[test]
fn default_policy_retries_408_429_and_5xx() {
    let policy = RetryPolicy::default();
    for status in [408, 429, 500, 503, 599] {
        assert!(policy.is_retryable_status(status), "{status}");
    }
    for status in [200, 400, 401, 404, 422, 600] {
        assert!(!policy.is_retryable_status(status), "{status}");
    }
}

#[test]
fn default_policy_has_the_documented_values() {
    let policy = RetryPolicy::default();
    assert_eq!(policy.max_retries, 2);
    assert_eq!(policy.backoff_initial_ms, number(500.0));
    assert_eq!(policy.backoff_max_ms, number(5000.0));
    assert_eq!(policy.backoff_jitter, number(0.25));
    assert_eq!(policy.max_retry_after_ms, number(60000.0));
    assert_eq!(policy.http_statuses.len(), 102);
    assert!(policy.respect_retry_after && policy.api_connection_error && policy.api_timeout_error);
    assert_eq!(policy.clone(), policy);
}

#[test]
fn parses_retry_after_ms_first() {
    assert_eq!(parsed(&[("retry-after-ms", "250"), ("retry-after", "9")], None), Some(250));
    assert_eq!(parsed(&[("retry-after-ms", "nope"), ("retry-after", "2")], None), Some(2000));
    assert_eq!(parsed(&[("retry-after-ms", "-5"), ("retry-after", "1.5")], None), Some(1500));
}

#[test]
fn parses_retry_after_seconds_and_dates() {
    assert_eq!(parsed(&[("retry-after", "3")], None), Some(3000));
    assert_eq!(parsed(&[("retry-after", "-1")], None), None);
    assert_eq!(parsed(&[("retry-after", "soon")], None), None);
    assert_eq!(parsed(&[], None), None);

    let epoch = std::time::SystemTime::UNIX_EPOCH;
    let since = httpdate::parse_http_date("Wed, 21 Oct 2015 07:28:00 GMT").unwrap().duration_since(epoch).unwrap();
    let now = UnixTime { before_epoch: false, secs: since.as_secs(), nanos: since.subsec_nanos() };
    assert_eq!(now.secs, 1445412480);
    let later = [("retry-after", "Wed, 21 Oct 2015 07:28:10 GMT")];
    assert_eq!(parsed(&later, Some(now)), Some(10_000));
    let earlier = [("retry-after", "Wed, 21 Oct 2015 07:27:00 GMT")];
    assert_eq!(parsed(&earlier, Some(now)), Some(0));
}

#[test]
fn holds_dates_against_a_clock_of_any_time() {
    let date = [("retry-after", "  Thu, 01 Jan 1970 00:00:02 GMT ")];
    let at = |before_epoch, secs, nanos| Some(UnixTime { before_epoch, secs, nanos });
    assert_eq!(parsed(&date, at(false, 0, 500_000_000)), Some(1500));
    assert_eq!(parsed(&date, at(false, 1, 999_999_999)), Some(0));
    assert_eq!(parsed(&date, at(false, 1, 999_000_000)), Some(1));
    assert_eq!(parsed(&date, at(true, 3, 1_000_000)), Some(5001));
    // Dates against the real clock: one that is past, and one that is thousands of years ahead.
    assert_eq!(parsed(&date, None), Some(0));
    let far = parsed(&[("retry-after", "Fri, 31 Dec 9999 23:59:59 GMT")], None).unwrap();
    assert!(far > 200_000_000_000_000 && far < 253_402_300_800_000, "{far}");
}

#[test]
fn reads_numbers_as_they_are_written() {
    assert_eq!(parsed(&[("retry-after-ms", "")], None), Some(0));
    assert_eq!(parsed(&[("retry-after", "  ")], None), Some(0));
    assert_eq!(parsed(&[("retry-after-ms", " 2.5 ")], None), Some(3));
    assert_eq!(parsed(&[("retry-after-ms", "2.4999")], None), Some(2));
    assert_eq!(parsed(&[("retry-after-ms", "-0")], None), Some(0));
    assert_eq!(parsed(&[("retry-after-ms", "inf"), ("retry-after", "1e3")], None), Some(1_000_000));
    assert_eq!(parsed(&[("retry-after", "nan")], None), None);
    assert_eq!(parsed(&[("retry-after-ms", "1e300")], None), Some(u64::MAX));
    assert_eq!(parsed(&[("retry-after", "0.0005")], None), Some(1));
}

#[test]
fn finds_the_texts_of_the_delay_headers() {
    let mut map = headers(&[("Retry-After-Ms", " 7 ")]);
    map.insert("retry-after", HeaderValue::from_bytes(b"\xff").unwrap());
    let texts = retry_after_texts(&map);
    assert_eq!(texts.ms.as_deref(), Some("7"));
    assert_eq!(texts.seconds, None);
}

#[test]
fn backs_off_exponentially_with_a_cap_and_jitter() {
    let policy = RetryPolicy::default();
    assert_eq!(delay(0, None, &policy, 0.0), 500);
    assert_eq!(delay(1, None, &policy, 0.0), 1000);
    assert_eq!(delay(2, None, &policy, 0.0), 2000);
    assert_eq!(delay(10, None, &policy, 0.0), 5000);
    assert_eq!(delay(0, None, &policy, 1.0), 375);
}

#[test]
fn uses_the_server_delay_when_it_is_allowed() {
    let policy = RetryPolicy::default();
    assert_eq!(delay(0, Some(&[("retry-after", "2")]), &policy, 0.0), 2000);
    // A delay over the maximum falls back to backoff.
    assert_eq!(delay(0, Some(&[("retry-after", "120")]), &policy, 0.0), 500);
    let ignore = RetryPolicy { respect_retry_after: false, ..RetryPolicy::default() };
    assert_eq!(delay(0, Some(&[("retry-after", "2")]), &ignore, 0.0), 500);
}

#[test]
fn allows_a_server_delay_up_to_the_maximum() {
    let policy = RetryPolicy::default();
    let random = number(0.0);
    assert_eq!(delay_after(0, Some(60_000), &policy, random), 60_000);
    assert_eq!(delay_after(0, Some(60_001), &policy, random), 500);
    assert_eq!(delay_after(0, Some(0), &policy, random), 0);
}

#[test]
fn delays_are_those_of_native_arithmetic() {
    let mut seed: u64 = 0x9e37_79b9_7f4a_7c15;
    let mut next = || {
        seed ^= seed << 13;
        seed ^= seed >> 7;
        seed ^= seed << 17;
        (seed >> 11) as f64 / (1u64 << 53) as f64
    };
    for round in 0..4000u32 {
        let scale = 10f64.powi(round as i32 % 40 - 20);
        let policy = RetryPolicy {
            backoff_initial_ms: number(next() * scale),
            backoff_max_ms: number(next() * scale * 1000.0),
            backoff_jitter: number(if round % 7 == 0 { 1.0 } else { next() }),
            max_retry_after_ms: number(next() * 1e6),
            ..RetryPolicy::default()
        };
        let random = if round % 11 == 0 { 1.0 } else { next() };
        let attempt = round % 70;
        let retry_after = (next() * 2e6) as u64;
        let float = |number: Binary64| f64::from_bits(number.bits);
        let exponential = (float(policy.backoff_initial_ms) * 2f64.powi(attempt as i32)).min(float(policy.backoff_max_ms));
        let backoff = (exponential * (1.0 - random * float(policy.backoff_jitter))).round() as u64;
        assert_eq!(delay_after(attempt, None, &policy, number(random)), backoff, "{round}");
        let expected = if retry_after as f64 <= float(policy.max_retry_after_ms) { retry_after } else { backoff };
        assert_eq!(delay_after(attempt, Some(retry_after), &policy, number(random)), expected, "{round}");
    }
}

#[test]
fn delays_of_any_numbers_are_those_of_native_arithmetic() {
    let special = [
        0.0, -0.0, 1.0, -1.0, 0.5, 2.0, 1.5, -3.0, 5e-324, f64::MIN_POSITIVE, f64::MAX, f64::MIN, f64::INFINITY,
        f64::NEG_INFINITY, f64::NAN, 1e17, -1e17, 1e-17, 9007199254740993.0, 576460752303423488.0,
        1152921504606846976.0, -1152921504606846976.0, 1e20, 1.0000000000000002, 0.9999999999999999, -5e-324,
        1e-33, 4503599627370497.5,
    ];
    let mut seed: u64 = 0x2545_f491_4f6c_dd1d;
    let mut next = || {
        seed ^= seed << 13;
        seed ^= seed >> 7;
        seed ^= seed << 17;
        seed
    };
    for round in 0..60000u32 {
        let mut any = || match next() % 4 {
            0 => f64::from_bits(next()),
            1 => (next() % 4000) as f64 / 1000.0 - 1.0,
            2 => (2f64.powi((next() % 160) as i32 - 60) * (1.0 + (next() % 1024) as f64 / 1024.0)) * if next() % 2 == 0 { 1.0 } else { -1.0 },
            _ => special[(next() % special.len() as u64) as usize],
        };
        let (initial, max, jitter, random, max_after) = (any(), any(), any(), any(), any());
        let attempt = if round % 5 == 0 { round % 2100 } else { round % 80 };
        let policy = RetryPolicy {
            backoff_initial_ms: number(initial),
            backoff_max_ms: number(max),
            backoff_jitter: number(jitter),
            max_retry_after_ms: number(max_after),
            ..RetryPolicy::default()
        };
        let grown = (0..attempt).fold(initial, |delay, _| delay * 2.0);
        let exponential = grown.min(max);
        let backoff = (exponential * (1.0 - random * jitter)).round() as u64;
        let shown = format!("{initial:e} {max:e} {jitter:e} {random:e} {attempt}");
        assert_eq!(delay_after(attempt, None, &policy, number(random)), backoff, "{shown}");
        let retry_after = next() >> (next() % 64);
        let expected = if retry_after as f64 <= max_after { retry_after } else { backoff };
        assert_eq!(delay_after(attempt, Some(retry_after), &policy, number(random)), expected, "{shown}");
    }
}

#[test]
fn the_backoff_doubles_until_it_is_at_its_maximum() {
    let tiny = RetryPolicy { backoff_initial_ms: number(5e-324), ..RetryPolicy::default() };
    assert_eq!(delay_after(1023, None, &tiny, number(0.0)), 0);
    assert_eq!(delay_after(1024, None, &tiny, number(0.0)), 0);
    assert_eq!(delay_after(1074, None, &tiny, number(0.0)), 1);
    assert_eq!(delay_after(1075, None, &tiny, number(0.0)), 2);
    assert_eq!(delay_after(1086, None, &tiny, number(0.0)), 4096);
    assert_eq!(delay_after(1087, None, &tiny, number(0.0)), 5000);
    assert_eq!(delay_after(u32::MAX, None, &tiny, number(0.0)), 5000);
    let none = RetryPolicy { backoff_initial_ms: number(0.0), ..RetryPolicy::default() };
    for attempt in [0, 1000, 1023, 1024, 5000, u32::MAX] {
        assert_eq!(delay_after(attempt, None, &none, number(0.0)), 0);
    }
    for attempt in [4, 1023, 1024, u32::MAX - 1, u32::MAX] {
        assert_eq!(delay_after(attempt, None, &RetryPolicy::default(), number(0.0)), 5000);
    }
}

#[test]
fn a_server_delay_that_is_honored_needs_no_backoff() {
    let policy = RetryPolicy::default();
    assert_eq!(honored_delay(Some(60_000), &policy), Some(60_000));
    assert_eq!(honored_delay(Some(60_001), &policy), None);
    assert_eq!(honored_delay(None, &policy), None);
    let own = RetryPolicy { respect_retry_after: false, ..RetryPolicy::default() };
    assert_eq!(honored_delay(Some(1), &own), None);
    assert_eq!(backoff_delay(2, &policy, number(0.0)), 2000);
    assert_eq!(backoff_delay(2, &policy, number(1.0)), 1500);
}

#[test]
fn jitter_shortens_a_delay_and_the_cap_bounds_it() {
    let policy = RetryPolicy::default();
    for attempt in 0..12 {
        let whole = delay_after(attempt, None, &policy, number(0.0));
        let cut = delay_after(attempt, None, &policy, number(0.7));
        assert!(cut <= whole && whole <= 5000, "{attempt}");
        assert!(cut >= whole * 3 / 4, "{attempt}");
    }
    let even = RetryPolicy { backoff_jitter: number(0.0), ..RetryPolicy::default() };
    assert_eq!(delay_after(3, None, &even, number(0.9)), 4000);
}

#[test]
fn validates_overrides() {
    let base = RetryPolicy::default();
    let bad_jitter = RetryOverrides { backoff_jitter: given(1.5), ..Default::default() };
    assert_eq!(
        base.resolve(Some(&bad_jitter)).unwrap_err().to_string(),
        "`retry.backoffJitter` must be between 0 and 1, got 1.5."
    );
    let bad_status = RetryOverrides { http_statuses: Some([42].into()), ..Default::default() };
    assert_eq!(
        base.resolve(Some(&bad_status)).unwrap_err().to_string(),
        "`retry.httpStatuses` must contain HTTP status codes, got 42."
    );
    let bad_ms = RetryOverrides { backoff_max_ms: given(-1.0), ..Default::default() };
    assert!(base.resolve(Some(&bad_ms)).is_err());

    let merged = base.resolve(Some(&RetryOverrides { max_retries: Some(0), ..Default::default() })).unwrap();
    assert_eq!(merged.max_retries, 0);
    assert_eq!(merged.backoff_initial_ms, number(500.0));
}

#[test]
fn names_what_is_wrong_with_overrides() {
    let message = |overrides: RetryOverrides| RetryPolicy::default().resolve(Some(&overrides)).unwrap_err().to_string();
    assert_eq!(
        message(RetryOverrides { backoff_initial_ms: given(-1.0), ..Default::default() }),
        "`retry.backoffInitialMs` must be a non-negative number of milliseconds, got -1."
    );
    assert_eq!(
        message(RetryOverrides { backoff_max_ms: given(f64::NAN), ..Default::default() }),
        "`retry.backoffMaxMs` must be a non-negative number of milliseconds, got NaN."
    );
    assert_eq!(
        message(RetryOverrides { max_retry_after_ms: given(f64::INFINITY), ..Default::default() }),
        "`retry.maxRetryAfterMs` must be a non-negative number of milliseconds, got inf."
    );
    assert_eq!(
        message(RetryOverrides { http_statuses: Some([1000, 503, 7, 99].into()), ..Default::default() }),
        "`retry.httpStatuses` must contain HTTP status codes, got 7."
    );
    // The jitter comes first, then the statuses.
    let all = RetryOverrides {
        backoff_jitter: given(f64::NAN),
        http_statuses: Some([1000].into()),
        backoff_initial_ms: given(-1.0),
        ..Default::default()
    };
    assert_eq!(message(all), "`retry.backoffJitter` must be between 0 and 1, got NaN.");
}

#[test]
fn accepts_the_edges_of_what_is_valid() {
    let base = RetryPolicy::default();
    let edges = RetryOverrides {
        backoff_initial_ms: given(-0.0),
        backoff_max_ms: given(f64::MAX),
        backoff_jitter: given(1.0),
        http_statuses: Some([100, 999].into()),
        max_retry_after_ms: given(0.0),
        ..Default::default()
    };
    assert_eq!(edges.clone(), edges);
    let policy = base.resolve(Some(&edges)).unwrap();
    assert_eq!(policy.backoff_initial_ms, number(0.0));
    assert!(policy.is_retryable_status(999) && !policy.is_retryable_status(503));
    assert_eq!(base.resolve(None).unwrap(), base);
    assert_eq!(base.resolve(Some(&RetryOverrides::default())).unwrap(), base);
}

#[test]
fn retries_errors_as_the_policy_says() {
    let policy = RetryPolicy { api_timeout_error: false, ..RetryPolicy::default() };
    assert!(policy.is_retryable_error(&Error::connection(None)));
    assert!(!policy.is_retryable_error(&Error::Timeout { timeout_ms: 5 }));
    assert!(!policy.is_retryable_error(&Error::UserAbort));
    assert!(!policy.is_retryable_error(&Error::TypeSafe("x".to_string())));
}
