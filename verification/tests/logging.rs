use typesafe::json::parse_json;
use typesafe::logging::redact_key;
use typesafe::{parse_log_level, redact_headers, with_level, ConsoleLogger, LogEntry, LogLevel, LOG_LEVELS};

#[test]
fn parses_levels() {
    assert_eq!(parse_log_level("debug", "test").unwrap(), LogLevel::Debug);
    assert_eq!(parse_log_level("off", "test").unwrap(), LogLevel::Off);
    assert_eq!(
        parse_log_level("loud", "TYPESAFE_LOG_LEVEL").unwrap_err().to_string(),
        "Invalid log level \"loud\" from TYPESAFE_LOG_LEVEL. Expected one of: debug, info, warn, error, off."
    );
}

#[test]
fn each_level_is_the_one_of_its_name() {
    for level in LOG_LEVELS {
        assert_eq!(parse_log_level(level.as_str(), "test").unwrap(), level);
    }
    assert!(parse_log_level("Debug", "test").is_err());
    assert!(parse_log_level("", "test").is_err());
}

fn entry(level: LogLevel, message: &str) -> LogEntry {
    LogEntry { level, message: message.to_string(), data: None }
}

fn lines(entries: Vec<LogEntry>) -> Vec<String> {
    entries.into_iter().map(|entry| format!("{} {}", entry.level.as_str(), entry.message)).collect()
}

#[test]
fn filters_to_the_level_and_above() {
    let logger = with_level(LogLevel::Warn);
    let through = logger.filter(vec![
        entry(LogLevel::Debug, "a"),
        entry(LogLevel::Info, "b"),
        entry(LogLevel::Warn, "c"),
        entry(LogLevel::Error, "d"),
    ]);
    assert_eq!(lines(through), ["warn c", "error d"]);

    assert!(with_level(LogLevel::Off).filter(vec![entry(LogLevel::Error, "x")]).is_empty());
}

#[test]
fn the_most_verbose_level_keeps_the_order_of_everything() {
    let all = || vec![entry(LogLevel::Error, "a"), entry(LogLevel::Debug, "b"), entry(LogLevel::Info, "c")];
    assert_eq!(with_level(LogLevel::Debug).filter(all()), all());
}

#[test]
fn a_level_enables_itself_and_those_above() {
    let logger = with_level(LogLevel::Info);
    assert!(!logger.enabled(LogLevel::Debug));
    assert!(logger.enabled(LogLevel::Info));
    assert!(logger.enabled(LogLevel::Error));
    assert!(LogLevel::Debug < LogLevel::Off);
}

#[test]
fn console_lines_have_the_prefix_the_level_and_the_data() {
    assert_eq!(ConsoleLogger::line(LogLevel::Info, "hello", None), "[typesafe-sdk] info: hello");
    let data = parse_json("{\"a\": [1, true]}").unwrap();
    assert_eq!(
        ConsoleLogger::line(LogLevel::Debug, "hello", Some(&data)),
        "[typesafe-sdk] debug: hello {\"a\":[1,true]}"
    );
}

#[test]
fn redacts_credentials() {
    let pair = |name: &str, value: &str| (name.to_string(), value.to_string());
    let redacted = redact_headers(&[
        pair("Authorization", "Bearer sk-1234567890abcd"),
        pair("x-api-key", "short"),
        pair("X-API-Key", "longer-secret-wxyz"),
        pair("Cookie", "session=1"),
        pair("Accept", "application/json"),
    ]);
    assert_eq!(redacted[0].1, "Bearer ***abcd");
    assert_eq!(redacted[1].1, "***");
    assert_eq!(redacted[2].1, "***wxyz");
    assert_eq!(redacted[3].1, "***");
    assert_eq!(redacted[4].1, "application/json");
}

#[test]
fn redaction_depends_on_the_scheme_and_the_tail_alone() {
    let shown = |name: &str, value: &str| redact_headers(&[(name.to_string(), value.to_string())])[0].1.clone();
    assert_eq!(shown("authorization", "Bearer 12345678"), "Bearer ***");
    assert_eq!(shown("authorization", "Bearer 123456789"), "Bearer ***6789");
    assert_eq!(shown("authorization", "Bearer other-6789"), "Bearer ***6789");
    assert_eq!(shown("PROXY-AUTHORIZATION", "Basic  secret-words-here more"), "Basic ***here");
    assert_eq!(shown("x-api-key", " "), "***");
    assert_eq!(shown("x-api-key", "Bearer "), "***");
    assert_eq!(shown("x-api-key", "Bearer longer-secret-wxyz"), "Bearer ***wxyz");
    assert_eq!(shown("x-api-key", "first-secret second"), "first-secret ***");
    assert_eq!(shown("X-Api-Key", " longer-secret-wxyz "), "***wxyz");
    assert_eq!(shown("authorization", " "), "***");
    assert_eq!(shown("authorization", "Bearer "), "***");
    assert_eq!(shown("authorization", "sk-1234567890abcd "), "***abcd");
    assert_eq!(shown("authorization", " sk-1234567890abcd"), "***abcd");
    assert_eq!(shown("Set-Cookie", "anything at all"), "***");
    assert_eq!(shown("x-api-key", "ключ-секрет"), "***крет");
    assert_eq!(shown("X-Trace", "Bearer 123456789"), "Bearer 123456789");
}

#[test]
fn a_key_is_masked_alike_with_and_without_a_scheme() {
    assert_eq!(redact_key("sk-1234567890abcd"), "***abcd");
    assert_eq!(redact_key("another-abcd"), "***abcd");
    assert_eq!(redact_key("12345678"), "***");
    assert_eq!(redact_key("Bearer sk-1234567890abcd"), "Bearer ***abcd");
    assert_eq!(redact_key("Bearer another-abcd"), "Bearer ***abcd");
    assert_eq!(redact_key("Bearer 12345678"), "Bearer ***");
    assert_eq!(redact_key("sk-1234567890abcd "), "***abcd");
}
