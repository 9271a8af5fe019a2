//! Log levels.
use fooocus_plugin::setup::{log_level, LogLevel};

#[test]
fn informative_messages_are_logged_by_default() {
    assert_eq!(log_level(None), Some(LogLevel::Info));
}

#[test]
fn levels_are_named_in_any_case() {
    assert_eq!(log_level(Some("error")), Some(LogLevel::Error));
    assert_eq!(log_level(Some("Warn")), Some(LogLevel::Warn));
    assert_eq!(log_level(Some("INFO")), Some(LogLevel::Info));
    assert_eq!(log_level(Some("dEbUg")), Some(LogLevel::Debug));
    assert_eq!(log_level(Some("trace")), Some(LogLevel::Trace));
}

#[test]
fn levels_are_numbered() {
    assert_eq!(log_level(Some("1")), Some(LogLevel::Error));
    assert_eq!(log_level(Some("2")), Some(LogLevel::Warn));
    assert_eq!(log_level(Some("+3")), Some(LogLevel::Info));
    assert_eq!(log_level(Some("04")), Some(LogLevel::Debug));
    assert_eq!(log_level(Some("5")), Some(LogLevel::Trace));
}

#[test]
fn other_texts_are_no_levels() {
    for text in ["", "0", "6", "-1", "+", "1 ", " 1", "off", "warning", "99999999999999999999999"] {
        assert_eq!(log_level(Some(text)), None);
    }
}
