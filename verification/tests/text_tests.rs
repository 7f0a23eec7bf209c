use pironman5::logger::{debug_level_filter, enabled, parse_debug_level, LogLevel, Severity};
use pironman5::text::{contains_str, decimal_string, lines, trim, words, zero_padded_string};

#[test]
fn text_helpers() {
    assert_eq!(trim("  a b \n"), "a b");
    assert_eq!(trim("   "), "");
    assert_eq!(lines("a\r\nb\n\nc"), vec!["a", "b", "", "c"]);
    assert_eq!(lines("a\n"), vec!["a"]);
    assert_eq!(lines("x\r"), vec!["x\r"]);
    assert_eq!(lines(""), Vec::<String>::new());
    assert_eq!(words("  one\ttwo  three "), vec!["one", "two", "three"]);
    assert_eq!(words(""), Vec::<String>::new());
    assert!(contains_str("inet 10.0", "inet "));
    assert!(!contains_str("inet6", "inet "));
    assert!(contains_str("abc", ""));
    assert_eq!(decimal_string(0), "0");
    assert_eq!(decimal_string(1234567890), "1234567890");
    assert_eq!(zero_padded_string(7, 2), "07");
    assert_eq!(zero_padded_string(123, 2), "123");
}

#[test]
fn log_levels() {
    assert_eq!(parse_debug_level("debug"), Some(LogLevel::Debug));
    assert_eq!(parse_debug_level("Info"), Some(LogLevel::Info));
    assert_eq!(parse_debug_level("warning"), Some(LogLevel::Warn));
    assert_eq!(parse_debug_level("WARN"), Some(LogLevel::Warn));
    assert_eq!(parse_debug_level("error"), Some(LogLevel::Error));
    assert_eq!(parse_debug_level("critical"), Some(LogLevel::Error));
    assert_eq!(parse_debug_level("verbose"), None);
    assert_eq!(debug_level_filter("verbose"), LogLevel::Info);
    assert!(enabled(Severity::Error, LogLevel::Info));
    assert!(enabled(Severity::Info, LogLevel::Info));
    assert!(!enabled(Severity::Debug, LogLevel::Info));
    assert!(!enabled(Severity::Error, LogLevel::Off));
    assert!(enabled(Severity::Trace, LogLevel::Trace));
}
