use yamete_kudasai_system::agent::split_lines;
use yamete_kudasai_system::event::{
    classify_event_line, is_error_event, parse_i32_chars, trim_text, ErrorMatcher, EventLine,
    ERROR_PATTERN,
};

fn matcher() -> ErrorMatcher {
    match ErrorMatcher::new(ERROR_PATTERN) {
        Ok(m) => m,
        Err(e) => panic!("{e}"),
    }
}

fn parse(s: &str) -> Option<i32> {
    parse_i32_chars(&s.chars().collect())
}

#[test]
fn trims_unicode_white_space() {
    assert_eq!(trim_text("\u{3000} x y\t\r\n"), "x y");
    assert_eq!(trim_text(" \u{85}\u{a0} "), "");
    assert_eq!(trim_text("abc"), "abc");
}

#[test]
fn parses_like_std() {
    for s in ["0", "1", "-1", "+7", "007", "-2147483648", "2147483647", "2147483648", "-2147483649",
        "", "+", "-", "1a", " 1", "99999999999999999999", "--1", "+-1"] {
        assert_eq!(parse(s), s.parse::<i32>().ok(), "{s:?}");
    }
}

#[test]
fn classifies_lines() {
    assert!(matches!(classify_event_line("   \t"), EventLine::Blank));
    assert!(matches!(classify_event_line("t|bash|1|false"), EventLine::FailedStatus));
    assert!(matches!(classify_event_line("t|bash| -3 |x|y|z"), EventLine::FailedStatus));
    assert!(matches!(classify_event_line("t|bash|127"), EventLine::FailedStatus));
    match classify_event_line("  t|bash|0|ls  ") {
        EventLine::Other(t) => assert_eq!(t, "t|bash|0|ls"),
        _ => panic!("expected other"),
    }
    assert!(matches!(classify_event_line("t|bash|+0|x"), EventLine::Other(_)));
    assert!(matches!(classify_event_line("t|bash|abc|x"), EventLine::Other(_)));
    assert!(matches!(classify_event_line("t|bash|2147483648|x"), EventLine::Other(_)));
    assert!(matches!(classify_event_line("t|bash|-2147483648|x"), EventLine::FailedStatus));
    assert!(matches!(classify_event_line("t|bash"), EventLine::Other(_)));
    assert!(matches!(classify_event_line("t|bash|"), EventLine::Other(_)));
}

#[test]
fn nonzero_exit_code_is_an_error() {
    let m = matcher();
    assert!(is_error_event("2024-01-01T00:00:00|bash|2|make", &m));
    assert!(is_error_event("unix-1|self-test|1|manual self test", &m));
}

#[test]
fn pattern_words_are_errors() {
    let m = matcher();
    assert!(is_error_event("t|bash|0|cargo build FAILED", &m));
    assert!(is_error_event("Traceback (most recent call last):", &m));
    assert!(is_error_event("zsh: command not found: gti", &m));
    assert!(is_error_event("thread main panicked? no: panic here", &m));
}

#[test]
fn ordinary_lines_are_not_errors() {
    let m = matcher();
    assert!(!is_error_event("t|bash|0|ls -la", &m));
    assert!(!is_error_event("   ", &m));
    assert!(!is_error_event("", &m));
    assert!(!is_error_event("errors are plural here", &m));
}

#[test]
fn bad_pattern_is_reported() {
    match ErrorMatcher::new("(") {
        Ok(_) => panic!("expected an error"),
        Err(e) => assert!(e.starts_with("Invalid error regex: ") && e.len() > 21),
    }
}

#[test]
fn splits_lines_like_std() {
    for s in ["a\r\nb\n\nc\r", "", "x\n", "\n", "one", "a\rb\r\n", "\n\n", "ü\nñ\r\n"] {
        let expected: Vec<String> = s.lines().map(|l| l.to_string()).collect();
        assert_eq!(split_lines(s), expected, "{s:?}");
    }
}

#[test]
fn hook_lines_for_failed_commands_are_errors() {
    let m = matcher();
    for code in [1, 2, 127, 255, -1, i32::MIN, i32::MAX] {
        for shell in ["bash", "zsh", "powershell"] {
            let line = format!("2024-05-01T10:00:00+0200|{shell}|{code}|ls   ");
            assert!(is_error_event(&line, &m), "{line}");
        }
    }
    assert!(is_error_event("2024-05-01T10:00:00+0200|bash|1|", &m));
    assert!(!is_error_event("2024-05-01T10:00:00+0200|bash|0|ls", &m));
}

#[test]
fn self_test_line_is_an_error() {
    use_self_test_line(0);
    use_self_test_line(1_700_000_000);
}

fn use_self_test_line(secs: u64) {
    let line = yamete_kudasai_system::report::self_test_event_line(
        &yamete_kudasai_system::report::chrono_like_timestamp(secs),
    );
    assert!(is_error_event(&line, &matcher()));
}
