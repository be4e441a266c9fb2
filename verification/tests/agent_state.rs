use yamete_kudasai_system::agent::{AgentState, COOLDOWN_MS};
use yamete_kudasai_system::event::{ErrorMatcher, ERROR_PATTERN};

#[test]
fn starts_at_end_of_log() {
    let mut s = AgentState::new(10);
    assert_eq!(s.poll(10), None);
    assert_eq!(s.cursor, 10);
}

#[test]
fn reads_only_new_text() {
    let mut s = AgentState::new(10);
    assert_eq!(s.poll(15), Some(10));
    assert_eq!(s.cursor, 15);
    assert_eq!(s.poll(15), None);
    assert_eq!(s.poll(20), Some(15));
}

#[test]
fn truncated_log_is_read_from_start() {
    let mut s = AgentState::new(100);
    assert_eq!(s.poll(5), Some(0));
    assert_eq!(s.cursor, 5);
    assert_eq!(s.poll(0), None);
    assert_eq!(s.cursor, 0);
}

#[test]
fn first_error_plays_at_once() {
    let mut s = AgentState::new(0);
    assert!(s.note_event(true, 0));
    assert_eq!(s.last_played_ms, Some(0));
}

#[test]
fn cooldown_spaces_plays() {
    let mut s = AgentState::new(0);
    assert!(s.note_event(true, 5_000));
    assert!(!s.note_event(true, 5_000 + COOLDOWN_MS - 1));
    assert!(!s.note_event(false, 9_000));
    assert!(s.note_event(true, 5_000 + COOLDOWN_MS));
    assert_eq!(s.last_played_ms, Some(7_000));
    assert!(!s.note_event(true, 6_000));
}

#[test]
fn non_errors_never_play() {
    let mut s = AgentState::new(0);
    assert!(!s.note_event(false, 100_000));
    assert_eq!(s.last_played_ms, None);
}

#[test]
fn lines_drive_plays() {
    let m = ErrorMatcher::new(ERROR_PATTERN).ok().unwrap();
    let mut s = AgentState::new(0);
    assert!(!s.on_line("t|bash|0|ls", 0, &m));
    assert!(s.on_line("t|bash|1|false", 10, &m));
    assert!(!s.on_line("t|bash|1|false", 20, &m));
    assert!(s.on_line("fatal: not a git repository", 3_000, &m));
}

#[test]
fn text_present_at_start_is_never_read() {
    let mut s = AgentState::new(500);
    assert_eq!(s.poll(500), None);
    assert_eq!(s.poll(520), Some(500));
    assert_eq!(s.poll(600), Some(520));
    assert_eq!(s.poll(600), None);
}

#[test]
fn error_after_quiet_period_plays() {
    let mut s = AgentState::new(0);
    assert!(s.note_event(true, 1_000));
    assert!(!s.note_event(false, 2_000));
    assert!(s.note_event(true, 1_000 + COOLDOWN_MS));
}
