use std::collections::VecDeque;
use type_bridge::keyboard::{set_enabled, KeyCommand, TypingSwitch};
use type_bridge::server::{
    add_to_history, check_token, request_allowed, urlencoding, AppState, ClientEvent,
    HISTORY_MAX,
};

const TEST_TOKEN: &str = "abc123";

// ── add_to_history unit tests ────────────────────────────────

#[test]
fn test_add_to_history_inserts_entry() {
    let mut h = VecDeque::new();
    assert!(add_to_history(&mut h, "hello", 30));
    assert_eq!(h.len(), 1);
    assert_eq!(h.front().unwrap(), "hello");
}

#[test]
fn test_add_to_history_dedup_consecutive() {
    let mut h = VecDeque::new();
    assert!(add_to_history(&mut h, "hello", 30));
    assert!(!add_to_history(&mut h, "hello", 30));
    assert_eq!(h.len(), 1);
}

#[test]
fn test_add_to_history_allows_different_after_same() {
    let mut h = VecDeque::new();
    assert!(add_to_history(&mut h, "hello", 30));
    assert!(!add_to_history(&mut h, "hello", 30));
    assert!(add_to_history(&mut h, "world", 30));
    assert_eq!(h.len(), 2);
}

#[test]
fn test_add_to_history_respects_max() {
    let mut h = VecDeque::new();
    for i in 0..30 {
        assert!(add_to_history(&mut h, &format!("text-{i}"), 30));
    }
    assert_eq!(h.len(), 30);
    assert_eq!(h.back().unwrap(), "text-0");
    assert!(add_to_history(&mut h, "new-text", 30));
    assert_eq!(h.len(), 30);
    assert_eq!(h.front().unwrap(), "new-text");
    assert_eq!(h.back().unwrap(), "text-1");
}

#[test]
fn test_add_to_history_rejects_empty() {
    let mut h = VecDeque::new();
    assert!(!add_to_history(&mut h, "", 30));
    assert!(!add_to_history(&mut h, "   ", 30));
    assert!(h.is_empty());
}

#[test]
fn add_to_history_trims_and_dedups_after_trimming() {
    let mut h = VecDeque::new();
    assert!(add_to_history(&mut h, "  hi there\t\n", 30));
    assert_eq!(h.front().unwrap(), "hi there");
    assert!(!add_to_history(&mut h, "hi there   ", 30));
    assert!(add_to_history(&mut h, "\u{3000}other\u{a0}", 30));
    assert_eq!(h.front().unwrap(), "other");
    assert_eq!(h.len(), 2);
}

#[test]
fn add_to_history_allows_repeat_that_is_not_newest() {
    let mut h = VecDeque::new();
    assert!(add_to_history(&mut h, "a", 30));
    assert!(add_to_history(&mut h, "b", 30));
    assert!(add_to_history(&mut h, "a", 30));
    assert_eq!(h.iter().map(|s| s.as_str()).collect::<Vec<_>>(), vec!["a", "b", "a"]);
}

// ── check_token unit tests ──────────────────────────────────

#[test]
fn test_check_token_valid() {
    assert!(check_token("token=abc123&other=x", TEST_TOKEN));
    assert!(check_token("token=abc123", TEST_TOKEN));
    assert!(check_token("a=1&token=abc123", TEST_TOKEN));
}

#[test]
fn test_check_token_invalid() {
    assert!(!check_token("token=wrong", TEST_TOKEN));
    assert!(!check_token("token=", TEST_TOKEN));
    assert!(!check_token("", TEST_TOKEN));
    assert!(!check_token("other=abc123", TEST_TOKEN));
}

#[test]
fn test_check_token_url_encoded() {
    assert!(check_token("token=abc%31%32%33", "abc123"));
}

#[test]
fn check_token_reads_only_the_first_token_parameter() {
    assert!(!check_token("token=wrong&token=abc123", TEST_TOKEN));
    assert!(check_token("token=abc123&token=wrong", TEST_TOKEN));
    assert!(!check_token("xtoken=abc123", TEST_TOKEN));
    assert!(check_token("&&token=abc123&", TEST_TOKEN));
    assert!(check_token("token=a+b", "a b"));
}

#[test]
fn test_urlencoding_basic() {
    assert_eq!(urlencoding("abc%20def"), "abc def");
    assert_eq!(urlencoding("hello+world"), "hello world");
    assert_eq!(urlencoding("noescape"), "noescape");
    assert_eq!(urlencoding("%21%40%23"), "!@#");
}

#[test]
fn urlencoding_keeps_bad_escapes_as_percent() {
    assert_eq!(urlencoding("%zzab"), "%ab");
    assert_eq!(urlencoding("%4"), "%");
    assert_eq!(urlencoding("%"), "%");
    assert_eq!(urlencoding("a%4g1"), "a%1");
    assert_eq!(urlencoding("%41%62"), "Ab");
    assert_eq!(urlencoding("%e9"), "\u{e9}");
}

// ── request gate ────────────────────────────────────────────

#[test]
fn index_needs_the_token() {
    assert!(!request_allowed("/", "", TEST_TOKEN));
    assert!(!request_allowed("/", "token=wrong", TEST_TOKEN));
    assert!(request_allowed("/", "token=abc123", TEST_TOKEN));
}

#[test]
fn socket_io_handshake_needs_the_token() {
    assert!(!request_allowed("/socket.io/", "EIO=4&transport=polling", TEST_TOKEN));
    assert!(!request_allowed("/socket.io", "EIO=4&transport=polling", TEST_TOKEN));
    assert!(!request_allowed("/socket.io/", "EIO=4&transport=polling&token=wrong-token", TEST_TOKEN));
    assert!(request_allowed("/socket.io/", "EIO=4&transport=polling&token=abc123", TEST_TOKEN));
}

#[test]
fn socket_io_polling_with_sid_passes() {
    assert!(request_allowed(
        "/socket.io/",
        "EIO=4&transport=polling&sid=existing-session-id",
        TEST_TOKEN
    ));
}

#[test]
fn other_paths_pass_the_gate() {
    assert!(request_allowed("/sio.min.js", "", TEST_TOKEN));
    assert!(request_allowed("/nonexistent", "token=abc123", TEST_TOKEN));
    assert!(request_allowed("/socket.iox", "", TEST_TOKEN));
}

// ── events from the phone ───────────────────────────────────

#[test]
fn type_text_event_records_history_and_types_raw_text() {
    let mut st = AppState::new(TEST_TOKEN.to_string());
    let sw = TypingSwitch::new();
    let out = st.handle_event(ClientEvent::TypeText("  hello e2e ".into()), &sw);
    assert!(matches!(&out.command, Some(KeyCommand::TypeText(t)) if t == "  hello e2e "));
    assert_eq!(out.history.unwrap(), vec!["hello e2e".to_string()]);
    assert_eq!(st.history_entries(), vec!["hello e2e".to_string()]);
}

#[test]
fn key_events_map_to_commands() {
    let mut st = AppState::new(TEST_TOKEN.to_string());
    let sw = TypingSwitch::new();
    assert!(matches!(st.handle_event(ClientEvent::Backspace, &sw).command, Some(KeyCommand::Backspace)));
    assert!(matches!(
        st.handle_event(ClientEvent::PressKey("enter".into()), &sw).command,
        Some(KeyCommand::Enter)
    ));
    assert!(st.handle_event(ClientEvent::PressKey("tab".into()), &sw).command.is_none());
    assert!(matches!(
        st.handle_event(ClientEvent::ClearInput, &sw).command,
        Some(KeyCommand::ClearPcField)
    ));
    assert!(st.handle_event(ClientEvent::Backspace, &sw).history.is_none());
}

#[test]
fn paused_typing_still_records_history() {
    let mut st = AppState::new(TEST_TOKEN.to_string());
    let mut sw = TypingSwitch::new();
    set_enabled(&mut sw, false);
    let out = st.handle_event(ClientEvent::TypeText("note".into()), &sw);
    assert!(out.command.is_none());
    assert_eq!(out.history.unwrap(), vec!["note".to_string()]);
    assert!(st.handle_event(ClientEvent::Backspace, &sw).command.is_none());
}

#[test]
fn app_state_authorizes_by_token() {
    let st = AppState::new(TEST_TOKEN.to_string());
    assert!(st.authorized("EIO=4&token=abc123"));
    assert!(!st.authorized("EIO=4&token=abc"));
    assert_eq!(HISTORY_MAX, 30);
}
