use hypanel_core::classifier::ConsoleSignal;
use hypanel_core::classifier::StdoutClassifier;
use hypanel_core::classifier::extract_auth_code;
use hypanel_core::classifier::make_output_event;
use hypanel_core::classifier::parse_auth_event;
use hypanel_core::classifier::strip_ansi_codes;

#[test]
fn strips_color_runs() {
    assert_eq!(strip_ansi_codes("\x1b[32mhello\x1b[0m"), "hello");
    assert_eq!(strip_ansi_codes("plain"), "plain");
    assert_eq!(strip_ansi_codes(""), "");
}

#[test]
fn a_stray_escape_is_kept() {
    assert_eq!(strip_ansi_codes("a\x1bXm b"), "a\x1bXm b");
    assert_eq!(strip_ansi_codes("tail\x1b"), "tail\x1b");
    assert_eq!(strip_ansi_codes("\x1b[31mred\x1b"), "red\x1b");
}

#[test]
fn url_challenge_yields_code_and_url() {
    let line = "Or visit: https://oauth.example.com/device/verify?user_code=MNkHJhwD";
    let ev = parse_auth_event("inst-1", line).expect("challenge expected");
    assert_eq!(ev.instance_id, "inst-1");
    assert_eq!(ev.code, "MNkHJhwD");
    assert_eq!(ev.auth_url, "https://oauth.example.com/device/verify?user_code=MNkHJhwD");
}

#[test]
fn enter_code_fallback_synthesizes_url() {
    let ev = parse_auth_event("inst-1", "Enter code: AB12CD").expect("fallback expected");
    assert_eq!(ev.code, "AB12CD");
    assert_eq!(
        ev.auth_url,
        "https://oauth.accounts.hytale.com/oauth2/device/verify?user_code=AB12CD"
    );
    assert!(ev.auth_url.contains("AB12CD"));
}

#[test]
fn no_challenge_in_plain_line() {
    assert!(parse_auth_event("inst-1", "Server started on port 5520").is_none());
}

#[test]
fn challenge_found_behind_ansi_colors() {
    let line = "\x1b[33mOr visit: https://oauth.example.com/device/verify?user_code=QQQQ\x1b[0m";
    let ev = parse_auth_event("inst-1", line).expect("challenge expected");
    assert_eq!(ev.code, "QQQQ");
}

#[test]
fn profile_then_success_carries_profile() {
    let mut c = StdoutClassifier::new(String::from("inst-1"));
    let first = c.classify("\x1b[32mAuto-selected profile: Natxo (abc-123)\x1b[0m");
    assert!(first.is_none());
    assert_eq!(c.profile_name.as_deref(), Some("Natxo"));
    let second = c.classify("Authentication successful! Mode: OAUTH_DEVICE");
    match second {
        Some(ConsoleSignal::AuthSuccess(ev)) => {
            assert_eq!(ev.profile_name.as_deref(), Some("Natxo"));
            assert_eq!(ev.auth_mode, "OAUTH_DEVICE");
            assert_eq!(ev.instance_id, "inst-1");
        }
        other => panic!("expected auth success, got {:?}", other),
    }
}

#[test]
fn success_without_mode_uses_default() {
    let mut c = StdoutClassifier::new(String::from("inst-1"));
    match c.classify("Authentication successful!") {
        Some(ConsoleSignal::AuthSuccess(ev)) => {
            assert_eq!(ev.auth_mode, "OAUTH_DEVICE");
            assert_eq!(ev.profile_name, None);
        }
        other => panic!("expected auth success, got {:?}", other),
    }
}

#[test]
fn needs_auth_signal() {
    let mut c = StdoutClassifier::new(String::from("inst-1"));
    match c.classify("No server tokens configured - authentication required") {
        Some(ConsoleSignal::AuthNeeded(ev)) => {
            assert_eq!(ev.instance_id, "inst-1");
            assert_eq!(
                ev.message,
                "Server requires authentication. Click 'Start Authentication' to begin."
            );
        }
        other => panic!("expected auth needed, got {:?}", other),
    }
}

#[test]
fn needs_persistence_signal() {
    let mut c = StdoutClassifier::new(String::from("inst-1"));
    match c.classify("Credentials stored in memory only") {
        Some(ConsoleSignal::NeedsPersistence(id)) => assert_eq!(id, "inst-1"),
        other => panic!("expected needs persistence, got {:?}", other),
    }
}

#[test]
fn needs_auth_takes_priority() {
    let mut c = StdoutClassifier::new(String::from("inst-1"));
    let line = "No server tokens configured. Enter code: ABCDEF";
    match c.classify(line) {
        Some(ConsoleSignal::AuthNeeded(_)) => {}
        other => panic!("expected auth needed first, got {:?}", other),
    }
}

#[test]
fn profile_capture_cooccurs_with_challenge() {
    let mut c = StdoutClassifier::new(String::from("inst-1"));
    let line = "Auto-selected profile: Natxo (abc-123) visit https://a.example/x?user_code=ZZ99";
    match c.classify(line) {
        Some(ConsoleSignal::AuthRequired(ev)) => assert_eq!(ev.code, "ZZ99"),
        other => panic!("expected challenge, got {:?}", other),
    }
    assert_eq!(c.profile_name.as_deref(), Some("Natxo"));
}

#[test]
fn classifier_stays_silent_on_ordinary_output() {
    let mut c = StdoutClassifier::new(String::from("inst-1"));
    assert!(c.classify("[12:00:01] [INFO] World loaded").is_none());
}

#[test]
fn auth_code_from_downloader_line() {
    assert_eq!(
        extract_auth_code("Authorization code: WXYZ1234").as_deref(),
        Some("WXYZ1234")
    );
    assert_eq!(extract_auth_code("code : LONGCODE").as_deref(), Some("LONGCODE"));
    assert_eq!(extract_auth_code("code: abc"), None);
    assert_eq!(extract_auth_code("downloading 42%"), None);
}

#[test]
fn output_event_tags_line() {
    let ev = make_output_event("inst-1", "hello world", "stdout");
    assert_eq!(ev.instance_id, "inst-1");
    assert_eq!(ev.line, "hello world");
    assert_eq!(ev.stream, "stdout");
    assert!(!ev.timestamp.is_empty());
}
