use cloud_stt::claude_auth::{
    token_from_credentials, ClaudeAuthManager, ClaudeAuthState, ClaudeCodeCredentials, ClaudeCodeOAuth,
};
use cloud_stt::claude_stt::{
    build_ws_url, connecting_event, connection_outcome, ws_request_headers, ConnectRetry,
    RetryStep, SttStream, WsFrame, WsMessage,
};
use cloud_stt::cloud_stt::{CloudSttProvider, SttEvent};

const PATH: &str = "/api/ws/speech_to_text/voice_stream?encoding=linear16&sample_rate=16000&channels=1&endpointing_ms=300&utterance_end_ms=1000&language=";

fn manager(token: Option<String>) -> ClaudeAuthManager {
    ClaudeAuthManager::new("https://voice.example".to_string(), "Voice.example".to_string(), token)
}

fn msg(ty: &str, data: Option<&str>) -> WsMessage {
    WsMessage {
        msg_type: ty.to_string(),
        data: data.map(|s| s.to_string()),
        description: None,
        error_code: None,
        message: None,
    }
}

fn transcript(e: &SttEvent) -> Option<(String, bool)> {
    match e {
        SttEvent::Transcript(t) => Some((t.text.clone(), t.is_final)),
        _ => None,
    }
}

fn status(e: &SttEvent) -> Option<(String, Option<String>)> {
    match e {
        SttEvent::Status(s) => Some((s.status.clone(), s.message.clone())),
        _ => None,
    }
}

#[test]
fn default_provider_is_claude() {
    assert_eq!(CloudSttProvider::default(), CloudSttProvider::Claude);
}

#[test]
fn ws_url_switches_scheme() {
    assert_eq!(build_ws_url("https://voice.example", "en"), format!("wss://voice.example{}en", PATH));
    assert_eq!(build_ws_url("http://localhost:3000", "de"), format!("ws://localhost:3000{}de", PATH));
    assert_eq!(build_ws_url("voice.example", "fr"), format!("voice.example{}fr", PATH));
}

#[test]
fn ws_headers_carry_token() {
    let h = ws_request_headers("tok", "voice-cli/1.0 (external, cli)");
    assert_eq!(h.len(), 3);
    assert_eq!(h[0], ("Authorization".to_string(), "Bearer tok".to_string()));
    assert_eq!(h[1], ("x-app".to_string(), "cli".to_string()));
    assert_eq!(h[2], ("User-Agent".to_string(), "voice-cli/1.0 (external, cli)".to_string()));
}

#[test]
fn interim_then_endpoint_builds_transcript() {
    let mut s = SttStream::new();
    let e = s.handle_message(&msg("TranscriptText", Some("  hello ")));
    assert_eq!(e.len(), 1);
    assert_eq!(transcript(&e[0]), Some(("hello".to_string(), false)));
    assert_eq!(s.transcript(), "");
    let e = s.handle_message(&msg("TranscriptText", Some("hello world")));
    assert_eq!(transcript(&e[0]), Some(("hello world".to_string(), false)));
    let e = s.handle_message(&msg("TranscriptEndpoint", None));
    assert_eq!(transcript(&e[0]), Some(("hello world".to_string(), true)));
    assert_eq!(s.transcript(), "hello world");
    s.handle_message(&msg("TranscriptText", Some("again")));
    s.handle_message(&msg("TranscriptEndpoint", None));
    assert_eq!(s.transcript(), "hello world again");
}

#[test]
fn blank_interim_and_empty_endpoint_raise_nothing() {
    let mut s = SttStream::new();
    assert!(s.handle_message(&msg("TranscriptText", Some("   "))).is_empty());
    assert!(s.handle_message(&msg("TranscriptText", None)).is_empty());
    assert!(s.handle_message(&msg("TranscriptEndpoint", None)).is_empty());
    assert!(s.handle_message(&msg("SomethingElse", Some("x"))).is_empty());
    assert_eq!(s.transcript(), "");
}

#[test]
fn transcript_errors_are_reported() {
    let mut s = SttStream::new();
    let mut m = msg("TranscriptError", None);
    m.error_code = Some("E42".to_string());
    let e = s.handle_message(&m);
    assert_eq!(status(&e[0]), Some(("error".to_string(), Some("E42".to_string()))));
    m.description = Some("bad audio".to_string());
    let e = s.handle_message(&m);
    assert_eq!(status(&e[0]), Some(("error".to_string(), Some("bad audio".to_string()))));
    let e = s.handle_message(&msg("TranscriptError", None));
    assert_eq!(status(&e[0]), Some(("error".to_string(), Some("unknown error".to_string()))));
    let e = s.handle_message(&msg("error", None));
    assert_eq!(status(&e[0]), Some(("error".to_string(), Some("server error".to_string()))));
    let mut m = msg("error", None);
    m.message = Some("quota".to_string());
    let e = s.handle_message(&m);
    assert_eq!(status(&e[0]), Some(("error".to_string(), Some("quota".to_string()))));
}

#[test]
fn frames_decide_whether_reading_goes_on() {
    let mut s = SttStream::new();
    assert!(s.handle_frame(&WsFrame::Other).1);
    assert!(s.handle_frame(&WsFrame::Unreadable).1);
    assert!(!s.handle_frame(&WsFrame::Closed).1);
    assert!(!s.handle_frame(&WsFrame::Failed).1);
    let (e, go_on) = s.handle_frame(&WsFrame::Message(msg("TranscriptText", Some("hi"))));
    assert!(go_on);
    assert_eq!(e.len(), 1);
}

#[test]
fn finish_promotes_pending_interim() {
    let mut s = SttStream::new();
    s.handle_message(&msg("TranscriptText", Some("first")));
    s.handle_message(&msg("TranscriptEndpoint", None));
    s.handle_message(&msg("TranscriptText", Some("second")));
    let e = s.finish();
    assert_eq!(e.len(), 2);
    assert_eq!(transcript(&e[0]), Some(("second".to_string(), true)));
    assert_eq!(status(&e[1]), Some(("disconnected".to_string(), None)));
    assert_eq!(s.transcript(), "first second");
    let mut t = SttStream::new();
    let e = t.finish();
    assert_eq!(e.len(), 1);
    assert_eq!(status(&e[0]), Some(("disconnected".to_string(), None)));
}

#[test]
fn transcript_equals_joined_finals() {
    let mut s = SttStream::new();
    let mut finals = Vec::new();
    let script = [
        msg("TranscriptText", Some("one")),
        msg("TranscriptEndpoint", None),
        msg("TranscriptEndpoint", None),
        msg("TranscriptText", Some(" two ")),
        msg("error", None),
        msg("TranscriptEndpoint", None),
        msg("TranscriptText", Some("three")),
    ];
    for m in &script {
        for e in s.handle_message(m) {
            if let Some((t, true)) = transcript(&e) {
                finals.push(t);
            }
        }
    }
    for e in s.finish() {
        if let Some((t, true)) = transcript(&e) {
            finals.push(t);
        }
    }
    assert_eq!(finals.join(" "), s.transcript());
    assert_eq!(s.transcript(), "one two three");
}

#[test]
fn retry_gives_up_on_other_errors() {
    let r = ConnectRetry::new("t0");
    assert_eq!(r.attempt(), 0);
    assert_eq!(r.delay_ms(), 0);
    match r.on_failure("IO error: connection refused") {
        RetryStep::GiveUp(m) => assert_eq!(m, "WebSocket connection failed: IO error: connection refused"),
        other => panic!("unexpected {:?}", other),
    }
}

#[test]
fn retry_reloads_on_auth_errors_at_most_twice() {
    let mut r = ConnectRetry::new("t0");
    assert!(matches!(r.on_failure("HTTP error: 401 Unauthorized"), RetryStep::ReloadCredentials));
    r.after_reload(Some("t1".to_string()));
    assert_eq!(r.attempt(), 1);
    assert_eq!(r.delay_ms(), 1000);
    assert_eq!(r.token(), "t1");
    assert!(matches!(r.on_failure("HTTP error: 403 Forbidden"), RetryStep::ReloadCredentials));
    r.after_reload(None);
    assert_eq!(r.attempt(), 2);
    assert_eq!(r.delay_ms(), 3000);
    assert_eq!(r.token(), "t1");
    match r.on_failure("HTTP error: 401 Unauthorized") {
        RetryStep::GiveUp(m) => assert_eq!(m, "WebSocket connection failed: HTTP error: 401 Unauthorized"),
        other => panic!("unexpected {:?}", other),
    }
}

#[test]
fn claude_auth_sign_in_and_out() {
    let mut m = manager(None);
    assert_eq!(m.get_access_token(), None);
    assert!(!m.get_state().is_logged_in);
    assert!(!m.reload_from_claude_code(None));
    m.set_access_token("abc".to_string());
    assert_eq!(m.get_access_token(), Some("abc".to_string()));
    let st = m.get_state();
    assert!(st.is_logged_in);
    assert_eq!(st.access_token, Some("abc".to_string()));
    assert!(m.reload_from_claude_code(Some("def".to_string())));
    assert_eq!(m.get_access_token(), Some("def".to_string()));
    m.logout();
    assert_eq!(m.get_access_token(), None);
    assert!(!m.get_state().is_logged_in);
    assert_eq!(m.get_origin(), "https://voice.example");
    let d = ClaudeAuthState::default();
    assert!(!d.is_logged_in && d.access_token.is_none());
}

#[test]
fn claude_manager_loads_credentials_token() {
    let m = manager(Some("tok".to_string()));
    assert_eq!(m.get_access_token(), Some("tok".to_string()));
    assert!(m.get_state().is_logged_in);
}

#[test]
fn credentials_token_skips_empty() {
    let c = ClaudeCodeCredentials {
        claude_ai_oauth: Some(ClaudeCodeOAuth { access_token: Some("x".to_string()) }),
    };
    assert_eq!(token_from_credentials(&c), Some("x".to_string()));
    let c = ClaudeCodeCredentials {
        claude_ai_oauth: Some(ClaudeCodeOAuth { access_token: Some(String::new()) }),
    };
    assert_eq!(token_from_credentials(&c), None);
    let c = ClaudeCodeCredentials { claude_ai_oauth: Some(ClaudeCodeOAuth { access_token: None }) };
    assert_eq!(token_from_credentials(&c), None);
    assert_eq!(token_from_credentials(&ClaudeCodeCredentials { claude_ai_oauth: None }), None);
}

#[test]
fn session_start_needs_token_and_defaults_language() {
    let mut m = manager(None);
    assert_eq!(m.session_start(None).unwrap_err(), "Not logged in to Voice.example");
    m.set_access_token("tok".to_string());
    let s = m.session_start(None).unwrap();
    assert_eq!((s.token.as_str(), s.origin.as_str(), s.language.as_str()), ("tok", "https://voice.example", "en"));
    let s = m.session_start(Some("ja".to_string())).unwrap();
    assert_eq!(s.language, "ja");
}

#[test]
fn session_status_sequence() {
    assert_eq!(status(&connecting_event()), Some(("connecting".to_string(), None)));
    let (ok_event, proceed) = connection_outcome(Ok(()));
    assert!(proceed);
    assert_eq!(status(&ok_event), Some(("connected".to_string(), None)));
    let (err_event, proceed) = connection_outcome(Err("Connection failed: refused".to_string()));
    assert!(!proceed);
    assert_eq!(
        status(&err_event),
        Some(("error".to_string(), Some("Connection failed: refused".to_string())))
    );
}
