use base64::engine::general_purpose::URL_SAFE_NO_PAD;
use base64::Engine;
use cloud_stt::codex_auth::{
    extract_chatgpt_account_id, is_token_expired, is_token_expired_at, merge_refreshed,
    refresh_request_fields, refresh_token_of, CodexAuthManager, CodexTokens, RefreshResponse,
    TokenCheck, CLIENT_ID,
};
use cloud_stt::codex_stt::{
    boundary_from_random, build_multipart_body, encode_wav, http_failure_message,
    multipart_content_type, new_boundary, pcm16_le_bytes, response_action, transcribe_url,
    transcript_from_response, ResponseAction,
};

fn jwt(payload: &str) -> String {
    format!("eyJhbGciOiJub25lIn0.{}.sig", URL_SAFE_NO_PAD.encode(payload))
}

fn account_token(exp: u64, account: &str) -> String {
    jwt(&format!(
        "{{\"exp\":{},\"https://api.openai.com/auth\":{{\"chatgpt_account_id\":\"{}\"}}}}",
        exp, account
    ))
}

#[test]
fn account_id_read_from_claims() {
    assert_eq!(extract_chatgpt_account_id(&account_token(10, "acct-1")), Some("acct-1".to_string()));
    let padded = format!("a.{}==.b", URL_SAFE_NO_PAD.encode("{\"https://api.openai.com/auth\":{\"chatgpt_account_id\":\"p\"}}"));
    assert_eq!(extract_chatgpt_account_id(&padded), Some("p".to_string()));
    let only_two = format!("a.{}", URL_SAFE_NO_PAD.encode("{\"https://api.openai.com/auth\":{\"chatgpt_account_id\":\"q\"}}"));
    assert_eq!(extract_chatgpt_account_id(&only_two), Some("q".to_string()));
}

#[test]
fn account_id_absent_cases() {
    assert_eq!(extract_chatgpt_account_id("no-dots-here"), None);
    assert_eq!(extract_chatgpt_account_id("a.!!!not-base64!!!.c"), None);
    assert_eq!(extract_chatgpt_account_id(&jwt("not json")), None);
    assert_eq!(extract_chatgpt_account_id(&jwt("{\"exp\":1}")), None);
    assert_eq!(extract_chatgpt_account_id(&jwt("{\"https://api.openai.com/auth\":{\"chatgpt_account_id\":7}}")), None);
    assert_eq!(extract_chatgpt_account_id(&jwt("{\"https://api.openai.com/auth\":[1]}")), None);
}

#[test]
fn expiry_with_margin() {
    let t = account_token(10_000, "a");
    assert!(!is_token_expired_at(&t, 9_700));
    assert!(is_token_expired_at(&t, 9_701));
    assert!(is_token_expired_at(&t, 20_000));
    let early = account_token(100, "a");
    assert!(!is_token_expired_at(&early, 0));
    assert!(is_token_expired_at(&early, 1));
    assert!(is_token_expired_at(&jwt("{}"), 1));
    assert!(!is_token_expired_at(&jwt("{}"), 0));
    assert!(is_token_expired_at(&jwt("{\"exp\":-5}"), 1));
    assert!(is_token_expired_at("garbage", 0));
    assert!(is_token_expired("garbage"));
    assert!(!is_token_expired(&account_token(u64::MAX, "a")));
    assert!(is_token_expired(&account_token(1, "a")));
}

#[test]
fn manager_holds_token_and_account() {
    let t = account_token(u64::MAX, "acct");
    let m = CodexAuthManager::new(Some(t.clone()));
    assert!(m.is_logged_in());
    assert_eq!(m.account_id(), Some("acct".to_string()));
    let st = m.get_state(true);
    assert!(st.is_logged_in && st.has_auth_file);
    match m.check_token_at(0) {
        TokenCheck::Valid(tok, acc) => {
            assert_eq!(tok, t);
            assert_eq!(acc, Some("acct".to_string()));
        }
        other => panic!("unexpected {:?}", other),
    }
    assert!(matches!(m.check_token(), TokenCheck::Valid(_, _)));
}

#[test]
fn manager_reload_and_logout() {
    let mut m = CodexAuthManager::new(None);
    assert!(!m.is_logged_in());
    assert!(!m.get_state(false).is_logged_in);
    match m.check_token_at(0) {
        TokenCheck::NotLoggedIn(e) => assert_eq!(e, "Not logged in to Codex"),
        other => panic!("unexpected {:?}", other),
    }
    assert!(!m.reload_from_file(Some(String::new())));
    assert!(!m.is_logged_in());
    let t = account_token(100, "x");
    assert!(m.reload_from_file(Some(t.clone())));
    assert!(matches!(m.check_token_at(1_000), TokenCheck::Expired));
    assert!(matches!(m.check_token(), TokenCheck::Expired));
    assert!(!m.reload_from_file(None));
    assert!(m.is_logged_in());
    m.logout();
    assert!(!m.is_logged_in());
    assert_eq!(m.account_id(), None);
}

#[test]
fn refresh_flow_pieces() {
    let mut tokens = CodexTokens {
        access_token: "old".to_string(),
        refresh_token: None,
        id_token: Some("id0".to_string()),
    };
    assert_eq!(refresh_token_of(&tokens).unwrap_err(), "No refresh_token in auth file");
    tokens.refresh_token = Some("r0".to_string());
    assert_eq!(refresh_token_of(&tokens).unwrap(), "r0");
    let f = refresh_request_fields("r0");
    assert_eq!(f[0], ("grant_type".to_string(), "refresh_token".to_string()));
    assert_eq!(f[1], ("refresh_token".to_string(), "r0".to_string()));
    assert_eq!(f[2], ("client_id".to_string(), CLIENT_ID.to_string()));
    let fresh = account_token(u64::MAX, "new-acct");
    merge_refreshed(
        &mut tokens,
        &RefreshResponse { access_token: fresh.clone(), id_token: None, refresh_token: Some("r1".to_string()) },
    );
    assert_eq!(tokens.access_token, fresh);
    assert_eq!(tokens.id_token, Some("id0".to_string()));
    assert_eq!(tokens.refresh_token, Some("r1".to_string()));
    let mut m = CodexAuthManager::new(Some(account_token(1, "old-acct")));
    let (tok, acc) = m.install_refreshed(fresh.clone());
    assert_eq!(tok, fresh);
    assert_eq!(acc, Some("new-acct".to_string()));
    assert_eq!(m.account_id(), Some("new-acct".to_string()));
}

#[test]
fn api_base_url_choices() {
    let prod = "https://chatgpt.com/backend-api";
    assert_eq!(CodexAuthManager::api_base_url(None, None), prod);
    assert_eq!(CodexAuthManager::api_base_url(Some("http://x/api///".to_string()), None), "http://x/api");
    assert_eq!(CodexAuthManager::api_base_url(Some("///".to_string()), None), prod);
    assert_eq!(
        CodexAuthManager::api_base_url(Some("".to_string()), Some("LocalHost".to_string())),
        "http://localhost:8000/api"
    );
    assert_eq!(CodexAuthManager::api_base_url(None, Some("remote".to_string())), prod);
    assert_eq!(
        CodexAuthManager::api_base_url(Some("https://b".to_string()), Some("localhost".to_string())),
        "https://b"
    );
}

#[test]
fn user_agent_and_headers() {
    assert_eq!(CodexAuthManager::build_user_agent("linux", "x86_64"), "Codex Desktop/1.0.4 (linux; x64)");
    assert_eq!(CodexAuthManager::build_user_agent("macos", "aarch64"), "Codex Desktop/1.0.4 (darwin; arm64)");
    assert_eq!(CodexAuthManager::build_user_agent("windows", "x86"), "Codex Desktop/1.0.4 (win32; unknown)");
    assert_eq!(CodexAuthManager::build_user_agent("freebsd", "riscv64"), "Codex Desktop/1.0.4 (unknown; unknown)");
    let h = CodexAuthManager::build_auth_headers("tok", None, "linux", "x86_64");
    assert_eq!(h.len(), 3);
    assert_eq!(h[0], ("Authorization".to_string(), "Bearer tok".to_string()));
    assert_eq!(h[1], ("originator".to_string(), "Codex Desktop".to_string()));
    assert_eq!(h[2], ("User-Agent".to_string(), "Codex Desktop/1.0.4 (linux; x64)".to_string()));
    let h = CodexAuthManager::build_auth_headers("tok", Some("acc"), "linux", "x86_64");
    assert_eq!(h.len(), 4);
    assert_eq!(h[3], ("ChatGPT-Account-Id".to_string(), "acc".to_string()));
}

#[test]
fn multipart_body_bytes() {
    let body = build_multipart_body(&[1, 2, 3], "B", "codex.wav", "audio/wav", None);
    let mut expected = b"--B\r\nContent-Disposition: form-data; name=\"file\"; filename=\"codex.wav\"\r\nContent-Type: audio/wav\r\n\r\n".to_vec();
    let head_len = expected.len();
    expected.extend_from_slice(&[1, 2, 3]);
    expected.extend_from_slice(b"\r\n--B--\r\n");
    assert_eq!(body, expected);
    assert_eq!(&body[head_len..head_len + 3], &[1, 2, 3]);
    let body = build_multipart_body(&[], "B", "f", "t", Some("en"));
    let expected = b"--B\r\nContent-Disposition: form-data; name=\"file\"; filename=\"f\"\r\nContent-Type: t\r\n\r\n\r\n--B\r\nContent-Disposition: form-data; name=\"language\"\r\n\r\nen\r\n--B--\r\n".to_vec();
    assert_eq!(body, expected);
}

#[test]
fn pcm_bytes_are_little_endian_and_read_back() {
    let samples = [0i16, 1, -1, 32767, -32768, 0x1234];
    let bytes = pcm16_le_bytes(&samples);
    assert_eq!(bytes, vec![0, 0, 1, 0, 0xff, 0xff, 0xff, 0x7f, 0x00, 0x80, 0x34, 0x12]);
    for (i, s) in samples.iter().enumerate() {
        assert_eq!(i16::from_le_bytes([bytes[2 * i], bytes[2 * i + 1]]), *s);
    }
    assert!(pcm16_le_bytes(&[]).is_empty());
}

#[test]
fn failure_messages_cut_body() {
    assert_eq!(
        http_failure_message("Transcription failed", "500 Internal Server Error", "oops"),
        "Transcription failed: HTTP 500 Internal Server Error — oops"
    );
    let long = "x".repeat(600);
    let m = http_failure_message("Token refresh failed", "400 Bad Request", &long);
    assert_eq!(m, format!("Token refresh failed: HTTP 400 Bad Request — {}", "x".repeat(500)));
}

#[test]
fn response_actions() {
    assert!(matches!(response_action(401, false), ResponseAction::RefreshAndRetry));
    assert!(matches!(response_action(200, false), ResponseAction::Accept));
    assert!(matches!(response_action(204, true), ResponseAction::Accept));
    match response_action(500, false) {
        ResponseAction::Reject(w) => assert_eq!(w, "Transcription failed"),
        other => panic!("unexpected {:?}", other),
    }
    match response_action(401, true) {
        ResponseAction::Reject(w) => assert_eq!(w, "Transcription failed after retry"),
        other => panic!("unexpected {:?}", other),
    }
    assert!(matches!(response_action(302, true), ResponseAction::Reject(_)));
}

#[test]
fn request_pieces() {
    assert_eq!(transcript_from_response("  Hello there.\n"), "Hello there.");
    assert_eq!(transcribe_url("https://chatgpt.com/backend-api"), "https://chatgpt.com/backend-api/transcribe");
    assert_eq!(multipart_content_type("B"), "multipart/form-data; boundary=B");
    let b = new_boundary().unwrap();
    assert!(b.starts_with("----codex-transcribe-"));
    let u = &b["----codex-transcribe-".len()..];
    assert_eq!(u.len(), 36);
    let parsed = uuid::Uuid::parse_str(u).unwrap();
    assert_eq!(parsed.get_version_num(), 4);
    assert_eq!(parsed.hyphenated().to_string(), u);
    assert_ne!(new_boundary().unwrap(), b);
}

#[test]
fn boundary_from_given_random_bytes() {
    let random = [70, 235, 208, 238, 14, 109, 67, 201, 185, 13, 204, 195, 90, 145, 63, 62];
    assert_eq!(boundary_from_random(random), "----codex-transcribe-46ebd0ee-0e6d-43c9-b90d-ccc35a913f3e");
    let zeros = boundary_from_random([0; 16]);
    assert_eq!(zeros, "----codex-transcribe-00000000-0000-4000-8000-000000000000");
    let ones = boundary_from_random([0xff; 16]);
    assert_eq!(ones, "----codex-transcribe-ffffffff-ffff-4fff-bfff-ffffffffffff");
}

fn hound_wav(samples: &[i16], rate: u32) -> Vec<u8> {
    let spec = hound::WavSpec {
        channels: 1,
        sample_rate: rate,
        bits_per_sample: 16,
        sample_format: hound::SampleFormat::Int,
    };
    let mut cursor = std::io::Cursor::new(Vec::new());
    {
        let mut w = hound::WavWriter::new(&mut cursor, spec).unwrap();
        for &s in samples {
            w.write_sample(s).unwrap();
        }
        w.finalize().unwrap();
    }
    cursor.into_inner()
}

#[test]
fn wav_matches_reference_writer() {
    for samples in [vec![], vec![0i16], vec![1, -1, 32767, -32768, 0x1234, 7]] {
        for rate in [16000u32, 44100, 8000] {
            assert_eq!(encode_wav(&samples, rate), hound_wav(&samples, rate));
        }
    }
}

#[test]
fn wav_header_layout() {
    let wav = encode_wav(&[0x0102, -2], 16000);
    assert_eq!(wav.len(), 48);
    assert_eq!(&wav[0..4], b"RIFF");
    assert_eq!(&wav[4..8], &40u32.to_le_bytes());
    assert_eq!(&wav[8..16], b"WAVEfmt ");
    assert_eq!(&wav[24..28], &16000u32.to_le_bytes());
    assert_eq!(&wav[28..32], &32000u32.to_le_bytes());
    assert_eq!(&wav[36..40], b"data");
    assert_eq!(&wav[40..44], &4u32.to_le_bytes());
    assert_eq!(&wav[44..], &[0x02, 0x01, 0xfe, 0xff]);
}

#[test]
fn multipart_sizes() {
    let (b, f, c, l) = ("bound", "name.wav", "audio/wav", "en");
    let n = build_multipart_body(&[9; 10], b, f, c, None);
    let s = build_multipart_body(&[9; 10], b, f, c, Some(l));
    assert_eq!(n.len(), 10 + 2 * b.len() + f.len() + c.len() + 88);
    assert_eq!(s.len(), n.len() + b.len() + l.len() + 57);
    let k = b.len() + 6;
    let mut expected = n[..n.len() - k].to_vec();
    expected.extend_from_slice(format!("--{}\r\nContent-Disposition: form-data; name=\"language\"\r\n\r\n{}\r\n", b, l).as_bytes());
    expected.extend_from_slice(&n[n.len() - k..]);
    assert_eq!(s, expected);
}

#[test]
fn claims_depend_on_payload_segment_only() {
    let payload = URL_SAFE_NO_PAD.encode("{\"exp\":4102444800,\"https://api.openai.com/auth\":{\"chatgpt_account_id\":\"z\"}}");
    let forms = [
        format!("h.{}.s", payload),
        format!("other-header.{}===.x.y.z", payload),
        format!(".{}", payload),
        format!("h.{}=", payload),
    ];
    for token in forms.iter() {
        assert_eq!(extract_chatgpt_account_id(token), Some("z".to_string()));
        assert!(!is_token_expired_at(token, 0));
        assert!(!is_token_expired_at(token, 4102444800 - 300));
        assert!(is_token_expired_at(token, 4102444800 - 299));
    }
}
