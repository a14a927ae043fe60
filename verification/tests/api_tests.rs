use tapi::api::{
    response_is_success, safe_header, ApiClient, ApiEndpoints, Failure, RetryState, Verdict,
    MAX_RETRIES, RETRY_DELAY_SECS,
};

#[test]
fn default_endpoints() {
    let e = ApiEndpoints::default();
    assert_eq!(e.storage, "https://api.toriitranslate.com/api/storage");
    assert_eq!(e.ocr, "https://api.toriitranslate.com/api/ocr");
    assert_eq!(e.translate, "https://api.toriitranslate.com/api/upload");
    assert!(e.storage_headers.is_none() && e.ocr_headers.is_none() && !e.save_debug_json);
}

#[test]
fn the_key_is_trimmed() {
    let client = ApiClient::new("  secret-key \n".to_string());
    assert_eq!(client.authorization(), "Bearer secret-key");
    assert_eq!(client.endpoints().translate, "https://api.toriitranslate.com/api/upload");
    let mut endpoints = ApiEndpoints::default();
    endpoints.translate = "http://localhost/upload".to_string();
    let client = ApiClient::new_with_endpoints("k".to_string(), endpoints);
    assert_eq!(client.endpoints().translate, "http://localhost/upload");
}

#[test]
fn header_values_keep_printable_ascii_only() {
    assert_eq!(safe_header("gemini-2.5-flash"), "gemini-2.5-flash");
    assert_eq!(safe_header("tü\trk\u{7f}çe ~"), "trke ~");
    assert_eq!(safe_header("日本語"), "");
    assert_eq!(safe_header(""), "");
}

#[test]
fn translate_headers_in_order() {
    let client = ApiClient::new("key".to_string());
    let headers = client.translate_headers("deepseek", "tr", "wild\nwords", "auto", true, false, 12);
    let pairs: Vec<(String, String)> =
        headers.into_iter().map(|h| (h.name, h.value)).collect();
    let expected = [
        ("Authorization", "Bearer key"),
        ("target_lang", "tr"),
        ("translator", "deepseek"),
        ("font", "wildwords"),
        ("text_align", "auto"),
        ("stroke_disabled", "true"),
        ("inpaint_only", "false"),
        ("min_font_size", "12"),
    ];
    assert_eq!(pairs.len(), expected.len());
    for (got, want) in pairs.iter().zip(expected.iter()) {
        assert_eq!((got.0.as_str(), got.1.as_str()), *want);
    }
}

#[test]
fn success_needs_status_and_header() {
    assert!(response_is_success(200, Some("true")));
    assert!(response_is_success(299, Some("true")));
    assert!(!response_is_success(200, Some("false")));
    assert!(!response_is_success(200, Some("True")));
    assert!(!response_is_success(200, None));
    assert!(!response_is_success(500, Some("true")));
    assert!(!response_is_success(300, Some("true")));
    assert!(!response_is_success(199, Some("true")));
}

#[test]
fn three_retries_then_the_end() {
    assert_eq!(MAX_RETRIES, 3);
    assert_eq!(RETRY_DELAY_SECS, 2);
    let mut state = RetryState::new();
    for _ in 0..3 {
        let verdict = state.after_failure(Failure::Unreachable { error: "refused".into() });
        assert!(matches!(verdict, Verdict::Retry { delay_secs: 2 }));
    }
    match state.after_failure(Failure::Unreachable { error: "connection refused".into() }) {
        Verdict::GiveUp { message } => {
            assert_eq!(message, "Network error after 3 retries: connection refused")
        }
        Verdict::Retry { .. } => panic!("a fourth retry"),
    }
    match state.after_failure(Failure::Rejected {
        status: "500 Internal Server Error".into(),
        body: "boom".into(),
    }) {
        Verdict::GiveUp { message } => {
            assert_eq!(message, "API Error (500 Internal Server Error): boom")
        }
        Verdict::Retry { .. } => panic!("a fourth retry"),
    }
}
