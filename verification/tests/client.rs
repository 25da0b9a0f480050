use notebooklm_mcp::client::{
    checked_download_url, chunk_answer, create_note_params, is_youtube_url, mind_map_params, mind_map_title, temp_path,
    validate_google_domain,
};
use notebooklm_mcp::json::JsonValue;
use notebooklm_mcp::rpc::artifacts::MindMapResult;

fn conv(v: &serde_json::Value) -> JsonValue {
    match v {
        serde_json::Value::Null => JsonValue::Null,
        serde_json::Value::Bool(b) => JsonValue::Bool(*b),
        serde_json::Value::Number(n) => {
            if let Some(u) = n.as_u64() {
                JsonValue::PosInt(u)
            } else if let Some(i) = n.as_i64() {
                JsonValue::NegInt(i)
            } else {
                JsonValue::Float(n.to_string())
            }
        }
        serde_json::Value::String(s) => JsonValue::Str(s.clone()),
        serde_json::Value::Array(a) => JsonValue::Array(a.iter().map(conv).collect()),
        serde_json::Value::Object(o) => {
            JsonValue::Object(o.iter().map(|(k, v)| (k.clone(), conv(v))).collect())
        }
    }
}

/// A value written as JSON text.
fn j(text: &str) -> JsonValue {
    conv(&serde_json::from_str(text).expect("test JSON"))
}

// =========================================================================
// 6.1 — is_youtube_url tests
// =========================================================================

#[test]
fn test_youtube_watch_url() {
    assert!(is_youtube_url("https://www.youtube.com/watch?v=dQw4w9WgXcQ"));
}

#[test]
fn test_youtube_short_url() {
    assert!(is_youtube_url("https://youtu.be/dQw4w9WgXcQ"));
}

#[test]
fn test_youtube_embed_url() {
    assert!(is_youtube_url("https://www.youtube.com/embed/dQw4w9WgXcQ"));
}

#[test]
fn test_youtube_live_url() {
    assert!(is_youtube_url("https://www.youtube.com/live/dQw4w9WgXcQ"));
}

#[test]
fn test_youtube_music_url() {
    assert!(is_youtube_url("https://music.youtube.com/watch?v=dQw4w9WgXcQ"));
}

#[test]
fn test_youtube_mobile_url() {
    assert!(is_youtube_url("https://m.youtube.com/watch?v=dQw4w9WgXcQ"));
}

#[test]
fn test_youtube_no_subdomain() {
    assert!(is_youtube_url("https://youtube.com/watch?v=dQw4w9WgXcQ"));
}

#[test]
fn test_youtube_with_query_params() {
    assert!(is_youtube_url("https://www.youtube.com/watch?v=abc&t=120&list=xyz"));
}

#[test]
fn test_youtube_short_with_query() {
    assert!(is_youtube_url("https://youtu.be/dQw4w9WgXcQ?t=30"));
}

#[test]
fn test_non_youtube_url() {
    assert!(!is_youtube_url("https://vimeo.com/123456"));
    assert!(!is_youtube_url("https://example.com/video"));
    assert!(!is_youtube_url("https://twitch.tv/channel"));
}

#[test]
fn test_invalid_url() {
    assert!(!is_youtube_url("not-a-url"));
    assert!(!is_youtube_url(""));
}

#[test]
fn test_youtube_url_with_port() {
    assert!(is_youtube_url("https://youtube.com:443/watch?v=abc"));
}

// =========================================================================
// 6.2 — validate_google_domain tests
// =========================================================================

#[test]
fn test_validate_google_domain_bare_google_com() {
    assert!(validate_google_domain("https://google.com/path").is_ok());
}

#[test]
fn test_validate_google_domain_www_subdomain() {
    assert!(validate_google_domain("https://www.google.com/path").is_ok());
}

#[test]
fn test_validate_google_domain_nested_subdomain() {
    assert!(validate_google_domain("https://notebooklm.google.com/path").is_ok());
    assert!(validate_google_domain("https://docs.google.com/document/d/abc").is_ok());
}

#[test]
fn test_validate_google_domain_googleusercontent() {
    assert!(validate_google_domain("https://lh3.googleusercontent.com/image.png").is_ok());
    assert!(validate_google_domain("https://cdn.googleusercontent.com/audio.mp4").is_ok());
}

#[test]
fn test_validate_google_domain_googleapis() {
    assert!(validate_google_domain("https://storage.googleapis.com/bucket/file").is_ok());
    assert!(validate_google_domain("https://www.googleapis.com/upload/drive/v3").is_ok());
}

#[test]
fn test_validate_google_domain_with_query_and_fragment() {
    assert!(validate_google_domain("https://cdn.googleusercontent.com/audio.mp4?token=abc&exp=123").is_ok());
    assert!(validate_google_domain("https://storage.googleapis.com/bucket/file#section").is_ok());
}

#[test]
fn test_validate_google_domain_rejects_http() {
    let err = validate_google_domain("http://google.com/path");
    assert!(err.is_err());
    assert!(err.unwrap_err().to_string().contains("HTTPS"));
}

#[test]
fn test_validate_google_domain_rejects_untrusted_domain() {
    let err = validate_google_domain("https://evil.com/malware");
    assert!(err.is_err());
    assert!(err.unwrap_err().to_string().contains("Untrusted"));
}

#[test]
fn test_validate_google_domain_rejects_youtube() {
    // youtube.com is a Google domain but NOT in the download trust list
    let err = validate_google_domain("https://www.youtube.com/watch?v=abc");
    assert!(err.is_err());
    assert!(err.unwrap_err().to_string().contains("Untrusted"));
}

#[test]
fn test_validate_google_domain_allows_gmail() {
    // mail.google.com ends with .google.com → should be OK
    assert!(validate_google_domain("https://mail.google.com/mail/inbox").is_ok());
}

#[test]
fn test_validate_google_domain_rejects_invalid_url() {
    let err = validate_google_domain("not-a-url");
    assert!(err.is_err());
    assert!(err.unwrap_err().to_string().contains("Invalid"));
}

#[test]
fn test_validate_google_domain_rejects_empty() {
    let err = validate_google_domain("");
    assert!(err.is_err());
}

#[test]
fn test_validate_google_domain_rejects_no_host() {
    let err = validate_google_domain("https:///path");
    assert!(err.is_err());
}

#[test]
fn test_validate_google_domain_rejects_ftp() {
    let err = validate_google_domain("ftp://google.com/file");
    assert!(err.is_err());
    assert!(err.unwrap_err().to_string().contains("HTTPS"));
}

#[test]
fn test_validate_google_domain_truncates_long_urls_in_error() {
    let long_url = format!("https://evil.com/{}", "x".repeat(200));
    let err = validate_google_domain(&long_url).unwrap_err();
    let msg = err.to_string();
    // Error message should be truncated, not the full 200+ char URL
    assert!(msg.len() < 200, "Error message should truncate long URLs, got {} chars", msg.len());
}

#[test]
fn test_temp_file_path_construction() {
    // Verify the temp file naming convention
    let output = "/path/to/audio.mp4";
    let tmp = format!("{}.tmp", output);
    assert_eq!(tmp, "/path/to/audio.mp4.tmp");
    assert_eq!(temp_path(output), "/path/to/audio.mp4.tmp");

    let output2 = "C:\\Users\\test\\video.mp4";
    let tmp2 = format!("{}.tmp", output2);
    assert_eq!(tmp2, "C:\\Users\\test\\video.mp4.tmp");
    assert_eq!(temp_path(output2), "C:\\Users\\test\\video.mp4.tmp");
}

// -----------------------------------------------------------------------
// generate_mind_map — payload & parsing tests
// -----------------------------------------------------------------------

#[test]
fn test_mind_map_payload_structure() {
    let source_ids: Vec<String> = vec!["src-1".to_string(), "src-2".to_string()];
    let params = mind_map_params(&source_ids);

    let arr = params.as_array().unwrap();
    assert_eq!(arr.len(), 8, "GENERATE_MIND_MAP params must have 8 elements");

    // First element: source IDs nested
    let sources = arr[0].as_array().unwrap();
    assert_eq!(sources.len(), 2);
    assert_eq!(sources[0], j(r#"[[["src-1"]]]"#));

    // Element at index 5: mind map config
    let config = arr[5].as_array().unwrap();
    assert_eq!(config[0].as_str().unwrap(), "interactive_mindmap");
    assert_eq!(
        params,
        j(r#"[[[[["src-1"]]], [[["src-2"]]]], null, null, null, null,
             ["interactive_mindmap", [["[CONTEXT]", ""]], ""], null, [2, null, [1]]]"#)
    );
}

#[test]
fn test_mind_map_title_extraction() {
    // Extract title from mind map data
    let data = j(r#"{"name": "My Mind Map", "children": []}"#);
    assert_eq!(mind_map_title(&data), "My Mind Map");

    // Missing name → default
    let data_no_name = j(r#"{"children": []}"#);
    assert_eq!(mind_map_title(&data_no_name), "Mind Map");
}

#[test]
fn test_create_note_payload_structure() {
    let params = create_note_params("notebook-id", "Mind Map Title");
    let arr = params.as_array().unwrap();
    assert_eq!(arr.len(), 5);
    assert_eq!(arr[0].as_str().unwrap(), "notebook-id");
    assert_eq!(arr[1].as_str().unwrap(), "");
    assert_eq!(arr[2], j("[1]"));
    assert!(arr[3].is_null());
    assert_eq!(arr[4].as_str().unwrap(), "Mind Map Title");
}

#[test]
fn notebooklm_client_test_mind_map_result_empty() {
    let r = MindMapResult::empty();
    assert!(r.note_id.is_none());
    assert!(r.mind_map_data.is_none());
}

#[test]
fn notebooklm_client_test_mind_map_result_new() {
    let data = j(r#"{"name": "Test", "children": []}"#);
    let r = MindMapResult::new("note-id".to_string(), data.deep_clone());
    assert_eq!(r.note_id.as_deref(), Some("note-id"));
    assert!(r.mind_map_data.is_some());
}

// A download first checks its URL, before anything touches the disk or the
// network: only HTTPS on a Google domain gets through.

#[test]
fn test_streaming_download_rejects_untrusted_domain() {
    let result = checked_download_url("https://evil.com/malware.exe").expect("URL can be checked");
    assert!(result.is_err());
    assert!(result.unwrap_err().to_string().contains("Untrusted"));
}

#[test]
fn test_streaming_download_rejects_http_scheme() {
    let result = checked_download_url("http://google.com/file.mp4").expect("URL can be checked");
    assert!(result.is_err());
    assert!(result.unwrap_err().to_string().contains("HTTPS"));
}

#[test]
fn test_chunk_answer_first_answer_before_a_failed_parse() {
    let s = |t: &str| JsonValue::Str(t.to_string());
    let no_answer = JsonValue::Array(vec![JsonValue::Array(vec![s("")])]);
    let answer = |t: &str| JsonValue::Array(vec![JsonValue::Array(vec![s(t), JsonValue::Null])]);
    assert_eq!(chunk_answer(&vec![Some(no_answer), Some(answer("hola")), Some(answer("later"))]), Some("hola".to_string()));
    assert_eq!(chunk_answer(&vec![None, Some(answer("hola"))]), None);
    assert_eq!(chunk_answer(&vec![Some(s("not an array")), Some(answer("x"))]), Some("x".to_string()));
    assert_eq!(chunk_answer(&vec![]), None);
}
