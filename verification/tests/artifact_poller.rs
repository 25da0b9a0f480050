use notebooklm_mcp::artifact_poller::{is_media_ready, scan_for_http_url, ArtifactPollerConfig};
use notebooklm_mcp::json::JsonValue;
use notebooklm_mcp::parser::Artifact;
use notebooklm_mcp::rpc::artifacts::{ArtifactStatus, ArtifactType};
use std::time::Duration;

fn conv(v: &serde_json::Value) -> JsonValue {
    match v {
        serde_json::Value::Null => JsonValue::Null,
        serde_json::Value::Bool(b) => JsonValue::Bool(*b),
        serde_json::Value::Number(n) => {
            if let Some(u) = n.as_u64() {
                JsonValue::PosInt(u)
            } else if let Some(i) = n.as_i64() {
                JsonValue::NegInt(i)
            } else {
                JsonValue::Float(n.to_string())
            }
        }
        serde_json::Value::String(s) => JsonValue::Str(s.clone()),
        serde_json::Value::Array(a) => JsonValue::Array(a.iter().map(conv).collect()),
        serde_json::Value::Object(o) => {
            JsonValue::Object(o.iter().map(|(k, v)| (k.clone(), conv(v))).collect())
        }
    }
}

/// A value written as JSON text.
fn j(text: &str) -> JsonValue {
    conv(&serde_json::from_str(text).expect("test JSON"))
}

// -----------------------------------------------------------------------
// ArtifactPollerConfig tests — Task 5.1
// -----------------------------------------------------------------------

#[test]
fn test_default_config() {
    let config = ArtifactPollerConfig::default();
    assert_eq!(config.initial_interval, Duration::from_secs(2));
    assert_eq!(config.max_interval, Duration::from_secs(10));
    assert_eq!(config.timeout, Duration::from_secs(300));
}

#[test]
fn artifact_poller_test_config_with_timeout() {
    let config = ArtifactPollerConfig::with_timeout(Duration::from_secs(1800));
    assert_eq!(config.timeout, Duration::from_secs(1800));
    // Other values remain default
    assert_eq!(config.initial_interval, Duration::from_secs(2));
    assert_eq!(config.max_interval, Duration::from_secs(10));
}

// -----------------------------------------------------------------------
// Media ready gate tests — Task 5.3
// -----------------------------------------------------------------------

fn make_test_artifact(kind: ArtifactType, raw_data: JsonValue) -> Artifact {
    Artifact {
        id: "test-artifact-id".to_string(),
        title: "Test".to_string(),
        kind,
        status: ArtifactStatus::Completed,
        raw_data,
    }
}

// --- Non-media types: always ready ---

#[test]
fn test_media_ready_report() {
    let art = make_test_artifact(ArtifactType::Report, JsonValue::Null);
    assert!(is_media_ready(&art), "Report should always be media-ready");
}

#[test]
fn test_media_ready_data_table() {
    let art = make_test_artifact(ArtifactType::DataTable, JsonValue::Null);
    assert!(
        is_media_ready(&art),
        "DataTable should always be media-ready"
    );
}

#[test]
fn test_media_ready_quiz() {
    let art = make_test_artifact(ArtifactType::Quiz, JsonValue::Null);
    assert!(is_media_ready(&art), "Quiz should always be media-ready");
}

#[test]
fn test_media_ready_flashcards() {
    let art = make_test_artifact(ArtifactType::Flashcards, JsonValue::Null);
    assert!(
        is_media_ready(&art),
        "Flashcards should always be media-ready"
    );
}

#[test]
fn test_media_ready_mind_map() {
    let art = make_test_artifact(ArtifactType::MindMap, JsonValue::Null);
    assert!(is_media_ready(&art), "MindMap should always be media-ready");
}

// --- Audio media ready ---

#[test]
fn test_audio_media_ready_with_url() {
    // art[6][5] = non-empty list
    let raw = j(r#"[
        "audio-id",
        "Audio Title",
        1,
        null,
        3,
        null,
        [
            null,
            null,
            null,
            null,
            null,
            [["https://cdn.google.com/audio.mp4", "audio/mp4"]]
        ]
    ]"#);
    let art = make_test_artifact(ArtifactType::Audio, raw);
    assert!(is_media_ready(&art));
}

#[test]
fn test_audio_media_ready_empty_list() {
    // art[6][5] = empty list
    let raw = j(r#"[
        "audio-id",
        "Audio Title",
        1,
        null,
        3,
        null,
        [null, null, null, null, null, []]
    ]"#);
    let art = make_test_artifact(ArtifactType::Audio, raw);
    assert!(
        !is_media_ready(&art),
        "Empty media list should not be ready"
    );
}

#[test]
fn test_audio_media_ready_no_metadata() {
    // art[6] = null (not yet populated)
    let raw = j(r#"["audio-id", "Audio Title", 1, null, 3, null, null]"#);
    let art = make_test_artifact(ArtifactType::Audio, raw);
    assert!(
        !is_media_ready(&art),
        "Missing audio metadata should not be ready"
    );
}

// --- Video media ready ---

#[test]
fn test_video_media_ready_with_url() {
    // art[8] = list with entries containing HTTP URLs
    let raw = j(r#"[
        "video-id",
        "Video Title",
        3,
        null,
        3,
        null,
        null,
        null,
        [["https://cdn.google.com/video.mp4", 4, "video/mp4"]]
    ]"#);
    let art = make_test_artifact(ArtifactType::Video, raw);
    assert!(is_media_ready(&art));
}

#[test]
fn test_video_media_ready_empty() {
    // art[8] = empty list
    let raw = j(r#"["video-id", "Video Title", 3, null, 3, null, null, null, []]"#);
    let art = make_test_artifact(ArtifactType::Video, raw);
    assert!(
        !is_media_ready(&art),
        "Empty video metadata should not be ready"
    );
}

#[test]
fn test_video_media_ready_no_metadata() {
    // art[8] missing (array too short)
    let raw = j(r#"["video-id", "Video Title", 3, null, 3]"#);
    let art = make_test_artifact(ArtifactType::Video, raw);
    assert!(
        !is_media_ready(&art),
        "Missing video metadata should not be ready"
    );
}

// --- Infographic media ready ---

#[test]
fn test_infographic_media_ready_with_url() {
    // Simulate the nested URL pattern: art[i][2][0][1][0]
    let raw = j(r#"[
        "infographic-id",
        "Infographic Title",
        7,
        null,
        3,
        null,
        null,
        null,
        null,
        null,
        null,
        null,
        null,
        null,
        null,
        [[null, [null, [["https://cdn.google.com/infographic.png"]]]]]
    ]"#);
    let art = make_test_artifact(ArtifactType::Infographic, raw);
    assert!(is_media_ready(&art));
}

#[test]
fn test_infographic_media_ready_no_url() {
    // No HTTP URL found in any nested structure
    let raw = j(r#"[
        "infographic-id",
        "Infographic Title",
        7,
        null,
        3,
        null,
        null,
        null,
        null,
        null,
        null,
        null,
        null,
        null,
        null,
        [[null, [null, []]]]
    ]"#);
    let art = make_test_artifact(ArtifactType::Infographic, raw);
    assert!(!is_media_ready(&art), "No URL should not be ready");
}

#[test]
fn test_infographic_media_ready_minimal() {
    // Array too short for any URL
    let raw = j(r#"["infographic-id", "Infographic Title", 7, null, 3]"#);
    let art = make_test_artifact(ArtifactType::Infographic, raw);
    assert!(!is_media_ready(&art));
}

// --- SlideDeck media ready ---

#[test]
fn test_slide_deck_media_ready_with_pdf_url() {
    // art[16][3] = PDF URL
    let raw = j(r#"[
        "deck-id",
        "Deck Title",
        8,
        null,
        3,
        null,
        null,
        null,
        null,
        null,
        null,
        null,
        null,
        null,
        null,
        null,
        [
            "config",
            "Title",
            [],
            "https://cdn.google.com/deck.pdf",
            null
        ]
    ]"#);
    let art = make_test_artifact(ArtifactType::SlideDeck, raw);
    assert!(is_media_ready(&art));
}

#[test]
fn test_slide_deck_media_ready_empty_url() {
    // art[16][3] = empty string
    let raw = j(r#"[
        "deck-id",
        "Deck Title",
        8,
        null,
        3,
        null,
        null,
        null,
        null,
        null,
        null,
        null,
        null,
        null,
        null,
        null,
        ["config", "Title", [], "", null]
    ]"#);
    let art = make_test_artifact(ArtifactType::SlideDeck, raw);
    assert!(!is_media_ready(&art), "Empty URL should not be ready");
}

#[test]
fn test_slide_deck_media_ready_no_metadata() {
    // art[16] missing
    let raw = j(r#"["deck-id", "Deck Title", 8, null, 3]"#);
    let art = make_test_artifact(ArtifactType::SlideDeck, raw);
    assert!(
        !is_media_ready(&art),
        "Missing deck metadata should not be ready"
    );
}

// --- scan_for_http_url helper ---

#[test]
fn test_scan_for_http_url_string() {
    let val = JsonValue::Str("https://example.com/file.mp4".to_string());
    assert_eq!(
        scan_for_http_url(&val),
        Some("https://example.com/file.mp4".to_string())
    );
}

#[test]
fn test_scan_for_http_url_non_http() {
    let val = JsonValue::Str("not-a-url".to_string());
    assert!(scan_for_http_url(&val).is_none());
}

#[test]
fn test_scan_for_http_url_null() {
    assert!(scan_for_http_url(&JsonValue::Null).is_none());
}

#[test]
fn test_scan_for_http_url_nested_array() {
    let val = j(r#"[null, [null, [["https://cdn.example.com/img.png"]]]]"#);
    assert_eq!(
        scan_for_http_url(&val),
        Some("https://cdn.example.com/img.png".to_string())
    );
}

// --- Edge cases ---

#[test]
fn test_media_ready_raw_not_array() {
    // Artifact with raw_data that's not an array
    let art = Artifact {
        id: "test".to_string(),
        title: "Test".to_string(),
        kind: ArtifactType::Audio,
        status: ArtifactStatus::Completed,
        raw_data: JsonValue::Str("not an array".to_string()),
    };
    assert!(!is_media_ready(&art));
}
