use notebooklm_mcp::json::JsonValue;
use notebooklm_mcp::source_poller::SourceState;

fn conv(v: &serde_json::Value) -> JsonValue {
    match v {
        serde_json::Value::Null => JsonValue::Null,
        serde_json::Value::Bool(b) => JsonValue::Bool(*b),
        serde_json::Value::Number(n) => {
            if let Some(u) = n.as_u64() {
                JsonValue::PosInt(u)
            } else if let Some(i) = n.as_i64() {
                JsonValue::NegInt(i)
            } else {
                JsonValue::Float(n.to_string())
            }
        }
        serde_json::Value::String(s) => JsonValue::Str(s.clone()),
        serde_json::Value::Array(a) => JsonValue::Array(a.iter().map(conv).collect()),
        serde_json::Value::Object(o) => {
            JsonValue::Object(o.iter().map(|(k, v)| (k.clone(), conv(v))).collect())
        }
    }
}

/// A value written as JSON text.
fn j(text: &str) -> JsonValue {
    conv(&serde_json::from_str(text).expect("test JSON"))
}

#[test]
fn test_source_state_from_response_null() {
    let null: JsonValue = JsonValue::Null;
    assert_eq!(SourceState::from_response(&null), SourceState::Unknown);
}

#[test]
fn test_source_state_from_response_empty_array() {
    let empty: JsonValue = j(r#"[]"#);
    assert_eq!(SourceState::from_response(&empty), SourceState::Unknown);
}

#[test]
fn test_source_state_processing() {
    // Status code 1 at [3][1]
    let entry = j(r#"[[[["src-id"]]], "title", null, [null, 1]]"#);
    assert_eq!(SourceState::from_response(&entry), SourceState::Processing);
}

#[test]
fn test_source_state_ready() {
    // Status code 2 at [3][1]
    let entry = j(r#"[[[["src-id"]]], "title", null, [null, 2]]"#);
    assert_eq!(SourceState::from_response(&entry), SourceState::Ready);
}

#[test]
fn test_source_state_error() {
    // Status code 3 at [3][1] with error message at [3][2]
    let entry = j(r#"[[[["src-id"]]], "title", null, [null, 3, "Processing error"]]"#);
    let state = SourceState::from_response(&entry);
    assert!(matches!(state, SourceState::Error(msg) if msg.contains("Processing error")));
}

#[test]
fn test_source_state_error_default_message() {
    // Status code 3 without error message
    let entry = j(r#"[[[["src-id"]]], "title", null, [null, 3]]"#);
    let state = SourceState::from_response(&entry);
    assert!(matches!(state, SourceState::Error(_)));
}

#[test]
fn test_source_state_unknown_no_metadata() {
    // Entry without [3] position
    let entry = j(r#"[[[["src-id"]]], "title"]"#);
    assert_eq!(SourceState::from_response(&entry), SourceState::Unknown);
}

