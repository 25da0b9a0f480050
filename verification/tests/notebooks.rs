use notebooklm_mcp::json::JsonValue;
use notebooklm_mcp::rpc::notebooks::{
    parse_notebook_details, parse_share_status, parse_summary, ShareAccess, SharePermission,
};

fn conv(v: &serde_json::Value) -> JsonValue {
    match v {
        serde_json::Value::Null => JsonValue::Null,
        serde_json::Value::Bool(b) => JsonValue::Bool(*b),
        serde_json::Value::Number(n) => {
            if let Some(u) = n.as_u64() {
                JsonValue::PosInt(u)
            } else if let Some(i) = n.as_i64() {
                JsonValue::NegInt(i)
            } else {
                JsonValue::Float(n.to_string())
            }
        }
        serde_json::Value::String(s) => JsonValue::Str(s.clone()),
        serde_json::Value::Array(a) => JsonValue::Array(a.iter().map(conv).collect()),
        serde_json::Value::Object(o) => {
            JsonValue::Object(o.iter().map(|(k, v)| (k.clone(), conv(v))).collect())
        }
    }
}

/// A value written as JSON text.
fn j(text: &str) -> JsonValue {
    conv(&serde_json::from_str(text).expect("test JSON"))
}

// -----------------------------------------------------------------------
// ShareAccess
// -----------------------------------------------------------------------

#[test]
fn test_share_access_codes() {
    assert_eq!(ShareAccess::Restricted.code(), 0);
    assert_eq!(ShareAccess::AnyoneWithLink.code(), 1);
}

#[test]
fn test_share_access_from_code_roundtrip() {
    assert_eq!(ShareAccess::from_code(0), Some(ShareAccess::Restricted));
    assert_eq!(ShareAccess::from_code(1), Some(ShareAccess::AnyoneWithLink));
    assert_eq!(ShareAccess::from_code(99), None);
}

#[test]
fn test_share_access_display() {
    assert_eq!(ShareAccess::Restricted.to_string(), "RESTRICTED");
    assert_eq!(ShareAccess::AnyoneWithLink.to_string(), "ANYONE_WITH_LINK");
}

// -----------------------------------------------------------------------
// SharePermission
// -----------------------------------------------------------------------

#[test]
fn test_share_permission_from_code() {
    assert_eq!(SharePermission::from_code(1), Some(SharePermission::Owner));
    assert_eq!(SharePermission::from_code(2), Some(SharePermission::Editor));
    assert_eq!(SharePermission::from_code(3), Some(SharePermission::Viewer));
    assert_eq!(SharePermission::from_code(99), None);
}

// -----------------------------------------------------------------------
// parse_notebook_details
// -----------------------------------------------------------------------

#[test]
fn test_parse_notebook_details_full() {
    // data[0]=title, data[2]=id, data[1]=sources, data[5][1]=is_owner, data[5][5][0]=ts
    let inner = j(r#"[[
        "My Notebook",
        [
            [["11111111-1111-1111-1111-111111111111"], "Source 1"],
            [["22222222-2222-2222-2222-222222222222"], "Source 2"]
        ],
        "33333333-3333-3333-3333-333333333333",
        null,
        null,
        [null, true, null, null, null, [[1714000000]]]
    ]]"#);

    let details = parse_notebook_details(&inner).unwrap();
    assert_eq!(details.id, "33333333-3333-3333-3333-333333333333");
    assert_eq!(details.title, "My Notebook");
    assert_eq!(details.sources_count, 2);
    assert_eq!(details.is_owner, false); // True in response = shared
    assert_eq!(details.created_at, Some("1714000000".to_string()));
}

#[test]
fn test_parse_notebook_details_owner() {
    let inner = j(r#"[[
        "Owner Notebook",
        [],
        "44444444-4444-4444-4444-444444444444",
        null,
        null,
        [null, false, null, null, null, []]
    ]]"#);

    let details = parse_notebook_details(&inner).unwrap();
    assert_eq!(details.is_owner, true); // False in response = owner
}

#[test]
fn test_parse_notebook_details_minimal() {
    // Only title and id, no sources, no metadata
    let inner =
        j(r#"[["Minimal NB", null, "55555555-5555-5555-5555-555555555555"]]"#);

    let details = parse_notebook_details(&inner).unwrap();
    assert_eq!(details.id, "55555555-5555-5555-5555-555555555555");
    assert_eq!(details.title, "Minimal NB");
    assert_eq!(details.sources_count, 0);
    assert!(details.is_owner); // default
    assert!(details.created_at.is_none()); // default
}

#[test]
fn test_parse_notebook_details_empty_response() {
    let inner = j(r#"[]"#);
    assert!(parse_notebook_details(&inner).is_none());
}

#[test]
fn test_parse_notebook_details_null_response() {
    let inner = JsonValue::Null;
    assert!(parse_notebook_details(&inner).is_none());
}

// -----------------------------------------------------------------------
// parse_share_status
// -----------------------------------------------------------------------

#[test]
fn test_parse_share_status_public() {
    // [[[users]], [true], 1000]
    let inner = j(r#"[
        [[["user@example.com", 3, [], ["Alice", "avatar.png"]]]],
        [true],
        1000
    ]"#);

    let status = parse_share_status(&inner, "nb-123");
    assert_eq!(status.notebook_id, "nb-123");
    assert_eq!(status.notebook_id, "nb-123");
    assert!(status.is_public);
    assert_eq!(status.access, ShareAccess::AnyoneWithLink);
    assert_eq!(status.shared_users.len(), 1);
    assert_eq!(status.shared_users[0].email, "user@example.com");
    assert_eq!(status.shared_users[0].permission, SharePermission::Viewer);
    assert_eq!(
        status.shared_users[0].display_name,
        Some("Alice".to_string())
    );
    assert_eq!(
        status.shared_users[0].avatar_url,
        Some("avatar.png".to_string())
    );
    assert_eq!(
        status.share_url,
        Some("https://notebooklm.google.com/notebook/nb-123".to_string())
    );
}

#[test]
fn test_parse_share_status_private() {
    let inner = j(r#"[[[]], [false], 1000]"#);

    let status = parse_share_status(&inner, "nb-456");
    assert!(!status.is_public);
    assert_eq!(status.access, ShareAccess::Restricted);
    assert!(status.shared_users.is_empty());
    assert!(status.share_url.is_none());
}

#[test]
fn test_parse_share_status_null_response() {
    let status = parse_share_status(&JsonValue::Null, "nb-789");
    assert!(!status.is_public);
    assert!(status.shared_users.is_empty());
    assert!(status.share_url.is_none());
}

#[test]
fn test_parse_share_status_empty_users() {
    // Users array is present but empty
    let inner = j(r#"[[[]], [true], 1000]"#);
    let status = parse_share_status(&inner, "nb-000");
    assert!(status.is_public);
    assert!(status.shared_users.is_empty());
}

#[test]
fn test_parse_share_status_malformed_user_entry() {
    // User entry missing email — should be skipped
    let inner = j(r#"[["not-an-array", true], [false], 1000]"#);
    let status = parse_share_status(&inner, "nb-111");
    assert!(!status.is_public);
    assert!(status.shared_users.is_empty());
}

// -----------------------------------------------------------------------
// parse_summary
// -----------------------------------------------------------------------

#[test]
fn test_parse_summary_with_topics() {
    // [[summary], [[topics]]]
    let inner = j(r#"[[
        ["This is the AI summary"],
        [["What is X?", "Explore X"], ["What is Y?", "Explore Y"]]
    ]]"#);

    let summary = parse_summary(&inner);
    assert_eq!(summary.summary, "This is the AI summary");
    assert_eq!(summary.suggested_topics.len(), 2);
    assert_eq!(summary.suggested_topics[0].question, "What is X?");
    assert_eq!(summary.suggested_topics[0].prompt, "Explore X");
    assert_eq!(summary.suggested_topics[1].question, "What is Y?");
}

#[test]
fn test_parse_summary_empty_notebook() {
    // Empty response — no summary, no topics
    let inner = j(r#"[]"#);
    let summary = parse_summary(&inner);
    assert!(summary.summary.is_empty());
    assert!(summary.suggested_topics.is_empty());
}

#[test]
fn test_parse_summary_only_summary_no_topics() {
    // Summary exists but topics array is missing/empty
    let inner = j(r#"[[["Summary text"]]]"#);
    let summary = parse_summary(&inner);
    assert_eq!(summary.summary, "Summary text");
    assert!(summary.suggested_topics.is_empty());
}

#[test]
fn test_parse_summary_null_response() {
    let summary = parse_summary(&j(r#"null"#));
    assert!(summary.summary.is_empty());
    assert!(summary.suggested_topics.is_empty());
}

#[test]
fn test_parse_summary_skips_empty_topics() {
    // Topics array present but entries are empty
    let inner = j(r#"[[["Summary"], [[]]]]"#);
    let summary = parse_summary(&inner);
    assert_eq!(summary.summary, "Summary");
    assert!(summary.suggested_topics.is_empty());
}

