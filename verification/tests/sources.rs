use notebooklm_mcp::json::JsonValue;
use notebooklm_mcp::rpc::sources::{
    build_drive_source_params, build_file_register_params, build_url_source_params,
    build_youtube_source_params, source_config, upload_finish_header_list,
    upload_session_url, upload_start_header_list, upload_url_of, DriveSourceInner,
    UploadSessionBody, UrlSourceInner, YoutubeSourceInner,
};

/// The JSON text of a value, keys in the order they are held.
fn text(v: &JsonValue) -> String {
    match v {
        JsonValue::Null => "null".to_string(),
        JsonValue::Bool(b) => b.to_string(),
        JsonValue::PosInt(u) => u.to_string(),
        JsonValue::NegInt(i) => i.to_string(),
        JsonValue::Float(t) => t.clone(),
        JsonValue::Str(s) => serde_json::to_string(s).unwrap(),
        JsonValue::Array(items) => {
            format!("[{}]", items.iter().map(text).collect::<Vec<_>>().join(","))
        }
        JsonValue::Object(entries) => format!(
            "{{{}}}",
            entries
                .iter()
                .map(|(k, v)| format!("{}:{}", serde_json::to_string(k).unwrap(), text(v)))
                .collect::<Vec<_>>()
                .join(",")
        ),
    }
}

#[test]
fn test_upload_session_body_uppercase() {
    let body = UploadSessionBody::new("nb-id", "file.pdf", "src-id");
    let json = text(&body.to_json());
    assert!(json.contains("PROJECT_ID"));
    assert!(json.contains("SOURCE_NAME"));
    assert!(json.contains("SOURCE_ID"));
    assert_eq!(json, r#"{"PROJECT_ID":"nb-id","SOURCE_NAME":"file.pdf","SOURCE_ID":"src-id"}"#);
}

#[test]
fn test_upload_requests() {
    assert_eq!(upload_session_url(), "https://notebooklm.google.com/upload/_/?authuser=0");
    let start = upload_start_header_list(1234);
    assert_eq!(start.len(), 5);
    assert_eq!(start[3], ("x-goog-upload-header-content-length".to_string(), "1234".to_string()));
    assert_eq!(start[1], ("x-goog-upload-command".to_string(), "start".to_string()));
    let finish = upload_finish_header_list();
    assert_eq!(finish[0], ("x-goog-upload-command".to_string(), "upload, finalize".to_string()));
    assert_eq!(upload_url_of(Some("https://up/1")), Ok("https://up/1".to_string()));
    assert_eq!(
        upload_url_of(None),
        Err("Response missing x-goog-upload-url header".to_string())
    );
}

#[test]
fn test_url_inner_to_json_array() {
    let inner = UrlSourceInner::new("https://example.com");
    let arr = inner.to_json_array();
    assert!(arr.is_array());
    let items = arr.as_array().unwrap();
    assert_eq!(items.len(), 8);
    assert_eq!(
        items[2].as_array().unwrap()[0].as_str().unwrap(),
        "https://example.com"
    );
}

#[test]
fn test_youtube_inner_to_json_array() {
    let inner = YoutubeSourceInner::new("https://youtu.be/abc");
    let arr = inner.to_json_array();
    assert!(arr.is_array());
    let items = arr.as_array().unwrap();
    assert_eq!(items.len(), 11);
    assert_eq!(
        items[7].as_array().unwrap()[0].as_str().unwrap(),
        "https://youtu.be/abc"
    );
    assert_eq!(items[10].as_u64().unwrap(), 1);
}

#[test]
fn test_drive_inner_to_json_array() {
    let inner = DriveSourceInner::new("fid", "application/pdf", "Doc");
    let arr = inner.to_json_array();
    assert!(arr.is_array());
    let items = arr.as_array().unwrap();
    assert_eq!(items.len(), 11);
    assert_eq!(items[0].as_array().unwrap()[0].as_str().unwrap(), "fid");
}

#[test]
fn test_build_url_source_params_is_array() {
    let params = build_url_source_params("nb-123", "https://example.com");
    let arr = params.as_array().unwrap();
    assert_eq!(arr.len(), 5);
    assert_eq!(arr[1].as_str().unwrap(), "nb-123");
    assert_eq!(arr[2].as_array().unwrap()[0].as_u64().unwrap(), 2);
    assert!(arr[3].is_null());
    assert!(arr[4].is_null());
}

#[test]
fn test_build_youtube_source_params_has_config_array() {
    let params = build_youtube_source_params("nb-123", "https://youtu.be/abc");
    let arr = params.as_array().unwrap();
    assert!(arr[3].is_array());
    let config = arr[3].as_array().unwrap();
    assert_eq!(config.len(), 11);
    assert_eq!(config[0].as_u64().unwrap(), 1);
}

#[test]
fn test_build_drive_source_params_single_wrapped() {
    let params = build_drive_source_params("nb-123", "fid", "application/pdf", "Doc");
    let arr = params.as_array().unwrap();
    let outer = arr[0].as_array().unwrap();
    assert_eq!(outer.len(), 1);
}

#[test]
fn test_build_file_register_params() {
    let params = build_file_register_params("nb-123", "paper.pdf");
    let arr = params.as_array().unwrap();
    let p0 = arr[0].as_array().unwrap();
    assert_eq!(p0.len(), 1);
    let inner = p0[0].as_array().unwrap();
    assert_eq!(inner[0].as_str().unwrap(), "paper.pdf");
}

#[test]
fn test_source_config_is_array() {
    let config = source_config();
    assert!(config.is_array());
    let items = config.as_array().unwrap();
    assert_eq!(items.len(), 11);
    assert_eq!(items[0].as_u64().unwrap(), 1);
    assert!(items[10].is_array());
}

