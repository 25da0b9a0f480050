use notebooklm_mcp::auth_helper::{extract_csrf_from_html, extract_session_id_from_html};

#[test]
fn test_extract_csrf_standard_format() {
    let html = r#"<script>var T="SNlM0e":"abc123xyz"</script>"#;
    let result = extract_csrf_from_html(html);
    assert!(result.is_ok());
}

#[test]
fn test_extract_csrf_not_found() {
    let html = r#"<div>No CSRF here</div>"#;
    let result = extract_csrf_from_html(html);
    assert!(result.is_err());
}

#[test]
fn test_extract_csrf_empty_token() {
    let html = r#"<script>"SNlM0e":""</script>"#;
    let result = extract_csrf_from_html(html);
    assert!(result.is_err());
}

#[test]
fn test_extract_session_id_standard_format() {
    let html = r#"<script>var WIZ_global_data={"FdrFJe":"-39204812345"}</script>"#;
    let result = extract_session_id_from_html(html);
    assert!(result.is_ok());
    assert_eq!(result.unwrap(), "-39204812345");
}

#[test]
fn test_extract_session_id_with_spaces() {
    let html = r#"<script>"FdrFJe" : "-12345"</script>"#;
    let result = extract_session_id_from_html(html);
    assert!(result.is_ok());
}

#[test]
fn test_extract_session_id_not_found() {
    let html = r#"<div>No session ID here</div>"#;
    let result = extract_session_id_from_html(html);
    assert!(result.is_err());
}

#[test]
fn test_extract_session_id_empty() {
    let html = r#"<script>"FdrFJe":""</script>"#;
    let result = extract_session_id_from_html(html);
    assert!(result.is_err());
}

#[test]
fn test_extract_both_tokens_same_html() {
    let html = r#"<script>WIZ_global_data={"SNlM0e":"AF1QpN-abc","FdrFJe":"-392048","other":"val"}</script>"#;
    let csrf = extract_csrf_from_html(html).unwrap();
    let sid = extract_session_id_from_html(html).unwrap();
    assert_eq!(csrf, "AF1QpN-abc");
    assert_eq!(sid, "-392048");
}

