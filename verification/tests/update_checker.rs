use notebooklm_mcp::update_checker::{compare_versions, UpdateCheckResult};
use std::cmp::Ordering;

#[test]
fn test_compare_equal() {
    assert_eq!(compare_versions("0.1.0", "0.1.0"), Ordering::Equal);
}

#[test]
fn test_compare_current_older() {
    assert_eq!(compare_versions("0.1.0", "0.2.0"), Ordering::Less);
}

#[test]
fn test_compare_current_newer() {
    assert_eq!(compare_versions("0.2.0", "0.1.0"), Ordering::Greater);
}

#[test]
fn test_compare_strips_v_prefix() {
    assert_eq!(compare_versions("0.1.0", "v0.1.0"), Ordering::Equal);
    assert_eq!(compare_versions("v0.1.0", "0.2.0"), Ordering::Less);
}

#[test]
fn test_display_up_to_date() {
    let result = UpdateCheckResult {
        current_version: "0.1.0".to_string(),
        latest_version: "v0.1.0".to_string(),
        update_available: false,
        download_url: "https://github.com/...".to_string(),
    };
    assert_eq!(result.to_string(), "Up to date (v0.1.0)");
}

#[test]
fn test_display_update_available() {
    let result = UpdateCheckResult {
        current_version: "0.1.0".to_string(),
        latest_version: "v0.2.0".to_string(),
        update_available: true,
        download_url: "https://github.com/...".to_string(),
    };
    let display = result.to_string();
    assert!(display.contains("New version available: v0.2.0"));
    assert!(display.contains("current: 0.1.0"));
}

