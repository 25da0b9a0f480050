use notebooklm_mcp::json::JsonValue;
use notebooklm_mcp::research_poller::{
    extract_report, parse_all_research_tasks, parse_single_source, parse_sources, ResearchPollerConfig,
};
use std::time::Duration;

fn conv(v: &serde_json::Value) -> JsonValue {
    match v {
        serde_json::Value::Null => JsonValue::Null,
        serde_json::Value::Bool(b) => JsonValue::Bool(*b),
        serde_json::Value::Number(n) => {
            if let Some(u) = n.as_u64() {
                JsonValue::PosInt(u)
            } else if let Some(i) = n.as_i64() {
                JsonValue::NegInt(i)
            } else {
                JsonValue::Float(n.to_string())
            }
        }
        serde_json::Value::String(s) => JsonValue::Str(s.clone()),
        serde_json::Value::Array(a) => JsonValue::Array(a.iter().map(conv).collect()),
        serde_json::Value::Object(o) => {
            JsonValue::Object(o.iter().map(|(k, v)| (k.clone(), conv(v))).collect())
        }
    }
}

/// A value written as JSON text.
fn j(text: &str) -> JsonValue {
    conv(&serde_json::from_str(text).expect("test JSON"))
}

#[test]
fn test_config_defaults() {
    let config = ResearchPollerConfig::default();
    assert_eq!(config.initial_interval, Duration::from_secs(2));
    assert_eq!(config.max_interval, Duration::from_secs(10));
    assert_eq!(config.timeout, Duration::from_secs(300));
}

#[test]
fn research_poller_test_config_with_timeout() {
    let config = ResearchPollerConfig::with_timeout(Duration::from_secs(600));
    assert_eq!(config.timeout, Duration::from_secs(600));
    assert_eq!(config.initial_interval, Duration::from_secs(2));
}

// --- Source parsing ---

#[test]
fn test_parse_fast_research_source() {
    let src = j(r#"["https://example.com", "Example Title", "A description", 1]"#);
    let parsed = parse_single_source(&src).unwrap();
    assert_eq!(parsed.url, Some("https://example.com".to_string()));
    assert_eq!(parsed.title, Some("Example Title".to_string()));
    assert_eq!(parsed.description, Some("A description".to_string()));
    assert_eq!(parsed.result_type, 1);
}

#[test]
fn test_parse_deep_research_current_format() {
    // [None, [title, report_markdown], None, type, ...]
    let src = j(r##"[
        null,
        ["Research Report", "# Report\n\nSome markdown content"],
        null,
        5
    ]"##);
    let parsed = parse_single_source(&src).unwrap();
    assert!(parsed.url.is_none());
    assert_eq!(parsed.title, Some("Research Report".to_string()));
    assert_eq!(
        parsed.description,
        Some("# Report\n\nSome markdown content".to_string())
    );
    assert_eq!(parsed.result_type, 5);
}

#[test]
fn test_parse_deep_research_legacy_format() {
    // [None, "Report Title", None, type, null, null, ["chunk1", "chunk2"]]
    let src = j(r##"[
        null,
        "Report Title",
        null,
        5,
        null,
        null,
        ["# Part 1", "# Part 2"]
    ]"##);
    let parsed = parse_single_source(&src).unwrap();
    assert!(parsed.url.is_none());
    assert_eq!(parsed.title, Some("Report Title".to_string()));
    assert_eq!(parsed.result_type, 5);
}

#[test]
fn test_parse_sources_multiple_formats() {
    let sources = j(r##"[
        ["https://example.com", "Fast Source", "desc", 1],
        [null, ["Deep Report", "# Full report"], null, 5],
        [
            null,
            "Legacy Report",
            null,
            5,
            null,
            null,
            ["chunk1", "chunk2"]
        ]
    ]"##);
    let arr = sources.as_array().unwrap();
    let parsed = parse_sources(arr);
    assert_eq!(parsed.len(), 3);
    assert_eq!(parsed[0].url, Some("https://example.com".to_string()));
    assert_eq!(parsed[1].title, Some("Deep Report".to_string()));
    assert_eq!(parsed[2].title, Some("Legacy Report".to_string()));
}

// --- Report extraction ---

#[test]
fn test_extract_report_current_format() {
    let sources = j(r##"[[
        null,
        ["Report", "# My Research\n\nDetailed findings"],
        null,
        5
    ]]"##);
    let arr = sources.as_array().unwrap();
    let report = extract_report(arr, None);
    assert_eq!(
        report,
        Some("# My Research\n\nDetailed findings".to_string())
    );
}

#[test]
fn test_extract_report_legacy_format() {
    let sources = j(r###"[[
        null,
        "Report",
        null,
        5,
        null,
        null,
        ["# Part 1", "## Part 2"]
    ]]"###);
    let arr = sources.as_array().unwrap();
    let report = extract_report(arr, None);
    assert_eq!(report, Some("# Part 1\n\n## Part 2".to_string()));
}

#[test]
fn test_extract_report_fallback_to_summary() {
    let sources = j(r#"[]"#);
    let arr = sources.as_array().unwrap();
    let report = extract_report(arr, Some("Summary text".to_string()));
    assert_eq!(report, Some("Summary text".to_string()));
}

#[test]
fn test_extract_report_none() {
    let sources = j(r#"[]"#);
    let arr = sources.as_array().unwrap();
    let report = extract_report(arr, None);
    assert!(report.is_none());
}

// --- Task parsing ---

#[test]
fn test_parse_all_research_tasks_completed() {
    let response = j(r#"[[
        "task-123",
        [
            null,
            ["AI research query"],
            null,
            [
                [["https://example.com", "Source 1", "desc", 1]],
                "Summary text"
            ],
            6
        ]
    ]]"#);
    let tasks = parse_all_research_tasks(&response);
    assert_eq!(tasks.len(), 1);
    assert_eq!(tasks[0].0, "task-123");
    assert!(tasks[0].1.is_complete);
    assert_eq!(tasks[0].1.status_code, 6);
    assert_eq!(tasks[0].1.query, Some("AI research query".to_string()));
    assert_eq!(tasks[0].1.sources.len(), 1);
}

#[test]
fn test_parse_all_research_tasks_in_progress() {
    let response = j(r#"[["task-456", [null, ["query"], null, [[], ""], 1]]]"#);
    let tasks = parse_all_research_tasks(&response);
    assert_eq!(tasks.len(), 1);
    assert!(!tasks[0].1.is_complete);
    assert_eq!(tasks[0].1.status_code, 1);
}

#[test]
fn test_parse_all_research_tasks_empty() {
    let response = j(r#"[]"#);
    let tasks = parse_all_research_tasks(&response);
    assert!(tasks.is_empty());
}

#[test]
fn test_parse_all_research_tasks_multiple() {
    let response = j(r#"[
        ["task-old", [null, ["old query"], null, [[], ""], 2]],
        ["task-new", [null, ["new query"], null, [[], ""], 1]]
    ]"#);
    let tasks = parse_all_research_tasks(&response);
    assert_eq!(tasks.len(), 2);
    assert_eq!(tasks[0].0, "task-old");
    assert_eq!(tasks[1].0, "task-new");
}

#[test]
fn test_deep_research_with_report_in_sources() {
    let response = j(r##"[[
        "task-deep",
        [
            null,
            ["What is quantum computing?"],
            null,
            [
                [
                    [
                        null,
                        [
                            "Quantum Computing Report",
                            "# Quantum Computing\n\n## Overview\n\nQuantum computers use qubits..."
                        ],
                        null,
                        5
                    ],
                    ["https://arxiv.org/paper", "Paper", "Academic paper", 1]
                ],
                ""
            ],
            6
        ]
    ]]"##);
    let tasks = parse_all_research_tasks(&response);
    assert_eq!(tasks.len(), 1);
    assert!(tasks[0].1.is_complete);
    assert_eq!(
        tasks[0].1.report,
        Some(
            "# Quantum Computing\n\n## Overview\n\nQuantum computers use qubits...".to_string()
        )
    );
    assert_eq!(tasks[0].1.sources.len(), 2);
}

