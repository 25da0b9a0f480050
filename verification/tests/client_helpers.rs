use notebooklm_mcp::client::{
    answer_from_inner, ask_sources_text, best_answer, check_download_response,
    check_download_size, check_rate_limit, checked_download_url, data_table_csv,
    effective_mime_type, interactive_html, new_source_id, notebooks_from_list, plan_download,
    require_sources, select_completed_artifact, stream_lines, strip_stream_guard, DownloadPlan,
};
use notebooklm_mcp::json::JsonValue;
use notebooklm_mcp::parser::Artifact;
use notebooklm_mcp::rpc::artifacts::{ArtifactStatus, ArtifactType};

fn conv(v: &serde_json::Value) -> JsonValue {
    match v {
        serde_json::Value::Null => JsonValue::Null,
        serde_json::Value::Bool(b) => JsonValue::Bool(*b),
        serde_json::Value::Number(n) => {
            if let Some(u) = n.as_u64() {
                JsonValue::PosInt(u)
            } else if let Some(i) = n.as_i64() {
                JsonValue::NegInt(i)
            } else {
                JsonValue::Float(n.to_string())
            }
        }
        serde_json::Value::String(s) => JsonValue::Str(s.clone()),
        serde_json::Value::Array(a) => JsonValue::Array(a.iter().map(conv).collect()),
        serde_json::Value::Object(o) => {
            JsonValue::Object(o.iter().map(|(k, v)| (k.clone(), conv(v))).collect())
        }
    }
}

/// A value written as JSON text.
fn j(text: &str) -> JsonValue {
    conv(&serde_json::from_str(text).expect("test JSON"))
}

fn artifact(id: &str, kind: ArtifactType, status: ArtifactStatus, raw: JsonValue) -> Artifact {
    Artifact { id: id.to_string(), title: "T".to_string(), kind, status, raw_data: raw }
}

const UUID: &str = "550e8400-e29b-41d4-a716-446655440000";

#[test]
fn test_notebooks_from_list() {
    let list = j(&format!(
        r#"[["Title A", [], "{}"], [null, [], "{}"], ["Bad", [], "short-id"], "not-an-array"]"#,
        UUID, UUID
    ));
    let nbs = notebooks_from_list(list.as_array().unwrap());
    assert_eq!(nbs.len(), 2);
    assert_eq!(nbs[0].title, "Title A");
    assert_eq!(nbs[0].id, UUID);
    assert_eq!(nbs[1].title, "Sin título");
    assert_eq!(nbs[1].sources_count, 0);
    assert!(!nbs[1].is_owner);
}

#[test]
fn test_check_rate_limit() {
    let limited = j(r#"[["wrb.fr", "USER_DISPLAYABLE_ERROR", null]]"#);
    let g = check_rate_limit(&limited).unwrap();
    assert!(g.is_rate_limited());
    assert_eq!(g.error.as_deref(), Some("Rate limited by API (USER_DISPLAYABLE_ERROR)"));
    assert!(check_rate_limit(&j(r#"[["wrb.fr", "R7cb6c", "[]"]]"#)).is_none());
    assert!(check_rate_limit(&j(r#"[["e", 4], ["wrb.fr", "USER_DISPLAYABLE_ERROR"]]"#)).is_some());
    assert!(check_rate_limit(&JsonValue::Null).is_none());
}

#[test]
fn test_select_completed_artifact() {
    let arts = || {
        vec![
            artifact("a1", ArtifactType::Audio, ArtifactStatus::Processing, JsonValue::Null),
            artifact("a2", ArtifactType::Report, ArtifactStatus::Completed, JsonValue::Null),
        ]
    };
    assert_eq!(select_completed_artifact(arts(), "a2", "nb").unwrap().id, "a2");
    let not_ready = select_completed_artifact(arts(), "a1", "nb").unwrap_err();
    assert!(not_ready.to_string().contains("Artifact a1 is not completed (status: PROCESSING)"));
    let missing = select_completed_artifact(arts(), "zz", "nb").unwrap_err();
    assert!(missing.to_string().contains("Artifact zz not found in notebook nb"));
}

#[test]
fn test_data_table_csv() {
    let headers = vec!["Name".to_string(), "Note".to_string()];
    let rows = vec![
        vec!["Alice".to_string(), "a, b".to_string()],
        vec!["Bob".to_string(), "say \"hi\"".to_string()],
    ];
    assert_eq!(
        data_table_csv(&headers, &rows),
        "\u{FEFF}Name,Note\nAlice,\"a, b\"\nBob,\"say \"\"hi\"\"\"\n"
    );
    assert_eq!(data_table_csv(&vec![], &vec![]), "\u{FEFF}\n");
}

#[test]
fn test_plan_download_by_kind() {
    let report = artifact(
        "r1",
        ArtifactType::Report,
        ArtifactStatus::Completed,
        j(r##"["r1", "T", 2, null, 3, null, null, "# Hello"]"##),
    );
    match plan_download(&report, "r1", None).unwrap() {
        DownloadPlan::Write(text) => assert_eq!(text, "# Hello"),
        _ => panic!("expected a report write"),
    }
    let quiz = artifact("q1", ArtifactType::Quiz, ArtifactStatus::Completed, JsonValue::Null);
    assert!(matches!(plan_download(&quiz, "q1", None).unwrap(), DownloadPlan::Interactive));
    let map = artifact("m1", ArtifactType::MindMap, ArtifactStatus::Completed, JsonValue::Null);
    assert!(matches!(plan_download(&map, "m1", None).unwrap(), DownloadPlan::MindMap));
    let audio = artifact(
        "a1",
        ArtifactType::Audio,
        ArtifactStatus::Completed,
        j(r#"["a1", "T", 1, null, 3, null, [null, null, null, null, null, [["https://x.googleusercontent.com/a.mp4", 1, "audio/mp4"]]]]"#),
    );
    match plan_download(&audio, "a1", None).unwrap() {
        DownloadPlan::Fetch(url) => assert_eq!(url, "https://x.googleusercontent.com/a.mp4"),
        _ => panic!("expected a fetch"),
    }
    let deck = artifact("d1", ArtifactType::SlideDeck, ArtifactStatus::Completed, JsonValue::Null);
    let err = plan_download(&deck, "d1", Some("pptx")).unwrap_err();
    assert!(err.to_string().contains("Could not extract slide deck d1 URL (format: pptx)"));
    let unknown = artifact("u1", ArtifactType::Unknown, ArtifactStatus::Completed, JsonValue::Null);
    assert!(plan_download(&unknown, "u1", None)
        .unwrap_err()
        .to_string()
        .contains("Cannot download unknown artifact type: u1"));
}

#[test]
fn test_strip_stream_guard_and_lines() {
    assert_eq!(strip_stream_guard(")]}'\n\n12\n[1]"), "12\n[1]");
    assert_eq!(strip_stream_guard("[1]"), "[1]");
    let lines = stream_lines("  12 \n[[\"wrb.fr\"]]\n\n  [2]  \n345");
    assert_eq!(lines, vec!["[[\"wrb.fr\"]]".to_string(), "[2]".to_string()]);
}

#[test]
fn test_answer_from_inner() {
    assert_eq!(
        answer_from_inner(&j(r#"[[""], ["The answer", null, []]]"#)),
        Some("The answer".to_string())
    );
    assert_eq!(answer_from_inner(&j(r#"[[null], [1]]"#)), None);
}

#[test]
fn test_best_answer() {
    let answers = vec!["short".to_string(), "the longest".to_string(), "equal sized".to_string()];
    assert_eq!(best_answer(&answers, "").unwrap(), "equal sized");
    assert_eq!(
        best_answer(&vec![], "some raw text here").unwrap(),
        "(Respuesta recibida, parsing mejorable):\nsome raw text here"
    );
    assert_eq!(best_answer(&vec![], "tiny").unwrap_err(), "No se pudo extraer respuesta");
}

#[test]
fn test_ask_sources() {
    let ids = vec!["s1".to_string(), "s2".to_string()];
    assert_eq!(ask_sources_text(&ids), "[[[\"s1\"]],[[\"s2\"]]]");
    assert_eq!(ask_sources_text(&vec![]), "[]");
    assert!(require_sources(&ids).is_ok());
    assert_eq!(
        require_sources(&vec![]).unwrap_err(),
        "No hay fuentes disponibles en esta libreta. Añade fuentes antes de preguntar."
    );
}

#[test]
fn test_new_source_id() {
    assert_eq!(new_source_id(&j(r#"[[["src-1"]]]"#)).unwrap(), "src-1");
    assert_eq!(new_source_id(&j("[]")).unwrap_err(), "Array vacío");
    assert_eq!(new_source_id(&JsonValue::Null).unwrap_err(), "Inner no es array");
    assert_eq!(new_source_id(&j("[[]]")).unwrap_err(), "Array anidado vacío");
    assert_eq!(new_source_id(&j("[[[1]]]")).unwrap_err(), "No se pudo extraer el UUID de la fuente nueva");
}

#[test]
fn test_effective_mime_type() {
    assert_eq!(effective_mime_type(""), "application/vnd.google-apps.document");
    assert_eq!(effective_mime_type("application/pdf"), "application/pdf");
}

#[test]
fn test_download_checks() {
    assert!(check_download_response(true, "200 OK", "", "audio/mp4").is_ok());
    let html = check_download_response(true, "200 OK", "", "text/html; charset=utf-8").unwrap_err();
    assert!(html.to_string().contains("Download returned HTML instead of media file"));
    let http = check_download_response(false, "404 Not Found", "missing", "text/plain").unwrap_err();
    assert!(http.to_string().contains("Download failed (HTTP 404 Not Found): missing"));
    let long_body = "y".repeat(500);
    let long = check_download_response(false, "500", &long_body, "").unwrap_err();
    assert!(long.to_string().contains(&"y".repeat(200)));
    assert!(!long.to_string().contains(&"y".repeat(201)));
    assert_eq!(check_download_size(10).unwrap(), 10);
    assert!(check_download_size(0).unwrap_err().to_string().contains("Download produced 0 bytes"));
}

#[test]
fn test_interactive_html() {
    let inner = j(r#"[[0, 1, 2, 3, 4, 5, 6, 7, 8, ["<html>quiz</html>"]]]"#);
    assert_eq!(interactive_html(&inner), Some("<html>quiz</html>".to_string()));
    assert_eq!(interactive_html(&j("[[]]")), None);
}

#[test]
fn test_checked_download_url() {
    assert!(checked_download_url("https://storage.googleapis.com/x").unwrap().is_ok());
    assert!(checked_download_url("https://evil.com/x").unwrap().is_err());
    // 79 ASCII bytes then a two-byte character across byte 80: the message
    // could not be cut there, so the check does not run.
    let awkward = format!("ftp://{}é", "a".repeat(73));
    assert!(checked_download_url(&awkward).is_none());
}
