use notebooklm_mcp::client::Notebook;
use notebooklm_mcp::json::JsonValue;
use notebooklm_mcp::parser::Artifact;
use notebooklm_mcp::replies::{
    artifact_list_reply, chat_history_reply, deep_dive_deadline, deep_dive_step, generation_reply,
    imported_reply, mind_map_reply, no_conversation_reply, note_list_reply, notebook_reply,
    notebook_resource, renamed_reply, research_started_value, research_state,
    research_status_value, resource_entries, share_set_reply, share_status_reply, summary_reply,
    update_value, DeepDiveStep, ResourceError, NOT_AUTHENTICATED,
};
use notebooklm_mcp::rpc::artifacts::{ArtifactStatus, ArtifactType, GenerationStatus};
use notebooklm_mcp::rpc::notebooks::{
    NotebookSummary, ShareAccess, SharePermission, ShareStatus, SharedUser, SuggestedTopic,
};
use notebooklm_mcp::rpc::notes::{ChatTurn, Note, ResearchSource, ResearchStatus};
use notebooklm_mcp::update_checker::UpdateCheckResult;

fn artifact(id: &str, title: &str, kind: ArtifactType, status: ArtifactStatus) -> Artifact {
    Artifact { id: id.to_string(), title: title.to_string(), kind, status, raw_data: JsonValue::Null }
}

fn notebook(id: &str, title: &str, sources: usize, owner: bool, created: Option<&str>) -> Notebook {
    Notebook {
        id: id.to_string(),
        title: title.to_string(),
        sources_count: sources,
        is_owner: owner,
        created_at: created.map(|c| c.to_string()),
    }
}

#[test]
fn test_not_authenticated_text() {
    assert_eq!(NOT_AUTHENTICATED, "Error: Servidor no autenticado");
}

#[test]
fn test_artifact_list_reply_empty() {
    assert_eq!(artifact_list_reply("nb-1", &vec![]), "No artifacts found in notebook nb-1");
}

#[test]
fn test_artifact_list_reply_lines() {
    let arts = vec![
        artifact("a1", "Podcast", ArtifactType::Audio, ArtifactStatus::Completed),
        artifact("a2", "Deck", ArtifactType::SlideDeck, ArtifactStatus::Processing),
    ];
    assert_eq!(
        artifact_list_reply("nb-1", &arts),
        "Artifacts in notebook nb-1 (2 total):\n- [audio] Podcast (status: COMPLETED, id: a1)\n- [slide_deck] Deck (status: PROCESSING, id: a2)"
    );
}

#[test]
fn test_generation_reply_plain_and_rate_limited() {
    let s = GenerationStatus::new("task-1".to_string(), ArtifactStatus::Processing);
    assert_eq!(
        generation_reply(&s),
        "Artifact generation started.\nTask ID: task-1\nStatus: PROCESSING\nUse artifact_list to check when status becomes COMPLETED."
    );
    let r = GenerationStatus::rate_limited("slow down");
    assert_eq!(
        generation_reply(&r),
        "Artifact generation started.\nTask ID: rate_limited\nStatus: FAILED\n⚠ Rate limited — retry after a delay.\nUse artifact_list to check when status becomes COMPLETED."
    );
}

#[test]
fn test_mind_map_reply() {
    assert_eq!(mind_map_reply(&Some("n-9".to_string())), "Mind map generated. Note ID: n-9");
    assert_eq!(mind_map_reply(&None), "Mind map generated. Note ID: unknown");
}

#[test]
fn test_notebook_reply() {
    let nb = notebook("nb-7", "Physics", 3, false, Some("1714000000"));
    assert_eq!(
        notebook_reply(&nb),
        "Notebook: \"Physics\" (id: nb-7)\n  Sources: 3\n  Owner: no\n  Created: 1714000000"
    );
    let nb2 = notebook("nb-8", "Maths", 0, true, None);
    assert_eq!(
        notebook_reply(&nb2),
        "Notebook: \"Maths\" (id: nb-8)\n  Sources: 0\n  Owner: yes\n  Created: unknown"
    );
}

#[test]
fn test_renamed_reply() {
    let nb = notebook("nb-7", "New Title", 12, true, None);
    assert_eq!(
        renamed_reply(&nb),
        "✅ Notebook renamed to \"New Title\" (id: nb-7)\n  Sources: 12\n  Owner: yes"
    );
}

#[test]
fn test_summary_reply() {
    let empty = NotebookSummary { summary: "Short".to_string(), suggested_topics: vec![] };
    assert_eq!(summary_reply(&empty), "Summary:\nShort\n");
    let s = NotebookSummary {
        summary: "About X".to_string(),
        suggested_topics: vec![
            SuggestedTopic { question: "What is X?".to_string(), prompt: "Explore X".to_string() },
            SuggestedTopic { question: "Why Y?".to_string(), prompt: "Explain Y".to_string() },
        ],
    };
    assert_eq!(
        summary_reply(&s),
        "Summary:\nAbout X\n\nSuggested Topics (2):\n  1. What is X?\n     Prompt: Explore X\n  2. Why Y?\n     Prompt: Explain Y"
    );
}

#[test]
fn test_share_status_reply() {
    let s = ShareStatus {
        notebook_id: "nb-1".to_string(),
        is_public: true,
        access: ShareAccess::AnyoneWithLink,
        shared_users: vec![
            SharedUser {
                email: "a@x.com".to_string(),
                permission: SharePermission::Viewer,
                display_name: Some("Alice".to_string()),
                avatar_url: None,
            },
            SharedUser {
                email: "b@x.com".to_string(),
                permission: SharePermission::Editor,
                display_name: None,
                avatar_url: None,
            },
        ],
        share_url: Some("https://notebooklm.google.com/notebook/nb-1".to_string()),
    };
    assert_eq!(
        share_status_reply("nb-1", &s),
        "Sharing status for notebook nb-1:\n  Public: true\n  Access: AnyoneWithLink\n  Share URL: https://notebooklm.google.com/notebook/nb-1\n\nShared Users (2):\n  - a@x.com (Viewer) — Alice\n  - b@x.com (Editor)"
    );
    let private = ShareStatus::default_private("nb-2");
    assert_eq!(
        share_status_reply("nb-2", &private),
        "Sharing status for notebook nb-2:\n  Public: false\n  Access: Restricted"
    );
}

#[test]
fn test_share_set_reply() {
    let private = ShareStatus::default_private("nb-2");
    assert_eq!(share_set_reply("nb-2", &private), "✅ Notebook nb-2 is now PRIVATE\n  Access: Restricted");
    let public = ShareStatus {
        notebook_id: "nb-3".to_string(),
        is_public: true,
        access: ShareAccess::AnyoneWithLink,
        shared_users: vec![],
        share_url: Some(ShareStatus::build_share_url("nb-3")),
    };
    assert_eq!(
        share_set_reply("nb-3", &public),
        "✅ Notebook nb-3 is now PUBLIC\n  Access: AnyoneWithLink\n  Share URL: https://notebooklm.google.com/notebook/nb-3"
    );
}

#[test]
fn test_note_list_reply() {
    assert_eq!(note_list_reply(&vec![]), "No hay notas en este cuaderno.");
    let notes = vec![
        Note { id: "n1".to_string(), title: "First".to_string(), content: String::new() },
        Note { id: "n2".to_string(), title: "Second".to_string(), content: "x".to_string() },
    ];
    assert_eq!(note_list_reply(&notes), "- [n1] First\n- [n2] Second");
}

#[test]
fn test_chat_history_reply() {
    assert_eq!(
        chat_history_reply("nb-1", "c-1", &vec![]),
        "No conversation history found for notebook nb-1 (conv_id: c-1)"
    );
    let turns = vec![
        ChatTurn { role: "user".to_string(), text: "Hi".to_string() },
        ChatTurn { role: "assistant".to_string(), text: "Hello".to_string() },
    ];
    assert_eq!(
        chat_history_reply("nb-1", "c-1", &turns),
        "Chat history (2 turns, conv_id: c-1):\n[user] Hi\n\n[assistant] Hello"
    );
    assert_eq!(no_conversation_reply("nb-1"), "No conversation found for notebook nb-1");
}

#[test]
fn test_deep_dive_messages() {
    assert_eq!(
        deep_dive_deadline(300, 300, "t-1"),
        Some("Deep research timed out after 300s. Task ID: t-1".to_string())
    );
    assert_eq!(deep_dive_deadline(299, 300, "t-1"), None);
    assert!(matches!(deep_dive_step(true), DeepDiveStep::Import));
    assert!(matches!(deep_dive_step(false), DeepDiveStep::Wait));
    assert_eq!(
        imported_reply("t-1", 4),
        "✅ Deep research complete. Sources imported. Task ID: t-1. Sources found: 4"
    );
}

#[test]
fn test_research_state_names() {
    assert_eq!(research_state(true, 6), "completed");
    assert_eq!(research_state(false, 0), "no_research");
    assert_eq!(research_state(false, 1), "in_progress");
}

fn key<'a>(v: &'a JsonValue, k: &str) -> &'a JsonValue {
    match v {
        JsonValue::Object(entries) => &entries.iter().find(|(n, _)| n == k).unwrap().1,
        _ => panic!("not an object"),
    }
}

#[test]
fn test_research_status_value() {
    let st = ResearchStatus {
        status_code: 6,
        sources: vec![ResearchSource {
            url: Some("https://a.com".to_string()),
            title: Some("A".to_string()),
            description: None,
            result_type: 1,
        }],
        report: Some("# R".to_string()),
        is_complete: true,
        query: Some("q".to_string()),
    };
    let v = research_status_value(&Some("t-9".to_string()), &st);
    assert_eq!(key(&v, "status"), &JsonValue::Str("completed".to_string()));
    assert_eq!(key(&v, "status_code"), &JsonValue::PosInt(6));
    assert_eq!(key(&v, "task_id"), &JsonValue::Str("t-9".to_string()));
    assert_eq!(key(&v, "sources_found"), &JsonValue::PosInt(1));
    assert_eq!(key(&v, "report"), &JsonValue::Str("# R".to_string()));
    assert_eq!(key(&v, "is_complete"), &JsonValue::Bool(true));
    let sources = key(&v, "sources").as_array().unwrap();
    assert_eq!(key(&sources[0], "description"), &JsonValue::Null);
    assert_eq!(key(&sources[0], "url"), &JsonValue::Str("https://a.com".to_string()));
    let none = research_status_value(&None, &ResearchStatus {
        status_code: 0,
        sources: vec![],
        report: None,
        is_complete: false,
        query: None,
    });
    assert_eq!(key(&none, "status"), &JsonValue::Str("no_research".to_string()));
    assert_eq!(key(&none, "task_id"), &JsonValue::Null);
}

#[test]
fn test_research_started_and_update_values() {
    let v = research_started_value("t-1", "nb-1", "why");
    assert_eq!(key(&v, "status"), &JsonValue::Str("started".to_string()));
    assert_eq!(key(&v, "task_id"), &JsonValue::Str("t-1".to_string()));
    assert_eq!(key(&v, "notebook_id"), &JsonValue::Str("nb-1".to_string()));
    assert_eq!(key(&v, "query"), &JsonValue::Str("why".to_string()));
    let u = UpdateCheckResult {
        current_version: "0.1.0".to_string(),
        latest_version: "v0.2.0".to_string(),
        update_available: true,
        download_url: "https://github.com/x".to_string(),
    };
    let uv = update_value(&u);
    assert_eq!(key(&uv, "update_available"), &JsonValue::Bool(true));
    assert_eq!(key(&uv, "latest_version"), &JsonValue::Str("v0.2.0".to_string()));
}

#[test]
fn test_resources() {
    let nbs = vec![notebook("id-1", "One", 0, true, None), notebook("id-2", "Two", 0, true, None)];
    let entries = resource_entries(&nbs);
    assert_eq!(
        entries[1],
        ("notebook://id-2".to_string(), "Two".to_string(), "NotebookLM notebook: Two".to_string())
    );
    let found = notebook_resource("notebook://id-1", &nbs).unwrap();
    assert_eq!(key(&found, "id"), &JsonValue::Str("id-1".to_string()));
    assert_eq!(key(&found, "title"), &JsonValue::Str("One".to_string()));
    assert_eq!(key(&found, "uri"), &JsonValue::Str("notebook://id-1".to_string()));
    match notebook_resource("notebook://missing", &nbs) {
        Err(ResourceError::NotFound(m)) => assert_eq!(m, "Notebook missing no encontrado"),
        other => panic!("unexpected {:?}", other),
    }
    match notebook_resource("http://x", &nbs) {
        Err(ResourceError::Unsupported(m)) => {
            assert_eq!(m, "URI no soportada: http://x. Use notebook://<uuid>")
        }
        other => panic!("unexpected {:?}", other),
    }
}
