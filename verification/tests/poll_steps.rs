use notebooklm_mcp::artifact_poller::{artifact_poll_step, find_task_artifact, next_backoff, PollStep};
use notebooklm_mcp::errors::NotebookLmError;
use notebooklm_mcp::json::JsonValue;
use notebooklm_mcp::parser::Artifact;
use notebooklm_mcp::research_poller::research_poll_step;
use notebooklm_mcp::rpc::artifacts::{ArtifactStatus, ArtifactType};
use notebooklm_mcp::rpc::notes::ResearchStatus;
use notebooklm_mcp::source_poller::{retries_exhausted, source_poll_step, SourceState};

fn artifact(kind: ArtifactType, status: ArtifactStatus, raw_data: JsonValue) -> Artifact {
    Artifact { id: "a1".to_string(), title: "T".to_string(), kind, status, raw_data }
}

fn s(t: &str) -> JsonValue {
    JsonValue::Str(t.to_string())
}

#[test]
fn test_artifact_step_failed_gives_reason() {
    let raw = JsonValue::Array(vec![s("a1"), s("T"), JsonValue::PosInt(1), s("quota exceeded")]);
    match artifact_poll_step(Ok(artifact(ArtifactType::Report, ArtifactStatus::Failed, raw)), "task-9") {
        PollStep::Abort(NotebookLmError::GenerationFailed(m)) => {
            assert_eq!(m, "Artifact task-9 failed: quota exceeded")
        }
        _ => panic!("a failed artifact ends the wait"),
    }
    let step = artifact_poll_step(Ok(artifact(ArtifactType::Report, ArtifactStatus::Failed, JsonValue::Null)), "t");
    match step {
        PollStep::Abort(NotebookLmError::GenerationFailed(m)) => assert_eq!(m, "Artifact t failed: Unknown generation error"),
        _ => panic!("a failed artifact ends the wait"),
    }
}

#[test]
fn test_artifact_step_completed_and_pending() {
    match artifact_poll_step(Ok(artifact(ArtifactType::Report, ArtifactStatus::Completed, JsonValue::Null)), "t") {
        PollStep::Finished(a) => assert_eq!(a.id, "a1"),
        _ => panic!("a completed report is finished"),
    }
    let step = artifact_poll_step(Ok(artifact(ArtifactType::Audio, ArtifactStatus::Completed, JsonValue::Null)), "t");
    assert!(matches!(step, PollStep::Continue), "audio without its media is polled again");
    let step = artifact_poll_step(Ok(artifact(ArtifactType::Report, ArtifactStatus::Processing, JsonValue::Null)), "t");
    assert!(matches!(step, PollStep::Continue));
}

#[test]
fn test_artifact_step_errors() {
    match artifact_poll_step(Err(NotebookLmError::ArtifactNotFound("x".to_string())), "t") {
        PollStep::Abort(NotebookLmError::ArtifactNotFound(m)) => assert_eq!(m, "x"),
        _ => panic!("a deleted artifact or a wrong task id ends the wait"),
    }
    match artifact_poll_step(Err(NotebookLmError::NetworkError("down".to_string())), "t") {
        PollStep::Abort(NotebookLmError::NetworkError(m)) => assert_eq!(m, "down"),
        _ => panic!("other errors end the wait"),
    }
}

#[test]
fn test_next_backoff_doubles_up_to_cap() {
    assert_eq!(next_backoff(2000, 10000), 4000);
    assert_eq!(next_backoff(4000, 10000), 8000);
    assert_eq!(next_backoff(8000, 10000), 10000);
    assert_eq!(next_backoff(10000, 10000), 10000);
}

#[test]
fn test_source_step() {
    match source_poll_step(Ok(SourceState::Ready)) {
        PollStep::Finished(st) => assert_eq!(st, SourceState::Ready),
        _ => panic!("a ready source is finished"),
    }
    match source_poll_step(Ok(SourceState::Error("bad file".to_string()))) {
        PollStep::Abort(NotebookLmError::SourceNotReady(m)) => assert_eq!(m, "bad file"),
        _ => panic!("a source in error ends the wait"),
    }
    assert!(matches!(source_poll_step(Ok(SourceState::Processing)), PollStep::Continue));
    assert!(matches!(source_poll_step(Ok(SourceState::Unknown)), PollStep::Continue));
    assert!(matches!(
        source_poll_step(Err(NotebookLmError::NetworkError("x".to_string()))),
        PollStep::Continue
    ));
}

#[test]
fn test_retries_exhausted() {
    assert!(retries_exhausted(3, 5).is_none());
    match retries_exhausted(5, 5) {
        Some(NotebookLmError::SourceNotReady(m)) => assert_eq!(m, "Timeout después de 5 intentos"),
        _ => panic!("the wait ends after the last retry"),
    }
}

#[test]
fn test_research_step() {
    let done = ResearchStatus { status_code: 2, sources: vec![], report: None, is_complete: true, query: None };
    match research_poll_step(Ok(done)) {
        PollStep::Finished(st) => assert_eq!(st.status_code, 2),
        _ => panic!("a complete task is finished"),
    }
    let running = ResearchStatus { status_code: 1, sources: vec![], report: None, is_complete: false, query: None };
    assert!(matches!(research_poll_step(Ok(running)), PollStep::Continue));
    match research_poll_step(Err(NotebookLmError::RateLimited("slow".to_string()))) {
        PollStep::Abort(NotebookLmError::RateLimited(m)) => assert_eq!(m, "slow"),
        _ => panic!("errors end the wait"),
    }
}

#[test]
fn test_find_task_artifact() {
    let other = || {
        let mut o = artifact(ArtifactType::Quiz, ArtifactStatus::Completed, JsonValue::Null);
        o.id = "b2".to_string();
        o
    };
    let first = artifact(ArtifactType::Report, ArtifactStatus::Processing, JsonValue::Null);
    let second = artifact(ArtifactType::Audio, ArtifactStatus::Completed, JsonValue::Null);
    let found = find_task_artifact(vec![other(), first, second], "a1", "nb").unwrap();
    assert_eq!(found.kind, ArtifactType::Report);
    match find_task_artifact(vec![other()], "a1", "nb") {
        Err(NotebookLmError::ArtifactNotFound(m)) => assert_eq!(m, "Artifact a1 not found in notebook nb"),
        _ => panic!("no artifact with the task id"),
    }
}
