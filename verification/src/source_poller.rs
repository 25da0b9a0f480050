//! Waiting for a new source to be indexed: its status codes and what one
//! check means for the waiting loop (which the caller runs).

use vstd::prelude::*;
use std::time::Duration;
use crate::artifact_poller::PollStep;
use crate::errors::{NotebookLmError, NotebookResult, ErrorKind};
use crate::json::{JsonModel, JsonValue, then_at, then_text, get_in, str_in, group_json};
use crate::outside::{secs, duration_of_secs};
use crate::text::{owned, push_str, u64_to_string, decimal};

verus! {

/// Configuration of the source poller: a fixed interval, a timeout, and
/// the number of checks before giving up.
#[derive(Debug, Clone, Copy)]
pub struct PollerConfig {
    pub check_interval: Duration,
    pub timeout: Duration,
    pub max_retries: usize,
}

impl Default for PollerConfig {
    /// A check every 2 s, a 60 s timeout, at most 30 checks.
    fn default() -> (r: Self)
        ensures
            r.check_interval == duration_of_secs(2),
            r.timeout == duration_of_secs(60),
            r.max_retries == 30,
    {
        PollerConfig { check_interval: secs(2), timeout: secs(60), max_retries: 30 }
    }
}

/// State of a source.
#[derive(Debug, Clone, PartialEq)]
pub enum SourceState {
    /// Indexed and ready for questions.
    Ready,
    /// Still being processed.
    Processing,
    /// Processing failed, with the reason.
    Error(String),
    /// No known status.
    Unknown,
}

/// The kind of a source state, with the text of an error.
pub enum StateModel {
    Ready,
    Processing,
    Error(Seq<char>),
    Unknown,
}

impl SourceState {
    pub open spec fn model(&self) -> StateModel {
        match self {
            SourceState::Ready => StateModel::Ready,
            SourceState::Processing => StateModel::Processing,
            SourceState::Error(m) => StateModel::Error(m@),
            SourceState::Unknown => StateModel::Unknown,
        }
    }

    /// The state the status code at `[3][1]` gives: 1 processing, 2 ready,
    /// 3 an error whose reason is at `[3][2]` (a default when absent).
    pub open spec fn spec_from_response(m: JsonModel) -> StateModel {
        match then_at(m.at(3), 1) {
            Some(JsonModel::PosInt(1)) => StateModel::Processing,
            Some(JsonModel::PosInt(2)) => StateModel::Ready,
            Some(JsonModel::PosInt(3)) => StateModel::Error(
                match then_text(then_at(m.at(3), 2)) {
                    Some(t) => t,
                    None => "Source processing failed with error status"@,
                },
            ),
            _ => StateModel::Unknown,
        }
    }

    /// Reads the state of a source entry.
    pub fn from_response(source_entry: &JsonValue) -> (r: SourceState)
        ensures
            r.model() == Self::spec_from_response(source_entry@),
    {
        let code = get_in(source_entry.get(3), 1);
        let c = match code {
            Some(v) => v.as_u64(),
            None => None,
        };
        match c {
            Some(1) => SourceState::Processing,
            Some(2) => SourceState::Ready,
            Some(3) => {
                let msg = match str_in(get_in(source_entry.get(3), 2)) {
                    Some(t) => t.clone(),
                    None => owned("Source processing failed with error status"),
                };
                SourceState::Error(msg)
            },
            _ => SourceState::Unknown,
        }
    }
}

/// The state of a source: read from its entry, or processing while the
/// source is not listed yet.
pub fn source_state_of(entry: Option<&JsonValue>) -> (r: SourceState)
    ensures
        r.model() == match entry {
            Some(e) => SourceState::spec_from_response(e@),
            None => StateModel::Processing,
        },
{
    match entry {
        Some(e) => SourceState::from_response(e),
        None => SourceState::Processing,
    }
}

/// `Timeout después de {max_retries} intentos`
pub open spec fn retries_message(max_retries: usize) -> Seq<char> {
    "Timeout después de "@ + decimal(max_retries as nat) + " intentos"@
}

/// The error that ends the wait once `retries` checks reached `max_retries`.
pub fn retries_exhausted(retries: usize, max_retries: usize) -> (r: Option<NotebookLmError>)
    ensures
        match r {
            Some(e) => retries >= max_retries && e.kind() == ErrorKind::SourceNotReady && e.message()
                == retries_message(max_retries),
            None => retries < max_retries,
        },
{
    if retries >= max_retries {
        let mut msg = owned("Timeout después de ");
        let n = u64_to_string(max_retries as u64);
        push_str(&mut msg, n.as_str());
        push_str(&mut msg, " intentos");
        Some(NotebookLmError::SourceNotReady(msg))
    } else {
        None
    }
}

/// What one check of a source means: ready ends the wait with the state, an
/// error state ends it with the reason, and processing, unknown or a failed
/// check are checked again.
pub fn source_poll_step(checked: NotebookResult<SourceState>) -> (r: PollStep<SourceState>)
    ensures
        match checked {
            Ok(s) => match s.model() {
                StateModel::Ready => r matches PollStep::Finished(t) && t.model() == StateModel::Ready,
                StateModel::Error(msg) => r matches PollStep::Abort(e) && e.kind() == ErrorKind::SourceNotReady
                    && e.message() == msg,
                _ => r is Continue,
            },
            Err(_) => r is Continue,
        },
{
    match checked {
        Ok(SourceState::Ready) => PollStep::Finished(SourceState::Ready),
        Ok(SourceState::Error(msg)) => PollStep::Abort(NotebookLmError::SourceNotReady(msg)),
        _ => PollStep::Continue,
    }
}

} // verus!
