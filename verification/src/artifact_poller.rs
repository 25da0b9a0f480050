//! Decisions of the artifact generation poller: its configuration, the
//! gate that holds back media whose download URL is not there yet, and what
//! one poll result means for the waiting loop (which the caller runs).

use vstd::prelude::*;
use std::time::Duration;
use crate::errors::{NotebookLmError, NotebookResult, ErrorKind};
use crate::json::{
    JsonModel, JsonValue, models_of, seq_at, then_at, then_text, then_arr, get_in, str_in, arr_in,
    item, group_json,
};
use crate::outside::{secs, duration_of_secs};
use crate::parser::{Artifact, str_at, opt_text};
use crate::rpc::artifacts::{ArtifactType, ArtifactStatus};
use crate::client::{index_of_artifact, not_found_message};
use crate::text::{owned, push_str, str_starts_with, str_contains, seq_starts_with, seq_contains};

verus! {

/// Configuration of the artifact poller: exponential backoff from
/// `initial_interval`, doubling up to `max_interval`, until `timeout`.
#[derive(Debug, Clone, Copy)]
pub struct ArtifactPollerConfig {
    pub initial_interval: Duration,
    pub max_interval: Duration,
    pub timeout: Duration,
}

impl Default for ArtifactPollerConfig {
    /// 2 s initial interval, 10 s cap, 300 s timeout.
    fn default() -> (r: Self)
        ensures
            r.initial_interval == duration_of_secs(2),
            r.max_interval == duration_of_secs(10),
            r.timeout == duration_of_secs(300),
    {
        ArtifactPollerConfig { initial_interval: secs(2), max_interval: secs(10), timeout: secs(300) }
    }
}

impl ArtifactPollerConfig {
    /// The default configuration with another timeout.
    pub fn with_timeout(timeout: Duration) -> (r: Self)
        ensures
            r.initial_interval == duration_of_secs(2),
            r.max_interval == duration_of_secs(10),
            r.timeout == timeout,
    {
        ArtifactPollerConfig { initial_interval: secs(2), max_interval: secs(10), timeout }
    }
}

/// Whether the artifact kind is a media kind, whose download URL appears
/// some time after the status reads completed.
pub open spec fn is_media_kind(k: ArtifactType) -> bool {
    k == ArtifactType::Audio || k == ArtifactType::Video || k == ArtifactType::Infographic || k
        == ArtifactType::SlideDeck
}

/// Audio is ready when `[6][5]` is a non-empty list.
pub open spec fn audio_ready(a: Seq<JsonModel>) -> bool {
    match then_arr(then_at(seq_at(a, 6), 5)) {
        Some(list) => list.len() > 0,
        None => false,
    }
}

/// An entry whose first element is an `http` url.
pub open spec fn http_entry(e: JsonModel) -> bool {
    then_text(e.at(0)) matches Some(u) && seq_starts_with(u, "http"@)
}

/// Some entry starts with an `http` url.
pub open spec fn any_http_entry(entries: Seq<JsonModel>) -> bool {
    exists|i: int| 0 <= i < entries.len() && #[trigger] http_entry(entries[i])
}

/// Video is ready when some entry of `[8]` starts with an `http` url.
pub open spec fn video_ready(a: Seq<JsonModel>) -> bool {
    match then_arr(seq_at(a, 8)) {
        Some(entries) => any_http_entry(entries),
        None => false,
    }
}

/// The first `http` string found in a value: a string itself, or in an
/// array the string at `[2][0][0]`, else the first found among its elements.
pub open spec fn scan_url(m: JsonModel) -> Option<Seq<char>>
    decreases m, 1nat,
{
    match m {
        JsonModel::Str(s) => if seq_starts_with(s, "http"@) {
            Some(s)
        } else {
            None
        },
        JsonModel::Array(a) => {
            let nested = if a.len() > 2 {
                then_text(then_at(then_at(seq_at(a, 2), 0), 0))
            } else {
                None
            };
            match nested {
                Some(n) => if seq_starts_with(n, "http"@) {
                    Some(n)
                } else {
                    scan_urls(a)
                },
                None => scan_urls(a),
            }
        },
        _ => None,
    }
}

/// The first url `scan_url` finds among the elements, in order.
pub open spec fn scan_urls(a: Seq<JsonModel>) -> Option<Seq<char>>
    decreases a, 0nat,
{
    if a.len() == 0 {
        None
    } else {
        match scan_url(a[0]) {
            Some(u) => Some(u),
            None => scan_urls(a.subrange(1, a.len() as int)),
        }
    }
}

/// A url that is no notebooklm.google.com address.
pub open spec fn content_url(u: Seq<char>) -> bool {
    seq_starts_with(u, "http"@) && !seq_contains(u, "notebooklm.google.com"@)
}

/// An item in which `scan_url` finds a content url.
pub open spec fn holds_content_url(m: JsonModel) -> bool {
    scan_url(m) matches Some(u) && content_url(u)
}

/// An infographic is ready when some top-level item holds a content url.
pub open spec fn infographic_ready(a: Seq<JsonModel>) -> bool {
    exists|i: int| 0 <= i < a.len() && #[trigger] holds_content_url(a[i])
}

/// A slide deck is ready when `[16][3]` is a non-empty `http` url.
pub open spec fn slide_deck_ready(a: Seq<JsonModel>) -> bool {
    match then_text(then_at(seq_at(a, 16), 3)) {
        Some(u) => u.len() > 0 && seq_starts_with(u, "http"@),
        None => false,
    }
}

/// The media gate: non-media kinds are ready; a media kind is ready when its
/// download URL is present in the raw array.
pub open spec fn media_ready(kind: ArtifactType, raw: JsonModel) -> bool {
    if !is_media_kind(kind) {
        true
    } else {
        match raw {
            JsonModel::Array(a) => match kind {
                ArtifactType::Audio => audio_ready(a),
                ArtifactType::Video => video_ready(a),
                ArtifactType::Infographic => infographic_ready(a),
                _ => slide_deck_ready(a),
            },
            _ => false,
        }
    }
}

/// The first `http` string in a value (see `scan_url`).
pub fn scan_for_http_url(value: &JsonValue) -> (r: Option<String>)
    ensures
        opt_text(r) == scan_url(value@),
    decreases value,
{
    broadcast use group_json;

    match value {
        JsonValue::Str(s) => if str_starts_with(s.as_str(), "http") {
            Some(s.clone())
        } else {
            None
        },
        JsonValue::Array(arr) => {
            proof {
                crate::json::lemma_models_of(arr@);
            }
            if arr.len() > 2 {
                match str_in(get_in(get_in(item(arr, 2), 0), 0)) {
                    Some(n) => {
                        if str_starts_with(n.as_str(), "http") {
                            return Some(n.clone());
                        }
                    },
                    None => {},
                }
            }
            let ghost am = models_of(arr@);
            assert(am.subrange(0, am.len() as int) =~= am);
            assert(scan_url(value@) == scan_urls(am));
            let mut i: usize = 0;
            while i < arr.len()
                invariant
                    i <= arr@.len(),
                    am == models_of(arr@),
                    am.len() == arr@.len(),
                    forall|k: int| 0 <= k < arr@.len() ==> #[trigger] am[k] == arr@[k]@,
                    *value == JsonValue::Array(*arr),
                    scan_url(value@) == scan_urls(am),
                    scan_urls(am) == scan_urls(am.subrange(i as int, am.len() as int)),
                decreases arr@.len() - i,
            {
                let ghost rest = am.subrange(i as int, am.len() as int);
                assert(rest[0] == am[i as int]);
                assert(rest.subrange(1, rest.len() as int) =~= am.subrange(i + 1, am.len() as int));
                proof {
                    assert(decreases_to!(*value => *arr));
                    assert(decreases_to!(*arr => arr@[i as int]));
                }
                match scan_for_http_url(&arr[i]) {
                    Some(u) => {
                        return Some(u);
                    },
                    None => {},
                }
                i = i + 1;
            }
            None
        },
        _ => None,
    }
}

/// Whether the artifact's download URL is present, for media kinds.
#[verifier::loop_isolation(false)]
pub fn is_media_ready(artifact: &Artifact) -> (r: bool)
    ensures
        r == media_ready(artifact.kind, artifact.raw_data@),
{
    broadcast use group_json;

    let kind = artifact.kind;
    match kind {
        ArtifactType::Audio | ArtifactType::Video | ArtifactType::Infographic | ArtifactType::SlideDeck => {},
        _ => return true,
    }
    let arr = match artifact.raw_data.as_array() {
        Some(a) => a,
        None => return false,
    };
    proof {
        crate::json::lemma_models_of(arr@);
    }
    match kind {
        ArtifactType::Audio => match arr_in(get_in(item(arr, 6), 5)) {
            Some(list) => list.len() > 0,
            None => false,
        },
        ArtifactType::Video => match arr_in(item(arr, 8)) {
            Some(entries) => {
                proof {
                    crate::json::lemma_models_of(entries@);
                }
                let mut i: usize = 0;
                while i < entries.len()
                    invariant
                        i <= entries@.len(),
                        forall|k: int| 0 <= k < entries@.len() ==> #[trigger] models_of(entries@)[k] == entries@[k]@,
                        models_of(entries@).len() == entries@.len(),
                        forall|k: int| 0 <= k < i ==> !#[trigger] http_entry(models_of(entries@)[k]),
                    decreases entries@.len() - i,
                {
                    match str_in(entries[i].get(0)) {
                        Some(u) => {
                            if str_starts_with(u.as_str(), "http") {
                                assert(http_entry(models_of(entries@)[i as int]));
                                assert(then_arr(seq_at(models_of(arr@), 8)) == Some(models_of(entries@)));
                                assert(any_http_entry(models_of(entries@)));
                                assert(video_ready(models_of(arr@)));
                                return true;
                            }
                        },
                        None => {},
                    }
                    i = i + 1;
                }
                false
            },
            None => false,
        },
        ArtifactType::Infographic => {
            let ghost am = models_of(arr@);
            let mut i: usize = 0;
            while i < arr.len()
                invariant
                    i <= arr@.len(),
                    am == models_of(arr@),
                    am.len() == arr@.len(),
                    forall|k: int| 0 <= k < arr@.len() ==> #[trigger] am[k] == arr@[k]@,
                    forall|k: int| 0 <= k < i ==> !#[trigger] holds_content_url(am[k]),
                decreases arr@.len() - i,
            {
                match scan_for_http_url(&arr[i]) {
                    Some(u) => {
                        if str_starts_with(u.as_str(), "http") && !str_contains(u.as_str(), "notebooklm.google.com") {
                            assert(holds_content_url(am[i as int]));
                            return true;
                        }
                    },
                    None => {},
                }
                i = i + 1;
            }
            false
        },
        _ => match str_in(get_in(item(arr, 16), 3)) {
            Some(u) => !u.as_str().is_empty() && str_starts_with(u.as_str(), "http"),
            None => false,
        },
    }
}

/// What the waiting loop does after one poll.
pub enum PollStep<T> {
    /// Stop and return this value.
    Finished(T),
    /// Stop with this error.
    Abort(NotebookLmError),
    /// Sleep for the current interval and poll again.
    Continue,
}

/// The reason a failed artifact gives at position 3, or a default.
pub open spec fn failure_reason(raw: JsonModel) -> Seq<char> {
    match raw.at(3) {
        Some(JsonModel::Str(s)) => s,
        _ => "Unknown generation error"@,
    }
}

/// `Artifact {task_id} failed: {reason}`
pub open spec fn failure_message(task_id: Seq<char>, raw: JsonModel) -> Seq<char> {
    "Artifact "@ + task_id + " failed: "@ + failure_reason(raw)
}

/// What one poll of an artifact means: a failed artifact ends the wait with
/// its reason; a completed one whose media is ready ends it with the
/// artifact; one still processing, or without its media, is polled again;
/// an error ends the wait with that error (an artifact missing from the
/// listing, deleted or asked for by a wrong task id, among them).
pub fn artifact_poll_step(polled: NotebookResult<Artifact>, task_id: &str) -> (r: PollStep<Artifact>)
    ensures
        match polled {
            Ok(a) => if a.status == ArtifactStatus::Failed {
                r matches PollStep::Abort(e) && e.kind() == ErrorKind::GenerationFailed && e.message()
                    == failure_message(task_id@, a.raw_data@)
            } else if a.status == ArtifactStatus::Completed && media_ready(a.kind, a.raw_data@) {
                r matches PollStep::Finished(b) && b.model() == a.model()
            } else {
                r is Continue
            },
            Err(e) => r matches PollStep::Abort(f) && f.kind() == e.kind() && f.message() == e.message(),
        },
{
    match polled {
        Ok(a) => {
            if a.is_failed() {
                let mut msg = owned("Artifact ");
                push_str(&mut msg, task_id);
                push_str(&mut msg, " failed: ");
                let reason = match a.raw_data.get(3) {
                    Some(JsonValue::Str(s)) => s.as_str(),
                    _ => "Unknown generation error",
                };
                push_str(&mut msg, reason);
                PollStep::Abort(NotebookLmError::GenerationFailed(msg))
            } else if a.is_completed() && is_media_ready(&a) {
                PollStep::Finished(a)
            } else {
                PollStep::Continue
            }
        },
        Err(e) => PollStep::Abort(e),
    }
}

/// What one poll finds in the notebook's artifact listing: the first
/// artifact whose id is the task id, or `ArtifactNotFound` when none has it.
pub fn find_task_artifact(arts: Vec<Artifact>, task_id: &str, notebook_id: &str) -> (r: NotebookResult<Artifact>)
    ensures
        match r {
            Ok(a) => exists|i: int|
                0 <= i < arts@.len() && #[trigger] arts@[i].id@ == task_id@ && (forall|j: int|
                    0 <= j < i ==> arts@[j].id@ != task_id@) && a.model() == arts@[i].model(),
            Err(e) => (forall|i: int| 0 <= i < arts@.len() ==> #[trigger] arts@[i].id@ != task_id@)
                && e.kind() == ErrorKind::ArtifactNotFound && e.message() == not_found_message(task_id@, notebook_id@),
        },
{
    let ghost all = arts@;
    let mut arts = arts;
    match index_of_artifact(&arts, task_id) {
        Some(i) => {
            let a = arts.remove(i);
            assert(a == all[i as int]);
            Ok(a)
        },
        None => {
            let mut msg = owned("Artifact ");
            push_str(&mut msg, task_id);
            push_str(&mut msg, " not found in notebook ");
            push_str(&mut msg, notebook_id);
            Err(NotebookLmError::ArtifactNotFound(msg))
        },
    }
}

/// The interval after `interval`: doubled, capped at `max` (in milliseconds).
pub fn next_backoff(interval_ms: u64, max_ms: u64) -> (r: u64)
    requires
        interval_ms <= u64::MAX / 2,
    ensures
        r == if 2 * interval_ms <= max_ms {
            2 * interval_ms
        } else {
            max_ms as int
        },
{
    let doubled = interval_ms * 2;
    if doubled <= max_ms {
        doubled
    } else {
        max_ms
    }
}

/// Backoff never passes the cap, and never shrinks an interval that is
/// within it.
pub proof fn law_backoff_bounded(interval_ms: u64, max_ms: u64)
    requires
        interval_ms <= u64::MAX / 2,
    ensures
        ({
            let next = if 2 * interval_ms <= max_ms {
                2 * interval_ms
            } else {
                max_ms as int
            };
            next <= max_ms && (interval_ms <= max_ms ==> interval_ms <= next)
        }),
{
}

} // verus!
