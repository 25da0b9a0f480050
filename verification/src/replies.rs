//! The texts the tools answer with: lists of artifacts, notes and chat
//! turns, notebook details, summaries, sharing settings, and the messages of
//! a blocking deep research.

use vstd::prelude::*;
use crate::client::{Notebook, string_of};
use crate::parser::{Artifact, opt_text};
use crate::rpc::artifacts::{ArtifactStatus, ArtifactType, GenerationStatus};
use crate::rpc::notebooks::{NotebookSummary, ShareAccess, SharePermission, ShareStatus, SharedUser, SuggestedTopic};
use crate::rpc::notes::{ChatTurn, Note};
use crate::text::{decimal, join, join_strings, owned, push_decimal, push_str, texts, seq_starts_with, str_starts_with, str_eq, chars_of};
use crate::json::{JsonModel, JsonValue, models_of, entries_of, push_val, push_entry, jopt_str, jstr, text_or_null};
use crate::rpc::notes::{ResearchSource, ResearchStatus};
use crate::update_checker::UpdateCheckResult;

verus! {

/// The answer of every tool while no session is loaded.
pub const NOT_AUTHENTICATED: &'static str = "Error: Servidor no autenticado";

/// `yes` or `no`.
pub open spec fn yes_no(b: bool) -> Seq<char> {
    if b {
        "yes"@
    } else {
        "no"@
    }
}

fn yes_no_str(b: bool) -> (r: &'static str)
    ensures
        r@ == yes_no(b),
{
    if b {
        "yes"
    } else {
        "no"
    }
}

/// `true` or `false`, as a boolean is printed.
pub open spec fn bool_text(b: bool) -> Seq<char> {
    if b {
        "true"@
    } else {
        "false"@
    }
}

/// The name of an access level as its variant is written.
pub open spec fn access_name(a: ShareAccess) -> Seq<char> {
    match a {
        ShareAccess::Restricted => "Restricted"@,
        ShareAccess::AnyoneWithLink => "AnyoneWithLink"@,
    }
}

fn access_name_str(a: ShareAccess) -> (r: &'static str)
    ensures
        r@ == access_name(a),
{
    match a {
        ShareAccess::Restricted => "Restricted",
        ShareAccess::AnyoneWithLink => "AnyoneWithLink",
    }
}

/// The name of a permission as its variant is written.
pub open spec fn permission_name(p: SharePermission) -> Seq<char> {
    match p {
        SharePermission::Owner => "Owner"@,
        SharePermission::Editor => "Editor"@,
        SharePermission::Viewer => "Viewer"@,
    }
}

fn permission_name_str(p: SharePermission) -> (r: &'static str)
    ensures
        r@ == permission_name(p),
{
    match p {
        SharePermission::Owner => "Owner",
        SharePermission::Editor => "Editor",
        SharePermission::Viewer => "Viewer",
    }
}

fn status_label(s: ArtifactStatus) -> (r: &'static str)
    ensures
        r@ == s.label(),
{
    match s {
        ArtifactStatus::Processing => "PROCESSING",
        ArtifactStatus::Pending => "PENDING",
        ArtifactStatus::Completed => "COMPLETED",
        ArtifactStatus::Failed => "FAILED",
    }
}

// =========================================================================
// Artifacts
// =========================================================================

/// `- [kind] title (status: STATUS, id: id)`
pub open spec fn artifact_line(a: Artifact) -> Seq<char> {
    "- ["@ + a.kind.key() + "] "@ + a.title@ + " (status: "@ + a.status.label() + ", id: "@ + a.id@ + ")"@
}

/// The list of a notebook's artifacts, with their count.
pub open spec fn artifact_list_text(notebook_id: Seq<char>, artifacts: Seq<Artifact>) -> Seq<char> {
    if artifacts.len() == 0 {
        "No artifacts found in notebook "@ + notebook_id
    } else {
        "Artifacts in notebook "@ + notebook_id + " ("@ + decimal(artifacts.len()) + " total):\n"@ + join(
            artifacts.map_values(|a: Artifact| artifact_line(a)),
            "\n"@,
        )
    }
}

/// The answer of `artifact_list`.
pub fn artifact_list_reply(notebook_id: &str, artifacts: &Vec<Artifact>) -> (r: String)
    ensures
        r@ == artifact_list_text(notebook_id@, artifacts@),
{
    if artifacts.len() == 0 {
        let mut out = owned("No artifacts found in notebook ");
        push_str(&mut out, notebook_id);
        return out;
    }
    let ghost want = artifacts@.map_values(|a: Artifact| artifact_line(a));
    let mut lines: Vec<String> = Vec::new();
    let mut i: usize = 0;
    while i < artifacts.len()
        invariant
            i <= artifacts@.len(),
            want == artifacts@.map_values(|a: Artifact| artifact_line(a)),
            texts(lines@) == want.take(i as int),
        decreases artifacts@.len() - i,
    {
        let a = &artifacts[i];
        let mut line = owned("- [");
        push_str(&mut line, a.kind.as_str());
        push_str(&mut line, "] ");
        push_str(&mut line, a.title.as_str());
        push_str(&mut line, " (status: ");
        push_str(&mut line, status_label(a.status));
        push_str(&mut line, ", id: ");
        push_str(&mut line, a.id.as_str());
        push_str(&mut line, ")");
        assert(line@ =~= artifact_line(artifacts@[i as int]));
        let ghost before = lines@;
        lines.push(line);
        assert(texts(lines@) =~= texts(before).push(line@));
        i = i + 1;
        assert(want.take(i as int) =~= want.take(i - 1).push(want[i - 1]));
    }
    assert(want.take(i as int) =~= want);
    let mut out = owned("Artifacts in notebook ");
    push_str(&mut out, notebook_id);
    push_str(&mut out, " (");
    push_decimal(&mut out, artifacts.len() as u64);
    push_str(&mut out, " total):\n");
    let body = join_strings(&lines, "\n");
    push_str(&mut out, body.as_str());
    assert(out@ =~= artifact_list_text(notebook_id@, artifacts@));
    out
}

/// The text shown when an artifact generation started.
pub open spec fn generation_text(s: GenerationStatus) -> Seq<char> {
    "Artifact generation started.\nTask ID: "@ + s.task_id@ + "\nStatus: "@ + s.status.label() + (if s.rate_limited_spec() {
        "\n⚠ Rate limited — retry after a delay."@
    } else {
        Seq::empty()
    }) + "\nUse artifact_list to check when status becomes COMPLETED."@
}

/// The answer of `artifact_generate` once the request went through.
pub fn generation_reply(status: &GenerationStatus) -> (r: String)
    ensures
        r@ == generation_text(*status),
{
    let mut out = owned("Artifact generation started.\nTask ID: ");
    push_str(&mut out, status.task_id.as_str());
    push_str(&mut out, "\nStatus: ");
    push_str(&mut out, status_label(status.status));
    let ghost head = out@;
    if status.is_rate_limited() {
        push_str(&mut out, "\n⚠ Rate limited — retry after a delay.");
    } else {
        assert(out@ =~= head + Seq::<char>::empty());
    }
    push_str(&mut out, "\nUse artifact_list to check when status becomes COMPLETED.");
    assert(out@ =~= generation_text(*status));
    out
}

/// The text shown when a mind map was generated: its note id, or `unknown`.
pub open spec fn mind_map_text(note_id: Option<Seq<char>>) -> Seq<char> {
    "Mind map generated. Note ID: "@ + match note_id {
        Some(id) => id,
        None => "unknown"@,
    }
}

/// The answer of `artifact_generate` for a mind map.
pub fn mind_map_reply(note_id: &Option<String>) -> (r: String)
    ensures
        r@ == mind_map_text(opt_text(*note_id)),
{
    let mut out = owned("Mind map generated. Note ID: ");
    match note_id {
        Some(id) => push_str(&mut out, id.as_str()),
        None => push_str(&mut out, "unknown"),
    }
    out
}

// =========================================================================
// Notebooks
// =========================================================================

/// Title, id, number of sources, ownership and creation time.
pub open spec fn notebook_text(nb: Notebook) -> Seq<char> {
    "Notebook: \""@ + nb.title@ + "\" (id: "@ + nb.id@ + ")\n  Sources: "@ + decimal(nb.sources_count as nat)
        + "\n  Owner: "@ + yes_no(nb.is_owner) + "\n  Created: "@ + match opt_text(nb.created_at) {
        Some(t) => t,
        None => "unknown"@,
    }
}

/// The answer of `notebook_get`.
pub fn notebook_reply(nb: &Notebook) -> (r: String)
    ensures
        r@ == notebook_text(*nb),
{
    let mut out = owned("Notebook: \"");
    push_str(&mut out, nb.title.as_str());
    push_str(&mut out, "\" (id: ");
    push_str(&mut out, nb.id.as_str());
    push_str(&mut out, ")\n  Sources: ");
    push_decimal(&mut out, nb.sources_count as u64);
    push_str(&mut out, "\n  Owner: ");
    push_str(&mut out, yes_no_str(nb.is_owner));
    push_str(&mut out, "\n  Created: ");
    match &nb.created_at {
        Some(t) => push_str(&mut out, t.as_str()),
        None => push_str(&mut out, "unknown"),
    }
    assert(out@ =~= notebook_text(*nb));
    out
}

/// The new title, id, number of sources and ownership after a rename.
pub open spec fn renamed_text(nb: Notebook) -> Seq<char> {
    "✅ Notebook renamed to \""@ + nb.title@ + "\" (id: "@ + nb.id@ + ")\n  Sources: "@ + decimal(
        nb.sources_count as nat,
    ) + "\n  Owner: "@ + yes_no(nb.is_owner)
}

/// The answer of `notebook_rename`.
pub fn renamed_reply(nb: &Notebook) -> (r: String)
    ensures
        r@ == renamed_text(*nb),
{
    let mut out = owned("✅ Notebook renamed to \"");
    push_str(&mut out, nb.title.as_str());
    push_str(&mut out, "\" (id: ");
    push_str(&mut out, nb.id.as_str());
    push_str(&mut out, ")\n  Sources: ");
    push_decimal(&mut out, nb.sources_count as u64);
    push_str(&mut out, "\n  Owner: ");
    push_str(&mut out, yes_no_str(nb.is_owner));
    assert(out@ =~= renamed_text(*nb));
    out
}

/// `  {n}. question\n     Prompt: prompt`, numbered from 1.
pub open spec fn topic_line(n: nat, t: SuggestedTopic) -> Seq<char> {
    "  "@ + decimal(n) + ". "@ + t.question@ + "\n     Prompt: "@ + t.prompt@
}

/// The summary, then the numbered suggested topics when there are any.
pub open spec fn summary_text(s: NotebookSummary) -> Seq<char> {
    let topics = s.suggested_topics@;
    "Summary:\n"@ + s.summary@ + "\n"@ + if topics.len() == 0 {
        Seq::empty()
    } else {
        "\nSuggested Topics ("@ + decimal(topics.len()) + "):\n"@ + join(
            Seq::new(topics.len(), |i: int| topic_line((i + 1) as nat, topics[i])),
            "\n"@,
        )
    }
}

/// The answer of `notebook_summary`.
pub fn summary_reply(s: &NotebookSummary) -> (r: String)
    ensures
        r@ == summary_text(*s),
{
    let topics = &s.suggested_topics;
    let mut out = owned("Summary:\n");
    push_str(&mut out, s.summary.as_str());
    push_str(&mut out, "\n");
    if topics.len() == 0 {
        assert(out@ =~= summary_text(*s));
        return out;
    }
    let ghost want = Seq::new(topics@.len(), |i: int| topic_line((i + 1) as nat, topics@[i]));
    let mut lines: Vec<String> = Vec::new();
    let mut i: usize = 0;
    while i < topics.len()
        invariant
            i <= topics@.len(),
            want == Seq::new(topics@.len(), |k: int| topic_line((k + 1) as nat, topics@[k])),
            texts(lines@) == want.take(i as int),
        decreases topics@.len() - i,
    {
        let t = &topics[i];
        let mut line = owned("  ");
        push_decimal(&mut line, (i + 1) as u64);
        push_str(&mut line, ". ");
        push_str(&mut line, t.question.as_str());
        push_str(&mut line, "\n     Prompt: ");
        push_str(&mut line, t.prompt.as_str());
        assert(line@ =~= want[i as int]);
        let ghost before = lines@;
        lines.push(line);
        assert(texts(lines@) =~= texts(before).push(line@));
        i = i + 1;
        assert(want.take(i as int) =~= want.take(i - 1).push(want[i - 1]));
    }
    assert(want.take(i as int) =~= want);
    push_str(&mut out, "\nSuggested Topics (");
    push_decimal(&mut out, topics.len() as u64);
    push_str(&mut out, "):\n");
    let body = join_strings(&lines, "\n");
    push_str(&mut out, body.as_str());
    assert(out@ =~= summary_text(*s));
    out
}

/// `  - email (Permission)`, with ` — name` when the user has a name.
pub open spec fn user_line(u: SharedUser) -> Seq<char> {
    "  - "@ + u.email@ + " ("@ + permission_name(u.permission) + ")"@ + match opt_text(u.display_name) {
        Some(n) => " — "@ + n,
        None => Seq::empty(),
    }
}

/// `\n  Share URL: url` when there is one.
pub open spec fn url_part(url: Option<Seq<char>>) -> Seq<char> {
    match url {
        Some(u) => "\n  Share URL: "@ + u,
        None => Seq::empty(),
    }
}

/// Whether the notebook is public, its access level, its address, and the
/// users it is shared with.
pub open spec fn share_status_text(notebook_id: Seq<char>, s: ShareStatus) -> Seq<char> {
    let users = s.shared_users@;
    "Sharing status for notebook "@ + notebook_id + ":\n  Public: "@ + bool_text(s.is_public) + "\n  Access: "@
        + access_name(s.access) + url_part(opt_text(s.share_url)) + if users.len() == 0 {
        Seq::empty()
    } else {
        "\n\nShared Users ("@ + decimal(users.len()) + "):\n"@ + join(
            users.map_values(|u: SharedUser| user_line(u)),
            "\n"@,
        )
    }
}

fn push_url_part(out: &mut String, url: &Option<String>)
    ensures
        final(out)@ == old(out)@ + url_part(opt_text(*url)),
{
    match url {
        Some(u) => {
            push_str(out, "\n  Share URL: ");
            push_str(out, u.as_str());
            assert(final(out)@ =~= old(out)@ + url_part(opt_text(*url)));
        },
        None => {
            assert(out@ =~= old(out)@ + url_part(opt_text(*url)));
        },
    }
}

/// The answer of `notebook_share_status`.
pub fn share_status_reply(notebook_id: &str, s: &ShareStatus) -> (r: String)
    ensures
        r@ == share_status_text(notebook_id@, *s),
{
    let users = &s.shared_users;
    let mut out = owned("Sharing status for notebook ");
    push_str(&mut out, notebook_id);
    push_str(&mut out, ":\n  Public: ");
    push_str(&mut out, if s.is_public { "true" } else { "false" });
    push_str(&mut out, "\n  Access: ");
    push_str(&mut out, access_name_str(s.access));
    push_url_part(&mut out, &s.share_url);
    if users.len() == 0 {
        assert(out@ =~= share_status_text(notebook_id@, *s));
        return out;
    }
    let ghost want = users@.map_values(|u: SharedUser| user_line(u));
    let mut lines: Vec<String> = Vec::new();
    let mut i: usize = 0;
    while i < users.len()
        invariant
            i <= users@.len(),
            want == users@.map_values(|u: SharedUser| user_line(u)),
            texts(lines@) == want.take(i as int),
        decreases users@.len() - i,
    {
        let u = &users[i];
        let mut line = owned("  - ");
        push_str(&mut line, u.email.as_str());
        push_str(&mut line, " (");
        push_str(&mut line, permission_name_str(u.permission));
        push_str(&mut line, ")");
        match &u.display_name {
            Some(n) => {
                push_str(&mut line, " — ");
                push_str(&mut line, n.as_str());
            },
            None => {},
        }
        assert(line@ =~= user_line(users@[i as int]));
        let ghost before = lines@;
        lines.push(line);
        assert(texts(lines@) =~= texts(before).push(line@));
        i = i + 1;
        assert(want.take(i as int) =~= want.take(i - 1).push(want[i - 1]));
    }
    assert(want.take(i as int) =~= want);
    push_str(&mut out, "\n\nShared Users (");
    push_decimal(&mut out, users.len() as u64);
    push_str(&mut out, "):\n");
    let body = join_strings(&lines, "\n");
    push_str(&mut out, body.as_str());
    assert(out@ =~= share_status_text(notebook_id@, *s));
    out
}

/// Whether the notebook is now public, its access level and its address.
pub open spec fn share_set_text(notebook_id: Seq<char>, s: ShareStatus) -> Seq<char> {
    "✅ Notebook "@ + notebook_id + " is now "@ + (if s.is_public {
        "PUBLIC"@
    } else {
        "PRIVATE"@
    }) + "\n  Access: "@ + access_name(s.access) + url_part(opt_text(s.share_url))
}

/// The answer of `notebook_share_set`.
pub fn share_set_reply(notebook_id: &str, s: &ShareStatus) -> (r: String)
    ensures
        r@ == share_set_text(notebook_id@, *s),
{
    let mut out = owned("✅ Notebook ");
    push_str(&mut out, notebook_id);
    push_str(&mut out, " is now ");
    push_str(&mut out, if s.is_public { "PUBLIC" } else { "PRIVATE" });
    push_str(&mut out, "\n  Access: ");
    push_str(&mut out, access_name_str(s.access));
    push_url_part(&mut out, &s.share_url);
    assert(out@ =~= share_set_text(notebook_id@, *s));
    out
}

// =========================================================================
// Notes and chat history
// =========================================================================

/// `- [id] title`
pub open spec fn note_line(n: Note) -> Seq<char> {
    "- ["@ + n.id@ + "] "@ + n.title@
}

/// One line per note, or a sentence saying there are none.
pub open spec fn note_list_text(notes: Seq<Note>) -> Seq<char> {
    if notes.len() == 0 {
        "No hay notas en este cuaderno."@
    } else {
        join(notes.map_values(|n: Note| note_line(n)), "\n"@)
    }
}

/// The answer of `note_list`.
pub fn note_list_reply(notes: &Vec<Note>) -> (r: String)
    ensures
        r@ == note_list_text(notes@),
{
    if notes.len() == 0 {
        return owned("No hay notas en este cuaderno.");
    }
    let ghost want = notes@.map_values(|n: Note| note_line(n));
    let mut lines: Vec<String> = Vec::new();
    let mut i: usize = 0;
    while i < notes.len()
        invariant
            i <= notes@.len(),
            want == notes@.map_values(|n: Note| note_line(n)),
            texts(lines@) == want.take(i as int),
        decreases notes@.len() - i,
    {
        let mut line = owned("- [");
        push_str(&mut line, notes[i].id.as_str());
        push_str(&mut line, "] ");
        push_str(&mut line, notes[i].title.as_str());
        assert(line@ =~= note_line(notes@[i as int]));
        let ghost before = lines@;
        lines.push(line);
        assert(texts(lines@) =~= texts(before).push(line@));
        i = i + 1;
        assert(want.take(i as int) =~= want.take(i - 1).push(want[i - 1]));
    }
    assert(want.take(i as int) =~= want);
    join_strings(&lines, "\n")
}

/// `[role] text`
pub open spec fn turn_line(t: ChatTurn) -> Seq<char> {
    "["@ + t.role@ + "] "@ + t.text@
}

/// The turns of a conversation, separated by blank lines, with their count.
pub open spec fn chat_history_text(notebook_id: Seq<char>, conversation_id: Seq<char>, turns: Seq<ChatTurn>) -> Seq<char> {
    if turns.len() == 0 {
        "No conversation history found for notebook "@ + notebook_id + " (conv_id: "@ + conversation_id + ")"@
    } else {
        "Chat history ("@ + decimal(turns.len()) + " turns, conv_id: "@ + conversation_id + "):\n"@ + join(
            turns.map_values(|t: ChatTurn| turn_line(t)),
            "\n\n"@,
        )
    }
}

/// The answer of `chat_history` for a conversation that was found.
pub fn chat_history_reply(notebook_id: &str, conversation_id: &str, turns: &Vec<ChatTurn>) -> (r: String)
    ensures
        r@ == chat_history_text(notebook_id@, conversation_id@, turns@),
{
    if turns.len() == 0 {
        let mut out = owned("No conversation history found for notebook ");
        push_str(&mut out, notebook_id);
        push_str(&mut out, " (conv_id: ");
        push_str(&mut out, conversation_id);
        push_str(&mut out, ")");
        assert(out@ =~= chat_history_text(notebook_id@, conversation_id@, turns@));
        return out;
    }
    let ghost want = turns@.map_values(|t: ChatTurn| turn_line(t));
    let mut lines: Vec<String> = Vec::new();
    let mut i: usize = 0;
    while i < turns.len()
        invariant
            i <= turns@.len(),
            want == turns@.map_values(|t: ChatTurn| turn_line(t)),
            texts(lines@) == want.take(i as int),
        decreases turns@.len() - i,
    {
        let mut line = owned("[");
        push_str(&mut line, turns[i].role.as_str());
        push_str(&mut line, "] ");
        push_str(&mut line, turns[i].text.as_str());
        assert(line@ =~= turn_line(turns@[i as int]));
        let ghost before = lines@;
        lines.push(line);
        assert(texts(lines@) =~= texts(before).push(line@));
        i = i + 1;
        assert(want.take(i as int) =~= want.take(i - 1).push(want[i - 1]));
    }
    assert(want.take(i as int) =~= want);
    let mut out = owned("Chat history (");
    push_decimal(&mut out, turns.len() as u64);
    push_str(&mut out, " turns, conv_id: ");
    push_str(&mut out, conversation_id);
    push_str(&mut out, "):\n");
    let body = join_strings(&lines, "\n\n");
    push_str(&mut out, body.as_str());
    assert(out@ =~= chat_history_text(notebook_id@, conversation_id@, turns@));
    out
}

/// The answer of `chat_history` when the notebook has no conversation.
pub open spec fn no_conversation_text(notebook_id: Seq<char>) -> Seq<char> {
    "No conversation found for notebook "@ + notebook_id
}

pub fn no_conversation_reply(notebook_id: &str) -> (r: String)
    ensures
        r@ == no_conversation_text(notebook_id@),
{
    let mut out = owned("No conversation found for notebook ");
    push_str(&mut out, notebook_id);
    out
}

// =========================================================================
// Blocking deep research
// =========================================================================

/// What the blocking deep research does after a poll.
#[derive(Debug)]
pub enum DeepDiveStep {
    /// Stop and answer with this text.
    Answer(String),
    /// The research is complete: import its sources.
    Import,
    /// Wait and poll again.
    Wait,
}

/// The text answered when the research did not finish in time.
pub open spec fn timed_out_text(timeout_secs: u64, task_id: Seq<char>) -> Seq<char> {
    "Deep research timed out after "@ + decimal(timeout_secs as nat) + "s. Task ID: "@ + task_id
}

/// Before a poll: answer that the research timed out once `elapsed_secs`
/// reaches `timeout_secs`, else go on (`None`).
pub fn deep_dive_deadline(elapsed_secs: u64, timeout_secs: u64, task_id: &str) -> (r: Option<String>)
    ensures
        elapsed_secs >= timeout_secs ==> (r matches Some(t) && t@ == timed_out_text(timeout_secs, task_id@)),
        elapsed_secs < timeout_secs ==> r is None,
{
    if elapsed_secs >= timeout_secs {
        let mut out = owned("Deep research timed out after ");
        push_decimal(&mut out, timeout_secs);
        push_str(&mut out, "s. Task ID: ");
        push_str(&mut out, task_id);
        assert(out@ =~= timed_out_text(timeout_secs, task_id@));
        Some(out)
    } else {
        None
    }
}

/// After a poll: import once the research is complete, else wait.
pub fn deep_dive_step(is_complete: bool) -> (r: DeepDiveStep)
    ensures
        is_complete ==> r is Import,
        !is_complete ==> r is Wait,
{
    if is_complete {
        DeepDiveStep::Import
    } else {
        DeepDiveStep::Wait
    }
}

/// The text answered once the sources were imported.
pub open spec fn imported_text(task_id: Seq<char>, sources_found: nat) -> Seq<char> {
    "✅ Deep research complete. Sources imported. Task ID: "@ + task_id + ". Sources found: "@ + decimal(
        sources_found,
    )
}

pub fn imported_reply(task_id: &str, sources_found: usize) -> (r: String)
    ensures
        r@ == imported_text(task_id@, sources_found as nat),
{
    let mut out = owned("✅ Deep research complete. Sources imported. Task ID: ");
    push_str(&mut out, task_id);
    push_str(&mut out, ". Sources found: ");
    push_decimal(&mut out, sources_found as u64);
    assert(out@ =~= imported_text(task_id@, sources_found as nat));
    out
}

/// The name of a research state: `completed`, `no_research` (status code
/// 0) or `in_progress`.
pub open spec fn research_state_name(is_complete: bool, status_code: u32) -> Seq<char> {
    if is_complete {
        "completed"@
    } else if status_code == 0 {
        "no_research"@
    } else {
        "in_progress"@
    }
}

pub fn research_state(is_complete: bool, status_code: u32) -> (r: &'static str)
    ensures
        r@ == research_state_name(is_complete, status_code),
{
    if is_complete {
        "completed"
    } else if status_code == 0 {
        "no_research"
    } else {
        "in_progress"
    }
}

// =========================================================================
// JSON answers
// =========================================================================

/// A research source as a JSON object (absent fields are `null`).
pub open spec fn source_json(s: ResearchSource) -> JsonModel {
    JsonModel::Object(
        seq![
            ("description"@, text_or_null(opt_text(s.description))),
            ("result_type"@, JsonModel::PosInt(s.result_type as u64)),
            ("title"@, text_or_null(opt_text(s.title))),
            ("url"@, text_or_null(opt_text(s.url))),
        ],
    )
}

fn source_value(s: &ResearchSource) -> (r: JsonValue)
    ensures
        r@ == source_json(*s),
{
    let mut e: Vec<(String, JsonValue)> = Vec::new();
    push_entry(&mut e, "description", jopt_str(&s.description));
    push_entry(&mut e, "result_type", JsonValue::PosInt(s.result_type as u64));
    push_entry(&mut e, "title", jopt_str(&s.title));
    push_entry(&mut e, "url", jopt_str(&s.url));
    assert(entries_of(e@) =~= source_json(*s)->Object_0);
    JsonValue::Object(e)
}

/// The state of a research task as the status tool reports it.
pub open spec fn research_status_json(task_id: Option<Seq<char>>, st: ResearchStatus) -> JsonModel {
    JsonModel::Object(
        seq![
            ("is_complete"@, JsonModel::Bool(st.is_complete)),
            ("query"@, text_or_null(opt_text(st.query))),
            ("report"@, text_or_null(opt_text(st.report))),
            ("sources"@, JsonModel::Array(st.sources@.map_values(|s: ResearchSource| source_json(s)))),
            ("sources_found"@, JsonModel::PosInt(st.sources@.len() as u64)),
            ("status"@, JsonModel::Str(research_state_name(st.is_complete, st.status_code))),
            ("status_code"@, JsonModel::PosInt(st.status_code as u64)),
            ("task_id"@, text_or_null(task_id)),
        ],
    )
}

/// The answer of `research_deep_dive_status`, as a JSON object.
pub fn research_status_value(task_id: &Option<String>, st: &ResearchStatus) -> (r: JsonValue)
    ensures
        r@ == research_status_json(opt_text(*task_id), *st),
{
    let ghost want = st.sources@.map_values(|s: ResearchSource| source_json(s));
    let mut items: Vec<JsonValue> = Vec::new();
    let mut i: usize = 0;
    while i < st.sources.len()
        invariant
            i <= st.sources@.len(),
            want == st.sources@.map_values(|s: ResearchSource| source_json(s)),
            models_of(items@) == want.take(i as int),
        decreases st.sources@.len() - i,
    {
        push_val(&mut items, source_value(&st.sources[i]));
        i = i + 1;
        assert(want.take(i as int) =~= want.take(i - 1).push(want[i - 1]));
    }
    assert(want.take(i as int) =~= want);
    let mut e: Vec<(String, JsonValue)> = Vec::new();
    push_entry(&mut e, "is_complete", JsonValue::Bool(st.is_complete));
    push_entry(&mut e, "query", jopt_str(&st.query));
    push_entry(&mut e, "report", jopt_str(&st.report));
    proof {
        crate::json::lemma_models_of(items@);
    }
    push_entry(&mut e, "sources", JsonValue::Array(items));
    push_entry(&mut e, "sources_found", JsonValue::PosInt(st.sources.len() as u64));
    push_entry(&mut e, "status", jstr(research_state(st.is_complete, st.status_code)));
    push_entry(&mut e, "status_code", JsonValue::PosInt(st.status_code as u64));
    push_entry(&mut e, "task_id", jopt_str(task_id));
    assert(entries_of(e@) =~= research_status_json(opt_text(*task_id), *st)->Object_0);
    JsonValue::Object(e)
}

/// What `research_deep_dive_start` answers once the task started.
pub open spec fn research_started_json(task_id: Seq<char>, notebook_id: Seq<char>, query: Seq<char>) -> JsonModel {
    JsonModel::Object(
        seq![
            ("notebook_id"@, JsonModel::Str(notebook_id)),
            ("query"@, JsonModel::Str(query)),
            ("status"@, JsonModel::Str("started"@)),
            ("task_id"@, JsonModel::Str(task_id)),
        ],
    )
}

pub fn research_started_value(task_id: &str, notebook_id: &str, query: &str) -> (r: JsonValue)
    ensures
        r@ == research_started_json(task_id@, notebook_id@, query@),
{
    let mut e: Vec<(String, JsonValue)> = Vec::new();
    push_entry(&mut e, "notebook_id", jstr(notebook_id));
    push_entry(&mut e, "query", jstr(query));
    push_entry(&mut e, "status", jstr("started"));
    push_entry(&mut e, "task_id", jstr(task_id));
    assert(entries_of(e@) =~= research_started_json(task_id@, notebook_id@, query@)->Object_0);
    JsonValue::Object(e)
}

/// The outcome of an update check as a JSON object.
pub open spec fn update_json(u: UpdateCheckResult) -> JsonModel {
    JsonModel::Object(
        seq![
            ("current_version"@, JsonModel::Str(u.current_version@)),
            ("download_url"@, JsonModel::Str(u.download_url@)),
            ("latest_version"@, JsonModel::Str(u.latest_version@)),
            ("update_available"@, JsonModel::Bool(u.update_available)),
        ],
    )
}

/// The answer of `check_for_updates`.
pub fn update_value(u: &UpdateCheckResult) -> (r: JsonValue)
    ensures
        r@ == update_json(*u),
{
    let mut e: Vec<(String, JsonValue)> = Vec::new();
    push_entry(&mut e, "current_version", jstr(u.current_version.as_str()));
    push_entry(&mut e, "download_url", jstr(u.download_url.as_str()));
    push_entry(&mut e, "latest_version", jstr(u.latest_version.as_str()));
    push_entry(&mut e, "update_available", JsonValue::Bool(u.update_available));
    assert(entries_of(e@) =~= update_json(*u)->Object_0);
    JsonValue::Object(e)
}

// =========================================================================
// Resources
// =========================================================================

/// The prefix of notebook resource URIs.
pub const NOTEBOOK_SCHEME: &'static str = "notebook://";

/// `notebook://{id}`
pub open spec fn resource_uri(id: Seq<char>) -> Seq<char> {
    NOTEBOOK_SCHEME@ + id
}

/// A notebook as a resource: its URI, its title as the name, and a
/// description.
pub open spec fn resource_of(nb: Notebook) -> (Seq<char>, Seq<char>, Seq<char>) {
    (resource_uri(nb.id@), nb.title@, "NotebookLM notebook: "@ + nb.title@)
}

/// The resources listed: one per notebook, as (uri, name, description).
pub fn resource_entries(notebooks: &Vec<Notebook>) -> (r: Vec<(String, String, String)>)
    ensures
        r@.map_values(|e: (String, String, String)| (e.0@, e.1@, e.2@)) == notebooks@.map_values(
            |nb: Notebook| resource_of(nb),
        ),
{
    let ghost want = notebooks@.map_values(|nb: Notebook| resource_of(nb));
    let mut out: Vec<(String, String, String)> = Vec::new();
    let mut i: usize = 0;
    while i < notebooks.len()
        invariant
            i <= notebooks@.len(),
            want == notebooks@.map_values(|nb: Notebook| resource_of(nb)),
            out@.map_values(|e: (String, String, String)| (e.0@, e.1@, e.2@)) == want.take(i as int),
        decreases notebooks@.len() - i,
    {
        let nb = &notebooks[i];
        let mut uri = owned(NOTEBOOK_SCHEME);
        push_str(&mut uri, nb.id.as_str());
        let mut desc = owned("NotebookLM notebook: ");
        push_str(&mut desc, nb.title.as_str());
        let ghost before = out@;
        out.push((uri, nb.title.clone(), desc));
        assert(out@.map_values(|e: (String, String, String)| (e.0@, e.1@, e.2@)) =~= before.map_values(
            |e: (String, String, String)| (e.0@, e.1@, e.2@),
        ).push(want[i as int]));
        i = i + 1;
        assert(want.take(i as int) =~= want.take(i - 1).push(want[i - 1]));
    }
    assert(want.take(i as int) =~= want);
    out
}

/// Why a resource could not be read.
#[derive(Debug)]
pub enum ResourceError {
    /// No notebook has the id; the message says which.
    NotFound(String),
    /// The URI is no `notebook://` URI; the message says how to write one.
    Unsupported(String),
}

/// The content of a notebook resource: id, title and URI.
pub open spec fn resource_json(nb: Notebook, uri: Seq<char>) -> JsonModel {
    JsonModel::Object(
        seq![("id"@, JsonModel::Str(nb.id@)), ("title"@, JsonModel::Str(nb.title@)), ("uri"@, JsonModel::Str(uri))],
    )
}

/// Reads a `notebook://{id}` resource: the content of the first notebook
/// with that id; not found when none has it; unsupported for another URI.
pub fn notebook_resource(uri: &str, notebooks: &Vec<Notebook>) -> (r: Result<JsonValue, ResourceError>)
    ensures
        !seq_starts_with(uri@, NOTEBOOK_SCHEME@) ==> (r matches Err(ResourceError::Unsupported(m)) && m@
            == "URI no soportada: "@ + uri@ + ". Use notebook://<uuid>"@),
        seq_starts_with(uri@, NOTEBOOK_SCHEME@) ==> {
            let id = uri@.skip(NOTEBOOK_SCHEME@.len() as int);
            match r {
                Ok(v) => exists|i: int|
                    0 <= i < notebooks@.len() && #[trigger] notebooks@[i].id@ == id && (forall|k: int|
                        0 <= k < i ==> notebooks@[k].id@ != id) && v@ == resource_json(notebooks@[i], uri@),
                Err(ResourceError::NotFound(m)) => (forall|k: int|
                    0 <= k < notebooks@.len() ==> #[trigger] notebooks@[k].id@ != id) && m@ == "Notebook "@ + id
                    + " no encontrado"@,
                Err(ResourceError::Unsupported(_)) => false,
            }
        },
{
    if !str_starts_with(uri, NOTEBOOK_SCHEME) {
        let mut m = owned("URI no soportada: ");
        push_str(&mut m, uri);
        push_str(&mut m, ". Use notebook://<uuid>");
        return Err(ResourceError::Unsupported(m));
    }
    proof {
        reveal_strlit("notebook://");
    }
    let cs = chars_of(uri);
    let id_text = string_of(&cs, 11, cs.len());
    let rest = id_text.as_str();
    assert(rest@ =~= uri@.skip(11));
    let ghost id = uri@.skip(11);
    let mut i: usize = 0;
    while i < notebooks.len()
        invariant
            i <= notebooks@.len(),
            rest@ == id,
            id == uri@.skip(11),
            NOTEBOOK_SCHEME@.len() == 11,
            seq_starts_with(uri@, NOTEBOOK_SCHEME@),
            forall|k: int| 0 <= k < i ==> #[trigger] notebooks@[k].id@ != id,
        decreases notebooks@.len() - i,
    {
        if str_eq(notebooks[i].id.as_str(), rest) {
            let nb = &notebooks[i];
            let mut e: Vec<(String, JsonValue)> = Vec::new();
            push_entry(&mut e, "id", jstr(nb.id.as_str()));
            push_entry(&mut e, "title", jstr(nb.title.as_str()));
            push_entry(&mut e, "uri", jstr(uri));
            assert(entries_of(e@) =~= resource_json(*nb, uri@)->Object_0);
            assert(notebooks@[i as int].id@ == id);
            return Ok(JsonValue::Object(e));
        }
        i = i + 1;
    }
    let mut m = owned("Notebook ");
    push_str(&mut m, rest);
    push_str(&mut m, " no encontrado");
    Err(ResourceError::NotFound(m))
}

} // verus!
