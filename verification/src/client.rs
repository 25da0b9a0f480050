//! What the NotebookLM client computes around its HTTP calls: URL checks,
//! request payloads, readers of the responses, and the choice of how an
//! artifact is downloaded. The calls themselves are made by the caller.

use vstd::prelude::*;
use vstd::utf8::{encode_utf8, decode_utf8, is_char_boundary};
use crate::errors::{NotebookLmError, ErrorKind};
use crate::json::{
    JsonModel, JsonValue, models_of, seq_at, then_at, then_text, then_arr, get_in, str_in, arr_in,
    item, group_json,
};
use crate::outside::{parse_url, url_parts};
use crate::parser::{
    str_at, opt_text, get_uuid_at, get_string_at_or_default, byte_len, Artifact, ArtifactModel,
    audio_url, video_url, infographic_scan, slide_deck_url, report_content, data_table,
    extract_audio_url, extract_video_url, extract_infographic_url, extract_slide_deck_url,
    extract_report_content, parse_data_table, mind_map_item, is_mind_map_item,
};
use crate::rpc::artifacts::{ArtifactType, ArtifactStatus};
use crate::text::{join, texts, seq_contains, str_contains, push_char, join_strings, split_on, split_chars, chars_of, seq_starts_with, str_starts_with};
use crate::json::{jstr, jarr, jarr1, jarr2, jint, push_val, omodel, omodel_owned, int_model, vmodel};
use crate::conversation_cache::{ConversationMessage, msg_models};
use crate::rpc::artifacts::{m_int, m_str, m_arr};
use crate::rpc::artifacts::GenerationStatus;
use crate::text::{owned, push_str, str_eq, str_ends_with, seq_ends_with};

verus! {

/// The hosts that serve YouTube.
pub open spec fn youtube_host(h: Seq<char>) -> bool {
    h == "youtube.com"@ || h == "www.youtube.com"@ || h == "m.youtube.com"@ || h
        == "music.youtube.com"@ || h == "youtu.be"@
}

/// Whether a URL parses and its host is one of YouTube's.
pub open spec fn youtube_url(url: Seq<char>) -> bool {
    url_parts(url) matches Some((_, Some(h))) && youtube_host(h)
}

/// Whether the URL is a YouTube URL (`youtube.com`, `www.`, `m.`,
/// `music.youtube.com`, `youtu.be`); invalid URLs and URLs without a host
/// are not.
pub fn is_youtube_url(url: &str) -> (r: bool)
    ensures
        r == youtube_url(url@),
{
    match parse_url(url) {
        Some((_, Some(h))) => {
            let h = h.as_str();
            str_eq(h, "youtube.com") || str_eq(h, "www.youtube.com") || str_eq(h, "m.youtube.com")
                || str_eq(h, "music.youtube.com") || str_eq(h, "youtu.be")
        },
        _ => false,
    }
}

/// At most the first 80 bytes of a text (which must end on a character).
pub open spec fn head80(s: Seq<char>) -> Seq<char> {
    if byte_len(s) <= 80 {
        s
    } else {
        decode_utf8(encode_utf8(s).subrange(0, 80))
    }
}

/// The first 80 bytes of a text can be cut off without splitting a character.
pub open spec fn cuts_at_80(s: Seq<char>) -> bool {
    byte_len(s) <= 80 || is_char_boundary(encode_utf8(s), 80)
}

/// A host that belongs to Google: `google.com`, `googleusercontent.com`,
/// `googleapis.com`, or a subdomain of one of them.
pub open spec fn trusted_host(h: Seq<char>) -> bool {
    h == "google.com"@ || seq_ends_with(h, ".google.com"@) || h == "googleusercontent.com"@
        || seq_ends_with(h, ".googleusercontent.com"@) || h == "googleapis.com"@ || seq_ends_with(
        h,
        ".googleapis.com"@,
    )
}

/// The error `validate_google_domain` answers for a URL, if any.
pub open spec fn domain_error(url: Seq<char>) -> Option<Seq<char>> {
    match url_parts(url) {
        None => Some("Invalid download URL: "@ + head80(url)),
        Some((scheme, host)) => if scheme != "https"@ {
            Some("Download URL must use HTTPS: "@ + head80(url))
        } else {
            match host {
                None => Some("Download URL has no host: "@ + head80(url)),
                Some(h) => if trusted_host(h) {
                    None
                } else {
                    Some("Untrusted download domain: "@ + h)
                },
            }
        },
    }
}

/// `url` with at most its first 80 bytes.
fn truncated_80(url: &str) -> (r: String)
    requires
        cuts_at_80(url@),
    ensures
        r@ == head80(url@),
{
    proof {
        vstd::utf8::encode_utf8_decode_utf8(url@);
    }
    if url.len() <= 80 {
        owned(url)
    } else {
        let (head, _) = url.split_at(80);
        proof {
            vstd::utf8::encode_utf8_decode_utf8(head@);
            vstd::utf8::encode_utf8_valid_utf8(url@);
            assert(encode_utf8(head@) =~= encode_utf8(url@).subrange(0, 80));
        }
        owned(head)
    }
}

/// Checks that a download URL is HTTPS on a Google domain, so that cookies
/// go to no other server.
pub fn validate_google_domain(url: &str) -> (r: Result<(), NotebookLmError>)
    requires
        (url_parts(url@) matches Some((s, Some(_))) && s == "https"@) || cuts_at_80(url@),
    ensures
        match domain_error(url@) {
            Some(msg) => r matches Err(e) && e.kind() == ErrorKind::DownloadFailed && e.message() == msg,
            None => r is Ok,
        },
{
    let (scheme, host) = match parse_url(url) {
        Some(p) => p,
        None => {
            let mut msg = owned("Invalid download URL: ");
            push_str(&mut msg, truncated_80(url).as_str());
            return Err(NotebookLmError::DownloadFailed(msg));
        },
    };
    if !str_eq(scheme.as_str(), "https") {
        let mut msg = owned("Download URL must use HTTPS: ");
        push_str(&mut msg, truncated_80(url).as_str());
        return Err(NotebookLmError::DownloadFailed(msg));
    }
    let host = match host {
        Some(h) => h,
        None => {
            let mut msg = owned("Download URL has no host: ");
            push_str(&mut msg, truncated_80(url).as_str());
            return Err(NotebookLmError::DownloadFailed(msg));
        },
    };
    let h = host.as_str();
    let trusted = str_eq(h, "google.com") || str_ends_with(h, ".google.com") || str_eq(
        h,
        "googleusercontent.com",
    ) || str_ends_with(h, ".googleusercontent.com") || str_eq(h, "googleapis.com")
        || str_ends_with(h, ".googleapis.com");
    if trusted {
        Ok(())
    } else {
        let mut msg = owned("Untrusted download domain: ");
        push_str(&mut msg, h);
        Err(NotebookLmError::DownloadFailed(msg))
    }
}

/// Whether `validate_google_domain` can run on a URL: its message quotes at
/// most 80 bytes of the URL, which must not cut a character in two, unless
/// the URL is HTTPS with a host and no message quotes it.
pub open spec fn download_url_checkable(url: Seq<char>) -> bool {
    (url_parts(url) matches Some((s, Some(_))) && s == "https"@) || cuts_at_80(url)
}

/// Runs `validate_google_domain` where it can run; `None` for a URL whose
/// error message would have to cut a character in two.
pub fn checked_download_url(url: &str) -> (r: Option<Result<(), NotebookLmError>>)
    ensures
        r is Some <==> download_url_checkable(url@),
        r matches Some(res) ==> match domain_error(url@) {
            Some(msg) => res matches Err(e) && e.kind() == ErrorKind::DownloadFailed && e.message() == msg,
            None => res is Ok,
        },
{
    if url.len() <= 80 || url.is_char_boundary(80) {
        return Some(validate_google_domain(url));
    }
    match parse_url(url) {
        Some((s, Some(_))) => {
            if str_eq(s.as_str(), "https") {
                Some(validate_google_domain(url))
            } else {
                None
            }
        },
        _ => None,
    }
}

/// A notebook of the account.
#[derive(Debug, Clone)]
pub struct Notebook {
    pub id: String,
    pub title: String,
    /// Number of sources; only `get_notebook` fills it in.
    pub sources_count: usize,
    /// Whether the user owns it; only `get_notebook` fills it in.
    pub is_owner: bool,
    /// Creation time in unix seconds; only `get_notebook` fills it in.
    pub created_at: Option<String>,
}

impl Default for Notebook {
    fn default() -> (r: Self)
        ensures
            r.id@.len() == 0,
            r.title@.len() == 0,
            r.sources_count == 0,
            !r.is_owner,
            r.created_at is None,
    {
        Notebook {
            id: String::new(),
            title: String::new(),
            sources_count: 0,
            is_owner: false,
            created_at: None,
        }
    }
}

/// A notebook as plain values: id, title, sources, ownership, creation time.
pub type NotebookModel = (Seq<char>, Seq<char>, usize, bool, Option<Seq<char>>);

pub open spec fn notebook_model(n: Notebook) -> NotebookModel {
    (n.id@, n.title@, n.sources_count, n.is_owner, opt_text(n.created_at))
}

/// A notebook entry of the list `[title, sources, id, ..]`: its 36-byte id
/// and title (`Sin título` when absent), the other fields at their
/// defaults; nothing for entries without an id.
pub open spec fn listed_notebook(m: JsonModel) -> Option<NotebookModel> {
    match m {
        JsonModel::Array(a) => match str_at(a, 2) {
            Some(id) => if byte_len(id) == 36 && id.len() > 0 {
                Some(
                    (
                        id,
                        match str_at(a, 0) {
                            Some(t) => t,
                            None => "Sin título"@,
                        },
                        0usize,
                        false,
                        None,
                    ),
                )
            } else {
                None
            },
            None => None,
        },
        _ => None,
    }
}

/// The notebooks read from the entries, in order.
pub open spec fn listed_notebooks(entries: Seq<JsonModel>) -> Seq<NotebookModel>
    decreases entries.len(),
{
    if entries.len() == 0 {
        Seq::empty()
    } else {
        match listed_notebook(entries.last()) {
            Some(n) => listed_notebooks(entries.drop_last()).push(n),
            None => listed_notebooks(entries.drop_last()),
        }
    }
}

/// The notebooks of a `wXbhsf` list; they carry only an id and a title.
pub fn notebooks_from_list(list: &[JsonValue]) -> (r: Vec<Notebook>)
    ensures
        r@.map_values(|n: Notebook| notebook_model(n)) == listed_notebooks(models_of(list@)),
{
    broadcast use group_json;

    proof {
        crate::json::lemma_models_of(list@);
        crate::text::lemma_empty_literal();
    }
    let ghost lm = models_of(list@);
    let mut out: Vec<Notebook> = Vec::new();
    assert(lm.take(0) =~= Seq::<JsonModel>::empty());
    assert(out@.map_values(|n: Notebook| notebook_model(n)) =~= Seq::<NotebookModel>::empty());
    let mut i: usize = 0;
    while i < list.len()
        invariant
            i <= list@.len(),
            lm == models_of(list@),
            lm.len() == list@.len(),
            forall|k: int| 0 <= k < list@.len() ==> #[trigger] lm[k] == list@[k]@,
            out@.map_values(|n: Notebook| notebook_model(n)) == listed_notebooks(lm.take(i as int)),
            ""@ == Seq::<char>::empty(),
        decreases list@.len() - i,
    {
        assert(lm.take(i + 1).drop_last() =~= lm.take(i as int));
        assert(lm.take(i + 1).last() == lm[i as int]);
        let ghost before = out@;
        match list[i].as_array() {
            Some(nb) => {
                let title = get_string_at_or_default(nb.as_slice(), 0, "Sin título");
                let id = match get_uuid_at(nb.as_slice(), 2) {
                    Some(s) => s,
                    None => String::new(),
                };
                if !id.as_str().is_empty() {
                    let n = Notebook { id, title, sources_count: 0, is_owner: false, created_at: None };
                    out.push(n);
                    assert(out@.map_values(|n: Notebook| notebook_model(n)) =~= before.map_values(
                        |n: Notebook| notebook_model(n),
                    ).push(notebook_model(out@.last())));
                }
            },
            None => {},
        }
        i = i + 1;
    }
    assert(lm.take(i as int) =~= lm);
    out
}

/// The temporary file a download is written to before it is renamed.
pub fn temp_path(output_path: &str) -> (r: String)
    ensures
        r@ == output_path@ + ".tmp"@,
{
    let mut t = owned(output_path);
    push_str(&mut t, ".tmp");
    t
}

/// Whether a `CREATE_ARTIFACT` response reports a rate limit: the first
/// `wrb.fr` entry whose position 1 is `USER_DISPLAYABLE_ERROR`. The scan stops
/// with nothing at an entry that is not an array or lacks those strings.
pub open spec fn rate_limit_scan(items: Seq<JsonModel>) -> bool
    decreases items.len(),
{
    if items.len() == 0 {
        false
    } else {
        match items[0] {
            JsonModel::Array(a) => match str_at(a, 0) {
                None => false,
                Some(tag) => if tag != "wrb.fr"@ {
                    rate_limit_scan(items.drop_first())
                } else {
                    match str_at(a, 1) {
                        None => false,
                        Some(code) => if code == "USER_DISPLAYABLE_ERROR"@ {
                            true
                        } else {
                            rate_limit_scan(items.drop_first())
                        },
                    }
                },
            },
            _ => false,
        }
    }
}

/// A rate-limited generation status when the response reports a rate limit.
pub fn check_rate_limit(response: &JsonValue) -> (r: Option<GenerationStatus>)
    ensures
        match r {
            Some(g) => (response@ matches JsonModel::Array(items) && rate_limit_scan(items))
                && g.rate_limited_spec() && g.status == crate::rpc::artifacts::ArtifactStatus::Failed
                && opt_text(g.error) == Some("Rate limited by API (USER_DISPLAYABLE_ERROR)"@),
            None => !(response@ matches JsonModel::Array(items) && rate_limit_scan(items)),
        },
{
    broadcast use group_json;

    let arr = match response.as_array() {
        Some(a) => a,
        None => return None,
    };
    proof {
        crate::json::lemma_models_of(arr@);
    }
    let ghost items = models_of(arr@);
    assert(items.skip(0) =~= items);
    let mut i: usize = 0;
    while i < arr.len()
        invariant
            i <= arr@.len(),
            items == models_of(arr@),
            items.len() == arr@.len(),
            forall|k: int| 0 <= k < arr@.len() ==> #[trigger] items[k] == arr@[k]@,
            response@ == JsonModel::Array(items),
            rate_limit_scan(items) == rate_limit_scan(items.skip(i as int)),
        decreases arr@.len() - i,
    {
        let ghost rest = items.skip(i as int);
        assert(rest[0] == items[i as int]);
        assert(rest.drop_first() =~= items.skip(i + 1));
        let entry = match arr[i].as_array() {
            Some(e) => e,
            None => return None,
        };
        let tag = match str_in(item(entry, 0)) {
            Some(t) => t,
            None => return None,
        };
        if str_eq(tag.as_str(), "wrb.fr") {
            let code = match str_in(item(entry, 1)) {
                Some(c) => c,
                None => return None,
            };
            if str_eq(code.as_str(), "USER_DISPLAYABLE_ERROR") {
                return Some(GenerationStatus::rate_limited("Rate limited by API (USER_DISPLAYABLE_ERROR)"));
            }
        }
        i = i + 1;
    }
    assert(items.skip(i as int).len() == 0);
    None
}

// =========================================================================
// Downloads
// =========================================================================

/// `Artifact {id} not found in notebook {notebook}`
pub open spec fn not_found_message(artifact_id: Seq<char>, notebook_id: Seq<char>) -> Seq<char> {
    "Artifact "@ + artifact_id + " not found in notebook "@ + notebook_id
}

/// The artifact to download: the first with the id, which must be completed.
pub fn select_completed_artifact(artifacts: Vec<Artifact>, artifact_id: &str, notebook_id: &str) -> (r: Result<Artifact, NotebookLmError>)
    ensures
        match r {
            Ok(a) => exists|i: int|
                0 <= i < artifacts@.len() && #[trigger] artifacts@[i].id@ == artifact_id@ && (forall|j: int|
                    0 <= j < i ==> artifacts@[j].id@ != artifact_id@) && a.model() == artifacts@[i].model()
                    && a.status == ArtifactStatus::Completed,
            Err(e) => if forall|i: int| 0 <= i < artifacts@.len() ==> #[trigger] artifacts@[i].id@ != artifact_id@ {
                e.kind() == ErrorKind::ArtifactNotFound && e.message() == not_found_message(artifact_id@, notebook_id@)
            } else {
                exists|i: int|
                    0 <= i < artifacts@.len() && #[trigger] artifacts@[i].id@ == artifact_id@ && (forall|j: int|
                        0 <= j < i ==> artifacts@[j].id@ != artifact_id@) && artifacts@[i].status
                        != ArtifactStatus::Completed && e.kind() == ErrorKind::ArtifactNotReady && e.message()
                        == "Artifact "@ + artifact_id@ + " is not completed (status: "@ + artifacts@[i].status.label()
                        + ")"@
            },
        },
{
    let ghost all = artifacts@;
    let mut artifacts = artifacts;
    match index_of_artifact(&artifacts, artifact_id) {
        Some(i) => {
            let a = artifacts.remove(i);
            assert(a == all[i as int]);
            if !a.is_completed() {
                let mut msg = owned("Artifact ");
                push_str(&mut msg, artifact_id);
                push_str(&mut msg, " is not completed (status: ");
                push_str(&mut msg, a.status.to_string().as_str());
                push_str(&mut msg, ")");
                return Err(NotebookLmError::ArtifactNotReady(msg));
            }
            Ok(a)
        },
        None => {
            let mut msg = owned("Artifact ");
            push_str(&mut msg, artifact_id);
            push_str(&mut msg, " not found in notebook ");
            push_str(&mut msg, notebook_id);
            Err(NotebookLmError::ArtifactNotFound(msg))
        },
    }
}

/// Index of the first artifact with the id.
pub(crate) fn index_of_artifact(artifacts: &Vec<Artifact>, artifact_id: &str) -> (r: Option<usize>)
    ensures
        match r {
            Some(i) => i < artifacts@.len() && artifacts@[i as int].id@ == artifact_id@ && forall|j: int|
                0 <= j < i ==> artifacts@[j].id@ != artifact_id@,
            None => forall|i: int| 0 <= i < artifacts@.len() ==> #[trigger] artifacts@[i].id@ != artifact_id@,
        },
{
    let mut i: usize = 0;
    while i < artifacts.len()
        invariant
            i <= artifacts@.len(),
            forall|j: int| 0 <= j < i ==> #[trigger] artifacts@[j].id@ != artifact_id@,
        decreases artifacts@.len() - i,
    {
        if str_eq(artifacts[i].id.as_str(), artifact_id) {
            return Some(i);
        }
        i = i + 1;
    }
    None
}

/// A cell with every `"` doubled.
pub open spec fn double_quotes(s: Seq<char>) -> Seq<char>
    decreases s.len(),
{
    if s.len() == 0 {
        Seq::empty()
    } else if s.last() == '"' {
        double_quotes(s.drop_last()) + seq!['"', '"']
    } else {
        double_quotes(s.drop_last()).push(s.last())
    }
}

/// A CSV cell: quoted, with doubled quotes, when it holds a comma or a quote.
pub open spec fn csv_cell(c: Seq<char>) -> Seq<char> {
    if seq_contains(c, ","@) || seq_contains(c, "\""@) {
        seq!['"'] + double_quotes(c) + seq!['"']
    } else {
        c
    }
}

/// A CSV line of data cells, with its newline.
pub open spec fn csv_line(cells: Seq<Seq<char>>) -> Seq<char> {
    join(cells.map_values(|c: Seq<char>| csv_cell(c)), ","@).push('\n')
}

/// A data table as CSV: a byte order mark, the header line (cells as they
/// are), then one line per row (cells quoted where needed).
pub open spec fn csv_text(headers: Seq<Seq<char>>, rows: Seq<Seq<Seq<char>>>) -> Seq<char> {
    seq!['\u{FEFF}'] + join(headers, ","@) + seq!['\n'] + rows.map_values(|r: Seq<Seq<char>>| csv_line(r)).flatten()
}

fn quote_cell(c: &str) -> (r: String)
    ensures
        r@ == csv_cell(c@),
{
    if str_contains(c, ",") || str_contains(c, "\"") {
        let cs = crate::text::chars_of(c);
        let mut out = String::new();
        push_char(&mut out, '"');
        let ghost start = out@;
        let mut i: usize = 0;
        assert(cs@.take(0) =~= Seq::<char>::empty());
        while i < cs.len()
            invariant
                i <= cs@.len(),
                cs@ == c@,
                start == seq!['"'],
                out@ == start + double_quotes(cs@.take(i as int)),
            decreases cs@.len() - i,
        {
            assert(cs@.take(i + 1).drop_last() =~= cs@.take(i as int));
            assert(cs@.take(i + 1).last() == cs@[i as int]);
            if cs[i] == '"' {
                push_char(&mut out, '"');
                push_char(&mut out, '"');
            } else {
                push_char(&mut out, cs[i]);
            }
            i = i + 1;
            assert(out@ =~= start + double_quotes(cs@.take(i as int)));
        }
        assert(cs@.take(i as int) =~= cs@);
        push_char(&mut out, '"');
        out
    } else {
        owned(c)
    }
}

/// The CSV text of a data table (see `csv_text`).
pub fn data_table_csv(headers: &Vec<String>, rows: &Vec<Vec<String>>) -> (r: String)
    ensures
        r@ == csv_text(texts(headers@), rows@.map_values(|row: Vec<String>| texts(row@))),
{
    broadcast use vstd::seq_lib::group_seq_properties;

    let mut out = String::new();
    push_char(&mut out, '\u{FEFF}');
    push_str(&mut out, join_strings(headers, ",").as_str());
    push_char(&mut out, '\n');
    let ghost head = out@;
    let ghost rm = rows@.map_values(|row: Vec<String>| texts(row@));
    let ghost lines = rm.map_values(|r: Seq<Seq<char>>| csv_line(r));
    assert(lines.take(0).flatten() =~= Seq::<char>::empty());
    let mut k: usize = 0;
    while k < rows.len()
        invariant
            k <= rows@.len(),
            rm == rows@.map_values(|row: Vec<String>| texts(row@)),
            lines == rm.map_values(|r: Seq<Seq<char>>| csv_line(r)),
            out@ == head + lines.take(k as int).flatten(),
        decreases rows@.len() - k,
    {
        let row = &rows[k];
        let mut cells: Vec<String> = Vec::new();
        let mut j: usize = 0;
        while j < row.len()
            invariant
                j <= row@.len(),
                cells@.len() == j,
                forall|t: int| 0 <= t < j ==> #[trigger] cells@[t]@ == csv_cell(row@[t]@),
            decreases row@.len() - j,
        {
            cells.push(quote_cell(row[j].as_str()));
            j = j + 1;
        }
        assert(texts(cells@) =~= texts(row@).map_values(|c: Seq<char>| csv_cell(c)));
        let line = join_strings(&cells, ",");
        push_str(&mut out, line.as_str());
        push_char(&mut out, '\n');
        proof {
            assert(lines.take(k + 1) =~= lines.take(k as int).push(lines[k as int]));
            lines.take(k as int).lemma_flatten_push(lines[k as int]);
            assert(out@ =~= head + lines.take(k + 1).flatten());
        }
        k = k + 1;
    }
    assert(lines.take(k as int) =~= lines);
    out
}

/// How a completed artifact is downloaded.
#[derive(Debug)]
pub enum DownloadPlan {
    /// Stream the file at this URL.
    Fetch(String),
    /// Write this text.
    Write(String),
    /// Fetch the interactive page of a quiz or flashcards.
    Interactive,
    /// Read the mind map among the notebook's notes.
    MindMap,
}

/// The download URL of a media artifact: its audio, else video, else
/// infographic URL.
pub open spec fn media_url(raw: JsonModel) -> Option<Seq<char>> {
    match audio_url(raw) {
        Some(u) => Some(u),
        None => match video_url(raw) {
            Some(u) => Some(u),
            None => match raw {
                JsonModel::Array(items) => infographic_scan(items),
                _ => None,
            },
        },
    }
}

/// What a plan is, as plain values.
pub enum PlanModel {
    Fetch(Seq<char>),
    Write(Seq<char>),
    Interactive,
    MindMap,
    Fail(Seq<char>),
}

/// The plan for an artifact of each kind, or the message it fails with.
pub open spec fn plan_of(kind: ArtifactType, raw: JsonModel, artifact_id: Seq<char>, format: Option<Seq<char>>) -> PlanModel {
    match kind {
        ArtifactType::Audio | ArtifactType::Video | ArtifactType::Infographic => match media_url(raw) {
            Some(u) => PlanModel::Fetch(u),
            None => PlanModel::Fail("Could not extract download URL from artifact data"@),
        },
        ArtifactType::SlideDeck => {
            let fmt = match format {
                Some(f) => f,
                None => "pdf"@,
            };
            match slide_deck_url(raw, fmt) {
                Some(u) => PlanModel::Fetch(u),
                None => PlanModel::Fail(
                    "Could not extract slide deck "@ + artifact_id + " URL (format: "@ + fmt + ")"@,
                ),
            }
        },
        ArtifactType::Report => match report_content(raw) {
            Some(c) => PlanModel::Write(c),
            None => PlanModel::Fail("Could not extract report markdown from artifact data"@),
        },
        ArtifactType::DataTable => match data_table(raw) {
            Some((h, rows)) => PlanModel::Write(csv_text(h, rows)),
            None => PlanModel::Fail("Could not parse data table from artifact data"@),
        },
        ArtifactType::Quiz | ArtifactType::Flashcards => PlanModel::Interactive,
        ArtifactType::MindMap => PlanModel::MindMap,
        ArtifactType::Unknown => PlanModel::Fail("Cannot download unknown artifact type: "@ + artifact_id),
    }
}

/// Chooses how to download a completed artifact, by its kind; a failure is
/// a `DownloadFailed` error with its message.
pub fn plan_download(artifact: &Artifact, artifact_id: &str, format: Option<&str>) -> (r: Result<DownloadPlan, NotebookLmError>)
    ensures
        match (r, plan_of(artifact.kind, artifact.raw_data@, artifact_id@, match format {
            Some(f) => Some(f@),
            None => None,
        })) {
            (Ok(DownloadPlan::Fetch(u)), PlanModel::Fetch(v)) => u@ == v,
            (Ok(DownloadPlan::Write(c)), PlanModel::Write(d)) => c@ == d,
            (Ok(DownloadPlan::Interactive), PlanModel::Interactive) => true,
            (Ok(DownloadPlan::MindMap), PlanModel::MindMap) => true,
            (Err(e), PlanModel::Fail(m)) => e.kind() == ErrorKind::DownloadFailed && e.message() == m,
            _ => false,
        },
{
    let raw = &artifact.raw_data;
    match artifact.kind {
        ArtifactType::Audio | ArtifactType::Video | ArtifactType::Infographic => {
            let url = match extract_audio_url(raw) {
                Some(u) => Some(u),
                None => match extract_video_url(raw) {
                    Some(u) => Some(u),
                    None => extract_infographic_url(raw),
                },
            };
            match url {
                Some(u) => Ok(DownloadPlan::Fetch(u)),
                None => Err(NotebookLmError::DownloadFailed(owned("Could not extract download URL from artifact data"))),
            }
        },
        ArtifactType::SlideDeck => {
            let fmt = match format {
                Some(f) => f,
                None => "pdf",
            };
            match extract_slide_deck_url(raw, fmt) {
                Some(u) => Ok(DownloadPlan::Fetch(u)),
                None => {
                    let mut msg = owned("Could not extract slide deck ");
                    push_str(&mut msg, artifact_id);
                    push_str(&mut msg, " URL (format: ");
                    push_str(&mut msg, fmt);
                    push_str(&mut msg, ")");
                    Err(NotebookLmError::DownloadFailed(msg))
                },
            }
        },
        ArtifactType::Report => match extract_report_content(raw) {
            Some(c) => Ok(DownloadPlan::Write(c)),
            None => Err(NotebookLmError::DownloadFailed(owned("Could not extract report markdown from artifact data"))),
        },
        ArtifactType::DataTable => match parse_data_table(raw) {
            Some((h, rows)) => Ok(DownloadPlan::Write(data_table_csv(&h, &rows))),
            None => Err(NotebookLmError::DownloadFailed(owned("Could not parse data table from artifact data"))),
        },
        ArtifactType::Quiz | ArtifactType::Flashcards => Ok(DownloadPlan::Interactive),
        ArtifactType::MindMap => Ok(DownloadPlan::MindMap),
        ArtifactType::Unknown => {
            let mut msg = owned("Cannot download unknown artifact type: ");
            push_str(&mut msg, artifact_id);
            Err(NotebookLmError::DownloadFailed(msg))
        },
    }
}

// =========================================================================
// Answers of the streaming chat endpoint
// =========================================================================

/// A white-space character (`char::is_whitespace`: the Unicode `White_Space`
/// property).
pub open spec fn is_ws(c: char) -> bool {
    ('\u{9}' <= c && c <= '\u{d}') || c == ' ' || c == '\u{85}' || c == '\u{a0}' || c == '\u{1680}'
        || ('\u{2000}' <= c && c <= '\u{200a}') || c == '\u{2028}' || c == '\u{2029}' || c == '\u{202f}'
        || c == '\u{205f}' || c == '\u{3000}'
}

pub(crate) fn is_ws_char(c: char) -> (r: bool)
    ensures
        r == is_ws(c),
{
    ('\u{9}' <= c && c <= '\u{d}') || c == ' ' || c == '\u{85}' || c == '\u{a0}' || c == '\u{1680}'
        || ('\u{2000}' <= c && c <= '\u{200a}') || c == '\u{2028}' || c == '\u{2029}' || c == '\u{202f}'
        || c == '\u{205f}' || c == '\u{3000}'
}

/// The text without its leading white space.
pub open spec fn trim_start_ws(s: Seq<char>) -> Seq<char>
    decreases s.len(),
{
    if s.len() > 0 && is_ws(s[0]) {
        trim_start_ws(s.drop_first())
    } else {
        s
    }
}

/// The text without its trailing white space.
pub open spec fn trim_end_ws(s: Seq<char>) -> Seq<char>
    decreases s.len(),
{
    if s.len() > 0 && is_ws(s.last()) {
        trim_end_ws(s.drop_last())
    } else {
        s
    }
}

/// The characters `from..to` of a character vector, as a string.
pub(crate) fn string_of(cs: &Vec<char>, from: usize, to: usize) -> (r: String)
    requires
        from <= to <= cs@.len(),
    ensures
        r@ == cs@.subrange(from as int, to as int),
{
    let mut out = String::new();
    let mut i: usize = from;
    while i < to
        invariant
            from <= i <= to <= cs@.len(),
            out@ == cs@.subrange(from as int, i as int),
        decreases to - i,
    {
        push_char(&mut out, cs[i]);
        i = i + 1;
        assert(out@ =~= cs@.subrange(from as int, i as int));
    }
    out
}

/// The span of `cs` left after trimming white space: at the start when
/// `start`, at the end when `end`.
pub(crate) fn trim_span(cs: &Vec<char>, start: bool, end: bool) -> (r: (usize, usize))
    ensures
        r.0 <= r.1 <= cs@.len(),
        cs@.subrange(r.0 as int, r.1 as int) == (if start && end {
            trim_end_ws(trim_start_ws(cs@))
        } else if start {
            trim_start_ws(cs@)
        } else if end {
            trim_end_ws(cs@)
        } else {
            cs@
        }),
{
    let mut a: usize = 0;
    assert(cs@.subrange(0, cs@.len() as int) =~= cs@);
    if start {
        while a < cs.len() && is_ws_char(cs[a])
            invariant
                a <= cs@.len(),
                trim_start_ws(cs@) == trim_start_ws(cs@.subrange(a as int, cs@.len() as int)),
            decreases cs@.len() - a,
        {
            assert(cs@.subrange(a as int, cs@.len() as int).drop_first() =~= cs@.subrange(a + 1, cs@.len() as int));
            a = a + 1;
        }
    }
    let ghost base = cs@.subrange(a as int, cs@.len() as int);
    let mut b: usize = cs.len();
    assert(base.subrange(0, base.len() as int) =~= base);
    if end {
        while b > a && is_ws_char(cs[b - 1])
            invariant
                a <= b <= cs@.len(),
                base == cs@.subrange(a as int, cs@.len() as int),
                trim_end_ws(base) == trim_end_ws(cs@.subrange(a as int, b as int)),
            decreases b - a,
        {
            assert(cs@.subrange(a as int, b as int).drop_last() =~= cs@.subrange(a as int, b - 1));
            b = b - 1;
        }
    }
    (a, b)
}

/// The response text without its `)]}'` guard and the white space after it.
pub open spec fn unguarded(text: Seq<char>) -> Seq<char> {
    if seq_starts_with(text, ")]}'"@) {
        trim_start_ws(text.subrange(4, text.len() as int))
    } else {
        text
    }
}

pub fn strip_stream_guard(text: &str) -> (r: String)
    ensures
        r@ == unguarded(text@),
{
    if str_starts_with(text, ")]}'") {
        let cs = chars_of(text);
        proof {
            reveal_strlit(")]}'");
        }
        let rest = string_of(&cs, 4, cs.len());
        let rs = chars_of(rest.as_str());
        let (a, b) = trim_span(&rs, true, false);
        string_of(&rs, a, b)
    } else {
        owned(text)
    }
}

/// A line that is nothing but ASCII digits (a chunk length).
pub open spec fn digits_only(l: Seq<char>) -> bool {
    forall|i: int| 0 <= i < l.len() ==> '0' <= #[trigger] l[i] && l[i] <= '9'
}

/// The trimmed lines of a text that may hold JSON: not empty, and not chunk
/// lengths.
pub open spec fn chunk_lines(pieces: Seq<Seq<char>>) -> Seq<Seq<char>>
    decreases pieces.len(),
{
    if pieces.len() == 0 {
        Seq::empty()
    } else {
        let t = trim_end_ws(trim_start_ws(pieces.last()));
        let prev = chunk_lines(pieces.drop_last());
        if t.len() == 0 || digits_only(t) {
            prev
        } else {
            prev.push(t)
        }
    }
}

/// The lines of a streamed answer that may be JSON chunks, trimmed, in order.
pub fn stream_lines(text: &str) -> (r: Vec<String>)
    ensures
        texts(r@) == chunk_lines(split_on(text@, '\n')),
{
    let cs = chars_of(text);
    let pieces = split_chars(&cs, '\n');
    let ghost pm = pieces@.map_values(|p: Vec<char>| p@);
    let mut out: Vec<String> = Vec::new();
    assert(pm.take(0) =~= Seq::<Seq<char>>::empty());
    assert(texts(out@) =~= Seq::<Seq<char>>::empty());
    let mut i: usize = 0;
    while i < pieces.len()
        invariant
            i <= pieces@.len(),
            pm == pieces@.map_values(|p: Vec<char>| p@),
            pm == split_on(text@, '\n'),
            texts(out@) == chunk_lines(pm.take(i as int)),
        decreases pieces@.len() - i,
    {
        assert(pm.take(i + 1).drop_last() =~= pm.take(i as int));
        assert(pm.take(i + 1).last() == pieces@[i as int]@);
        let p = &pieces[i];
        let (a, b) = trim_span(p, true, true);
        let mut all_digits = true;
        let mut k: usize = a;
        while k < b
            invariant
                a <= k <= b <= p@.len(),
                all_digits == (forall|j: int| a <= j < k ==> '0' <= #[trigger] p@[j] && p@[j] <= '9'),
            decreases b - k,
        {
            if !('0' <= p[k] && p[k] <= '9') {
                all_digits = false;
            }
            k = k + 1;
        }
        let ghost t = p@.subrange(a as int, b as int);
        assert(all_digits == digits_only(t)) by {
            if all_digits {
                assert forall|j: int| 0 <= j < t.len() implies '0' <= #[trigger] t[j] && t[j] <= '9' by {
                    assert(t[j] == p@[a + j]);
                }
            } else {
                let j = choose|j: int| a <= j < b && !('0' <= #[trigger] p@[j] && p@[j] <= '9');
                assert(t[j - a] == p@[j]);
            }
        }
        if b > a && !all_digits {
            let ghost before = out@;
            out.push(string_of(p, a, b));
            assert(texts(out@) =~= texts(before).push(t));
        }
        i = i + 1;
    }
    assert(pm.take(i as int) =~= pm);
    out
}

/// The inner JSON texts of a chunk `[["wrb.fr", _, inner, ..], ..]`, in
/// order, up to the first array entry without a string at 0, or (for a
/// `wrb.fr` entry) at 2; entries that are no arrays are passed over.
pub open spec fn chunk_inner_texts_of(items: Seq<JsonModel>) -> Seq<Seq<char>>
    decreases items.len(),
{
    if items.len() == 0 {
        Seq::empty()
    } else {
        match items[0] {
            JsonModel::Array(a) => match str_at(a, 0) {
                None => Seq::empty(),
                Some(tag) => if tag != "wrb.fr"@ {
                    chunk_inner_texts_of(items.drop_first())
                } else {
                    match str_at(a, 2) {
                        None => Seq::empty(),
                        Some(t) => seq![t] + chunk_inner_texts_of(items.drop_first()),
                    }
                },
            },
            _ => chunk_inner_texts_of(items.drop_first()),
        }
    }
}

/// The inner JSON texts a chunk carries (the caller parses them in order,
/// stopping at the first that does not parse).
pub fn chunk_inner_texts(data: &JsonValue) -> (r: Vec<String>)
    ensures
        texts(r@) == match data@ {
            JsonModel::Array(items) => chunk_inner_texts_of(items),
            _ => Seq::empty(),
        },
{
    broadcast use group_json;

    let mut out: Vec<String> = Vec::new();
    assert(texts(out@) =~= Seq::<Seq<char>>::empty());
    let arr = match data.as_array() {
        Some(a) => a,
        None => return out,
    };
    proof {
        crate::json::lemma_models_of(arr@);
    }
    let ghost items = models_of(arr@);
    assert(items.skip(0) =~= items);
    let mut i: usize = 0;
    while i < arr.len()
        invariant
            i <= arr@.len(),
            items == models_of(arr@),
            items.len() == arr@.len(),
            forall|k: int| 0 <= k < arr@.len() ==> #[trigger] items[k] == arr@[k]@,
            data@ == JsonModel::Array(items),
            chunk_inner_texts_of(items) == texts(out@) + chunk_inner_texts_of(items.skip(i as int)),
        decreases arr@.len() - i,
    {
        let ghost rest = items.skip(i as int);
        assert(rest[0] == items[i as int]);
        assert(rest.drop_first() =~= items.skip(i + 1));
        let ghost before = out@;
        match arr[i].as_array() {
            Some(entry) => {
                let tag = match str_in(item(entry, 0)) {
                    Some(t) => t,
                    None => {
                        assert(texts(out@) + Seq::<Seq<char>>::empty() =~= texts(out@));
                        return out;
                    },
                };
                if str_eq(tag.as_str(), "wrb.fr") {
                    match str_in(item(entry, 2)) {
                        Some(t) => {
                            out.push(t.clone());
                            assert(texts(out@) =~= texts(before).push(t@));
                            assert(texts(before) + (seq![t@] + chunk_inner_texts_of(items.skip(i + 1)))
                                =~= texts(out@) + chunk_inner_texts_of(items.skip(i + 1)));
                        },
                        None => {
                            assert(texts(out@) + Seq::<Seq<char>>::empty() =~= texts(out@));
                            return out;
                        },
                    }
                }
            },
            None => {},
        }
        i = i + 1;
    }
    assert(items.skip(i as int).len() == 0);
    assert(texts(out@) + Seq::<Seq<char>>::empty() =~= texts(out@));
    out
}

/// The answer in an inner value `[[answer, ..], ..]`: the first non-empty
/// string at position 0 of an array element.
pub open spec fn inner_answer(items: Seq<JsonModel>) -> Option<Seq<char>>
    decreases items.len(),
{
    if items.len() == 0 {
        None
    } else {
        match items[0] {
            JsonModel::Array(a) => match str_at(a, 0) {
                Some(t) => if t.len() > 0 {
                    Some(t)
                } else {
                    inner_answer(items.drop_first())
                },
                None => inner_answer(items.drop_first()),
            },
            _ => inner_answer(items.drop_first()),
        }
    }
}

pub fn answer_from_inner(inner: &JsonValue) -> (r: Option<String>)
    ensures
        opt_text(r) == match inner@ {
            JsonModel::Array(items) => inner_answer(items),
            _ => None,
        },
{
    broadcast use group_json;

    let arr = match inner.as_array() {
        Some(a) => a,
        None => return None,
    };
    proof {
        crate::json::lemma_models_of(arr@);
    }
    let ghost items = models_of(arr@);
    assert(items.skip(0) =~= items);
    let mut i: usize = 0;
    while i < arr.len()
        invariant
            i <= arr@.len(),
            items == models_of(arr@),
            items.len() == arr@.len(),
            forall|k: int| 0 <= k < arr@.len() ==> #[trigger] items[k] == arr@[k]@,
            inner@ == JsonModel::Array(items),
            inner_answer(items) == inner_answer(items.skip(i as int)),
        decreases arr@.len() - i,
    {
        let ghost rest = items.skip(i as int);
        assert(rest[0] == items[i as int]);
        assert(rest.drop_first() =~= items.skip(i + 1));
        match arr[i].as_array() {
            Some(entry) => match str_in(item(entry, 0)) {
                Some(t) => {
                    if !t.as_str().is_empty() {
                        return Some(t.clone());
                    }
                },
                None => {},
            },
            None => {},
        }
        i = i + 1;
    }
    assert(items.skip(i as int).len() == 0);
    None
}

/// The answer an inner value gives, when it is an array.
pub open spec fn answer_of_inner(m: JsonModel) -> Option<Seq<char>> {
    match m {
        JsonModel::Array(items) => inner_answer(items),
        _ => None,
    }
}

/// The parse results as plain values.
pub open spec fn parsed_models(ps: Seq<Option<JsonValue>>) -> Seq<Option<JsonModel>> {
    ps.map_values(|o: Option<JsonValue>| match o {
        Some(v) => Some(v@),
        None => None,
    })
}

/// The answer of a chunk, given its inner texts parsed in order (`None` for
/// one that did not parse): the first inner value that gives an answer, as
/// long as no text before it failed to parse; a failed parse ends the
/// search with no answer.
pub open spec fn chunk_answer_of(ps: Seq<Option<JsonModel>>) -> Option<Seq<char>>
    decreases ps.len(),
{
    if ps.len() == 0 {
        None
    } else {
        match ps[0] {
            None => None,
            Some(m) => match answer_of_inner(m) {
                Some(t) => Some(t),
                None => chunk_answer_of(ps.drop_first()),
            },
        }
    }
}

/// Picks a chunk's answer from the parse results of its inner texts (those
/// `chunk_inner_texts` gives), in order, as `chunk_answer_of` says.
pub fn chunk_answer(parsed: &Vec<Option<JsonValue>>) -> (r: Option<String>)
    ensures
        opt_text(r) == chunk_answer_of(parsed_models(parsed@)),
{
    let ghost ps = parsed_models(parsed@);
    assert(ps.skip(0) =~= ps);
    let mut i: usize = 0;
    while i < parsed.len()
        invariant
            i <= parsed@.len(),
            ps == parsed_models(parsed@),
            ps.len() == parsed@.len(),
            chunk_answer_of(ps) == chunk_answer_of(ps.skip(i as int)),
        decreases parsed@.len() - i,
    {
        let ghost rest = ps.skip(i as int);
        assert(rest[0] == ps[i as int]);
        assert(rest.drop_first() =~= ps.skip(i + 1));
        match &parsed[i] {
            None => {
                return None;
            },
            Some(inner) => {
                assert(ps[i as int] == Some(inner@));
                match answer_from_inner(inner) {
                    Some(t) => {
                        return Some(t);
                    },
                    None => {},
                }
            },
        }
        i = i + 1;
    }
    None
}

/// Index of the longest answer by bytes (the last of equally long ones).
pub open spec fn longest_index(answers: Seq<Seq<char>>) -> int
    decreases answers.len(),
{
    if answers.len() <= 1 {
        0
    } else {
        let k = longest_index(answers.drop_last());
        if byte_len(answers.last()) >= byte_len(answers[k]) {
            answers.len() - 1
        } else {
            k
        }
    }
}

/// The answer of a stream: the longest answer found, else the cleaned text
/// itself (at most 3000 bytes) when it is longer than 10 bytes.
pub open spec fn best_answer_of(answers: Seq<Seq<char>>, cleaned: Seq<char>) -> Result<Seq<char>, Seq<char>> {
    if answers.len() > 0 {
        Ok(answers[longest_index(answers)])
    } else if byte_len(cleaned) > 10 {
        Ok(
            "(Respuesta recibida, parsing mejorable):\n"@ + (if byte_len(cleaned) <= 3000 {
                cleaned
            } else {
                decode_utf8(encode_utf8(cleaned).subrange(0, 3000))
            }),
        )
    } else {
        Err("No se pudo extraer respuesta"@)
    }
}

proof fn lemma_longest_in_range(answers: Seq<Seq<char>>)
    requires
        answers.len() > 0,
    ensures
        0 <= longest_index(answers) < answers.len(),
    decreases answers.len(),
{
    if answers.len() > 1 {
        lemma_longest_in_range(answers.drop_last());
    }
}

/// Chooses the answer of a streamed response.
pub fn best_answer(answers: &Vec<String>, cleaned: &str) -> (r: Result<String, String>)
    requires
        answers@.len() > 0 || byte_len(cleaned@) <= 3000 || is_char_boundary(encode_utf8(cleaned@), 3000),
    ensures
        crate::auth_helper::res_text(r) == best_answer_of(texts(answers@), cleaned@),
{
    if answers.len() > 0 {
        let ghost t = texts(answers@);
        let mut best: usize = 0;
        let mut i: usize = 1;
        assert(t.take(1).len() == 1);
        while i < answers.len()
            invariant
                1 <= i <= answers@.len(),
                t == texts(answers@),
                best < i,
                best == longest_index(t.take(i as int)),
            decreases answers@.len() - i,
        {
            assert(t.take(i + 1).drop_last() =~= t.take(i as int));
            proof {
                lemma_longest_in_range(t.take(i as int));
            }
            assert(t.take(i as int)[best as int] == t[best as int]);
            if answers[i].as_str().len() >= answers[best].as_str().len() {
                best = i;
            }
            i = i + 1;
        }
        assert(t.take(i as int) =~= t);
        return Ok(answers[best].clone());
    }
    if cleaned.len() > 10 {
        let mut msg = owned("(Respuesta recibida, parsing mejorable):\n");
        if cleaned.len() <= 3000 {
            push_str(&mut msg, cleaned);
        } else {
            let (head, _) = cleaned.split_at(3000);
            proof {
                vstd::utf8::encode_utf8_decode_utf8(head@);
                vstd::utf8::encode_utf8_valid_utf8(cleaned@);
                assert(encode_utf8(head@) =~= encode_utf8(cleaned@).subrange(0, 3000));
            }
            push_str(&mut msg, head);
        }
        Ok(msg)
    } else {
        Err(owned("No se pudo extraer respuesta"))
    }
}

// =========================================================================
// Questions
// =========================================================================

/// `[[["id1"]],[["id2"]],...]` as JSON text (the caller parses it; an id
/// that breaks the JSON yields no sources).
pub open spec fn ask_sources_text_of(ids: Seq<Seq<char>>) -> Seq<char> {
    "["@ + join(ids.map_values(|id: Seq<char>| "[[\""@ + id + "\"]]"@), ","@) + "]"@
}

/// The sources part of a question, as JSON text.
pub fn ask_sources_text(source_ids: &Vec<String>) -> (r: String)
    ensures
        r@ == ask_sources_text_of(texts(source_ids@)),
{
    let mut parts: Vec<String> = Vec::new();
    let mut i: usize = 0;
    while i < source_ids.len()
        invariant
            i <= source_ids@.len(),
            parts@.len() == i,
            forall|k: int| 0 <= k < i ==> #[trigger] parts@[k]@ == "[[\""@ + source_ids@[k]@ + "\"]]"@,
        decreases source_ids@.len() - i,
    {
        let mut p = owned("[[\"");
        push_str(&mut p, source_ids[i].as_str());
        push_str(&mut p, "\"]]");
        parts.push(p);
        i = i + 1;
    }
    assert(texts(parts@) =~= texts(source_ids@).map_values(|id: Seq<char>| "[[\""@ + id + "\"]]"@));
    let mut out = owned("[");
    push_str(&mut out, join_strings(&parts, ",").as_str());
    push_str(&mut out, "]");
    out
}

/// The message when a notebook has no sources to ask about.
pub open spec fn no_sources_message() -> Seq<char> {
    "No hay fuentes disponibles en esta libreta. Añade fuentes antes de preguntar."@
}

/// Refuses a question on a notebook without sources.
pub fn require_sources(source_ids: &Vec<String>) -> (r: Result<(), String>)
    ensures
        source_ids@.len() == 0 ==> (r matches Err(e) && e@ == no_sources_message()),
        source_ids@.len() > 0 ==> r is Ok,
{
    if source_ids.len() == 0 {
        Err(owned("No hay fuentes disponibles en esta libreta. Añade fuentes antes de preguntar."))
    } else {
        Ok(())
    }
}

/// The history as `[[question, answer], ..]`, or `null` without one.
pub open spec fn history_model(history: Option<Seq<(Seq<char>, Seq<char>)>>) -> JsonModel {
    match history {
        Some(h) => m_arr(h.map_values(|m: (Seq<char>, Seq<char>)| m_arr(seq![m_str(m.0), m_str(m.1)]))),
        None => JsonModel::Null,
    }
}

/// The params of a question: `[sources, question, history, [2, null, [1],
/// [1]], conversation_id, null, null, notebook_id, 1]`.
pub open spec fn ask_params_model(
    sources: JsonModel,
    question: Seq<char>,
    history: Option<Seq<(Seq<char>, Seq<char>)>>,
    conversation_id: Seq<char>,
    notebook_id: Seq<char>,
) -> JsonModel {
    let n = JsonModel::Null;
    m_arr(
        seq![
            sources,
            m_str(question),
            history_model(history),
            m_arr(seq![m_int(2), n, m_arr(seq![m_int(1)]), m_arr(seq![m_int(1)])]),
            m_str(conversation_id),
            n,
            n,
            m_str(notebook_id),
            m_int(1),
        ],
    )
}

/// Builds the params of a question.
pub fn ask_params(
    sources: JsonValue,
    question: &str,
    history: &Option<Vec<ConversationMessage>>,
    conversation_id: &str,
    notebook_id: &str,
) -> (r: JsonValue)
    ensures
        r@ == ask_params_model(sources@, question@, match history {
            Some(h) => Some(msg_models(h@)),
            None => None,
        }, conversation_id@, notebook_id@),
{
    let ghost sm = sources@;
    let hv = match history {
        Some(msgs) => {
            let mut pairs: Vec<JsonValue> = Vec::new();
            let mut i: usize = 0;
            assert(models_of(pairs@) =~= Seq::<JsonModel>::empty());
            while i < msgs.len()
                invariant
                    i <= msgs@.len(),
                    models_of(pairs@) == msg_models(msgs@).take(i as int).map_values(
                        |m: (Seq<char>, Seq<char>)| m_arr(seq![m_str(m.0), m_str(m.1)]),
                    ),
                decreases msgs@.len() - i,
            {
                let ghost before = models_of(pairs@);
                push_val(&mut pairs, jarr2(jstr(msgs[i].question.as_str()), jstr(msgs[i].answer.as_str())));
                assert(msg_models(msgs@).take(i + 1) =~= msg_models(msgs@).take(i as int).push(
                    (msgs@[i as int].question@, msgs@[i as int].answer@),
                ));
                assert(models_of(pairs@) =~= msg_models(msgs@).take(i + 1).map_values(
                    |m: (Seq<char>, Seq<char>)| m_arr(seq![m_str(m.0), m_str(m.1)]),
                ));
                i = i + 1;
            }
            assert(msg_models(msgs@).take(i as int) =~= msg_models(msgs@));
            jarr(pairs)
        },
        None => JsonValue::Null,
    };
    let mut cfg: Vec<JsonValue> = Vec::new();
    push_val(&mut cfg, jint(2));
    push_val(&mut cfg, JsonValue::Null);
    push_val(&mut cfg, jarr1(jint(1)));
    push_val(&mut cfg, jarr1(jint(1)));
    let ghost cm = models_of(cfg@);
    let mut v: Vec<JsonValue> = Vec::new();
    push_val(&mut v, sources);
    push_val(&mut v, jstr(question));
    push_val(&mut v, hv);
    push_val(&mut v, jarr(cfg));
    push_val(&mut v, jstr(conversation_id));
    push_val(&mut v, JsonValue::Null);
    push_val(&mut v, JsonValue::Null);
    push_val(&mut v, jstr(notebook_id));
    push_val(&mut v, jint(1));
    let ghost hist = match history {
        Some(h) => Some(msg_models(h@)),
        None => None,
    };
    assert(cm =~= seq![m_int(2), JsonModel::Null, m_arr(seq![m_int(1)]), m_arr(seq![m_int(1)])]);
    assert(models_of(v@) =~~= ask_params_model(sm, question@, hist, conversation_id@, notebook_id@)->Array_0);
    jarr(v)
}

// =========================================================================
// Mind maps
// =========================================================================

/// The params of `GENERATE_MIND_MAP`: each source id as `[[[id]]]`, then
/// the fixed request for an interactive mind map.
pub open spec fn mind_map_params_model(ids: Seq<String>) -> JsonModel {
    let n = JsonModel::Null;
    m_arr(
        seq![
            m_arr(Seq::new(ids.len(), |i: int| m_arr(seq![m_arr(seq![m_arr(seq![m_str(ids[i]@)])])]))),
            n,
            n,
            n,
            n,
            m_arr(
                seq![
                    m_str("interactive_mindmap"@),
                    m_arr(seq![m_arr(seq![m_str("[CONTEXT]"@), m_str(Seq::empty())])]),
                    m_str(Seq::empty()),
                ],
            ),
            n,
            m_arr(seq![m_int(2), n, m_arr(seq![m_int(1)])]),
        ],
    )
}

pub fn mind_map_params(source_ids: &[String]) -> (r: JsonValue)
    ensures
        r@ == mind_map_params_model(source_ids@),
{
    let mut ids: Vec<JsonValue> = Vec::new();
    let mut i: usize = 0;
    while i < source_ids.len()
        invariant
            i <= source_ids@.len(),
            models_of(ids@) == Seq::new(i as nat, |k: int| m_arr(seq![m_arr(seq![m_arr(seq![m_str(source_ids@[k]@)])])])),
        decreases source_ids@.len() - i,
    {
        push_val(&mut ids, jarr1(jarr1(jarr1(jstr(source_ids[i].as_str())))));
        i = i + 1;
        assert(models_of(ids@) =~= Seq::new(i as nat, |k: int| m_arr(seq![m_arr(seq![m_arr(seq![m_str(source_ids@[k]@)])])])));
    }
    let ghost idm = models_of(ids@);
    let req = {
        let mut r: Vec<JsonValue> = Vec::new();
        push_val(&mut r, jstr("interactive_mindmap"));
        push_val(&mut r, jarr1(jarr2(jstr("[CONTEXT]"), JsonValue::Str(String::new()))));
        push_val(&mut r, JsonValue::Str(String::new()));
        r
    };
    let ghost rm = models_of(req@);
    let mut tail: Vec<JsonValue> = Vec::new();
    push_val(&mut tail, jint(2));
    push_val(&mut tail, JsonValue::Null);
    push_val(&mut tail, jarr1(jint(1)));
    let ghost tm = models_of(tail@);
    let mut v: Vec<JsonValue> = Vec::new();
    push_val(&mut v, jarr(ids));
    push_val(&mut v, JsonValue::Null);
    push_val(&mut v, JsonValue::Null);
    push_val(&mut v, JsonValue::Null);
    push_val(&mut v, JsonValue::Null);
    push_val(&mut v, jarr(req));
    push_val(&mut v, JsonValue::Null);
    push_val(&mut v, jarr(tail));
    proof {
        let spec = mind_map_params_model(source_ids@)->Array_0;
        assert(idm =~= spec[0]->Array_0);
        assert(rm =~~= spec[5]->Array_0);
        assert(tm =~~= spec[7]->Array_0);
        assert(models_of(v@) =~~= spec);
    }
    jarr(v)
}

/// The generated mind map at `[0][0]` of the response (a JSON text or the
/// tree itself).
pub fn mind_map_in_response(response: &JsonValue) -> (r: Option<&JsonValue>)
    ensures
        omodel(r) == then_at(response@.at(0), 0),
{
    get_in(response.get(0), 0)
}

/// The title of a mind map: its `name`, else `Mind Map`.
pub open spec fn mind_map_title_of(data: JsonModel) -> Seq<char> {
    match then_text(data.field("name"@)) {
        Some(t) => t,
        None => "Mind Map"@,
    }
}

pub fn mind_map_title(data: &JsonValue) -> (r: String)
    ensures
        r@ == mind_map_title_of(data@),
{
    match str_in(data.get_key("name")) {
        Some(t) => t.clone(),
        None => owned("Mind Map"),
    }
}

/// The params of `CREATE_NOTE`: `[notebook_id, "", [1], null, title]`.
pub fn create_note_params(notebook_id: &str, title: &str) -> (r: JsonValue)
    ensures
        r@ == m_arr(seq![m_str(notebook_id@), m_str(Seq::empty()), m_arr(seq![m_int(1)]), JsonModel::Null, m_str(title@)]),
{
    let mut v: Vec<JsonValue> = Vec::new();
    push_val(&mut v, jstr(notebook_id));
    push_val(&mut v, JsonValue::Str(String::new()));
    push_val(&mut v, jarr1(jint(1)));
    push_val(&mut v, JsonValue::Null);
    push_val(&mut v, jstr(title));
    let r = jarr(v);
    assert(models_of(v@) =~~= seq![m_str(notebook_id@), m_str(Seq::empty()), m_arr(seq![m_int(1)]), JsonModel::Null, m_str(title@)]);
    r
}

/// The id of a created note, at `[0][0]` of the response.
pub fn note_id_from_response(response: &JsonValue) -> (r: Option<String>)
    ensures
        opt_text(r) == then_text(then_at(response@.at(0), 0)),
{
    match str_in(get_in(response.get(0), 0)) {
        Some(t) => Some(t.clone()),
        None => None,
    }
}

/// The params of `CbCNt` (update a note): `[notebook_id, note_id,
/// [[[content, title, [], 0]]]]`.
pub fn update_note_params(notebook_id: &str, note_id: &str, content: &str, title: &str) -> (r: JsonValue)
    ensures
        r@ == m_arr(seq![m_str(notebook_id@), m_str(note_id@), m_arr(seq![m_arr(seq![m_arr(seq![
            m_str(content@),
            m_str(title@),
            m_arr(Seq::empty()),
            m_int(0),
        ])])])]),
{
    let mut inner: Vec<JsonValue> = Vec::new();
    push_val(&mut inner, jstr(content));
    push_val(&mut inner, jstr(title));
    push_val(&mut inner, jarr(Vec::new()));
    push_val(&mut inner, jint(0));
    let ghost im = models_of(inner@);
    let mut v: Vec<JsonValue> = Vec::new();
    push_val(&mut v, jstr(notebook_id));
    push_val(&mut v, jstr(note_id));
    push_val(&mut v, jarr1(jarr1(jarr(inner))));
    proof {
        assert(models_of(Seq::<JsonValue>::empty()) =~= Seq::<JsonModel>::empty());
        assert(im =~~= seq![m_str(content@), m_str(title@), m_arr(Seq::empty()), m_int(0)]);
        assert(models_of(v@) =~~= seq![m_str(notebook_id@), m_str(note_id@), m_arr(seq![m_arr(seq![m_arr(seq![
            m_str(content@),
            m_str(title@),
            m_arr(Seq::empty()),
            m_int(0),
        ])])])]);
    }
    jarr(v)
}

// =========================================================================
// Responses of source and download calls
// =========================================================================

/// The id of a new source in `[[["id", ..], ..], ..]`, or why there is none.
pub open spec fn new_source_id_of(inner: JsonModel) -> Result<Seq<char>, Seq<char>> {
    match inner {
        JsonModel::Array(arr) => if arr.len() == 0 {
            Err("Array vacío"@)
        } else {
            match arr[0] {
                JsonModel::Array(first) => if first.len() == 0 {
                    Err("Array anidado vacío"@)
                } else {
                    match first[0] {
                        JsonModel::Array(fi) => match str_at(fi, 0) {
                            Some(id) => Ok(id),
                            None => Err("No se pudo extraer el UUID de la fuente nueva"@),
                        },
                        _ => Err("No es array"@),
                    }
                },
                _ => Err("No es array anidado"@),
            }
        },
        _ => Err("Inner no es array"@),
    }
}

/// Reads the id of a source just added.
pub fn new_source_id(inner: &JsonValue) -> (r: Result<String, String>)
    ensures
        crate::auth_helper::res_text(r) == new_source_id_of(inner@),
{
    broadcast use group_json;

    let arr = match inner.as_array() {
        Some(a) => a,
        None => return Err(owned("Inner no es array")),
    };
    if arr.len() == 0 {
        return Err(owned("Array vacío"));
    }
    proof {
        crate::json::lemma_models_of(arr@);
    }
    let first = match arr[0].as_array() {
        Some(a) => a,
        None => return Err(owned("No es array anidado")),
    };
    if first.len() == 0 {
        return Err(owned("Array anidado vacío"));
    }
    proof {
        crate::json::lemma_models_of(first@);
    }
    let fi = match first[0].as_array() {
        Some(a) => a,
        None => return Err(owned("No es array")),
    };
    match crate::parser::get_string_at(fi.as_slice(), 0) {
        Some(id) => Ok(id),
        None => Err(owned("No se pudo extraer el UUID de la fuente nueva")),
    }
}

/// Checks the path of a file before its upload: it must exist and be a
/// file; the error is the printed form of the error kind that says why.
pub fn check_upload_path(file_path: &str, exists: bool, is_file: bool) -> (r: Result<(), String>)
    ensures
        !exists ==> (r matches Err(e) && e@ == "ARCHIVO NO ENCONTRADO: "@ + file_path@),
        exists && !is_file ==> (r matches Err(e) && e@ == "VALIDACIÓN FALLIDA: "@ + (
        "Path is a directory, not a file: "@ + file_path@)),
        exists && is_file ==> r is Ok,
{
    if !exists {
        let e = NotebookLmError::FileNotFound(owned(file_path));
        return Err(e.to_string());
    }
    if !is_file {
        let mut m = owned("Path is a directory, not a file: ");
        push_str(&mut m, file_path);
        let e = NotebookLmError::ValidationError(m);
        return Err(e.to_string());
    }
    Ok(())
}

/// The MIME type of a Drive source: Google Docs when none is given.
pub fn effective_mime_type(mime_type: &str) -> (r: &str)
    ensures
        r@ == (if mime_type@.len() == 0 {
            "application/vnd.google-apps.document"@
        } else {
            mime_type@
        }),
{
    if mime_type.is_empty() {
        "application/vnd.google-apps.document"
    } else {
        mime_type
    }
}

/// What a download response means before its body is read: an HTTP error
/// (with at most 200 bytes of its body), or an HTML page, which means the
/// session expired.
pub open spec fn download_response_error(
    success: bool,
    status: Seq<char>,
    body: Seq<char>,
    content_type: Seq<char>,
) -> Option<Seq<char>> {
    if !success {
        Some(
            "Download failed (HTTP "@ + status + "): "@ + (if byte_len(body) <= 200 {
                body
            } else {
                decode_utf8(encode_utf8(body).subrange(0, 200))
            }),
        )
    } else if seq_contains(content_type, "text/html"@) {
        Some("Download returned HTML instead of media file. Authentication may have expired. Re-login and try again."@)
    } else {
        None
    }
}

/// Checks the status and content type of a download response.
pub fn check_download_response(success: bool, status: &str, body: &str, content_type: &str) -> (r: Result<(), NotebookLmError>)
    requires
        success || byte_len(body@) <= 200 || is_char_boundary(encode_utf8(body@), 200),
    ensures
        match download_response_error(success, status@, body@, content_type@) {
            Some(m) => r matches Err(e) && e.kind() == ErrorKind::DownloadFailed && e.message() == m,
            None => r is Ok,
        },
{
    if !success {
        let mut msg = owned("Download failed (HTTP ");
        push_str(&mut msg, status);
        push_str(&mut msg, "): ");
        if body.len() <= 200 {
            push_str(&mut msg, body);
        } else {
            let (head, _) = body.split_at(200);
            proof {
                vstd::utf8::encode_utf8_decode_utf8(head@);
                vstd::utf8::encode_utf8_valid_utf8(body@);
                assert(encode_utf8(head@) =~= encode_utf8(body@).subrange(0, 200));
            }
            push_str(&mut msg, head);
        }
        return Err(NotebookLmError::DownloadFailed(msg));
    }
    if str_contains(content_type, "text/html") {
        return Err(NotebookLmError::DownloadFailed(owned(
            "Download returned HTML instead of media file. Authentication may have expired. Re-login and try again.",
        )));
    }
    Ok(())
}

/// A download of no bytes is an error.
pub fn check_download_size(total_bytes: u64) -> (r: Result<u64, NotebookLmError>)
    ensures
        total_bytes == 0 ==> (r matches Err(e) && e.kind() == ErrorKind::DownloadFailed && e.message()
            == "Download produced 0 bytes — the remote file may be missing or empty"@),
        total_bytes > 0 ==> r == Ok::<u64, NotebookLmError>(total_bytes),
{
    if total_bytes == 0 {
        Err(NotebookLmError::DownloadFailed(owned("Download produced 0 bytes — the remote file may be missing or empty")))
    } else {
        Ok(total_bytes)
    }
}

// =========================================================================
// Interactive artifacts and mind maps
// =========================================================================

/// The HTML of an interactive artifact, at `[0][9][0]` of the response.
pub fn interactive_html(inner: &JsonValue) -> (r: Option<String>)
    ensures
        opt_text(r) == then_text(then_at(then_at(inner@.at(0), 9), 0)),
{
    match str_in(get_in(get_in(inner.get(0), 9), 0)) {
        Some(t) => Some(t.clone()),
        None => None,
    }
}

/// A card of a flashcard deck as written out: `{front, back}`.
pub open spec fn card_model(c: JsonModel) -> JsonModel {
    JsonModel::Object(
        seq![
            ("front"@, m_str(match then_text(c.field("f"@)) {
                Some(t) => t,
                None => Seq::empty(),
            })),
            ("back"@, m_str(match then_text(c.field("b"@)) {
                Some(t) => t,
                None => Seq::empty(),
            })),
        ],
    )
}

/// The document written for an interactive artifact: for a quiz its title
/// and `app_data.quiz`, for flashcards its title and the cards of
/// `app_data.flashcards` as `{front, back}`; a missing list is empty.
pub open spec fn interactive_document_model(is_quiz: bool, title: Seq<char>, app_data: JsonModel) -> JsonModel {
    if is_quiz {
        JsonModel::Object(
            seq![
                ("title"@, m_str(title)),
                ("questions"@, m_arr(match then_arr(app_data.field("quiz"@)) {
                    Some(q) => q,
                    None => Seq::empty(),
                })),
            ],
        )
    } else {
        JsonModel::Object(
            seq![
                ("title"@, m_str(title)),
                ("cards"@, m_arr(match then_arr(app_data.field("flashcards"@)) {
                    Some(cs) => cs.map_values(|c: JsonModel| card_model(c)),
                    None => Seq::empty(),
                })),
            ],
        )
    }
}

/// Builds the document written for a quiz (`is_quiz`) or flashcards.
pub fn interactive_document(is_quiz: bool, title: &str, app_data: &JsonValue) -> (r: JsonValue)
    ensures
        r@ == interactive_document_model(is_quiz, title@, app_data@),
{
    broadcast use group_json;

    if is_quiz {
        let questions: Vec<JsonValue> = match arr_in(app_data.get_key("quiz")) {
            Some(q) => {
                let mut out: Vec<JsonValue> = Vec::new();
                let mut i: usize = 0;
                while i < q.len()
                    invariant
                        i <= q@.len(),
                        models_of(out@) == models_of(q@).take(i as int),
                    decreases q@.len() - i,
                {
                    proof {
                        crate::json::lemma_models_of(q@);
                    }
                    push_val(&mut out, q[i].deep_clone());
                    assert(models_of(out@) =~= models_of(q@).take(i + 1));
                    i = i + 1;
                }
                assert(models_of(q@).take(i as int) =~= models_of(q@));
                out
            },
            None => {
                let out: Vec<JsonValue> = Vec::new();
                assert(models_of(out@) =~= Seq::<JsonModel>::empty());
                out
            },
        };
        let ghost qm = models_of(questions@);
        let mut fields: Vec<(String, JsonValue)> = Vec::new();
        fields.push((owned("title"), jstr(title)));
        fields.push((owned("questions"), jarr(questions)));
        proof {
            crate::json::lemma_entries_of(fields@);
        }
        let r = JsonValue::Object(fields);
        assert(crate::json::entries_of(fields@) =~~= interactive_document_model(is_quiz, title@, app_data@)->Object_0);
        r
    } else {
        let cards: Vec<JsonValue> = match arr_in(app_data.get_key("flashcards")) {
            Some(cs) => {
                proof {
                    crate::json::lemma_models_of(cs@);
                }
                let mut out: Vec<JsonValue> = Vec::new();
                let mut i: usize = 0;
                while i < cs.len()
                    invariant
                        i <= cs@.len(),
                        forall|k: int| 0 <= k < cs@.len() ==> #[trigger] models_of(cs@)[k] == cs@[k]@,
                        models_of(cs@).len() == cs@.len(),
                        models_of(out@) == models_of(cs@).take(i as int).map_values(|c: JsonModel| card_model(c)),
                    decreases cs@.len() - i,
                {
                    let c = &cs[i];
                    let front = match str_in(c.get_key("f")) {
                        Some(t) => t.as_str(),
                        None => "",
                    };
                    let back = match str_in(c.get_key("b")) {
                        Some(t) => t.as_str(),
                        None => "",
                    };
                    let mut fields: Vec<(String, JsonValue)> = Vec::new();
                    fields.push((owned("front"), jstr(front)));
                    fields.push((owned("back"), jstr(back)));
                    proof {
                        crate::json::lemma_entries_of(fields@);
                        crate::text::lemma_empty_literal();
                    }
                    assert(front@ == match then_text(cs@[i as int]@.field("f"@)) {
                        Some(t) => t,
                        None => Seq::<char>::empty(),
                    });
                    assert(back@ == match then_text(cs@[i as int]@.field("b"@)) {
                        Some(t) => t,
                        None => Seq::<char>::empty(),
                    });
                    assert(crate::json::entries_of(fields@) =~~= card_model(cs@[i as int]@)->Object_0);
                    let card = JsonValue::Object(fields);
                    let ghost before = models_of(out@);
                    push_val(&mut out, card);
                    assert(models_of(cs@).take(i + 1) =~= models_of(cs@).take(i as int).push(models_of(cs@)[i as int]));
                    assert(models_of(out@) =~= models_of(cs@).take(i + 1).map_values(|c: JsonModel| card_model(c)));
                    i = i + 1;
                }
                assert(models_of(cs@).take(i as int) =~= models_of(cs@));
                out
            },
            None => {
                let out: Vec<JsonValue> = Vec::new();
                assert(models_of(out@) =~= Seq::<JsonModel>::empty());
                out
            },
        };
        let mut fields: Vec<(String, JsonValue)> = Vec::new();
        fields.push((owned("title"), jstr(title)));
        fields.push((owned("cards"), jarr(cards)));
        proof {
            crate::json::lemma_entries_of(fields@);
        }
        let r = JsonValue::Object(fields);
        assert(crate::json::entries_of(fields@) =~~= interactive_document_model(is_quiz, title@, app_data@)->Object_0);
        r
    }
}

/// The note that is the mind map `artifact_id`, among the notes at `[0]` of
/// a `GET_NOTES_AND_MIND_MAPS` response.
pub open spec fn mind_map_note_of(notes: Seq<JsonModel>, artifact_id: Seq<char>) -> Option<JsonModel>
    decreases notes.len(),
{
    if notes.len() == 0 {
        None
    } else if then_text(notes[0].at(0)) == Some(artifact_id) && mind_map_item(notes[0]) {
        Some(notes[0])
    } else {
        mind_map_note_of(notes.drop_first(), artifact_id)
    }
}

pub fn find_mind_map_note<'a>(inner: &'a JsonValue, artifact_id: &str) -> (r: Option<&'a JsonValue>)
    ensures
        omodel(r) == match then_arr(inner@.at(0)) {
            Some(notes) => mind_map_note_of(notes, artifact_id@),
            None => None,
        },
{
    broadcast use group_json;

    let notes = match arr_in(inner.get(0)) {
        Some(n) => n,
        None => return None,
    };
    proof {
        crate::json::lemma_models_of(notes@);
    }
    let ghost nm = models_of(notes@);
    assert(nm.skip(0) =~= nm);
    let mut i: usize = 0;
    while i < notes.len()
        invariant
            i <= notes@.len(),
            nm == models_of(notes@),
            nm.len() == notes@.len(),
            forall|k: int| 0 <= k < notes@.len() ==> #[trigger] nm[k] == notes@[k]@,
            then_arr(inner@.at(0)) == Some(nm),
            mind_map_note_of(nm, artifact_id@) == mind_map_note_of(nm.skip(i as int), artifact_id@),
        decreases notes@.len() - i,
    {
        let ghost rest = nm.skip(i as int);
        assert(rest[0] == nm[i as int]);
        assert(rest.drop_first() =~= nm.skip(i + 1));
        let it = &notes[i];
        let id_matches = match str_in(it.get(0)) {
            Some(id) => str_eq(id.as_str(), artifact_id),
            None => false,
        };
        if id_matches && is_mind_map_item(it) {
            return Some(it);
        }
        i = i + 1;
    }
    assert(nm.skip(i as int).len() == 0);
    None
}

/// The history goes out turn by turn, in order, each turn as
/// `[question, answer]` with the question first; without a history the slot
/// is `null`. The question itself sits at index 1.
pub proof fn law_ask_history_question_first(
    sources: JsonModel,
    question: Seq<char>,
    history: Seq<ConversationMessage>,
    conversation_id: Seq<char>,
    notebook_id: Seq<char>,
)
    ensures
        ({
            let p = ask_params_model(sources, question, Some(msg_models(history)), conversation_id, notebook_id);
            &&& p is Array
            &&& p->Array_0.len() == 9
            &&& p->Array_0[1] == JsonModel::Str(question)
            &&& p->Array_0[2] is Array
            &&& p->Array_0[2]->Array_0.len() == history.len()
            &&& forall|k: int|
                0 <= k < history.len() ==> #[trigger] p->Array_0[2]->Array_0[k] == JsonModel::Array(
                    seq![JsonModel::Str(history[k].question@), JsonModel::Str(history[k].answer@)],
                )
        }),
        ask_params_model(sources, question, None, conversation_id, notebook_id)->Array_0[2] == JsonModel::Null,
{
    let p = ask_params_model(sources, question, Some(msg_models(history)), conversation_id, notebook_id);
    assert forall|k: int| 0 <= k < history.len() implies #[trigger] p->Array_0[2]->Array_0[k] == JsonModel::Array(
        seq![JsonModel::Str(history[k].question@), JsonModel::Str(history[k].answer@)],
    ) by {
        assert(msg_models(history)[k] == (history[k].question@, history[k].answer@));
    }
}

/// The text at `key` of a card, or nothing when it is absent or no string.
pub open spec fn card_side(card: JsonModel, key: Seq<char>) -> Seq<char> {
    match card.field(key) {
        Some(JsonModel::Str(t)) => t,
        _ => Seq::empty(),
    }
}

/// A flashcards document keeps the deck's order and sides: card k has as
/// front the text at `"f"` of `app_data.flashcards[k]` and as back the text
/// at `"b"` (each empty when absent); a quiz document carries
/// `app_data.quiz` as its questions. Both carry the title first.
pub proof fn law_interactive_document_sides(title: Seq<char>, app_data: JsonModel)
    ensures
        ({
            let d = interactive_document_model(false, title, app_data);
            &&& d is Object
            &&& d->Object_0.len() == 2
            &&& d->Object_0[0] == ("title"@, JsonModel::Str(title))
            &&& d->Object_0[1].0 == "cards"@
            &&& d->Object_0[1].1 is Array
            &&& (app_data.field("flashcards"@) matches Some(JsonModel::Array(cs)) ==> {
                &&& d->Object_0[1].1->Array_0.len() == cs.len()
                &&& forall|k: int|
                    0 <= k < cs.len() ==> #[trigger] d->Object_0[1].1->Array_0[k] == JsonModel::Object(
                        seq![("front"@, JsonModel::Str(card_side(cs[k], "f"@))), ("back"@, JsonModel::Str(card_side(cs[k], "b"@)))],
                    )
            })
            &&& (!(app_data.field("flashcards"@) matches Some(JsonModel::Array(_))) ==> d->Object_0[1].1->Array_0.len() == 0)
        }),
        ({
            let d = interactive_document_model(true, title, app_data);
            &&& d is Object
            &&& d->Object_0[0] == ("title"@, JsonModel::Str(title))
            &&& d->Object_0[1].0 == "questions"@
            &&& (app_data.field("quiz"@) matches Some(JsonModel::Array(q)) ==> d->Object_0[1].1 == JsonModel::Array(q))
        }),
{
    let d = interactive_document_model(false, title, app_data);
    match app_data.field("flashcards"@) {
        Some(JsonModel::Array(cs)) => {
            assert forall|k: int| 0 <= k < cs.len() implies #[trigger] d->Object_0[1].1->Array_0[k] == JsonModel::Object(
                seq![("front"@, JsonModel::Str(card_side(cs[k], "f"@))), ("back"@, JsonModel::Str(card_side(cs[k], "b"@)))],
            ) by {
                assert(d->Object_0[1].1->Array_0[k] == card_model(cs[k]));
                let f = match then_text(cs[k].field("f"@)) {
                    Some(t) => t,
                    None => Seq::empty(),
                };
                let b = match then_text(cs[k].field("b"@)) {
                    Some(t) => t,
                    None => Seq::empty(),
                };
                assert(f == card_side(cs[k], "f"@));
                assert(b == card_side(cs[k], "b"@));
                assert(card_model(cs[k])->Object_0 =~= seq![
                    ("front"@, JsonModel::Str(card_side(cs[k], "f"@))),
                    ("back"@, JsonModel::Str(card_side(cs[k], "b"@))),
                ]);
            }
        },
        _ => {},
    }
}

} // verus!
