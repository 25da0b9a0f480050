//! Deep research: the poller's configuration, the reading of research
//! tasks and their sources, and what one poll means for the waiting loop.
//!
//! Sources come in three shapes: fast research `[url, title, desc, type,
//! ..]`, deep research `[null, [title, report], null, type, ..]`, and the
//! older deep research `[null, title, null, type, .., [chunks..]]`. Status
//! codes 2 and 6 mean completed.

use vstd::prelude::*;
use std::time::Duration;
use crate::artifact_poller::PollStep;
use crate::errors::{NotebookLmError, NotebookResult};
use crate::json::{
    JsonModel, JsonValue, models_of, seq_at, then_at, then_text, then_arr, then_int, get_in, str_in,
    arr_in, int_in, item, group_json,
};
use crate::outside::{secs, duration_of_secs};
use crate::parser::{str_at, opt_text, nonempty};
use crate::rpc::notes::{ResearchSource, ResearchStatus, SourceModel, source_models};
use crate::text::{join, join_strings, texts, str_starts_with, seq_starts_with};

verus! {

/// Configuration of the research poller: exponential backoff from
/// `initial_interval`, doubling up to `max_interval`, until `timeout`.
#[derive(Debug, Clone, Copy)]
pub struct ResearchPollerConfig {
    pub initial_interval: Duration,
    pub max_interval: Duration,
    pub timeout: Duration,
}

impl Default for ResearchPollerConfig {
    /// 2 s initial interval, 10 s cap, 300 s timeout.
    fn default() -> (r: Self)
        ensures
            r.initial_interval == duration_of_secs(2),
            r.max_interval == duration_of_secs(10),
            r.timeout == duration_of_secs(300),
    {
        ResearchPollerConfig { initial_interval: secs(2), max_interval: secs(10), timeout: secs(300) }
    }
}

impl ResearchPollerConfig {
    /// The default configuration with another timeout.
    pub fn with_timeout(timeout: Duration) -> (r: Self)
        ensures
            r.initial_interval == duration_of_secs(2),
            r.max_interval == duration_of_secs(10),
            r.timeout == timeout,
    {
        ResearchPollerConfig { initial_interval: secs(2), max_interval: secs(10), timeout }
    }
}

/// An optional value read as an unsigned integer.
pub open spec fn then_uint(o: Option<JsonModel>) -> Option<u64> {
    match o {
        Some(m) => m.uint64(),
        None => None,
    }
}

/// The result type of a source: `[3]`, else `[10]`, else 1, as 32 bits.
pub open spec fn result_type_of(a: Seq<JsonModel>) -> u32 {
    match then_uint(seq_at(a, 3)) {
        Some(t) => t as u32,
        None => match then_uint(seq_at(a, 10)) {
            Some(t) => t as u32,
            None => 1,
        },
    }
}

/// What `parse_single_source` reads from one source entry.
pub open spec fn source_of(m: JsonModel) -> Option<SourceModel> {
    match m {
        JsonModel::Array(a) => {
            let first_url = str_at(a, 0);
            if first_url matches Some(u) && seq_starts_with(u, "http"@) {
                Some((first_url, str_at(a, 1), str_at(a, 2), result_type_of(a)))
            } else if a.len() > 1 && a[0] is Null {
                match a[1] {
                    JsonModel::Array(tr) => if tr.len() >= 2 {
                        Some((None, tr[0].text(), tr[1].text(), 5u32))
                    } else {
                        None
                    },
                    JsonModel::Str(t) => Some((None, Some(t), None, 5u32)),
                    _ => None,
                }
            } else {
                None
            }
        },
        _ => None,
    }
}

/// Reads one source entry in any of its three shapes.
pub fn parse_single_source(src: &JsonValue) -> (r: Option<ResearchSource>)
    ensures
        match r {
            Some(s) => source_of(src@) == Some(s.model()),
            None => source_of(src@) is None,
        },
{
    broadcast use group_json;

    let arr = match src.as_array() {
        Some(a) => a,
        None => return None,
    };
    proof {
        crate::json::lemma_models_of(arr@);
    }
    let result_type: u32 = match item(arr, 3) {
        Some(v) => match v.as_u64() {
            Some(t) => t as u32,
            None => match item(arr, 10) {
                Some(w) => match w.as_u64() {
                    Some(t) => t as u32,
                    None => 1,
                },
                None => 1,
            },
        },
        None => match item(arr, 10) {
            Some(w) => match w.as_u64() {
                Some(t) => t as u32,
                None => 1,
            },
            None => 1,
        },
    };
    match str_in(item(arr, 0)) {
        Some(u) => {
            if str_starts_with(u.as_str(), "http") {
                let title = match str_in(item(arr, 1)) {
                    Some(t) => Some(t.clone()),
                    None => None,
                };
                let description = match str_in(item(arr, 2)) {
                    Some(t) => Some(t.clone()),
                    None => None,
                };
                return Some(ResearchSource { url: Some(u.clone()), title, description, result_type });
            }
        },
        None => {},
    }
    if arr.len() > 0 && arr[0].is_null() {
        if arr.len() > 1 {
            match &arr[1] {
                JsonValue::Array(tr) => {
                    proof {
                        crate::json::lemma_models_of(tr@);
                    }
                    if tr.len() >= 2 {
                        let title = match tr[0].as_str() {
                            Some(t) => Some(t.clone()),
                            None => None,
                        };
                        let description = match tr[1].as_str() {
                            Some(t) => Some(t.clone()),
                            None => None,
                        };
                        return Some(ResearchSource { url: None, title, description, result_type: 5 });
                    }
                },
                JsonValue::Str(t) => {
                    return Some(ResearchSource { url: None, title: Some(t.clone()), description: None, result_type: 5 });
                },
                _ => {},
            }
        }
    }
    None
}

/// The sources read from the entries, in order.
pub open spec fn sources_of(entries: Seq<JsonModel>) -> Seq<SourceModel>
    decreases entries.len(),
{
    if entries.len() == 0 {
        Seq::empty()
    } else {
        match source_of(entries.last()) {
            Some(s) => sources_of(entries.drop_last()).push(s),
            None => sources_of(entries.drop_last()),
        }
    }
}

/// Reads every source entry that has one of the known shapes.
pub fn parse_sources(sources: &[JsonValue]) -> (r: Vec<ResearchSource>)
    ensures
        source_models(r@) == sources_of(models_of(sources@)),
{
    broadcast use group_json;

    let ghost sm = models_of(sources@);
    proof {
        crate::json::lemma_models_of(sources@);
    }
    let mut out: Vec<ResearchSource> = Vec::new();
    assert(sm.take(0) =~= Seq::<JsonModel>::empty());
    assert(source_models(out@) =~= Seq::<SourceModel>::empty());
    let mut i: usize = 0;
    while i < sources.len()
        invariant
            i <= sources@.len(),
            sm == models_of(sources@),
            sm.len() == sources@.len(),
            forall|k: int| 0 <= k < sources@.len() ==> #[trigger] sm[k] == sources@[k]@,
            source_models(out@) == sources_of(sm.take(i as int)),
        decreases sources@.len() - i,
    {
        assert(sm.take(i + 1).drop_last() =~= sm.take(i as int));
        assert(sm.take(i + 1).last() == sm[i as int]);
        let ghost before = out@;
        match parse_single_source(&sources[i]) {
            Some(s) => {
                out.push(s);
                assert(source_models(out@) =~= source_models(before).push(out@.last().model()));
            },
            None => {},
        }
        i = i + 1;
    }
    assert(sm.take(i as int) =~= sm);
    out
}

/// The strings among the values, in order.
pub open spec fn strings_among(v: Seq<JsonModel>) -> Seq<Seq<char>>
    decreases v.len(),
{
    if v.len() == 0 {
        Seq::empty()
    } else {
        match v.last().text() {
            Some(t) => strings_among(v.drop_last()).push(t),
            None => strings_among(v.drop_last()),
        }
    }
}

/// The report one source holds: `[1][1]` when it is a non-empty string, or
/// for the older shape `[null, title, .., chunks at 6]` the string chunks
/// joined by blank lines, when that is not empty.
pub open spec fn source_report(m: JsonModel) -> Option<Seq<char>> {
    match m {
        JsonModel::Array(a) => match nonempty(then_text(then_at(seq_at(a, 1), 1))) {
            Some(r) => Some(r),
            None => if a.len() > 0 && a[0] is Null && str_at(a, 1) is Some {
                match then_arr(seq_at(a, 6)) {
                    Some(chunks) => nonempty(Some(join(strings_among(chunks), "\n\n"@))),
                    None => None,
                }
            } else {
                None
            },
        },
        _ => None,
    }
}

/// The first report among the sources, else the summary when not empty.
pub open spec fn report_of(sources: Seq<JsonModel>, summary: Option<Seq<char>>) -> Option<Seq<char>>
    decreases sources.len(),
{
    if sources.len() == 0 {
        nonempty(summary)
    } else {
        match source_report(sources[0]) {
            Some(r) => Some(r),
            None => report_of(sources.drop_first(), summary),
        }
    }
}

/// The string chunks of a value list joined by blank lines.
fn join_chunks(chunks: &Vec<JsonValue>) -> (r: String)
    ensures
        r@ == join(strings_among(models_of(chunks@)), "\n\n"@),
{
    broadcast use group_json;

    proof {
        crate::json::lemma_models_of(chunks@);
    }
    let ghost cm = models_of(chunks@);
    let mut parts: Vec<String> = Vec::new();
    assert(cm.take(0) =~= Seq::<JsonModel>::empty());
    assert(texts(parts@) =~= Seq::<Seq<char>>::empty());
    let mut i: usize = 0;
    while i < chunks.len()
        invariant
            i <= chunks@.len(),
            cm == models_of(chunks@),
            cm.len() == chunks@.len(),
            forall|k: int| 0 <= k < chunks@.len() ==> #[trigger] cm[k] == chunks@[k]@,
            texts(parts@) == strings_among(cm.take(i as int)),
        decreases chunks@.len() - i,
    {
        assert(cm.take(i + 1).drop_last() =~= cm.take(i as int));
        assert(cm.take(i + 1).last() == cm[i as int]);
        let ghost before = parts@;
        match chunks[i].as_str() {
            Some(t) => {
                parts.push(t.clone());
                assert(texts(parts@) =~= texts(before).push(t@));
            },
            None => {},
        }
        i = i + 1;
    }
    assert(cm.take(i as int) =~= cm);
    join_strings(&parts, "\n\n")
}

/// The research report: the first found among the sources, else the summary.
pub fn extract_report(sources: &[JsonValue], summary: Option<String>) -> (r: Option<String>)
    ensures
        opt_text(r) == report_of(models_of(sources@), opt_text(summary)),
{
    broadcast use group_json;

    proof {
        crate::json::lemma_models_of(sources@);
    }
    let ghost sm = models_of(sources@);
    assert(sm.skip(0) =~= sm);
    let mut i: usize = 0;
    while i < sources.len()
        invariant
            i <= sources@.len(),
            sm == models_of(sources@),
            sm.len() == sources@.len(),
            forall|k: int| 0 <= k < sources@.len() ==> #[trigger] sm[k] == sources@[k]@,
            report_of(sm, opt_text(summary)) == report_of(sm.skip(i as int), opt_text(summary)),
        decreases sources@.len() - i,
    {
        let ghost rest = sm.skip(i as int);
        assert(rest[0] == sm[i as int]);
        assert(rest.drop_first() =~= sm.skip(i + 1));
        match sources[i].as_array() {
            Some(arr) => {
                proof {
                    crate::json::lemma_models_of(arr@);
                }
                match str_in(get_in(item(arr, 1), 1)) {
                    Some(md) => {
                        if !md.as_str().is_empty() {
                            return Some(md.clone());
                        }
                    },
                    None => {},
                }
                if arr.len() > 0 && arr[0].is_null() && str_in(item(arr, 1)).is_some() {
                    match arr_in(item(arr, 6)) {
                        Some(chunks) => {
                            let text = join_chunks(chunks);
                            if !text.as_str().is_empty() {
                                return Some(text);
                            }
                        },
                        None => {},
                    }
                }
            },
            None => {},
        }
        i = i + 1;
    }
    assert(sm.skip(i as int).len() == 0);
    match summary {
        Some(s) => if s.as_str().is_empty() {
            None
        } else {
            Some(s)
        },
        None => None,
    }
}

/// A research status as plain values.
pub type StatusModel = (u32, Seq<SourceModel>, Option<Seq<char>>, bool, Option<Seq<char>>);

pub open spec fn status_model(s: ResearchStatus) -> StatusModel {
    (s.status_code, source_models(s.sources@), opt_text(s.report), s.is_complete, opt_text(s.query))
}

/// What `parse_all_research_tasks` reads from one task entry
/// `[task_id, data, ..]`: the query at `data[1][0]`, sources and summary at
/// `data[3]`, and the status code at `data[4]` (0 when absent), read as 32 bits.
pub open spec fn task_of(m: JsonModel) -> Option<(Seq<char>, StatusModel)> {
    match m {
        JsonModel::Array(it) => match str_at(it, 0) {
            Some(task_id) => match then_arr(seq_at(it, 1)) {
                Some(data) => {
                    let code: u32 = match then_int(seq_at(data, 4)) {
                        Some(c) => c as u32,
                        None => 0u32,
                    };
                    let (sources, report) = match then_arr(seq_at(data, 3)) {
                        Some(ss) => {
                            let arr = match then_arr(seq_at(ss, 0)) {
                                Some(a) => a,
                                None => Seq::empty(),
                            };
                            (sources_of(arr), report_of(arr, str_at(ss, 1)))
                        },
                        None => (Seq::empty(), None),
                    };
                    Some(
                        (
                            task_id,
                            (
                                code,
                                sources,
                                report,
                                code == 2 || code == 6,
                                then_text(then_at(seq_at(data, 1), 0)),
                            ),
                        ),
                    )
                },
                None => None,
            },
            None => None,
        },
        _ => None,
    }
}

/// The tasks read from the entries, in response order.
pub open spec fn tasks_of(entries: Seq<JsonModel>) -> Seq<(Seq<char>, StatusModel)>
    decreases entries.len(),
{
    if entries.len() == 0 {
        Seq::empty()
    } else {
        match task_of(entries.last()) {
            Some(t) => tasks_of(entries.drop_last()).push(t),
            None => tasks_of(entries.drop_last()),
        }
    }
}

pub open spec fn task_models(v: Seq<(String, ResearchStatus)>) -> Seq<(Seq<char>, StatusModel)> {
    v.map_values(|t: (String, ResearchStatus)| (t.0@, status_model(t.1)))
}

/// Reads one task entry.
fn read_task(entry: &JsonValue) -> (r: Option<(String, ResearchStatus)>)
    ensures
        match r {
            Some(t) => task_of(entry@) == Some((t.0@, status_model(t.1))),
            None => task_of(entry@) is None,
        },
{
    broadcast use group_json;

    let it = match entry.as_array() {
        Some(a) => a,
        None => return None,
    };
    let task_id = match str_in(item(it, 0)) {
        Some(t) => t.clone(),
        None => return None,
    };
    let data = match arr_in(item(it, 1)) {
        Some(d) => d,
        None => return None,
    };
    let query = match str_in(get_in(item(data, 1), 0)) {
        Some(q) => Some(q.clone()),
        None => None,
    };
    let (sources, report) = match arr_in(item(data, 3)) {
        Some(ss) => {
            let empty: Vec<JsonValue> = Vec::new();
            let arr: &Vec<JsonValue> = match arr_in(item(ss, 0)) {
                Some(a) => a,
                None => &empty,
            };
            let summary = match str_in(item(ss, 1)) {
                Some(t) => Some(t.clone()),
                None => None,
            };
            let srcs = parse_sources(arr.as_slice());
            let rep = extract_report(arr.as_slice(), summary);
            proof {
                assert(models_of(empty@) =~= Seq::<JsonModel>::empty());
            }
            (srcs, rep)
        },
        None => {
            let v: Vec<ResearchSource> = Vec::new();
            assert(source_models(v@) =~= Seq::<SourceModel>::empty());
            (v, None)
        },
    };
    let code: u32 = match int_in(item(data, 4)) {
        Some(c) => c as u32,
        None => 0,
    };
    Some((task_id, ResearchStatus { status_code: code, sources, report, is_complete: code == 2 || code == 6, query }))
}

/// Reads every research task of the response, in response order (older
/// first); entries that are not `[task_id, data, ..]` are skipped.
pub fn parse_all_research_tasks(value: &JsonValue) -> (r: Vec<(String, ResearchStatus)>)
    ensures
        task_models(r@) == match value@ {
            JsonModel::Array(entries) => tasks_of(entries),
            _ => Seq::empty(),
        },
{
    broadcast use group_json;

    let mut tasks: Vec<(String, ResearchStatus)> = Vec::new();
    assert(task_models(tasks@) =~= Seq::<(Seq<char>, StatusModel)>::empty());
    let arr = match value.as_array() {
        Some(a) => a,
        None => return tasks,
    };
    proof {
        crate::json::lemma_models_of(arr@);
    }
    let ghost em = models_of(arr@);
    assert(em.take(0) =~= Seq::<JsonModel>::empty());
    let mut i: usize = 0;
    while i < arr.len()
        invariant
            i <= arr@.len(),
            em == models_of(arr@),
            em.len() == arr@.len(),
            value@ == JsonModel::Array(em),
            forall|k: int| 0 <= k < arr@.len() ==> #[trigger] em[k] == arr@[k]@,
            task_models(tasks@) == tasks_of(em.take(i as int)),
        decreases arr@.len() - i,
    {
        assert(em.take(i + 1).drop_last() =~= em.take(i as int));
        assert(em.take(i + 1).last() == em[i as int]);
        let ghost before = tasks@;
        match read_task(&arr[i]) {
            Some(t) => {
                tasks.push(t);
                assert(task_models(tasks@) =~= task_models(before).push(
                    (tasks@.last().0@, status_model(tasks@.last().1)),
                ));
            },
            None => {},
        }
        i = i + 1;
    }
    assert(em.take(i as int) =~= em);
    tasks
}

/// Tasks are read entry by entry, in response order: the tasks of two runs
/// of entries, one after the other, are those of the first run followed by
/// those of the second; one entry gives its task, or nothing when it is no
/// `[task_id, data, ..]`.
pub proof fn law_research_tasks_in_order(a: Seq<JsonModel>, b: Seq<JsonModel>, x: JsonModel)
    ensures
        tasks_of(a + b) == tasks_of(a) + tasks_of(b),
        tasks_of(seq![x]) == match task_of(x) {
            Some(t) => seq![t],
            None => Seq::<(Seq<char>, StatusModel)>::empty(),
        },
    decreases b.len(),
{
    assert(seq![x].drop_last() =~= Seq::<JsonModel>::empty());
    assert(seq![x].last() == x);
    assert(tasks_of(Seq::<JsonModel>::empty()) =~= Seq::<(Seq<char>, StatusModel)>::empty());
    match task_of(x) {
        Some(t) => {
            assert(tasks_of(seq![x]) == tasks_of(Seq::<JsonModel>::empty()).push(t));
            assert(Seq::<(Seq<char>, StatusModel)>::empty().push(t) =~= seq![t]);
        },
        None => {
            assert(tasks_of(seq![x]) == tasks_of(Seq::<JsonModel>::empty()));
        },
    }
    if b.len() == 0 {
        assert(a + b =~= a);
        assert(tasks_of(a) + tasks_of(b) =~= tasks_of(a));
    } else {
        law_research_tasks_in_order(a, b.drop_last(), x);
        assert((a + b).drop_last() =~= a + b.drop_last());
        assert((a + b).last() == b.last());
        match task_of(b.last()) {
            Some(t) => {
                assert(tasks_of(a) + tasks_of(b.drop_last()).push(t) =~= (tasks_of(a) + tasks_of(b.drop_last())).push(t));
            },
            None => {},
        }
    }
}

/// The tasks read are, in response order, those of the entries that read
/// as tasks: the k-th task is what the k-th such entry gives, and entries
/// that are not `[task_id, data, ..]` give none.
pub proof fn law_research_tasks_per_entry(entries: Seq<JsonModel>)
    ensures
        tasks_of(entries) == entries.filter(|m: JsonModel| task_of(m) is Some).map_values(
            |m: JsonModel| task_of(m)->0,
        ),
    decreases entries.len(),
{
    reveal(Seq::filter);
    let pred = |m: JsonModel| task_of(m) is Some;
    let f = |m: JsonModel| task_of(m)->0;
    if entries.len() > 0 {
        law_research_tasks_per_entry(entries.drop_last());
        let sub = entries.drop_last().filter(pred);
        assert(entries.filter(pred) == if pred(entries.last()) {
            sub.push(entries.last())
        } else {
            sub
        });
        if pred(entries.last()) {
            assert(sub.push(entries.last()).map_values(f) =~= sub.map_values(f).push(f(entries.last())));
        }
    } else {
        assert(entries.filter(pred).map_values(f) =~= Seq::<(Seq<char>, StatusModel)>::empty());
    }
}

/// A task entry is read when it is an array holding a string task id first
/// and an array of data second; its status code is `data[4]` read as 32
/// bits (0 when absent), and it is complete exactly for codes 2 and 6.
pub proof fn law_research_task_fields(m: JsonModel)
    ensures
        task_of(m) is Some <==> (m matches JsonModel::Array(it) && str_at(it, 0) is Some && then_arr(seq_at(it, 1)) is Some),
        task_of(m) matches Some((id, st)) ==> (m matches JsonModel::Array(it) && str_at(it, 0) == Some(id) && st.0 == match then_int(seq_at(then_arr(seq_at(it, 1))->0, 4)) {
            Some(c) => c as u32,
            None => 0u32,
        } && st.3 == (st.0 == 2 || st.0 == 6)),
{
}

/// What one poll of a research task means: an error ends the wait, a
/// completed task ends it with its status, anything else is polled again.
pub fn research_poll_step(polled: NotebookResult<ResearchStatus>) -> (r: PollStep<ResearchStatus>)
    ensures
        match polled {
            Ok(s) => if s.is_complete {
                r matches PollStep::Finished(t) && status_model(t) == status_model(s)
            } else {
                r is Continue
            },
            Err(e) => r matches PollStep::Abort(f) && f.kind() == e.kind() && f.message() == e.message(),
        },
{
    match polled {
        Ok(s) => if s.is_complete {
            PollStep::Finished(s)
        } else {
            PollStep::Continue
        },
        Err(e) => PollStep::Abort(e),
    }
}

} // verus!
