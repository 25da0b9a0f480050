//! Defensive readers for the positional arrays of batchexecute responses.
//! Every access checks the shape it expects and answers `None` (or a default)
//! when the response does not have it.

use vstd::prelude::*;
use vstd::utf8::encode_utf8;
use crate::json::{
    JsonModel, JsonValue, models_of, vmodel, seq_at, omodel, omodel_owned, then_at, then_text, then_arr, then_int,
    then_bool, get_in, str_in, arr_in, int_in, bool_in, item, group_json,
};
use crate::outside::{regex_capture, regex_group, decode_html_entities, html_decoded, json_parses, json_valid};
use crate::text::{texts as strings_texts, join, join_strings, decimal, u64_to_string, push_str, owned, str_eq, str_starts_with, str_contains, seq_starts_with, seq_contains, to_lower, lowercase};
use crate::rpc::artifacts::{ArtifactTypeCode, ArtifactType, ArtifactStatus, GenerationStatus};

verus! {

/// Index `i` of a sequence of models, read as a string.
pub open spec fn str_at(s: Seq<JsonModel>, i: int) -> Option<Seq<char>> {
    then_text(seq_at(s, i))
}

/// Number of UTF-8 bytes of a string, as `str::len` reports it.
pub open spec fn byte_len(s: Seq<char>) -> usize {
    encode_utf8(s).len() as usize
}

/// What `extract_by_rpc_id` finds among response entries: the text at
/// position 2 of the first `["wrb.fr", rpc_id, text, ..]` entry. The scan
/// stops with nothing at the first entry that is not an array, or whose
/// positions 0 or 1 (for a `wrb.fr` entry) or 2 (for the match) are not
/// strings.
pub open spec fn rpc_scan(items: Seq<JsonModel>, rpc_id: Seq<char>) -> Option<Seq<char>>
    decreases items.len(),
{
    if items.len() == 0 {
        None
    } else {
        match items[0] {
            JsonModel::Array(a) => match str_at(a, 0) {
                None => None,
                Some(tag) => if tag != "wrb.fr"@ {
                    rpc_scan(items.drop_first(), rpc_id)
                } else {
                    match str_at(a, 1) {
                        None => None,
                        Some(id) => if id != rpc_id {
                            rpc_scan(items.drop_first(), rpc_id)
                        } else {
                            str_at(a, 2)
                        },
                    }
                },
            },
            _ => None,
        }
    }
}

/// A text kept only when it is one JSON value.
pub open spec fn json_only(o: Option<Seq<char>>) -> Option<Seq<char>> {
    match o {
        Some(t) => if json_valid(t) {
            Some(t)
        } else {
            None
        },
        None => None,
    }
}

/// The inner JSON text of the response entry for `rpc_id`, when it is valid
/// JSON (the caller parses it). Entries look like
/// `["wrb.fr", rpc_id, inner_json, ...]`.
pub fn extract_by_rpc_id(response: &JsonValue, rpc_id: &str) -> (r: Option<String>)
    ensures
        opt_text(r) == json_only(
            match response@ {
                JsonModel::Array(items) => rpc_scan(items, rpc_id@),
                _ => None,
            },
        ),
{
    broadcast use group_json;

    let arr = match response.as_array() {
        Some(a) => a,
        None => return None,
    };
    let ghost items = models_of(arr@);
    assert(items.len() == arr@.len());
    assert(items.skip(0) =~= items);
    let mut i: usize = 0;
    while i < arr.len()
        invariant
            i <= arr@.len(),
            items == models_of(arr@),
            items.len() == arr@.len(),
            response@ == JsonModel::Array(items),
            rpc_scan(items, rpc_id@) == rpc_scan(items.skip(i as int), rpc_id@),
        decreases arr@.len() - i,
    {
        proof {
            crate::json::lemma_models_of(arr@);
        }
        let ghost rest = items.skip(i as int);
        assert(items[i as int] == arr@[i as int]@);
        assert(rest[0] == items[i as int]);
        assert(rest.drop_first() =~= items.skip(i + 1));
        let entry = match arr[i].as_array() {
            Some(e) => e,
            None => return None,
        };
        let tag = match str_in(item(entry, 0)) {
            Some(t) => t,
            None => return None,
        };
        if str_eq(tag.as_str(), "wrb.fr") {
            let id = match str_in(item(entry, 1)) {
                Some(t) => t,
                None => return None,
            };
            if str_eq(id.as_str(), rpc_id) {
                return match str_in(item(entry, 2)) {
                    Some(t) => if json_parses(t.as_str()) {
                        Some(t.clone())
                    } else {
                        None
                    },
                    None => None,
                };
            }
        }
        i = i + 1;
    }
    assert(items.skip(i as int).len() == 0);
    None
}

/// The characters of an optional string.
pub open spec fn opt_text(o: Option<String>) -> Option<Seq<char>> {
    match o {
        Some(s) => Some(s@),
        None => None,
    }
}

/// The string at `index`, if there is one there.
pub fn get_string_at(array: &[JsonValue], index: usize) -> (r: Option<String>)
    ensures
        opt_text(r) == str_at(models_of(array@), index as int),
{
    broadcast use group_json;

    if index < array.len() {
        match array[index].as_str() {
            Some(s) => Some(s.clone()),
            None => None,
        }
    } else {
        None
    }
}

/// The string at `index`, or `default`.
pub fn get_string_at_or_default(array: &[JsonValue], index: usize, default: &str) -> (r: String)
    ensures
        r@ == match str_at(models_of(array@), index as int) {
            Some(s) => s,
            None => default@,
        },
{
    match get_string_at(array, index) {
        Some(s) => s,
        None => owned(default),
    }
}

/// A string of exactly 36 bytes (the length of a UUID) at `index`.
pub fn get_uuid_at(array: &[JsonValue], index: usize) -> (r: Option<String>)
    ensures
        opt_text(r) == match str_at(models_of(array@), index as int) {
            Some(s) => if byte_len(s) == 36 {
                Some(s)
            } else {
                None
            },
            None => None,
        },
{
    broadcast use group_json;

    if index < array.len() {
        match array[index].as_str() {
            Some(s) => if s.as_str().len() == 36 {
                Some(s.clone())
            } else {
                None
            },
            None => None,
        }
    } else {
        None
    }
}

/// Copies of the models' values.
fn clone_all(v: &Vec<JsonValue>) -> (r: Vec<JsonValue>)
    ensures
        vmodel(&r) == vmodel(v),
{
    broadcast use group_json;

    let mut out: Vec<JsonValue> = Vec::new();
    let mut i: usize = 0;
    while i < v.len()
        invariant
            i <= v@.len(),
            out@.len() == i,
            forall|k: int| #![trigger out@[k]] 0 <= k < i ==> out@[k]@ == v@[k]@,
        decreases v@.len() - i,
    {
        out.push(v[i].deep_clone());
        i = i + 1;
    }
    assert(models_of(out@) =~= models_of(v@));
    out
}

/// The list inside a double wrapper: `inner[0]`, when both are arrays.
pub fn extract_notebook_list(inner: &JsonValue) -> (r: Option<Vec<JsonValue>>)
    ensures
        match r {
            Some(v) => then_arr(inner@.at(0)) == Some(vmodel(&v)),
            None => then_arr(inner@.at(0)) is None,
        },
{
    match arr_in(inner.get(0)) {
        Some(a) => Some(clone_all(a)),
        None => None,
    }
}

/// The source id of one source entry `[[id, ..], ..]`: `Err` when the entry
/// is not so shaped, `Ok(None)` when position `[0][0]` is not a string.
pub open spec fn entry_source_id(entry: JsonModel) -> Result<Option<Seq<char>>, ()> {
    match then_arr(entry.at(0)) {
        Some(inner0) => if inner0.len() == 0 {
            Err(())
        } else {
            Ok(inner0[0].text())
        },
        None => Err(()),
    }
}

/// The 36-byte source ids of the entries, in order; `None` when an entry is
/// malformed.
pub open spec fn source_ids_of(entries: Seq<JsonModel>) -> Option<Seq<Seq<char>>>
    decreases entries.len(),
{
    if entries.len() == 0 {
        Some(Seq::empty())
    } else {
        match entry_source_id(entries[0]) {
            Err(_) => None,
            Ok(x) => match source_ids_of(entries.drop_first()) {
                None => None,
                Some(rest) => match x {
                    Some(sid) => if byte_len(sid) == 36 {
                        Some(seq![sid] + rest)
                    } else {
                        Some(rest)
                    },
                    None => Some(rest),
                },
            },
        }
    }
}

/// `p` before the sequence in `o`, if there is one.
pub open spec fn prepend<T>(p: Seq<T>, o: Option<Seq<T>>) -> Option<Seq<T>> {
    match o {
        Some(r) => Some(p + r),
        None => None,
    }
}

/// The characters of each string.
pub open spec fn texts(v: Seq<String>) -> Seq<Seq<char>> {
    v.map_values(|s: String| s@)
}

/// The ids of the sources listed at `notebook_data[1]`; ids other than 36
/// bytes long are skipped.
pub fn extract_sources(notebook_data: &[JsonValue]) -> (r: Option<Vec<String>>)
    ensures
        match then_arr(seq_at(models_of(notebook_data@), 1)) {
            Some(entries) => match r {
                Some(v) => source_ids_of(entries) == Some(texts(v@)),
                None => source_ids_of(entries) is None,
            },
            None => r is None,
        },
{
    broadcast use group_json;

    if notebook_data.len() <= 1 {
        return None;
    }
    let entries = match notebook_data[1].as_array() {
        Some(a) => a,
        None => return None,
    };
    let ghost em = models_of(entries@);
    assert(em.len() == entries@.len());
    let mut ids: Vec<String> = Vec::new();
    let mut i: usize = 0;
    assert(em.skip(0) =~= em);
    assert(texts(ids@) =~= Seq::<Seq<char>>::empty());
    assert(prepend(texts(ids@), source_ids_of(em)) == source_ids_of(em)) by {
        match source_ids_of(em) {
            Some(r) => assert(texts(ids@) + r =~= r),
            None => {},
        }
    }
    while i < entries.len()
        invariant
            i <= entries@.len(),
            em == models_of(entries@),
            em.len() == entries@.len(),
            then_arr(seq_at(models_of(notebook_data@), 1)) == Some(em),
            source_ids_of(em) == prepend(texts(ids@), source_ids_of(em.skip(i as int))),
        decreases entries@.len() - i,
    {
        proof {
            crate::json::lemma_models_of(entries@);
        }
        let ghost rest = em.skip(i as int);
        let ghost before = ids@;
        assert(em[i as int] == entries@[i as int]@);
        assert(rest[0] == em[i as int]);
        assert(rest.drop_first() =~= em.skip(i + 1));
        let inner0 = match arr_in(entries[i].get(0)) {
            Some(a) => a,
            None => return None,
        };
        if inner0.len() == 0 {
            return None;
        }
        proof {
            crate::json::lemma_models_of(inner0@);
        }
        match inner0[0].as_str() {
            Some(sid) => {
                if sid.as_str().len() == 36 {
                    ids.push(sid.clone());
                    proof {
                        assert(texts(ids@) =~= texts(before).push(sid@));
                        match source_ids_of(em.skip(i + 1)) {
                            Some(r) => assert(texts(ids@) + r =~= texts(before) + (seq![sid@] + r)),
                            None => {},
                        }
                    }
                }
            },
            None => {},
        }
        i = i + 1;
    }
    assert(em.skip(i as int).len() == 0);
    assert(texts(ids@) + Seq::<Seq<char>>::empty() =~= texts(ids@));
    Some(ids)
}

/// The first source entry at `notebook_data[1]` whose id is `source_id`;
/// `Err` when an entry before it is malformed.
pub open spec fn find_entry(entries: Seq<JsonModel>, source_id: Seq<char>) -> Option<JsonModel>
    decreases entries.len(),
{
    if entries.len() == 0 {
        None
    } else {
        match entry_source_id(entries[0]) {
            Err(_) => None,
            Ok(Some(sid)) => if sid == source_id {
                Some(entries[0])
            } else {
                find_entry(entries.drop_first(), source_id)
            },
            Ok(None) => find_entry(entries.drop_first(), source_id),
        }
    }
}

/// A copy of the source entry whose id is `source_id`.
pub fn find_source_entry(notebook_data: &[JsonValue], source_id: &str) -> (r: Option<JsonValue>)
    ensures
        omodel_owned(r) == match then_arr(seq_at(models_of(notebook_data@), 1)) {
            Some(entries) => find_entry(entries, source_id@),
            None => None,
        },
{
    broadcast use group_json;

    if notebook_data.len() <= 1 {
        return None;
    }
    let entries = match notebook_data[1].as_array() {
        Some(a) => a,
        None => return None,
    };
    let ghost em = models_of(entries@);
    assert(em.len() == entries@.len());
    assert(em.skip(0) =~= em);
    let mut i: usize = 0;
    while i < entries.len()
        invariant
            i <= entries@.len(),
            em == models_of(entries@),
            em.len() == entries@.len(),
            then_arr(seq_at(models_of(notebook_data@), 1)) == Some(em),
            find_entry(em, source_id@) == find_entry(em.skip(i as int), source_id@),
        decreases entries@.len() - i,
    {
        proof {
            crate::json::lemma_models_of(entries@);
        }
        let ghost rest = em.skip(i as int);
        assert(em[i as int] == entries@[i as int]@);
        assert(rest[0] == em[i as int]);
        assert(rest.drop_first() =~= em.skip(i + 1));
        let inner0 = match arr_in(entries[i].get(0)) {
            Some(a) => a,
            None => return None,
        };
        if inner0.len() == 0 {
            return None;
        }
        proof {
            crate::json::lemma_models_of(inner0@);
        }
        match inner0[0].as_str() {
            Some(sid) => {
                if str_eq(sid.as_str(), source_id) {
                    return Some(entries[i].deep_clone());
                }
            },
            None => {},
        }
        i = i + 1;
    }
    assert(em.skip(i as int).len() == 0);
    None
}

/// The default value of `T`; positional arrays that omit trailing nulls read
/// as defaults.
pub fn deserialize_positional_array<T: Default>() -> (r: T)
    ensures
        call_ensures(T::default, (), r),
{
    T::default()
}

/// The id inside a nesting of single-element arrays: the first string met by
/// following index 0, when it is not empty.
pub open spec fn nested_id(m: JsonModel) -> Option<Seq<char>>
    decreases m,
{
    match m {
        JsonModel::Str(s) => if s.len() > 0 {
            Some(s)
        } else {
            None
        },
        JsonModel::Array(a) => if a.len() > 0 {
            nested_id(a[0])
        } else {
            None
        },
        _ => None,
    }
}

/// Unwraps `[[[[id]]]]`, `[[[id]]]` and the like down to the id.
pub fn extract_nested_source_id(value: &JsonValue) -> (r: Option<String>)
    ensures
        opt_text(r) == nested_id(value@),
    decreases value,
{
    broadcast use group_json;

    match value {
        JsonValue::Str(s) => if s.as_str().is_empty() {
            None
        } else {
            Some(s.clone())
        },
        JsonValue::Array(arr) => if arr.len() > 0 {
            proof {
                assert(decreases_to!(*value => *arr));
                assert(decreases_to!(*arr => arr@[0]));
                crate::json::lemma_models_of(arr@);
            }
            extract_nested_source_id(&arr[0])
        } else {
            None
        },
        _ => None,
    }
}

// =========================================================================
// Artifacts
// =========================================================================

/// One artifact of a `LIST_ARTIFACTS` response. Its positional array holds
/// the id at 0, the title at 1, the type code at 2, the status at 4 and, for
/// type 4, the variant at `[9][1][0]`; `raw_data` keeps the whole array.
#[derive(Debug)]
pub struct Artifact {
    pub id: String,
    pub title: String,
    pub kind: ArtifactType,
    pub status: ArtifactStatus,
    pub raw_data: JsonValue,
}

/// What an artifact holds, as plain values: id, title, kind, status, raw array.
pub type ArtifactModel = (Seq<char>, Seq<char>, ArtifactType, ArtifactStatus, JsonModel);

/// An integer narrowed to 32 bits as `as i32` does.
pub open spec fn narrow(o: Option<i64>) -> Option<i32> {
    match o {
        Some(v) => Some(v as i32),
        None => None,
    }
}

/// The status at position 4, `Processing` when absent or unknown.
pub open spec fn status_at(s: Seq<JsonModel>, i: int) -> ArtifactStatus {
    match narrow(then_int(seq_at(s, i))) {
        Some(c) => match ArtifactStatus::spec_from_code(c) {
            Some(st) => st,
            None => ArtifactStatus::Processing,
        },
        None => ArtifactStatus::Processing,
    }
}

/// What `Artifact::from_api_response` reads from a positional array: `None`
/// when it is not an array, has no non-empty id, or no known integer type code.
pub open spec fn artifact_of(m: JsonModel) -> Option<ArtifactModel> {
    match m {
        JsonModel::Array(a) => match str_at(a, 0) {
            Some(id) => if id.len() == 0 {
                None
            } else {
                match then_int(seq_at(a, 2)) {
                    Some(t) => match ArtifactTypeCode::spec_from_code(t as i32) {
                        Some(tc) => Some(
                            (
                                id,
                                match str_at(a, 1) {
                                    Some(title) => title,
                                    None => "Untitled"@,
                                },
                                ArtifactType::spec_resolve(
                                    tc,
                                    narrow(then_int(then_at(then_at(seq_at(a, 9), 1), 0))),
                                ),
                                status_at(a, 4),
                                m,
                            ),
                        ),
                        None => None,
                    },
                    None => None,
                }
            },
            None => None,
        },
        _ => None,
    }
}

impl Artifact {
    pub open spec fn model(&self) -> ArtifactModel {
        (self.id@, self.title@, self.kind, self.status, self.raw_data@)
    }

    /// Reads one artifact from its positional array.
    pub fn from_api_response(art: &JsonValue) -> (r: Option<Artifact>)
        ensures
            match r {
                Some(a) => artifact_of(art@) == Some(a.model()),
                None => artifact_of(art@) is None,
            },
    {
        broadcast use group_json;

        let arr = match art.as_array() {
            Some(a) => a,
            None => return None,
        };
        let id = match str_in(item(arr, 0)) {
            Some(s) => s,
            None => return None,
        };
        if id.as_str().is_empty() {
            return None;
        }
        let title = match str_in(item(arr, 1)) {
            Some(t) => t.clone(),
            None => owned("Untitled"),
        };
        let t = match int_in(item(arr, 2)) {
            Some(t) => t,
            None => return None,
        };
        let type_code = match ArtifactTypeCode::from_code(t as i32) {
            Some(tc) => tc,
            None => return None,
        };
        let variant = match int_in(get_in(get_in(item(arr, 9), 1), 0)) {
            Some(v) => Some(v as i32),
            None => None,
        };
        let kind = ArtifactType::from_type_code_and_variant(type_code, variant);
        let status = match int_in(item(arr, 4)) {
            Some(c) => match ArtifactStatus::from_code(c as i32) {
                Some(st) => st,
                None => ArtifactStatus::Processing,
            },
            None => ArtifactStatus::Processing,
        };
        Some(Artifact { id: id.clone(), title, kind, status, raw_data: art.deep_clone() })
    }

    /// Whether the artifact is the one a generation task made (the task id is
    /// the artifact id).
    pub fn matches_task_id(&self, task_id: &str) -> (r: bool)
        ensures
            r == (self.id@ == task_id@),
    {
        str_eq(self.id.as_str(), task_id)
    }

    pub fn is_completed(&self) -> (r: bool)
        ensures
            r == (self.status == ArtifactStatus::Completed),
    {
        self.status == ArtifactStatus::Completed
    }

    pub fn is_failed(&self) -> (r: bool)
        ensures
            r == (self.status == ArtifactStatus::Failed),
    {
        self.status == ArtifactStatus::Failed
    }
}

/// The array that stands for an artifact in a list entry: the entry itself
/// when it starts with a string (or is no array, or is empty), else its first
/// element.
pub open spec fn list_entry_target(item: JsonModel) -> JsonModel {
    match item {
        JsonModel::Array(a) => if a.len() == 0 {
            item
        } else if a[0] is Str {
            item
        } else {
            a[0]
        },
        _ => item,
    }
}

/// The artifacts read from list entries, in order, skipping those that do not
/// parse.
pub open spec fn artifacts_of(items: Seq<JsonModel>) -> Seq<ArtifactModel>
    decreases items.len(),
{
    if items.len() == 0 {
        Seq::empty()
    } else {
        let prev = artifacts_of(items.drop_last());
        match artifact_of(list_entry_target(items.last())) {
            Some(a) => prev.push(a),
            None => prev,
        }
    }
}

/// The models of a list of artifacts.
pub open spec fn artifact_models(v: Seq<Artifact>) -> Seq<ArtifactModel> {
    v.map_values(|a: Artifact| a.model())
}

/// Reads the artifacts of a `LIST_ARTIFACTS` response; entries may be the
/// artifact array itself or wrap it once.
pub fn parse_artifact_list(inner: &JsonValue) -> (r: Vec<Artifact>)
    ensures
        artifact_models(r@) == match inner@ {
            JsonModel::Array(items) => artifacts_of(items),
            _ => Seq::empty(),
        },
{
    broadcast use group_json;

    let mut artifacts: Vec<Artifact> = Vec::new();
    let outer = match inner.as_array() {
        Some(a) => a,
        None => {
            assert(artifact_models(artifacts@) =~= Seq::<ArtifactModel>::empty());
            return artifacts;
        },
    };
    let ghost items = models_of(outer@);
    assert(items.take(0) =~= Seq::<JsonModel>::empty());
    assert(artifact_models(artifacts@) =~= Seq::<ArtifactModel>::empty());
    let mut i: usize = 0;
    while i < outer.len()
        invariant
            i <= outer@.len(),
            items == models_of(outer@),
            items.len() == outer@.len(),
            inner@ == JsonModel::Array(items),
            artifact_models(artifacts@) == artifacts_of(items.take(i as int)),
        decreases outer@.len() - i,
    {
        proof {
            crate::json::lemma_models_of(outer@);
        }
        assert(items[i as int] == outer@[i as int]@);
        assert(items.take(i + 1).drop_last() =~= items.take(i as int));
        assert(items.take(i + 1).last() == items[i as int]);
        let it = &outer[i];
        let target: &JsonValue = match it.as_array() {
            Some(a) => {
                proof {
                    crate::json::lemma_models_of(a@);
                }
                if a.len() == 0 {
                    it
                } else if a[0].is_string() {
                    it
                } else {
                    &a[0]
                }
            },
            None => it,
        };
        assert(target@ == list_entry_target(items[i as int]));
        let ghost before = artifacts@;
        match Artifact::from_api_response(target) {
            Some(a) => {
                artifacts.push(a);
                assert(artifact_models(artifacts@) =~= artifact_models(before).push(
                    artifacts@.last().model(),
                ));
            },
            None => {},
        }
        i = i + 1;
    }
    assert(items.take(i as int) =~= items);
    artifacts
}

/// What `parse_generation_result` reads: the task id at `[0][0]` (not empty)
/// and the status at `[0][4]`.
pub open spec fn generation_of(m: JsonModel) -> Option<(Seq<char>, ArtifactStatus)> {
    match then_arr(m.at(0)) {
        Some(first) => match str_at(first, 0) {
            Some(id) => if id.len() == 0 {
                None
            } else {
                Some((id, status_at(first, 4)))
            },
            None => None,
        },
        None => None,
    }
}

/// Reads the task id and initial status of a `CREATE_ARTIFACT` response.
pub fn parse_generation_result(inner: &JsonValue) -> (r: Option<GenerationStatus>)
    ensures
        match r {
            Some(g) => generation_of(inner@) == Some((g.task_id@, g.status)) && g.error is None
                && g.error_code is None,
            None => generation_of(inner@) is None,
        },
{
    broadcast use group_json;

    let first = match arr_in(inner.get(0)) {
        Some(f) => f,
        None => return None,
    };
    let task_id = match str_in(item(first, 0)) {
        Some(s) => s,
        None => return None,
    };
    if task_id.as_str().is_empty() {
        return None;
    }
    let status = match int_in(item(first, 4)) {
        Some(c) => match ArtifactStatus::from_code(c as i32) {
            Some(st) => st,
            None => ArtifactStatus::Processing,
        },
        None => ArtifactStatus::Processing,
    };
    Some(GenerationStatus::new(task_id.clone(), status))
}

// =========================================================================
// Download URLs
// =========================================================================

/// A string when it is not empty.
pub open spec fn nonempty(o: Option<Seq<char>>) -> Option<Seq<char>> {
    match o {
        Some(t) => if t.len() > 0 {
            Some(t)
        } else {
            None
        },
        None => None,
    }
}

/// First pass over audio media items `[url, quality, mime]`: the first
/// non-empty url of an `audio/mp4` item. `Err` when an item is not an array.
pub open spec fn audio_scan(items: Seq<JsonModel>) -> Result<Option<Seq<char>>, ()>
    decreases items.len(),
{
    if items.len() == 0 {
        Ok(None)
    } else {
        match items[0] {
            JsonModel::Array(a) => if a.len() > 2 && str_at(a, 2) == Some("audio/mp4"@) && nonempty(
                str_at(a, 0),
            ) is Some {
                Ok(nonempty(str_at(a, 0)))
            } else {
                audio_scan(items.drop_first())
            },
            _ => Err(()),
        }
    }
}

/// The audio URL of an artifact: the media list at `[6][5]`, its first
/// `audio/mp4` url, else the first url of its first item.
pub open spec fn audio_url(m: JsonModel) -> Option<Seq<char>> {
    match then_arr(then_at(m.at(6), 5)) {
        Some(list) => if list.len() == 0 {
            None
        } else {
            match audio_scan(list) {
                Err(_) => None,
                Ok(Some(u)) => Some(u),
                Ok(None) => nonempty(then_text(then_at(seq_at(list, 0), 0))),
            }
        },
        None => None,
    }
}

pub fn extract_audio_url(artifact_data: &JsonValue) -> (r: Option<String>)
    ensures
        opt_text(r) == audio_url(artifact_data@),
{
    broadcast use group_json;

    let list = match arr_in(get_in(artifact_data.get(6), 5)) {
        Some(l) => l,
        None => return None,
    };
    if list.len() == 0 {
        return None;
    }
    let ghost items = models_of(list@);
    assert(items.skip(0) =~= items);
    let mut i: usize = 0;
    while i < list.len()
        invariant
            i <= list@.len(),
            items == models_of(list@),
            items.len() == list@.len(),
            list@.len() > 0,
            then_arr(then_at(artifact_data@.at(6), 5)) == Some(items),
            audio_scan(items) == audio_scan(items.skip(i as int)),
        decreases list@.len() - i,
    {
        proof {
            crate::json::lemma_models_of(list@);
        }
        let ghost rest = items.skip(i as int);
        assert(rest[0] == list@[i as int]@);
        assert(rest.drop_first() =~= items.skip(i + 1));
        let entry = match list[i].as_array() {
            Some(e) => e,
            None => return None,
        };
        proof {
            crate::json::lemma_models_of(entry@);
        }
        if entry.len() > 2 {
            match (entry[2].as_str(), entry[0].as_str()) {
                (Some(mime), Some(url)) => {
                    if str_eq(mime.as_str(), "audio/mp4") && !url.as_str().is_empty() {
                        return Some(url.clone());
                    }
                },
                _ => {},
            }
        }
        i = i + 1;
    }
    assert(items.skip(i as int).len() == 0);
    match str_in(get_in(item(list, 0), 0)) {
        Some(u) => if u.as_str().is_empty() {
            None
        } else {
            Some(u.clone())
        },
        None => None,
    }
}

/// The first media group whose first item starts with an `http` url.
pub open spec fn media_group(groups: Seq<JsonModel>) -> Option<Seq<JsonModel>>
    decreases groups.len(),
{
    if groups.len() == 0 {
        None
    } else {
        match groups[0] {
            JsonModel::Array(g) => match then_text(then_at(seq_at(g, 0), 0)) {
                Some(u) => if seq_starts_with(u, "http"@) {
                    Some(g)
                } else {
                    media_group(groups.drop_first())
                },
                None => media_group(groups.drop_first()),
            },
            _ => media_group(groups.drop_first()),
        }
    }
}

/// Scan of video media items `[url, quality, mime]`: the first non-empty
/// `video/mp4` url of quality 4, else the last non-empty `video/mp4` url
/// (`fallback` so far). An item that is not an array ends the scan with nothing.
pub open spec fn video_scan(items: Seq<JsonModel>, fallback: Option<Seq<char>>) -> Option<Seq<char>>
    decreases items.len(),
{
    if items.len() == 0 {
        fallback
    } else {
        match items[0] {
            JsonModel::Array(a) => if a.len() > 2 && str_at(a, 2) == Some("video/mp4"@) && nonempty(
                str_at(a, 0),
            ) is Some {
                if then_int(seq_at(a, 1)) == Some(4i64) {
                    nonempty(str_at(a, 0))
                } else {
                    video_scan(items.drop_first(), nonempty(str_at(a, 0)))
                }
            } else {
                video_scan(items.drop_first(), fallback)
            },
            _ => None,
        }
    }
}

/// The video URL of an artifact, read from the media groups at index 8.
pub open spec fn video_url(m: JsonModel) -> Option<Seq<char>> {
    match then_arr(m.at(8)) {
        Some(groups) => if groups.len() == 0 {
            None
        } else {
            match media_group(groups) {
                Some(list) => video_scan(list, None),
                None => None,
            }
        },
        None => None,
    }
}

/// The first media group whose first item's url starts with `http`.
fn find_media_group(groups: &Vec<JsonValue>) -> (r: Option<&Vec<JsonValue>>)
    ensures
        match r {
            Some(g) => media_group(models_of(groups@)) == Some(models_of(g@)),
            None => media_group(models_of(groups@)) is None,
        },
{
    broadcast use group_json;

    let ghost gm = models_of(groups@);
    assert(gm.skip(0) =~= gm);
    let mut i: usize = 0;
    while i < groups.len()
        invariant
            i <= groups@.len(),
            gm == models_of(groups@),
            gm.len() == groups@.len(),
            media_group(gm) == media_group(gm.skip(i as int)),
        decreases groups@.len() - i,
    {
        proof {
            crate::json::lemma_models_of(groups@);
        }
        let ghost rest = gm.skip(i as int);
        assert(rest[0] == groups@[i as int]@);
        assert(rest.drop_first() =~= gm.skip(i + 1));
        match groups[i].as_array() {
            Some(g) => {
                match str_in(get_in(item(g, 0), 0)) {
                    Some(u) => {
                        if str_starts_with(u.as_str(), "http") {
                            return Some(g);
                        }
                    },
                    None => {},
                }
            },
            None => {},
        }
        i = i + 1;
    }
    assert(gm.skip(i as int).len() == 0);
    None
}

pub fn extract_video_url(artifact_data: &JsonValue) -> (r: Option<String>)
    ensures
        opt_text(r) == video_url(artifact_data@),
{
    broadcast use group_json;

    let groups = match arr_in(artifact_data.get(8)) {
        Some(g) => g,
        None => return None,
    };
    if groups.len() == 0 {
        return None;
    }
    let list = match find_media_group(groups) {
        Some(l) => l,
        None => return None,
    };
    let ghost items = models_of(list@);
    let mut fallback: Option<String> = None;
    assert(items.skip(0) =~= items);
    let mut i: usize = 0;
    while i < list.len()
        invariant
            i <= list@.len(),
            items == models_of(list@),
            items.len() == list@.len(),
            video_url(artifact_data@) == video_scan(items, None),
            video_scan(items, None) == video_scan(items.skip(i as int), opt_text(fallback)),
        decreases list@.len() - i,
    {
        proof {
            crate::json::lemma_models_of(list@);
        }
        let ghost rest = items.skip(i as int);
        assert(rest[0] == list@[i as int]@);
        assert(rest.drop_first() =~= items.skip(i + 1));
        let entry = match list[i].as_array() {
            Some(e) => e,
            None => return None,
        };
        proof {
            crate::json::lemma_models_of(entry@);
        }
        if entry.len() > 2 {
            match (entry[2].as_str(), entry[0].as_str()) {
                (Some(mime), Some(url)) => {
                    if str_eq(mime.as_str(), "video/mp4") && !url.as_str().is_empty() {
                        if entry[1].as_i64() == Some(4i64) {
                            return Some(url.clone());
                        }
                        fallback = Some(url.clone());
                    }
                },
                _ => {},
            }
        }
        i = i + 1;
    }
    assert(items.skip(i as int).len() == 0);
    fallback
}

/// The image url of one top-level item, at `[2][0][1][0]`, when it starts
/// with `http` and is not a notebooklm.google.com address.
pub open spec fn infographic_candidate(it: JsonModel) -> Option<Seq<char>> {
    match then_text(then_at(then_at(then_at(it.at(2), 0), 1), 0)) {
        Some(u) => if seq_starts_with(u, "http"@) && !seq_contains(u, "notebooklm.google.com"@) {
            Some(u)
        } else {
            None
        },
        None => None,
    }
}

/// The first candidate among the items, scanning forward.
pub open spec fn infographic_scan(items: Seq<JsonModel>) -> Option<Seq<char>>
    decreases items.len(),
{
    if items.len() == 0 {
        None
    } else {
        match infographic_candidate(items[0]) {
            Some(u) => Some(u),
            None => infographic_scan(items.drop_first()),
        }
    }
}

/// The infographic image url of an artifact.
pub fn extract_infographic_url(artifact_data: &JsonValue) -> (r: Option<String>)
    ensures
        opt_text(r) == match artifact_data@ {
            JsonModel::Array(items) => infographic_scan(items),
            _ => None,
        },
{
    broadcast use group_json;

    let arr = match artifact_data.as_array() {
        Some(a) => a,
        None => return None,
    };
    let ghost items = models_of(arr@);
    assert(items.skip(0) =~= items);
    let mut i: usize = 0;
    while i < arr.len()
        invariant
            i <= arr@.len(),
            items == models_of(arr@),
            items.len() == arr@.len(),
            artifact_data@ == JsonModel::Array(items),
            infographic_scan(items) == infographic_scan(items.skip(i as int)),
        decreases arr@.len() - i,
    {
        proof {
            crate::json::lemma_models_of(arr@);
        }
        let ghost rest = items.skip(i as int);
        assert(rest[0] == arr@[i as int]@);
        assert(rest.drop_first() =~= items.skip(i + 1));
        match str_in(get_in(get_in(get_in(arr[i].get(2), 0), 1), 0)) {
            Some(u) => {
                if str_starts_with(u.as_str(), "http") && !str_contains(u.as_str(), "notebooklm.google.com") {
                    return Some(u.clone());
                }
            },
            None => {},
        }
        i = i + 1;
    }
    assert(items.skip(i as int).len() == 0);
    None
}

/// The slide deck url: `[16][4]` for `pptx` (any case), else the PDF at
/// `[16][3]`, when it is a non-empty `http` url.
pub open spec fn slide_deck_url(m: JsonModel, format: Seq<char>) -> Option<Seq<char>> {
    let index: int = if lowercase(format) == "pptx"@ { 4 } else { 3 };
    match then_arr(m.at(16)) {
        Some(meta) => match str_at(meta, index) {
            Some(u) => if u.len() == 0 || !seq_starts_with(u, "http"@) {
                None
            } else {
                Some(u)
            },
            None => None,
        },
        None => None,
    }
}

pub fn extract_slide_deck_url(artifact_data: &JsonValue, format: &str) -> (r: Option<String>)
    ensures
        opt_text(r) == slide_deck_url(artifact_data@, format@),
{
    let meta = match arr_in(artifact_data.get(16)) {
        Some(m) => m,
        None => return None,
    };
    let lower = to_lower(format);
    let index: usize = if str_eq(lower.as_str(), "pptx") { 4 } else { 3 };
    match str_in(item(meta, index)) {
        Some(u) => if u.as_str().is_empty() || !str_starts_with(u.as_str(), "http") {
            None
        } else {
            Some(u.clone())
        },
        None => None,
    }
}

/// Report markdown at index 7: the string there, or the first element of a
/// list there; `None` when empty or otherwise shaped.
pub open spec fn report_content(m: JsonModel) -> Option<Seq<char>> {
    match m.at(7) {
        Some(JsonModel::Array(a)) => if a.len() == 0 {
            None
        } else {
            nonempty(a[0].text())
        },
        Some(w) => nonempty(w.text()),
        None => None,
    }
}

pub fn extract_report_content(artifact_data: &JsonValue) -> (r: Option<String>)
    ensures
        opt_text(r) == report_content(artifact_data@),
{
    broadcast use group_json;

    let wrapper = match artifact_data.get(7) {
        Some(w) => w,
        None => return None,
    };
    let content = match wrapper.as_array() {
        Some(a) => {
            if a.len() == 0 {
                return None;
            }
            proof {
                crate::json::lemma_models_of(a@);
            }
            match a[0].as_str() {
                Some(t) => t,
                None => return None,
            }
        },
        None => match wrapper.as_str() {
            Some(t) => t,
            None => return None,
        },
    };
    if content.as_str().is_empty() {
        return None;
    }
    Some(content.clone())
}

// =========================================================================
// Data tables
// =========================================================================

/// The text of a table cell: strings as they are, arrays as the
/// concatenation of their elements' text, anything else (the integer
/// position markers among them) as nothing.
pub open spec fn cell_text(m: JsonModel) -> Seq<char>
    decreases m, 1nat,
{
    match m {
        JsonModel::Str(s) => s,
        JsonModel::Array(a) => cells_text(a),
        _ => Seq::empty(),
    }
}

/// The concatenated text of a sequence of cells.
pub open spec fn cells_text(a: Seq<JsonModel>) -> Seq<char>
    decreases a, 0nat,
{
    if a.len() == 0 {
        Seq::empty()
    } else {
        cells_text(a.drop_last()) + cell_text(a.last())
    }
}

/// The text of a (nested) table cell.
#[verifier::loop_isolation(false)]
pub fn extract_cell_text(cell: &JsonValue) -> (r: String)
    ensures
        r@ == cell_text(cell@),
    decreases cell,
{
    match cell {
        JsonValue::Str(s) => s.clone(),
        JsonValue::Array(arr) => {
            let mut out = String::new();
            let mut i: usize = 0;
            let ghost am = models_of(arr@);
            proof {
                crate::json::lemma_models_of(arr@);
            }
            assert(am.take(0) =~= Seq::<JsonModel>::empty());
            while i < arr.len()
                invariant
                    i <= arr@.len(),
                    am == models_of(arr@),
                    am.len() == arr@.len(),
                    forall|k: int| 0 <= k < arr@.len() ==> #[trigger] am[k] == arr@[k]@,
                    out@ == cells_text(am.take(i as int)),
                decreases arr@.len() - i,
            {
                proof {
                    assert(decreases_to!(*cell => *arr));
                    assert(decreases_to!(*arr => arr@[i as int]));
                }
                let t = extract_cell_text(&arr[i]);
                crate::text::push_str(&mut out, t.as_str());
                assert(am.take(i + 1).drop_last() =~= am.take(i as int));
                assert(am.take(i + 1).last() == am[i as int]);
                i = i + 1;
            }
            assert(am.take(i as int) =~= am);
            out
        },
        _ => String::new(),
    }
}

/// The text of each cell of a row.
pub open spec fn row_texts(cells: Seq<JsonModel>) -> Seq<Seq<char>> {
    cells.map_values(|c: JsonModel| cell_text(c))
}

/// One row section `[start, end, cells, ..]`: `Err` when it is not an
/// array or its cells are not an array, `Ok(None)` when it has fewer than
/// three elements (it is skipped), else the texts of its cells.
pub open spec fn row_cells(row: JsonModel) -> Result<Option<Seq<Seq<char>>>, ()> {
    match row {
        JsonModel::Array(a) => if a.len() < 3 {
            Ok(None)
        } else {
            match a[2] {
                JsonModel::Array(c) => Ok(Some(row_texts(c))),
                _ => Err(()),
            }
        },
        _ => Err(()),
    }
}

/// The data rows (all sections after the first), skipping short sections;
/// `None` when a section is malformed.
pub open spec fn data_rows(rows: Seq<JsonModel>) -> Option<Seq<Seq<Seq<char>>>>
    decreases rows.len(),
{
    if rows.len() == 0 {
        Some(Seq::empty())
    } else {
        match (data_rows(rows.drop_last()), row_cells(rows.last())) {
            (Some(prev), Ok(Some(v))) => Some(prev.push(v)),
            (Some(prev), Ok(None)) => Some(prev),
            _ => None,
        }
    }
}

/// The row sections of a data table, at `[18][0][0][0][0][4][2]`.
pub open spec fn table_rows(m: JsonModel) -> Option<Seq<JsonModel>> {
    then_arr(then_at(then_at(then_at(then_at(then_at(then_at(m.at(18), 0), 0), 0), 0), 4), 2))
}

/// What `parse_data_table` reads: the first section's cells as headers and
/// the others as rows; `None` when there are no sections, a section is
/// malformed, or there are no headers.
pub open spec fn data_table(m: JsonModel) -> Option<(Seq<Seq<char>>, Seq<Seq<Seq<char>>>)> {
    match table_rows(m) {
        Some(rows) => if rows.len() == 0 {
            None
        } else {
            match (row_cells(rows[0]), data_rows(rows.drop_first())) {
                (Ok(h), Some(body)) => {
                    let headers = match h {
                        Some(v) => v,
                        None => Seq::empty(),
                    };
                    if headers.len() == 0 {
                        None
                    } else {
                        Some((headers, body))
                    }
                },
                _ => None,
            }
        },
        None => None,
    }
}

/// The texts of rows of strings.
pub open spec fn rows_texts(v: Seq<Vec<String>>) -> Seq<Seq<Seq<char>>> {
    v.map_values(|r: Vec<String>| crate::text::texts(r@))
}

/// The cell texts of one row section, or why it has none.
fn read_row(row: &JsonValue) -> (r: Result<Option<Vec<String>>, ()>)
    ensures
        match (r, row_cells(row@)) {
            (Ok(Some(v)), Ok(Some(t))) => crate::text::texts(v@) == t,
            (Ok(None), Ok(None)) => true,
            (Err(_), Err(_)) => true,
            _ => false,
        },
{
    broadcast use group_json;

    let a = match row.as_array() {
        Some(a) => a,
        None => return Err(()),
    };
    if a.len() < 3 {
        return Ok(None);
    }
    proof {
        crate::json::lemma_models_of(a@);
    }
    let cells = match a[2].as_array() {
        Some(c) => c,
        None => return Err(()),
    };
    proof {
        crate::json::lemma_models_of(cells@);
    }
    let mut out: Vec<String> = Vec::new();
    let mut i: usize = 0;
    while i < cells.len()
        invariant
            i <= cells@.len(),
            forall|k: int| 0 <= k < cells@.len() ==> #[trigger] models_of(cells@)[k] == cells@[k]@,
            models_of(cells@).len() == cells@.len(),
            out@.len() == i,
            forall|k: int| 0 <= k < i ==> #[trigger] out@[k]@ == cell_text(cells@[k]@),
        decreases cells@.len() - i,
    {
        out.push(extract_cell_text(&cells[i]));
        i = i + 1;
    }
    assert(crate::text::texts(out@) =~= row_texts(models_of(cells@)));
    Ok(Some(out))
}

/// Headers and rows of a data table artifact, as cell texts.
pub fn parse_data_table(artifact_data: &JsonValue) -> (r: Option<(Vec<String>, Vec<Vec<String>>)>)
    ensures
        match r {
            Some((h, rows)) => data_table(artifact_data@) == Some((crate::text::texts(h@), rows_texts(rows@))),
            None => data_table(artifact_data@) is None,
        },
{
    broadcast use group_json;

    let rows = match arr_in(
        get_in(get_in(get_in(get_in(get_in(get_in(artifact_data.get(18), 0), 0), 0), 0), 4), 2),
    ) {
        Some(r) => r,
        None => return None,
    };
    if rows.len() == 0 {
        return None;
    }
    let ghost rm = models_of(rows@);
    proof {
        crate::json::lemma_models_of(rows@);
    }
    let headers: Vec<String> = match read_row(&rows[0]) {
        Ok(Some(v)) => v,
        Ok(None) => Vec::new(),
        Err(_) => return None,
    };
    let mut body: Vec<Vec<String>> = Vec::new();
    let ghost rest = rm.drop_first();
    assert(rest.take(0) =~= Seq::<JsonModel>::empty());
    assert(rows_texts(body@) =~= Seq::<Seq<Seq<char>>>::empty());
    let mut i: usize = 1;
    while i < rows.len()
        invariant
            1 <= i <= rows@.len(),
            rm == models_of(rows@),
            rm.len() == rows@.len(),
            forall|k: int| 0 <= k < rows@.len() ==> #[trigger] rm[k] == rows@[k]@,
            rest == rm.drop_first(),
            table_rows(artifact_data@) == Some(rm),
            data_rows(rest.take(i - 1)) == Some(rows_texts(body@)),
        decreases rows@.len() - i,
    {
        assert(rest.take(i as int).drop_last() =~= rest.take(i - 1));
        assert(rest.take(i as int).last() == rm[i as int]);
        let ghost before = body@;
        match read_row(&rows[i]) {
            Ok(Some(v)) => {
                body.push(v);
                assert(rows_texts(body@) =~= rows_texts(before).push(crate::text::texts(body@.last()@)));
            },
            Ok(None) => {},
            Err(_) => {
                proof {
                    assert(rest[i - 1] == rm[i as int]);
                    lemma_data_rows_stuck(rest, i as int);
                }
                return None;
            },
        }
        i = i + 1;
    }
    assert(rest.take(i - 1) =~= rest);
    if headers.len() == 0 {
        return None;
    }
    Some((headers, body))
}

/// Once a section is malformed, every longer prefix reads as `None`.
proof fn lemma_data_rows_stuck(rows: Seq<JsonModel>, n: int)
    requires
        1 <= n <= rows.len(),
        row_cells(rows[n - 1]) is Err,
    ensures
        data_rows(rows) is None,
    decreases rows.len() - n,
{
    if n == rows.len() {
        assert(rows.drop_last().len() == n - 1);
    } else {
        lemma_data_rows_stuck(rows.drop_last(), n);
        assert(rows.drop_last()[n - 1] == rows[n - 1]);
    }
}

// =========================================================================
// Quizzes and flashcards
// =========================================================================

/// The text an interactive artifact's HTML embeds in its `data-app-data`
/// attribute, with HTML entities decoded, when it is valid JSON (the caller
/// parses it).
pub fn extract_app_data(html_content: &str) -> (r: Option<String>)
    ensures
        opt_text(r) == json_only(
            match regex_group("data-app-data=\"([^\"]+)\""@, html_content@, 1) {
                Some(encoded) => Some(html_decoded(encoded)),
                None => None,
            },
        ),
{
    match regex_capture("data-app-data=\"([^\"]+)\"", html_content, 1) {
        Some(encoded) => {
            let decoded = decode_html_entities(encoded.as_str());
            if json_parses(decoded.as_str()) {
                Some(decoded)
            } else {
                None
            }
        },
        None => None,
    }
}

/// A string, or `d` when absent.
pub open spec fn text_or(o: Option<Seq<char>>, d: Seq<char>) -> Seq<char> {
    match o {
        Some(t) => t,
        None => d,
    }
}

/// `- [x] text` for a correct option, `- [ ] text` otherwise.
pub open spec fn option_line(opt: JsonModel) -> Seq<char> {
    "- "@ + (if then_bool(opt.field("isCorrect"@)) == Some(true) {
        "[x]"@
    } else {
        "[ ]"@
    }) + " "@ + text_or(then_text(opt.field("text"@)), Seq::empty())
}

/// The lines of question `i` (counted from 0) of a quiz.
pub open spec fn question_lines(i: int, q: JsonModel) -> Seq<Seq<char>> {
    seq![
        "## Question "@ + decimal((i + 1) as nat),
        text_or(then_text(q.field("question"@)), "(no question text)"@),
        Seq::empty(),
    ] + match then_arr(q.field("answerOptions"@)) {
        Some(opts) => opts.map_values(|o: JsonModel| option_line(o)),
        None => Seq::empty(),
    } + match then_text(q.field("hint"@)) {
        Some(h) => if h.len() > 0 {
            seq![Seq::empty(), "**Hint:** "@ + h]
        } else {
            Seq::empty()
        },
        None => Seq::empty(),
    } + seq![Seq::empty()]
}

/// A quiz as markdown: a title heading, then each question with its options
/// (the correct ones checked) and its hint.
pub open spec fn quiz_markdown(title: Seq<char>, qs: Seq<JsonModel>) -> Seq<char> {
    join(
        seq!["# "@ + title, Seq::empty()] + Seq::new(qs.len(), |i: int| question_lines(i, qs[i])).flatten(),
        "\n"@,
    )
}

/// Appends `body` as one line.
fn push_text(lines: &mut Vec<String>, body: &str)
    ensures
        strings_texts(final(lines)@) == strings_texts(old(lines)@).push(body@),
{
    let ghost before = lines@;
    lines.push(owned(body));
    assert(strings_texts(lines@) =~= strings_texts(before).push(body@));
}

/// Appends an empty line.
fn push_empty(lines: &mut Vec<String>)
    ensures
        strings_texts(final(lines)@) == strings_texts(old(lines)@).push(Seq::empty()),
{
    let ghost before = lines@;
    lines.push(String::new());
    assert(strings_texts(lines@) =~= strings_texts(before).push(Seq::empty()));
}

/// Appends `prefix` + `body` as one line.
fn push_line(lines: &mut Vec<String>, prefix: &str, body: &str)
    ensures
        strings_texts(final(lines)@) == strings_texts(old(lines)@).push(prefix@ + body@),
{
    let mut l = owned(prefix);
    push_str(&mut l, body);
    let ghost before = lines@;
    lines.push(l);
    assert(strings_texts(lines@) =~= strings_texts(before).push(prefix@ + body@));
}

/// Appends the lines of question `i`.
fn push_question_lines(lines: &mut Vec<String>, i: usize, q: &JsonValue)
    requires
        i < usize::MAX,
    ensures
        strings_texts(final(lines)@) == strings_texts(old(lines)@) + question_lines(i as int, q@),
{
    broadcast use group_json;

    let ghost start = strings_texts(lines@);
    let n = u64_to_string((i + 1) as u64);
    push_line(lines, "## Question ", n.as_str());
    let text = match str_in(q.get_key("question")) {
        Some(t) => t.as_str(),
        None => "(no question text)",
    };
    push_text(lines, text);
    push_empty(lines);
    let ghost head = strings_texts(lines@);
    match arr_in(q.get_key("answerOptions")) {
        Some(opts) => {
            proof {
                crate::json::lemma_models_of(opts@);
            }
            let mut k: usize = 0;
            while k < opts.len()
                invariant
                    k <= opts@.len(),
                    forall|j: int| 0 <= j < opts@.len() ==> #[trigger] models_of(opts@)[j] == opts@[j]@,
                    models_of(opts@).len() == opts@.len(),
                    strings_texts(lines@) == head + models_of(opts@).take(k as int).map_values(
                        |o: JsonModel| option_line(o),
                    ),
                decreases opts@.len() - k,
            {
                let opt = &opts[k];
                let t = match str_in(opt.get_key("text")) {
                    Some(t) => t.as_str(),
                    None => "",
                };
                let correct = match bool_in(opt.get_key("isCorrect")) {
                    Some(b) => b,
                    None => false,
                };
                let marker = if correct { "- [x] " } else { "- [ ] " };
                push_line(lines, marker, t);
                proof {
                    crate::text::lemma_empty_literal();
                    reveal_strlit("- [x] ");
                    reveal_strlit("- [ ] ");
                    reveal_strlit("- ");
                    reveal_strlit("[x]");
                    reveal_strlit("[ ]");
                    reveal_strlit(" ");
                    reveal_strlit("");
                    assert(models_of(opts@).take(k + 1) =~= models_of(opts@).take(k as int).push(opts@[k as int]@));
                    assert(option_line(opts@[k as int]@) =~= marker@ + t@);
                }
                k = k + 1;
            }
            assert(models_of(opts@).take(k as int) =~= models_of(opts@));
        },
        None => {
            assert(head + Seq::<Seq<char>>::empty() =~= head);
        },
    }
    let ghost with_opts = strings_texts(lines@);
    match str_in(q.get_key("hint")) {
        Some(h) => {
            if !h.as_str().is_empty() {
                push_empty(lines);
                push_line(lines, "**Hint:** ", h.as_str());
            }
        },
        None => {},
    }
    push_empty(lines);
    proof {
        crate::text::lemma_empty_literal();
        assert(strings_texts(lines@) =~= start + question_lines(i as int, q@));
    }
}

/// A quiz as markdown.
pub fn format_quiz_markdown(title: &str, questions: &[JsonValue]) -> (r: String)
    ensures
        r@ == quiz_markdown(title@, models_of(questions@)),
{
    broadcast use group_json;
    broadcast use vstd::seq_lib::group_seq_properties;

    let mut lines: Vec<String> = Vec::new();
    push_line(&mut lines, "# ", title);
    push_empty(&mut lines);
    proof {
        crate::text::lemma_empty_literal();
        crate::json::lemma_models_of(questions@);
    }
    let ghost qs = models_of(questions@);
    let ghost head = strings_texts(lines@);
    assert(head =~= seq!["# "@ + title@, Seq::<char>::empty()]);
    let mut i: usize = 0;
    assert(Seq::new(0, |j: int| question_lines(j, qs[j])).flatten() =~= Seq::<Seq<char>>::empty());
    while i < questions.len()
        invariant
            i <= questions@.len(),
            qs == models_of(questions@),
            qs.len() == questions@.len(),
            forall|j: int| 0 <= j < questions@.len() ==> #[trigger] qs[j] == questions@[j]@,
            head == seq!["# "@ + title@, Seq::<char>::empty()],
            strings_texts(lines@) == head + Seq::new(i as nat, |j: int| question_lines(j, qs[j])).flatten(),
        decreases questions@.len() - i,
    {
        push_question_lines(&mut lines, i, &questions[i]);
        proof {
            let f = |j: int| question_lines(j, qs[j]);
            assert(Seq::new((i + 1) as nat, f) =~= Seq::new(i as nat, f).push(f(i as int)));
            Seq::new(i as nat, f).lemma_flatten_push(f(i as int));
        }
        i = i + 1;
    }
    join_strings(&lines, "\n")
}

/// The lines of card `i` (counted from 0) of a flashcard deck.
pub open spec fn card_lines(i: int, card: JsonModel) -> Seq<Seq<char>> {
    seq![
        "## Card "@ + decimal((i + 1) as nat),
        Seq::empty(),
        "**Q:** "@ + text_or(then_text(card.field("f"@)), Seq::empty()),
        Seq::empty(),
        "**A:** "@ + text_or(then_text(card.field("b"@)), Seq::empty()),
        Seq::empty(),
        "---"@,
        Seq::empty(),
    ]
}

/// A flashcard deck as markdown: a title heading, then each card's front and
/// back.
pub open spec fn flashcards_markdown(title: Seq<char>, cards: Seq<JsonModel>) -> Seq<char> {
    join(
        seq!["# "@ + title, Seq::empty()] + Seq::new(cards.len(), |i: int| card_lines(i, cards[i])).flatten(),
        "\n"@,
    )
}

/// A flashcard deck as markdown.
pub fn format_flashcards_markdown(title: &str, cards: &[JsonValue]) -> (r: String)
    ensures
        r@ == flashcards_markdown(title@, models_of(cards@)),
{
    broadcast use group_json;
    broadcast use vstd::seq_lib::group_seq_properties;

    let mut lines: Vec<String> = Vec::new();
    push_line(&mut lines, "# ", title);
    push_empty(&mut lines);
    proof {
        crate::text::lemma_empty_literal();
        crate::json::lemma_models_of(cards@);
    }
    let ghost cs = models_of(cards@);
    let ghost head = strings_texts(lines@);
    assert(head =~= seq!["# "@ + title@, Seq::<char>::empty()]);
    let mut i: usize = 0;
    assert(Seq::new(0, |j: int| card_lines(j, cs[j])).flatten() =~= Seq::<Seq<char>>::empty());
    while i < cards.len()
        invariant
            i <= cards@.len(),
            cs == models_of(cards@),
            cs.len() == cards@.len(),
            forall|j: int| 0 <= j < cards@.len() ==> #[trigger] cs[j] == cards@[j]@,
            head == seq!["# "@ + title@, Seq::<char>::empty()],
            strings_texts(lines@) == head + Seq::new(i as nat, |j: int| card_lines(j, cs[j])).flatten(),
        decreases cards@.len() - i,
    {
        let card = &cards[i];
        let ghost before = strings_texts(lines@);
        let front = match str_in(card.get_key("f")) {
            Some(t) => t.as_str(),
            None => "",
        };
        let back = match str_in(card.get_key("b")) {
            Some(t) => t.as_str(),
            None => "",
        };
        let n = u64_to_string((i + 1) as u64);
        push_line(&mut lines, "## Card ", n.as_str());
        push_empty(&mut lines);
        push_line(&mut lines, "**Q:** ", front);
        push_empty(&mut lines);
        push_line(&mut lines, "**A:** ", back);
        push_empty(&mut lines);
        push_text(&mut lines, "---");
        push_empty(&mut lines);
        proof {
            crate::text::lemma_empty_literal();
            let f = |j: int| card_lines(j, cs[j]);
            assert(strings_texts(lines@) =~= before + f(i as int));
            assert(Seq::new((i + 1) as nat, f) =~= Seq::new(i as nat, f).push(f(i as int)));
            Seq::new(i as nat, f).lemma_flatten_push(f(i as int));
        }
        i = i + 1;
    }
    join_strings(&lines, "\n")
}

// =========================================================================
// Notes and mind maps
// =========================================================================

/// The content of a note item: `item[1]` when it is a string, or
/// `item[1][1]` when `item[1]` is an array of more than one element.
pub open spec fn note_content(m: JsonModel) -> Option<Seq<char>> {
    match m.at(1) {
        Some(JsonModel::Str(s)) => Some(s),
        Some(JsonModel::Array(a)) => if a.len() > 1 {
            a[1].text()
        } else {
            None
        },
        _ => None,
    }
}

pub fn extract_note_content(item: &JsonValue) -> (r: Option<String>)
    ensures
        opt_text(r) == note_content(item@),
{
    broadcast use group_json;

    let field = match item.get(1) {
        Some(f) => f,
        None => return None,
    };
    match field {
        JsonValue::Str(s) => Some(s.clone()),
        JsonValue::Array(a) => {
            proof {
                crate::json::lemma_models_of(a@);
            }
            if a.len() > 1 {
                match a[1].as_str() {
                    Some(s) => Some(s.clone()),
                    None => None,
                }
            } else {
                None
            }
        },
        _ => None,
    }
}

/// A note is a mind map when its content holds `"children":` or `"nodes":`.
pub open spec fn mind_map_item(m: JsonModel) -> bool {
    match note_content(m) {
        Some(c) => seq_contains(c, "\"children\":"@) || seq_contains(c, "\"nodes\":"@),
        None => false,
    }
}

pub fn is_mind_map_item(item: &JsonValue) -> (r: bool)
    ensures
        r == mind_map_item(item@),
{
    match extract_note_content(item) {
        Some(c) => str_contains(c.as_str(), "\"children\":") || str_contains(c.as_str(), "\"nodes\":"),
        None => false,
    }
}

/// The mind map JSON text of a note item: its content, when that is valid
/// JSON (the caller parses it).
pub fn extract_mind_map_json(item: &JsonValue) -> (r: Option<String>)
    ensures
        opt_text(r) == json_only(note_content(item@)),
{
    match extract_note_content(item) {
        Some(c) => if json_parses(c.as_str()) {
            Some(c)
        } else {
            None
        },
        None => None,
    }
}

} // verus!
