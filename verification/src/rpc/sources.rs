//! Payloads of the source RPCs (`izAoDd`, `o4cbdc`) as positional arrays,
//! and the body of an upload session.

use vstd::prelude::*;
use crate::json::{JsonModel, JsonValue, models_of, entries_of, jstr, jarr, jarr1, jint, push_val, push_entry, group_json};
use crate::rpc::artifacts::{m_int, m_str, m_arr};
use crate::text::{owned, push_str, decimal, u64_to_string};

verus! {

/// An optional value as sent: `null` when absent.
pub open spec fn opt_json(o: Option<JsonValue>) -> JsonModel {
    match o {
        Some(v) => v@,
        None => JsonModel::Null,
    }
}

/// Strings as an array of string values.
pub open spec fn strings_model(v: Seq<String>) -> JsonModel {
    m_arr(Seq::new(v.len(), |i: int| m_str(v[i]@)))
}

fn opt_value(o: &Option<JsonValue>) -> (r: JsonValue)
    ensures
        r@ == opt_json(*o),
{
    match o {
        Some(v) => v.deep_clone(),
        None => JsonValue::Null,
    }
}

fn strings_value(v: &Vec<String>) -> (r: JsonValue)
    ensures
        r@ == strings_model(v@),
{
    let mut out: Vec<JsonValue> = Vec::new();
    let mut i: usize = 0;
    while i < v.len()
        invariant
            i <= v@.len(),
            models_of(out@) == Seq::new(i as nat, |k: int| m_str(v@[k]@)),
        decreases v@.len() - i,
    {
        push_val(&mut out, jstr(v[i].as_str()));
        i = i + 1;
        assert(models_of(out@) =~= Seq::new(i as nat, |k: int| m_str(v@[k]@)));
    }
    jarr(out)
}

/// The source of a web page: `[null, null, [url], null, null, null, null, null]`.
#[derive(Debug)]
pub struct UrlSourceInner {
    pub p0: Option<JsonValue>,
    pub p1: Option<JsonValue>,
    pub p2: Vec<String>,
    pub p3: Option<JsonValue>,
    pub p4: Option<JsonValue>,
    pub p5: Option<JsonValue>,
    pub p6: Option<JsonValue>,
    pub p7: Option<JsonValue>,
}

impl UrlSourceInner {
    pub open spec fn model(&self) -> JsonModel {
        m_arr(
            seq![
                opt_json(self.p0),
                opt_json(self.p1),
                strings_model(self.p2@),
                opt_json(self.p3),
                opt_json(self.p4),
                opt_json(self.p5),
                opt_json(self.p6),
                opt_json(self.p7),
            ],
        )
    }

    pub fn new(url: &str) -> (r: UrlSourceInner)
        ensures
            r.p0 is None && r.p1 is None && r.p3 is None && r.p4 is None && r.p5 is None && r.p6 is None
                && r.p7 is None,
            r.p2@.len() == 1,
            r.p2@[0]@ == url@,
    {
        let mut p2: Vec<String> = Vec::new();
        p2.push(owned(url));
        UrlSourceInner { p0: None, p1: None, p2, p3: None, p4: None, p5: None, p6: None, p7: None }
    }

    /// The positional array sent on the wire.
    pub fn to_json_array(&self) -> (r: JsonValue)
        ensures
            r@ == self.model(),
    {
        let mut v: Vec<JsonValue> = Vec::new();
        push_val(&mut v, opt_value(&self.p0));
        push_val(&mut v, opt_value(&self.p1));
        push_val(&mut v, strings_value(&self.p2));
        push_val(&mut v, opt_value(&self.p3));
        push_val(&mut v, opt_value(&self.p4));
        push_val(&mut v, opt_value(&self.p5));
        push_val(&mut v, opt_value(&self.p6));
        push_val(&mut v, opt_value(&self.p7));
        assert(models_of(v@) =~= self.model()->Array_0);
        jarr(v)
    }
}

/// The source of a YouTube video: `[null x7, [url], null, null, 1]`.
#[derive(Debug)]
pub struct YoutubeSourceInner {
    pub p0: Option<JsonValue>,
    pub p1: Option<JsonValue>,
    pub p2: Option<JsonValue>,
    pub p3: Option<JsonValue>,
    pub p4: Option<JsonValue>,
    pub p5: Option<JsonValue>,
    pub p6: Option<JsonValue>,
    pub p7: Vec<String>,
    pub p8: Option<JsonValue>,
    pub p9: Option<JsonValue>,
    pub p10: u8,
}

impl YoutubeSourceInner {
    pub open spec fn model(&self) -> JsonModel {
        m_arr(
            seq![
                opt_json(self.p0),
                opt_json(self.p1),
                opt_json(self.p2),
                opt_json(self.p3),
                opt_json(self.p4),
                opt_json(self.p5),
                opt_json(self.p6),
                strings_model(self.p7@),
                opt_json(self.p8),
                opt_json(self.p9),
                JsonModel::PosInt(self.p10 as u64),
            ],
        )
    }

    pub fn new(url: &str) -> (r: YoutubeSourceInner)
        ensures
            r.p0 is None && r.p1 is None && r.p2 is None && r.p3 is None && r.p4 is None && r.p5 is None
                && r.p6 is None && r.p8 is None && r.p9 is None,
            r.p7@.len() == 1,
            r.p7@[0]@ == url@,
            r.p10 == 1,
    {
        let mut p7: Vec<String> = Vec::new();
        p7.push(owned(url));
        YoutubeSourceInner {
            p0: None,
            p1: None,
            p2: None,
            p3: None,
            p4: None,
            p5: None,
            p6: None,
            p7,
            p8: None,
            p9: None,
            p10: 1,
        }
    }

    /// The positional array sent on the wire.
    pub fn to_json_array(&self) -> (r: JsonValue)
        ensures
            r@ == self.model(),
    {
        let mut v: Vec<JsonValue> = Vec::new();
        push_val(&mut v, opt_value(&self.p0));
        push_val(&mut v, opt_value(&self.p1));
        push_val(&mut v, opt_value(&self.p2));
        push_val(&mut v, opt_value(&self.p3));
        push_val(&mut v, opt_value(&self.p4));
        push_val(&mut v, opt_value(&self.p5));
        push_val(&mut v, opt_value(&self.p6));
        push_val(&mut v, strings_value(&self.p7));
        push_val(&mut v, opt_value(&self.p8));
        push_val(&mut v, opt_value(&self.p9));
        push_val(&mut v, JsonValue::PosInt(self.p10 as u64));
        assert(models_of(v@) =~= self.model()->Array_0);
        jarr(v)
    }
}

/// The source of a Google Drive file, wrapped once:
/// `[[file_id, mime_type, 1, title], null x9, 1]`.
#[derive(Debug)]
pub struct DriveSourceInner {
    pub file_info: Vec<JsonValue>,
    pub p1: Option<JsonValue>,
    pub p2: Option<JsonValue>,
    pub p3: Option<JsonValue>,
    pub p4: Option<JsonValue>,
    pub p5: Option<JsonValue>,
    pub p6: Option<JsonValue>,
    pub p7: Option<JsonValue>,
    pub p8: Option<JsonValue>,
    pub p9: Option<JsonValue>,
    pub p10: u8,
}

impl DriveSourceInner {
    pub open spec fn model(&self) -> JsonModel {
        m_arr(
            seq![
                m_arr(models_of(self.file_info@)),
                opt_json(self.p1),
                opt_json(self.p2),
                opt_json(self.p3),
                opt_json(self.p4),
                opt_json(self.p5),
                opt_json(self.p6),
                opt_json(self.p7),
                opt_json(self.p8),
                opt_json(self.p9),
                JsonModel::PosInt(self.p10 as u64),
            ],
        )
    }

    pub fn new(file_id: &str, mime_type: &str, title: &str) -> (r: DriveSourceInner)
        ensures
            models_of(r.file_info@) == seq![m_str(file_id@), m_str(mime_type@), m_int(1), m_str(title@)],
            r.p1 is None && r.p2 is None && r.p3 is None && r.p4 is None && r.p5 is None && r.p6 is None
                && r.p7 is None && r.p8 is None && r.p9 is None,
            r.p10 == 1,
    {
        let mut file_info: Vec<JsonValue> = Vec::new();
        push_val(&mut file_info, jstr(file_id));
        push_val(&mut file_info, jstr(mime_type));
        push_val(&mut file_info, jint(1));
        push_val(&mut file_info, jstr(title));
        assert(models_of(file_info@) =~= seq![m_str(file_id@), m_str(mime_type@), m_int(1), m_str(title@)]);
        DriveSourceInner {
            file_info,
            p1: None,
            p2: None,
            p3: None,
            p4: None,
            p5: None,
            p6: None,
            p7: None,
            p8: None,
            p9: None,
            p10: 1,
        }
    }

    /// The positional array sent on the wire.
    pub fn to_json_array(&self) -> (r: JsonValue)
        ensures
            r@ == self.model(),
    {
        let mut info: Vec<JsonValue> = Vec::new();
        let mut i: usize = 0;
        while i < self.file_info.len()
            invariant
                i <= self.file_info@.len(),
                models_of(info@) == models_of(self.file_info@).take(i as int),
            decreases self.file_info@.len() - i,
        {
            proof {
                crate::json::lemma_models_of(self.file_info@);
            }
            push_val(&mut info, self.file_info[i].deep_clone());
            assert(models_of(info@) =~= models_of(self.file_info@).take(i + 1));
            i = i + 1;
        }
        proof {
            crate::json::lemma_models_of(self.file_info@);
        }
        assert(models_of(self.file_info@).take(i as int) =~= models_of(self.file_info@));
        let mut v: Vec<JsonValue> = Vec::new();
        push_val(&mut v, jarr(info));
        push_val(&mut v, opt_value(&self.p1));
        push_val(&mut v, opt_value(&self.p2));
        push_val(&mut v, opt_value(&self.p3));
        push_val(&mut v, opt_value(&self.p4));
        push_val(&mut v, opt_value(&self.p5));
        push_val(&mut v, opt_value(&self.p6));
        push_val(&mut v, opt_value(&self.p7));
        push_val(&mut v, opt_value(&self.p8));
        push_val(&mut v, opt_value(&self.p9));
        push_val(&mut v, JsonValue::PosInt(self.p10 as u64));
        assert(models_of(v@) =~= self.model()->Array_0);
        jarr(v)
    }
}

/// Body of the request that starts a resumable upload; its JSON names are
/// upper case (`PROJECT_ID`, `SOURCE_NAME`, `SOURCE_ID`).
#[derive(Debug, Clone)]
pub struct UploadSessionBody {
    pub project_id: String,
    pub source_name: String,
    pub source_id: String,
}

impl UploadSessionBody {
    pub fn new(notebook_id: &str, filename: &str, source_id: &str) -> (r: UploadSessionBody)
        ensures
            r.project_id@ == notebook_id@,
            r.source_name@ == filename@,
            r.source_id@ == source_id@,
    {
        UploadSessionBody { project_id: owned(notebook_id), source_name: owned(filename), source_id: owned(source_id) }
    }

    /// The body as sent: `{"PROJECT_ID", "SOURCE_NAME", "SOURCE_ID"}`.
    pub open spec fn json_model(&self) -> JsonModel {
        JsonModel::Object(
            seq![
                ("PROJECT_ID"@, m_str(self.project_id@)),
                ("SOURCE_NAME"@, m_str(self.source_name@)),
                ("SOURCE_ID"@, m_str(self.source_id@)),
            ],
        )
    }

    /// The JSON object sent, with upper-case field names.
    pub fn to_json(&self) -> (r: JsonValue)
        ensures
            r@ == self.json_model(),
    {
        let mut e: Vec<(String, JsonValue)> = Vec::new();
        push_entry(&mut e, "PROJECT_ID", jstr(self.project_id.as_str()));
        push_entry(&mut e, "SOURCE_NAME", jstr(self.source_name.as_str()));
        push_entry(&mut e, "SOURCE_ID", jstr(self.source_id.as_str()));
        assert(entries_of(e@) =~= self.json_model()->Object_0);
        JsonValue::Object(e)
    }
}

/// Where files are uploaded.
pub const UPLOAD_URL: &'static str = "https://notebooklm.google.com/upload/_/";

/// The address that starts an upload session.
pub open spec fn upload_session_url_text() -> Seq<char> {
    UPLOAD_URL@ + "?authuser=0"@
}

pub fn upload_session_url() -> (r: String)
    ensures
        r@ == upload_session_url_text(),
{
    let mut u = owned(UPLOAD_URL);
    push_str(&mut u, "?authuser=0");
    u
}

/// The headers that start a resumable upload of `file_size` bytes.
pub open spec fn upload_start_headers(file_size: u64) -> Seq<(Seq<char>, Seq<char>)> {
    seq![
        ("Content-Type"@, "application/json"@),
        ("x-goog-upload-command"@, "start"@),
        ("x-goog-upload-protocol"@, "resumable"@),
        ("x-goog-upload-header-content-length"@, decimal(file_size as nat)),
        ("x-goog-upload-header-content-type"@, "application/octet-stream"@),
    ]
}

fn pair(name: &str, value: String) -> (r: (String, String))
    ensures
        r.0@ == name@,
        r.1@ == value@,
{
    (owned(name), value)
}

/// The headers of the request that starts an upload session.
pub fn upload_start_header_list(file_size: u64) -> (r: Vec<(String, String)>)
    ensures
        r@.map_values(|p: (String, String)| (p.0@, p.1@)) == upload_start_headers(file_size),
{
    let mut h: Vec<(String, String)> = Vec::new();
    h.push(pair("Content-Type", owned("application/json")));
    h.push(pair("x-goog-upload-command", owned("start")));
    h.push(pair("x-goog-upload-protocol", owned("resumable")));
    h.push(pair("x-goog-upload-header-content-length", u64_to_string(file_size)));
    h.push(pair("x-goog-upload-header-content-type", owned("application/octet-stream")));
    assert(h@.map_values(|p: (String, String)| (p.0@, p.1@)) =~= upload_start_headers(file_size));
    h
}

/// The headers of the request that sends the file's bytes.
pub open spec fn upload_finish_headers() -> Seq<(Seq<char>, Seq<char>)> {
    seq![("x-goog-upload-command"@, "upload, finalize"@), ("x-goog-upload-offset"@, "0"@)]
}

pub fn upload_finish_header_list() -> (r: Vec<(String, String)>)
    ensures
        r@.map_values(|p: (String, String)| (p.0@, p.1@)) == upload_finish_headers(),
{
    let mut h: Vec<(String, String)> = Vec::new();
    h.push(pair("x-goog-upload-command", owned("upload, finalize")));
    h.push(pair("x-goog-upload-offset", owned("0")));
    assert(h@.map_values(|p: (String, String)| (p.0@, p.1@)) =~= upload_finish_headers());
    h
}

/// The upload address a session answer carries in `x-goog-upload-url`.
pub fn upload_url_of(header: Option<&str>) -> (r: Result<String, String>)
    ensures
        match header {
            Some(u) => r matches Ok(v) && v@ == u@,
            None => r matches Err(e) && e@ == "Response missing x-goog-upload-url header"@,
        },
{
    match header {
        Some(u) => Ok(owned(u)),
        None => Err(owned("Response missing x-goog-upload-url header")),
    }
}

/// `[1, null x9, [1]]`, the settings shared by YouTube, Drive and file sources.
pub open spec fn source_config_model() -> JsonModel {
    let n = JsonModel::Null;
    m_arr(seq![m_int(1), n, n, n, n, n, n, n, n, n, m_arr(seq![m_int(1)])])
}

pub fn source_config() -> (r: JsonValue)
    ensures
        r@ == source_config_model(),
{
    let mut v: Vec<JsonValue> = Vec::new();
    push_val(&mut v, jint(1));
    let mut i: usize = 0;
    while i < 9
        invariant
            i <= 9,
            models_of(v@) == seq![m_int(1)] + Seq::new(i as nat, |k: int| JsonModel::Null),
        decreases 9 - i,
    {
        push_val(&mut v, JsonValue::Null);
        i = i + 1;
        assert(models_of(v@) =~= seq![m_int(1)] + Seq::new(i as nat, |k: int| JsonModel::Null));
    }
    push_val(&mut v, jarr1(jint(1)));
    assert(models_of(v@) =~~= source_config_model()->Array_0);
    jarr(v)
}

/// `[[url source], notebook_id, [2], null, null]`
pub open spec fn url_params_model(notebook_id: Seq<char>, url: Seq<char>) -> JsonModel {
    let n = JsonModel::Null;
    m_arr(
        seq![
            m_arr(seq![m_arr(seq![n, n, m_arr(seq![m_str(url)]), n, n, n, n, n])]),
            m_str(notebook_id),
            m_arr(seq![m_int(2)]),
            n,
            n,
        ],
    )
}

/// Params of `izAoDd` for a web page.
pub fn build_url_source_params(notebook_id: &str, url: &str) -> (r: JsonValue)
    ensures
        r@ == url_params_model(notebook_id@, url@),
{
    let inner = UrlSourceInner::new(url);
    let src = inner.to_json_array();
    assert(Seq::new(1, |k: int| m_str(inner.p2@[k]@)) =~= seq![m_str(url@)]);
    let mut v: Vec<JsonValue> = Vec::new();
    push_val(&mut v, jarr1(src));
    push_val(&mut v, jstr(notebook_id));
    push_val(&mut v, jarr1(jint(2)));
    push_val(&mut v, JsonValue::Null);
    push_val(&mut v, JsonValue::Null);
    assert(models_of(v@) =~~= url_params_model(notebook_id@, url@)->Array_0);
    jarr(v)
}

/// `[[youtube source], notebook_id, [2], config]`
pub open spec fn youtube_params_model(notebook_id: Seq<char>, url: Seq<char>) -> JsonModel {
    let n = JsonModel::Null;
    m_arr(
        seq![
            m_arr(seq![m_arr(seq![n, n, n, n, n, n, n, m_arr(seq![m_str(url)]), n, n, m_int(1)])]),
            m_str(notebook_id),
            m_arr(seq![m_int(2)]),
            source_config_model(),
        ],
    )
}

/// Params of `izAoDd` for a YouTube video.
pub fn build_youtube_source_params(notebook_id: &str, url: &str) -> (r: JsonValue)
    ensures
        r@ == youtube_params_model(notebook_id@, url@),
{
    let inner = YoutubeSourceInner::new(url);
    let src = inner.to_json_array();
    assert(Seq::new(1, |k: int| m_str(inner.p7@[k]@)) =~= seq![m_str(url@)]);
    let mut v: Vec<JsonValue> = Vec::new();
    push_val(&mut v, jarr1(src));
    push_val(&mut v, jstr(notebook_id));
    push_val(&mut v, jarr1(jint(2)));
    push_val(&mut v, source_config());
    assert(models_of(v@) =~~= youtube_params_model(notebook_id@, url@)->Array_0);
    jarr(v)
}

/// `[[drive source], notebook_id, [2], config]`
pub open spec fn drive_params_model(notebook_id: Seq<char>, file_id: Seq<char>, mime_type: Seq<char>, title: Seq<char>) -> JsonModel {
    let n = JsonModel::Null;
    m_arr(
        seq![
            m_arr(seq![m_arr(seq![
                m_arr(seq![m_str(file_id), m_str(mime_type), m_int(1), m_str(title)]),
                n,
                n,
                n,
                n,
                n,
                n,
                n,
                n,
                n,
                m_int(1),
            ])]),
            m_str(notebook_id),
            m_arr(seq![m_int(2)]),
            source_config_model(),
        ],
    )
}

/// Params of `izAoDd` for a Drive file.
pub fn build_drive_source_params(notebook_id: &str, file_id: &str, mime_type: &str, title: &str) -> (r: JsonValue)
    ensures
        r@ == drive_params_model(notebook_id@, file_id@, mime_type@, title@),
{
    let inner = DriveSourceInner::new(file_id, mime_type, title);
    let src = inner.to_json_array();
    let mut v: Vec<JsonValue> = Vec::new();
    push_val(&mut v, jarr1(src));
    push_val(&mut v, jstr(notebook_id));
    push_val(&mut v, jarr1(jint(2)));
    push_val(&mut v, source_config());
    assert(models_of(v@) =~~= drive_params_model(notebook_id@, file_id@, mime_type@, title@)->Array_0);
    jarr(v)
}

/// `[[[filename]], notebook_id, [2], config]`
pub open spec fn file_register_params_model(notebook_id: Seq<char>, filename: Seq<char>) -> JsonModel {
    m_arr(
        seq![
            m_arr(seq![m_arr(seq![m_str(filename)])]),
            m_str(notebook_id),
            m_arr(seq![m_int(2)]),
            source_config_model(),
        ],
    )
}

/// Params of `o4cbdc` (register a file before its upload).
pub fn build_file_register_params(notebook_id: &str, filename: &str) -> (r: JsonValue)
    ensures
        r@ == file_register_params_model(notebook_id@, filename@),
{
    let mut v: Vec<JsonValue> = Vec::new();
    push_val(&mut v, jarr1(jarr1(jstr(filename))));
    push_val(&mut v, jstr(notebook_id));
    push_val(&mut v, jarr1(jint(2)));
    push_val(&mut v, source_config());
    assert(models_of(v@) =~~= file_register_params_model(notebook_id@, filename@)->Array_0);
    jarr(v)
}

} // verus!
