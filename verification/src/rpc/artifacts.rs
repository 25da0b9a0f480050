//! Typed codes for artifact generation and the positional payloads that the
//! batchexecute endpoint expects for them.

use vstd::prelude::*;

pub mod rpc_ids;
use crate::json::{JsonModel, JsonValue, models_of, jstr, jarr, jarr1, jarr2, jint, int_model, push_val};
use crate::text::{owned, str_eq, to_lower, lowercase, all_ascii, ascii_lower, ascii_lower_char, push_str};

verus! {

broadcast use vstd::std_specs::vec::group_vec_axioms;

// =========================================================================
// Core type enums
// =========================================================================

/// Artifact type code sent on the wire (position 2 of an artifact entry).
#[derive(Debug, Clone, Copy, PartialEq, Eq, Structural)]
pub enum ArtifactTypeCode {
    Audio,
    Report,
    Video,
    QuizFlashcards,
    MindMap,
    Infographic,
    SlideDeck,
    DataTable,
}

impl ArtifactTypeCode {
    pub open spec fn spec_code(self) -> i32 {
        match self {
            ArtifactTypeCode::Audio => 1,
            ArtifactTypeCode::Report => 2,
            ArtifactTypeCode::Video => 3,
            ArtifactTypeCode::QuizFlashcards => 4,
            ArtifactTypeCode::MindMap => 5,
            ArtifactTypeCode::Infographic => 7,
            ArtifactTypeCode::SlideDeck => 8,
            ArtifactTypeCode::DataTable => 9,
        }
    }

    pub open spec fn spec_from_code(code: i32) -> Option<ArtifactTypeCode> {
        if code == 1 {
            Some(ArtifactTypeCode::Audio)
        } else if code == 2 {
            Some(ArtifactTypeCode::Report)
        } else if code == 3 {
            Some(ArtifactTypeCode::Video)
        } else if code == 4 {
            Some(ArtifactTypeCode::QuizFlashcards)
        } else if code == 5 {
            Some(ArtifactTypeCode::MindMap)
        } else if code == 7 {
            Some(ArtifactTypeCode::Infographic)
        } else if code == 8 {
            Some(ArtifactTypeCode::SlideDeck)
        } else if code == 9 {
            Some(ArtifactTypeCode::DataTable)
        } else {
            None
        }
    }

    /// The integer code for the wire format.
    pub fn code(self) -> (r: i32)
        ensures
            r == self.spec_code(),
    {
        match self {
            ArtifactTypeCode::Audio => 1,
            ArtifactTypeCode::Report => 2,
            ArtifactTypeCode::Video => 3,
            ArtifactTypeCode::QuizFlashcards => 4,
            ArtifactTypeCode::MindMap => 5,
            ArtifactTypeCode::Infographic => 7,
            ArtifactTypeCode::SlideDeck => 8,
            ArtifactTypeCode::DataTable => 9,
        }
    }

    /// Parses an integer code from an API response.
    pub fn from_code(code: i32) -> (r: Option<ArtifactTypeCode>)
        ensures
            r == Self::spec_from_code(code),
    {
        match code {
            1 => Some(ArtifactTypeCode::Audio),
            2 => Some(ArtifactTypeCode::Report),
            3 => Some(ArtifactTypeCode::Video),
            4 => Some(ArtifactTypeCode::QuizFlashcards),
            5 => Some(ArtifactTypeCode::MindMap),
            7 => Some(ArtifactTypeCode::Infographic),
            8 => Some(ArtifactTypeCode::SlideDeck),
            9 => Some(ArtifactTypeCode::DataTable),
            _ => None,
        }
    }
}

/// Parsing the code of a type code gives the type code back, and a code that
/// parses gives back exactly that code.
pub proof fn law_type_code_roundtrip(t: ArtifactTypeCode, code: i32)
    ensures
        ArtifactTypeCode::spec_from_code(t.spec_code()) == Some(t),
        ArtifactTypeCode::spec_from_code(code) matches Some(u) ==> u.spec_code() == code,
{
}

/// Artifact processing status (position 4 of an artifact entry).
#[derive(Debug, Clone, Copy, PartialEq, Eq, Structural)]
pub enum ArtifactStatus {
    Processing,
    Pending,
    Completed,
    Failed,
}

impl ArtifactStatus {
    pub open spec fn spec_code(self) -> i32 {
        match self {
            ArtifactStatus::Processing => 1,
            ArtifactStatus::Pending => 2,
            ArtifactStatus::Completed => 3,
            ArtifactStatus::Failed => 4,
        }
    }

    pub open spec fn spec_from_code(code: i32) -> Option<ArtifactStatus> {
        if code == 1 {
            Some(ArtifactStatus::Processing)
        } else if code == 2 {
            Some(ArtifactStatus::Pending)
        } else if code == 3 {
            Some(ArtifactStatus::Completed)
        } else if code == 4 {
            Some(ArtifactStatus::Failed)
        } else {
            None
        }
    }

    /// The label printed for a status.
    pub open spec fn label(self) -> Seq<char> {
        match self {
            ArtifactStatus::Processing => "PROCESSING"@,
            ArtifactStatus::Pending => "PENDING"@,
            ArtifactStatus::Completed => "COMPLETED"@,
            ArtifactStatus::Failed => "FAILED"@,
        }
    }

    pub fn code(self) -> (r: i32)
        ensures
            r == self.spec_code(),
    {
        match self {
            ArtifactStatus::Processing => 1,
            ArtifactStatus::Pending => 2,
            ArtifactStatus::Completed => 3,
            ArtifactStatus::Failed => 4,
        }
    }

    pub fn from_code(code: i32) -> (r: Option<ArtifactStatus>)
        ensures
            r == Self::spec_from_code(code),
    {
        match code {
            1 => Some(ArtifactStatus::Processing),
            2 => Some(ArtifactStatus::Pending),
            3 => Some(ArtifactStatus::Completed),
            4 => Some(ArtifactStatus::Failed),
            _ => None,
        }
    }

    /// The upper-case label of the status.
    pub fn to_string(&self) -> (r: String)
        ensures
            r@ == self.label(),
    {
        match self {
            ArtifactStatus::Processing => owned("PROCESSING"),
            ArtifactStatus::Pending => owned("PENDING"),
            ArtifactStatus::Completed => owned("COMPLETED"),
            ArtifactStatus::Failed => owned("FAILED"),
        }
    }
}

/// Status codes round-trip through `from_code`.
pub proof fn law_status_roundtrip(s: ArtifactStatus, code: i32)
    ensures
        ArtifactStatus::spec_from_code(s.spec_code()) == Some(s),
        ArtifactStatus::spec_from_code(code) matches Some(u) ==> u.spec_code() == code,
{
}


/// Result of an artifact generation request: the task id and initial status,
/// with error details when the generation was refused.
#[derive(Debug, Clone)]
pub struct GenerationStatus {
    pub task_id: String,
    pub status: ArtifactStatus,
    pub error: Option<String>,
    pub error_code: Option<String>,
}

/// Characters of an optional string, `None` read as nothing.
pub open spec fn opt_chars(o: Option<String>) -> Option<Seq<char>> {
    match o {
        Some(s) => Some(s@),
        None => None,
    }
}

impl GenerationStatus {
    /// Whether the error code marks a rate limit.
    pub open spec fn rate_limited_spec(self) -> bool {
        opt_chars(self.error_code) == Some("USER_DISPLAYABLE_ERROR"@)
    }

    /// The text printed for a generation status.
    pub open spec fn display(self) -> Seq<char> {
        "GenerationStatus(task_id="@ + self.task_id@ + ", status="@ + self.status.label() + (
        match self.error_code {
            Some(c) => ", error_code="@ + c@,
            None => Seq::empty(),
        }) + (match self.error {
            Some(e) => ", error=\""@ + e@ + "\""@,
            None => Seq::empty(),
        }) + ")"@
    }

    /// A successful request with its task id and status.
    pub fn new(task_id: String, status: ArtifactStatus) -> (r: GenerationStatus)
        ensures
            r.task_id@ == task_id@,
            r.status == status,
            r.error is None,
            r.error_code is None,
    {
        GenerationStatus { task_id, status, error: None, error_code: None }
    }

    /// A rate-limited request.
    pub fn rate_limited(error: &str) -> (r: GenerationStatus)
        ensures
            r.task_id@ == "rate_limited"@,
            r.status == ArtifactStatus::Failed,
            opt_chars(r.error) == Some(error@),
            opt_chars(r.error_code) == Some("USER_DISPLAYABLE_ERROR"@),
    {
        GenerationStatus {
            task_id: owned("rate_limited"),
            status: ArtifactStatus::Failed,
            error: Some(owned(error)),
            error_code: Some(owned("USER_DISPLAYABLE_ERROR")),
        }
    }

    /// A failed request with an error message and code.
    pub fn failed(task_id: String, error: &str, error_code: &str) -> (r: GenerationStatus)
        ensures
            r.task_id@ == task_id@,
            r.status == ArtifactStatus::Failed,
            opt_chars(r.error) == Some(error@),
            opt_chars(r.error_code) == Some(error_code@),
    {
        GenerationStatus {
            task_id,
            status: ArtifactStatus::Failed,
            error: Some(owned(error)),
            error_code: Some(owned(error_code)),
        }
    }

    /// Whether the request was rate-limited (and may be retried).
    pub fn is_rate_limited(&self) -> (r: bool)
        ensures
            r == self.rate_limited_spec(),
    {
        match &self.error_code {
            Some(c) => str_eq(c.as_str(), "USER_DISPLAYABLE_ERROR"),
            None => false,
        }
    }

    pub fn is_complete(&self) -> (r: bool)
        ensures
            r == (self.status == ArtifactStatus::Completed),
    {
        self.status == ArtifactStatus::Completed
    }

    pub fn is_failed(&self) -> (r: bool)
        ensures
            r == (self.status == ArtifactStatus::Failed),
    {
        self.status == ArtifactStatus::Failed
    }

    /// Whether the artifact is still being generated.
    pub fn is_in_progress(&self) -> (r: bool)
        ensures
            r == (self.status == ArtifactStatus::Processing || self.status
                == ArtifactStatus::Pending),
    {
        match self.status {
            ArtifactStatus::Processing | ArtifactStatus::Pending => true,
            _ => false,
        }
    }

    /// `GenerationStatus(task_id=.., status=..[, error_code=..][, error=".."])`.
    pub fn to_string(&self) -> (r: String)
        ensures
            r@ == self.display(),
    {
        let mut out = String::new();
        push_str(&mut out, "GenerationStatus(task_id=");
        push_str(&mut out, self.task_id.as_str());
        push_str(&mut out, ", status=");
        let st = self.status.to_string();
        push_str(&mut out, st.as_str());
        let ghost head = out@;
        match &self.error_code {
            Some(c) => {
                push_str(&mut out, ", error_code=");
                push_str(&mut out, c.as_str());
            },
            None => {},
        }
        let ghost with_code = out@;
        match &self.error {
            Some(e) => {
                push_str(&mut out, ", error=\"");
                push_str(&mut out, e.as_str());
                push_str(&mut out, "\"");
            },
            None => {},
        }
        push_str(&mut out, ")");
        assert(out@ =~= self.display());
        out
    }
}

/// Every status made by `rate_limited` is reported as rate-limited and failed;
/// one made by `new` carries no error and is rate-limited never.
pub proof fn law_rate_limited_status(r: GenerationStatus, n: GenerationStatus)
    requires
        r.status == ArtifactStatus::Failed,
        opt_chars(r.error_code) == Some("USER_DISPLAYABLE_ERROR"@),
        n.error_code is None,
    ensures
        r.rate_limited_spec(),
        r.status == ArtifactStatus::Failed,
        !n.rate_limited_spec(),
{
}

/// User-facing artifact type, resolved from the type code and the variant.
#[derive(Debug, Clone, Copy, PartialEq, Eq, Structural)]
pub enum ArtifactType {
    Audio,
    Video,
    Report,
    Quiz,
    Flashcards,
    MindMap,
    Infographic,
    SlideDeck,
    DataTable,
    Unknown,
}

impl ArtifactType {
    pub open spec fn spec_resolve(type_code: ArtifactTypeCode, variant: Option<i32>) -> ArtifactType {
        match type_code {
            ArtifactTypeCode::Audio => ArtifactType::Audio,
            ArtifactTypeCode::Report => ArtifactType::Report,
            ArtifactTypeCode::Video => ArtifactType::Video,
            ArtifactTypeCode::QuizFlashcards => if variant == Some(1i32) {
                ArtifactType::Flashcards
            } else if variant == Some(2i32) {
                ArtifactType::Quiz
            } else {
                ArtifactType::Unknown
            },
            ArtifactTypeCode::MindMap => ArtifactType::MindMap,
            ArtifactTypeCode::Infographic => ArtifactType::Infographic,
            ArtifactTypeCode::SlideDeck => ArtifactType::SlideDeck,
            ArtifactTypeCode::DataTable => ArtifactType::DataTable,
        }
    }

    pub open spec fn key(self) -> Seq<char> {
        match self {
            ArtifactType::Audio => "audio"@,
            ArtifactType::Video => "video"@,
            ArtifactType::Report => "report"@,
            ArtifactType::Quiz => "quiz"@,
            ArtifactType::Flashcards => "flashcards"@,
            ArtifactType::MindMap => "mind_map"@,
            ArtifactType::Infographic => "infographic"@,
            ArtifactType::SlideDeck => "slide_deck"@,
            ArtifactType::DataTable => "data_table"@,
            ArtifactType::Unknown => "unknown"@,
        }
    }

    pub open spec fn spec_from_key(t: Seq<char>) -> Option<ArtifactType> {
        if t == "audio"@ {
            Some(ArtifactType::Audio)
        } else if t == "video"@ {
            Some(ArtifactType::Video)
        } else if t == "report"@ {
            Some(ArtifactType::Report)
        } else if t == "quiz"@ {
            Some(ArtifactType::Quiz)
        } else if t == "flashcards"@ {
            Some(ArtifactType::Flashcards)
        } else if t == "mind_map"@ || t == "mindmap"@ {
            Some(ArtifactType::MindMap)
        } else if t == "infographic"@ {
            Some(ArtifactType::Infographic)
        } else if t == "slide_deck"@ || t == "slidedeck"@ {
            Some(ArtifactType::SlideDeck)
        } else if t == "data_table"@ || t == "datatable"@ {
            Some(ArtifactType::DataTable)
        } else {
            None
        }
    }

    /// Resolves the user-facing type from a type code and, for type 4, the
    /// variant (1 is flashcards, 2 is a quiz).
    pub fn from_type_code_and_variant(type_code: ArtifactTypeCode, variant: Option<i32>) -> (r: ArtifactType)
        ensures
            r == Self::spec_resolve(type_code, variant),
    {
        match type_code {
            ArtifactTypeCode::Audio => ArtifactType::Audio,
            ArtifactTypeCode::Report => ArtifactType::Report,
            ArtifactTypeCode::Video => ArtifactType::Video,
            ArtifactTypeCode::QuizFlashcards => match variant {
                Some(1) => ArtifactType::Flashcards,
                Some(2) => ArtifactType::Quiz,
                _ => ArtifactType::Unknown,
            },
            ArtifactTypeCode::MindMap => ArtifactType::MindMap,
            ArtifactTypeCode::Infographic => ArtifactType::Infographic,
            ArtifactTypeCode::SlideDeck => ArtifactType::SlideDeck,
            ArtifactTypeCode::DataTable => ArtifactType::DataTable,
        }
    }

    /// The string key shown to users.
    pub fn as_str(&self) -> (r: &'static str)
        ensures
            r@ == self.key(),
    {
        match self {
            ArtifactType::Audio => "audio",
            ArtifactType::Video => "video",
            ArtifactType::Report => "report",
            ArtifactType::Quiz => "quiz",
            ArtifactType::Flashcards => "flashcards",
            ArtifactType::MindMap => "mind_map",
            ArtifactType::Infographic => "infographic",
            ArtifactType::SlideDeck => "slide_deck",
            ArtifactType::DataTable => "data_table",
            ArtifactType::Unknown => "unknown",
        }
    }

    /// The same key as `as_str`.
    pub fn to_string(&self) -> (r: String)
        ensures
            r@ == self.key(),
    {
        owned(self.as_str())
    }

    /// Parses a key, ignoring case.
    pub fn from_str_key(s: &str) -> (r: Option<ArtifactType>)
        ensures
            r == Self::spec_from_key(lowercase(s@)),
            all_ascii(s@) ==> r == Self::spec_from_key(ascii_lower(s@)),
    {
        let l = to_lower(s);
        let k = l.as_str();
        if str_eq(k, "audio") {
            Some(ArtifactType::Audio)
        } else if str_eq(k, "video") {
            Some(ArtifactType::Video)
        } else if str_eq(k, "report") {
            Some(ArtifactType::Report)
        } else if str_eq(k, "quiz") {
            Some(ArtifactType::Quiz)
        } else if str_eq(k, "flashcards") {
            Some(ArtifactType::Flashcards)
        } else if str_eq(k, "mind_map") || str_eq(k, "mindmap") {
            Some(ArtifactType::MindMap)
        } else if str_eq(k, "infographic") {
            Some(ArtifactType::Infographic)
        } else if str_eq(k, "slide_deck") || str_eq(k, "slidedeck") {
            Some(ArtifactType::SlideDeck)
        } else if str_eq(k, "data_table") || str_eq(k, "datatable") {
            Some(ArtifactType::DataTable)
        } else {
            None
        }
    }
}

/// The key of every known artifact type is ASCII, lower-case, and parses back
/// to the same type; the key of `Unknown` parses to nothing.
pub proof fn law_artifact_type_key_roundtrip(t: ArtifactType)
    ensures
        all_ascii(t.key()),
        ascii_lower(t.key()) == t.key(),
        t != ArtifactType::Unknown ==> ArtifactType::spec_from_key(t.key()) == Some(t),
        t == ArtifactType::Unknown ==> ArtifactType::spec_from_key(t.key()) is None,
{
    reveal_strlit("audio");
    reveal_strlit("video");
    reveal_strlit("report");
    reveal_strlit("quiz");
    reveal_strlit("flashcards");
    reveal_strlit("mind_map");
    reveal_strlit("mindmap");
    reveal_strlit("infographic");
    reveal_strlit("slide_deck");
    reveal_strlit("slidedeck");
    reveal_strlit("data_table");
    reveal_strlit("datatable");
    reveal_strlit("unknown");
    assert("audio"@.len() == 5 && "audio"@[0] == 'a');
    assert("video"@.len() == 5 && "video"@[0] == 'v');
    assert("report"@.len() == 6 && "report"@[0] == 'r');
    assert("quiz"@.len() == 4 && "quiz"@[0] == 'q');
    assert("flashcards"@.len() == 10 && "flashcards"@[0] == 'f');
    assert("mind_map"@.len() == 8 && "mind_map"@[0] == 'm');
    assert("mindmap"@.len() == 7 && "mindmap"@[0] == 'm');
    assert("infographic"@.len() == 11 && "infographic"@[0] == 'i');
    assert("slide_deck"@.len() == 10 && "slide_deck"@[0] == 's');
    assert("slidedeck"@.len() == 9 && "slidedeck"@[0] == 's');
    assert("data_table"@.len() == 10 && "data_table"@[0] == 'd');
    assert("datatable"@.len() == 9 && "datatable"@[0] == 'd');
    assert("unknown"@.len() == 7 && "unknown"@[0] == 'u');
    assert(ascii_lower(t.key()) =~= t.key());
}

/// Parsing an artifact type ignores case: for an ASCII key, lower-casing it
/// first gives an ASCII key again that parses to the same type.
pub proof fn law_artifact_type_key_case(s: Seq<char>)
    requires
        all_ascii(s),
    ensures
        all_ascii(ascii_lower(s)),
        ascii_lower(ascii_lower(s)) == ascii_lower(s),
        ArtifactType::spec_from_key(ascii_lower(ascii_lower(s))) == ArtifactType::spec_from_key(ascii_lower(s)),
{
    let l = ascii_lower(s);
    assert forall|i: int| 0 <= i < l.len() implies (#[trigger] l[i] as u32) < 128 by {
        assert(l[i] == ascii_lower_char(s[i]));
        assert((s[i] as u32) < 128);
    }
    assert forall|i: int| 0 <= i < l.len() implies #[trigger] ascii_lower_char(l[i]) == l[i] by {
        assert(l[i] == ascii_lower_char(s[i]));
    }
    assert(ascii_lower(l) =~= l);
}

/// Audio presentation style (position 6 of the audio config).
#[derive(Debug, Clone, Copy, PartialEq, Eq, Structural)]
pub enum AudioFormat {
    DeepDive,
    Brief,
    Critique,
    Debate,
}

impl AudioFormat {
    pub open spec fn spec_code(self) -> i32 {
        match self {
            AudioFormat::DeepDive => 1,
            AudioFormat::Brief => 2,
            AudioFormat::Critique => 3,
            AudioFormat::Debate => 4,
        }
    }

    pub open spec fn spec_from_key(t: Seq<char>) -> Option<AudioFormat> {
        if t == "deep_dive"@ || t == "deepdive"@ {
            Some(AudioFormat::DeepDive)
        } else if t == "brief"@ {
            Some(AudioFormat::Brief)
        } else if t == "critique"@ {
            Some(AudioFormat::Critique)
        } else if t == "debate"@ {
            Some(AudioFormat::Debate)
        } else {
            None
        }
    }

    pub fn code(self) -> (r: i32)
        ensures
            r == self.spec_code(),
    {
        match self {
            AudioFormat::DeepDive => 1,
            AudioFormat::Brief => 2,
            AudioFormat::Critique => 3,
            AudioFormat::Debate => 4,
        }
    }

    /// Parses a key, ignoring case.
    pub fn from_str_key(s: &str) -> (r: Option<AudioFormat>)
        ensures
            r == Self::spec_from_key(lowercase(s@)),
            all_ascii(s@) ==> r == Self::spec_from_key(ascii_lower(s@)),
    {
        let l = to_lower(s);
        let k = l.as_str();
        if str_eq(k, "deep_dive") || str_eq(k, "deepdive") {
            Some(AudioFormat::DeepDive)
        } else if str_eq(k, "brief") {
            Some(AudioFormat::Brief)
        } else if str_eq(k, "critique") {
            Some(AudioFormat::Critique)
        } else if str_eq(k, "debate") {
            Some(AudioFormat::Debate)
        } else {
            None
        }
    }
}

/// Audio length (position 1 of the audio config).
#[derive(Debug, Clone, Copy, PartialEq, Eq, Structural)]
pub enum AudioLength {
    Short,
    Default,
    Long,
}

impl AudioLength {
    pub open spec fn spec_code(self) -> i32 {
        match self {
            AudioLength::Short => 1,
            AudioLength::Default => 2,
            AudioLength::Long => 3,
        }
    }

    pub open spec fn spec_from_key(t: Seq<char>) -> Option<AudioLength> {
        if t == "short"@ {
            Some(AudioLength::Short)
        } else if t == "default"@ {
            Some(AudioLength::Default)
        } else if t == "long"@ {
            Some(AudioLength::Long)
        } else {
            None
        }
    }

    pub fn code(self) -> (r: i32)
        ensures
            r == self.spec_code(),
    {
        match self {
            AudioLength::Short => 1,
            AudioLength::Default => 2,
            AudioLength::Long => 3,
        }
    }

    /// Parses a key, ignoring case.
    pub fn from_str_key(s: &str) -> (r: Option<AudioLength>)
        ensures
            r == Self::spec_from_key(lowercase(s@)),
            all_ascii(s@) ==> r == Self::spec_from_key(ascii_lower(s@)),
    {
        let l = to_lower(s);
        let k = l.as_str();
        if str_eq(k, "short") {
            Some(AudioLength::Short)
        } else if str_eq(k, "default") {
            Some(AudioLength::Default)
        } else if str_eq(k, "long") {
            Some(AudioLength::Long)
        } else {
            None
        }
    }
}

/// Video presentation style; `Cinematic` carries no style.
#[derive(Debug, Clone, Copy, PartialEq, Eq, Structural)]
pub enum VideoFormat {
    Explainer,
    Brief,
    Cinematic,
}

impl VideoFormat {
    pub open spec fn spec_code(self) -> i32 {
        match self {
            VideoFormat::Explainer => 1,
            VideoFormat::Brief => 2,
            VideoFormat::Cinematic => 3,
        }
    }

    pub open spec fn spec_from_key(t: Seq<char>) -> Option<VideoFormat> {
        if t == "explainer"@ {
            Some(VideoFormat::Explainer)
        } else if t == "brief"@ {
            Some(VideoFormat::Brief)
        } else if t == "cinematic"@ {
            Some(VideoFormat::Cinematic)
        } else {
            None
        }
    }

    pub fn code(self) -> (r: i32)
        ensures
            r == self.spec_code(),
    {
        match self {
            VideoFormat::Explainer => 1,
            VideoFormat::Brief => 2,
            VideoFormat::Cinematic => 3,
        }
    }

    /// Parses a key, ignoring case.
    pub fn from_str_key(s: &str) -> (r: Option<VideoFormat>)
        ensures
            r == Self::spec_from_key(lowercase(s@)),
            all_ascii(s@) ==> r == Self::spec_from_key(ascii_lower(s@)),
    {
        let l = to_lower(s);
        let k = l.as_str();
        if str_eq(k, "explainer") {
            Some(VideoFormat::Explainer)
        } else if str_eq(k, "brief") {
            Some(VideoFormat::Brief)
        } else if str_eq(k, "cinematic") {
            Some(VideoFormat::Cinematic)
        } else {
            None
        }
    }

    /// Seconds to wait for a video: cinematic videos take far longer.
    pub fn default_timeout_secs(self) -> (r: u64)
        ensures
            r == (if self == VideoFormat::Cinematic { 1800u64 } else { 300u64 }),
    {
        match self {
            VideoFormat::Cinematic => 1800,
            _ => 300,
        }
    }
}

/// Video visual style.
#[derive(Debug, Clone, Copy, PartialEq, Eq, Structural)]
pub enum VideoStyle {
    AutoSelect,
    Classic,
    Whiteboard,
    Kawaii,
    Anime,
    Watercolor,
    RetroPrint,
    Heritage,
    PaperCraft,
}

impl VideoStyle {
    pub open spec fn spec_code(self) -> i32 {
        match self {
            VideoStyle::AutoSelect => 1,
            VideoStyle::Classic => 2,
            VideoStyle::Whiteboard => 3,
            VideoStyle::Kawaii => 4,
            VideoStyle::Anime => 5,
            VideoStyle::Watercolor => 6,
            VideoStyle::RetroPrint => 7,
            VideoStyle::Heritage => 8,
            VideoStyle::PaperCraft => 9,
        }
    }

    pub open spec fn spec_from_key(t: Seq<char>) -> Option<VideoStyle> {
        if t == "auto"@ {
            Some(VideoStyle::AutoSelect)
        } else if t == "classic"@ {
            Some(VideoStyle::Classic)
        } else if t == "whiteboard"@ {
            Some(VideoStyle::Whiteboard)
        } else if t == "kawaii"@ {
            Some(VideoStyle::Kawaii)
        } else if t == "anime"@ {
            Some(VideoStyle::Anime)
        } else if t == "watercolor"@ {
            Some(VideoStyle::Watercolor)
        } else if t == "retro_print"@ || t == "retroprint"@ {
            Some(VideoStyle::RetroPrint)
        } else if t == "heritage"@ {
            Some(VideoStyle::Heritage)
        } else if t == "paper_craft"@ || t == "papercraft"@ {
            Some(VideoStyle::PaperCraft)
        } else {
            None
        }
    }

    pub fn code(self) -> (r: i32)
        ensures
            r == self.spec_code(),
    {
        match self {
            VideoStyle::AutoSelect => 1,
            VideoStyle::Classic => 2,
            VideoStyle::Whiteboard => 3,
            VideoStyle::Kawaii => 4,
            VideoStyle::Anime => 5,
            VideoStyle::Watercolor => 6,
            VideoStyle::RetroPrint => 7,
            VideoStyle::Heritage => 8,
            VideoStyle::PaperCraft => 9,
        }
    }

    /// Parses a key, ignoring case.
    pub fn from_str_key(s: &str) -> (r: Option<VideoStyle>)
        ensures
            r == Self::spec_from_key(lowercase(s@)),
            all_ascii(s@) ==> r == Self::spec_from_key(ascii_lower(s@)),
    {
        let l = to_lower(s);
        let k = l.as_str();
        if str_eq(k, "auto") {
            Some(VideoStyle::AutoSelect)
        } else if str_eq(k, "classic") {
            Some(VideoStyle::Classic)
        } else if str_eq(k, "whiteboard") {
            Some(VideoStyle::Whiteboard)
        } else if str_eq(k, "kawaii") {
            Some(VideoStyle::Kawaii)
        } else if str_eq(k, "anime") {
            Some(VideoStyle::Anime)
        } else if str_eq(k, "watercolor") {
            Some(VideoStyle::Watercolor)
        } else if str_eq(k, "retro_print") || str_eq(k, "retroprint") {
            Some(VideoStyle::RetroPrint)
        } else if str_eq(k, "heritage") {
            Some(VideoStyle::Heritage)
        } else if str_eq(k, "paper_craft") || str_eq(k, "papercraft") {
            Some(VideoStyle::PaperCraft)
        } else {
            None
        }
    }
}

/// Number of quiz or flashcard items.
#[derive(Debug, Clone, Copy, PartialEq, Eq, Structural)]
pub enum QuizQuantity {
    Fewer,
    Standard,
}

impl QuizQuantity {
    pub open spec fn spec_code(self) -> i32 {
        match self {
            QuizQuantity::Fewer => 1,
            QuizQuantity::Standard => 2,
        }
    }

    pub open spec fn spec_from_key(t: Seq<char>) -> Option<QuizQuantity> {
        if t == "fewer"@ || t == "less"@ {
            Some(QuizQuantity::Fewer)
        } else if t == "standard"@ || t == "normal"@ {
            Some(QuizQuantity::Standard)
        } else {
            None
        }
    }

    pub fn code(self) -> (r: i32)
        ensures
            r == self.spec_code(),
    {
        match self {
            QuizQuantity::Fewer => 1,
            QuizQuantity::Standard => 2,
        }
    }

    /// Parses a key, ignoring case.
    pub fn from_str_key(s: &str) -> (r: Option<QuizQuantity>)
        ensures
            r == Self::spec_from_key(lowercase(s@)),
            all_ascii(s@) ==> r == Self::spec_from_key(ascii_lower(s@)),
    {
        let l = to_lower(s);
        let k = l.as_str();
        if str_eq(k, "fewer") || str_eq(k, "less") {
            Some(QuizQuantity::Fewer)
        } else if str_eq(k, "standard") || str_eq(k, "normal") {
            Some(QuizQuantity::Standard)
        } else {
            None
        }
    }
}

/// Difficulty of a quiz or flashcards.
#[derive(Debug, Clone, Copy, PartialEq, Eq, Structural)]
pub enum QuizDifficulty {
    Easy,
    Medium,
    Hard,
}

impl QuizDifficulty {
    pub open spec fn spec_code(self) -> i32 {
        match self {
            QuizDifficulty::Easy => 1,
            QuizDifficulty::Medium => 2,
            QuizDifficulty::Hard => 3,
        }
    }

    pub open spec fn spec_from_key(t: Seq<char>) -> Option<QuizDifficulty> {
        if t == "easy"@ || t == "simple"@ {
            Some(QuizDifficulty::Easy)
        } else if t == "medium"@ || t == "normal"@ {
            Some(QuizDifficulty::Medium)
        } else if t == "hard"@ || t == "difficult"@ {
            Some(QuizDifficulty::Hard)
        } else {
            None
        }
    }

    pub fn code(self) -> (r: i32)
        ensures
            r == self.spec_code(),
    {
        match self {
            QuizDifficulty::Easy => 1,
            QuizDifficulty::Medium => 2,
            QuizDifficulty::Hard => 3,
        }
    }

    /// Parses a key, ignoring case.
    pub fn from_str_key(s: &str) -> (r: Option<QuizDifficulty>)
        ensures
            r == Self::spec_from_key(lowercase(s@)),
            all_ascii(s@) ==> r == Self::spec_from_key(ascii_lower(s@)),
    {
        let l = to_lower(s);
        let k = l.as_str();
        if str_eq(k, "easy") || str_eq(k, "simple") {
            Some(QuizDifficulty::Easy)
        } else if str_eq(k, "medium") || str_eq(k, "normal") {
            Some(QuizDifficulty::Medium)
        } else if str_eq(k, "hard") || str_eq(k, "difficult") {
            Some(QuizDifficulty::Hard)
        } else {
            None
        }
    }
}

/// Infographic layout.
#[derive(Debug, Clone, Copy, PartialEq, Eq, Structural)]
pub enum InfographicOrientation {
    Landscape,
    Portrait,
    Square,
}

impl InfographicOrientation {
    pub open spec fn spec_code(self) -> i32 {
        match self {
            InfographicOrientation::Landscape => 1,
            InfographicOrientation::Portrait => 2,
            InfographicOrientation::Square => 3,
        }
    }

    pub open spec fn spec_from_key(t: Seq<char>) -> Option<InfographicOrientation> {
        if t == "landscape"@ || t == "horizontal"@ {
            Some(InfographicOrientation::Landscape)
        } else if t == "portrait"@ || t == "vertical"@ {
            Some(InfographicOrientation::Portrait)
        } else if t == "square"@ {
            Some(InfographicOrientation::Square)
        } else {
            None
        }
    }

    pub fn code(self) -> (r: i32)
        ensures
            r == self.spec_code(),
    {
        match self {
            InfographicOrientation::Landscape => 1,
            InfographicOrientation::Portrait => 2,
            InfographicOrientation::Square => 3,
        }
    }

    /// Parses a key, ignoring case.
    pub fn from_str_key(s: &str) -> (r: Option<InfographicOrientation>)
        ensures
            r == Self::spec_from_key(lowercase(s@)),
            all_ascii(s@) ==> r == Self::spec_from_key(ascii_lower(s@)),
    {
        let l = to_lower(s);
        let k = l.as_str();
        if str_eq(k, "landscape") || str_eq(k, "horizontal") {
            Some(InfographicOrientation::Landscape)
        } else if str_eq(k, "portrait") || str_eq(k, "vertical") {
            Some(InfographicOrientation::Portrait)
        } else if str_eq(k, "square") {
            Some(InfographicOrientation::Square)
        } else {
            None
        }
    }
}

/// Level of detail of an infographic.
#[derive(Debug, Clone, Copy, PartialEq, Eq, Structural)]
pub enum InfographicDetail {
    Concise,
    Standard,
    Detailed,
}

impl InfographicDetail {
    pub open spec fn spec_code(self) -> i32 {
        match self {
            InfographicDetail::Concise => 1,
            InfographicDetail::Standard => 2,
            InfographicDetail::Detailed => 3,
        }
    }

    pub open spec fn spec_from_key(t: Seq<char>) -> Option<InfographicDetail> {
        if t == "concise"@ || t == "minimal"@ {
            Some(InfographicDetail::Concise)
        } else if t == "standard"@ || t == "normal"@ {
            Some(InfographicDetail::Standard)
        } else if t == "detailed"@ || t == "comprehensive"@ {
            Some(InfographicDetail::Detailed)
        } else {
            None
        }
    }

    pub fn code(self) -> (r: i32)
        ensures
            r == self.spec_code(),
    {
        match self {
            InfographicDetail::Concise => 1,
            InfographicDetail::Standard => 2,
            InfographicDetail::Detailed => 3,
        }
    }

    /// Parses a key, ignoring case.
    pub fn from_str_key(s: &str) -> (r: Option<InfographicDetail>)
        ensures
            r == Self::spec_from_key(lowercase(s@)),
            all_ascii(s@) ==> r == Self::spec_from_key(ascii_lower(s@)),
    {
        let l = to_lower(s);
        let k = l.as_str();
        if str_eq(k, "concise") || str_eq(k, "minimal") {
            Some(InfographicDetail::Concise)
        } else if str_eq(k, "standard") || str_eq(k, "normal") {
            Some(InfographicDetail::Standard)
        } else if str_eq(k, "detailed") || str_eq(k, "comprehensive") {
            Some(InfographicDetail::Detailed)
        } else {
            None
        }
    }
}

/// Infographic visual style; only the automatic choice has a known name.
#[derive(Debug, Clone, Copy, PartialEq, Eq, Structural)]
pub enum InfographicStyle {
    AutoSelect,
}

impl InfographicStyle {
    pub open spec fn spec_code(self) -> i32 {
        match self {
            InfographicStyle::AutoSelect => 1,
        }
    }

    pub fn code(self) -> (r: i32)
        ensures
            r == self.spec_code(),
    {
        match self {
            InfographicStyle::AutoSelect => 1,
        }
    }
}

/// Slide deck presentation style.
#[derive(Debug, Clone, Copy, PartialEq, Eq, Structural)]
pub enum SlideDeckFormat {
    DetailedDeck,
    PresenterSlides,
}

impl SlideDeckFormat {
    pub open spec fn spec_code(self) -> i32 {
        match self {
            SlideDeckFormat::DetailedDeck => 1,
            SlideDeckFormat::PresenterSlides => 2,
        }
    }

    pub open spec fn spec_from_key(t: Seq<char>) -> Option<SlideDeckFormat> {
        if t == "detailed"@ || t == "detailed_deck"@ {
            Some(SlideDeckFormat::DetailedDeck)
        } else if t == "presenter"@ || t == "presenter_slides"@ {
            Some(SlideDeckFormat::PresenterSlides)
        } else {
            None
        }
    }

    pub fn code(self) -> (r: i32)
        ensures
            r == self.spec_code(),
    {
        match self {
            SlideDeckFormat::DetailedDeck => 1,
            SlideDeckFormat::PresenterSlides => 2,
        }
    }

    /// Parses a key, ignoring case.
    pub fn from_str_key(s: &str) -> (r: Option<SlideDeckFormat>)
        ensures
            r == Self::spec_from_key(lowercase(s@)),
            all_ascii(s@) ==> r == Self::spec_from_key(ascii_lower(s@)),
    {
        let l = to_lower(s);
        let k = l.as_str();
        if str_eq(k, "detailed") || str_eq(k, "detailed_deck") {
            Some(SlideDeckFormat::DetailedDeck)
        } else if str_eq(k, "presenter") || str_eq(k, "presenter_slides") {
            Some(SlideDeckFormat::PresenterSlides)
        } else {
            None
        }
    }
}

/// Slide deck length.
#[derive(Debug, Clone, Copy, PartialEq, Eq, Structural)]
pub enum SlideDeckLength {
    Default,
    Short,
}

impl SlideDeckLength {
    pub open spec fn spec_code(self) -> i32 {
        match self {
            SlideDeckLength::Default => 1,
            SlideDeckLength::Short => 2,
        }
    }

    pub open spec fn spec_from_key(t: Seq<char>) -> Option<SlideDeckLength> {
        if t == "default"@ || t == "normal"@ {
            Some(SlideDeckLength::Default)
        } else if t == "short"@ {
            Some(SlideDeckLength::Short)
        } else {
            None
        }
    }

    pub fn code(self) -> (r: i32)
        ensures
            r == self.spec_code(),
    {
        match self {
            SlideDeckLength::Default => 1,
            SlideDeckLength::Short => 2,
        }
    }

    /// Parses a key, ignoring case.
    pub fn from_str_key(s: &str) -> (r: Option<SlideDeckLength>)
        ensures
            r == Self::spec_from_key(lowercase(s@)),
            all_ascii(s@) ==> r == Self::spec_from_key(ascii_lower(s@)),
    {
        let l = to_lower(s);
        let k = l.as_str();
        if str_eq(k, "default") || str_eq(k, "normal") {
            Some(SlideDeckLength::Default)
        } else if str_eq(k, "short") {
            Some(SlideDeckLength::Short)
        } else {
            None
        }
    }
}

/// Variant of type 4, the only thing that tells a quiz from flashcards.
#[derive(Debug, Clone, Copy, PartialEq, Eq, Structural)]
pub enum QuizVariant {
    Flashcards,
    Quiz,
}

impl QuizVariant {
    pub open spec fn spec_code(self) -> i32 {
        match self {
            QuizVariant::Flashcards => 1,
            QuizVariant::Quiz => 2,
        }
    }

    pub open spec fn spec_from_code(code: i32) -> Option<QuizVariant> {
        if code == 1 {
            Some(QuizVariant::Flashcards)
        } else if code == 2 {
            Some(QuizVariant::Quiz)
        } else {
            None
        }
    }

    pub fn code(self) -> (r: i32)
        ensures
            r == self.spec_code(),
    {
        match self {
            QuizVariant::Flashcards => 1,
            QuizVariant::Quiz => 2,
        }
    }

    pub fn from_code(code: i32) -> (r: Option<QuizVariant>)
        ensures
            r == Self::spec_from_code(code),
    {
        match code {
            1 => Some(QuizVariant::Flashcards),
            2 => Some(QuizVariant::Quiz),
            _ => None,
        }
    }
}

/// Quiz variants round-trip through their codes, and agree with the type
/// resolution of type code 4.
pub proof fn law_quiz_variant(v: QuizVariant, code: i32)
    ensures
        QuizVariant::spec_from_code(v.spec_code()) == Some(v),
        QuizVariant::spec_from_code(code) matches Some(u) ==> u.spec_code() == code,
        ArtifactType::spec_resolve(ArtifactTypeCode::QuizFlashcards, Some(v.spec_code())) == (
        match v {
            QuizVariant::Flashcards => ArtifactType::Flashcards,
            QuizVariant::Quiz => ArtifactType::Quiz,
        }),
{
}

/// Report template. Its wire form is made of strings: a title, a
/// description and a prompt.
#[derive(Debug, Clone, PartialEq, Eq)]
pub enum ReportFormat {
    BriefingDoc,
    StudyGuide,
    BlogPost,
    /// A report with a prompt of the user's own.
    Custom { prompt: String },
}

impl ReportFormat {
    pub open spec fn prompt_text(&self) -> Seq<char> {
        match self {
            ReportFormat::BriefingDoc => "Create a briefing document that summarizes the key information from the sources."@,
            ReportFormat::StudyGuide => "Create a comprehensive study guide covering the main topics from the sources."@,
            ReportFormat::BlogPost => "Write an engaging blog post based on the content from the sources."@,
            ReportFormat::Custom { prompt } => prompt@,
        }
    }

    pub open spec fn title_text(&self) -> Seq<char> {
        match self {
            ReportFormat::BriefingDoc => "Briefing Document"@,
            ReportFormat::StudyGuide => "Study Guide"@,
            ReportFormat::BlogPost => "Blog Post"@,
            ReportFormat::Custom { .. } => "Custom Report"@,
        }
    }

    pub open spec fn description_text(&self) -> Seq<char> {
        match self {
            ReportFormat::BriefingDoc => "Key information summary"@,
            ReportFormat::StudyGuide => "Comprehensive topic coverage"@,
            ReportFormat::BlogPost => "Engaging content article"@,
            ReportFormat::Custom { .. } => "Custom format report"@,
        }
    }

    pub open spec fn key(&self) -> Seq<char> {
        match self {
            ReportFormat::BriefingDoc => "briefing_doc"@,
            ReportFormat::StudyGuide => "study_guide"@,
            ReportFormat::BlogPost => "blog_post"@,
            ReportFormat::Custom { .. } => "custom"@,
        }
    }

    /// The canonical key that `from_str_key` recognises in a lower-cased key.
    pub open spec fn spec_key_of(t: Seq<char>) -> Option<Seq<char>> {
        if t == "briefing_doc"@ || t == "briefingdoc"@ || t == "briefing"@ {
            Some("briefing_doc"@)
        } else if t == "study_guide"@ || t == "studyguide"@ || t == "study"@ {
            Some("study_guide"@)
        } else if t == "blog_post"@ || t == "blogpost"@ || t == "blog"@ {
            Some("blog_post"@)
        } else if t == "custom"@ {
            Some("custom"@)
        } else {
            None
        }
    }

    /// The format has the given key, and a custom one has an empty prompt.
    pub open spec fn parsed_as(&self, key: Seq<char>) -> bool {
        &&& self.key() == key
        &&& self matches ReportFormat::Custom { prompt } ==> prompt@ == Seq::<char>::empty()
    }

    /// The prompt: built in for templates, the user's own for `Custom`.
    pub fn prompt(&self) -> (r: Option<&str>)
        ensures
            r is Some,
            r.unwrap()@ == self.prompt_text(),
    {
        match self {
            ReportFormat::BriefingDoc => Some(
                "Create a briefing document that summarizes the key information from the sources.",
            ),
            ReportFormat::StudyGuide => Some(
                "Create a comprehensive study guide covering the main topics from the sources.",
            ),
            ReportFormat::BlogPost => Some(
                "Write an engaging blog post based on the content from the sources.",
            ),
            ReportFormat::Custom { prompt } => Some(prompt.as_str()),
        }
    }

    pub fn title(&self) -> (r: &str)
        ensures
            r@ == self.title_text(),
    {
        match self {
            ReportFormat::BriefingDoc => "Briefing Document",
            ReportFormat::StudyGuide => "Study Guide",
            ReportFormat::BlogPost => "Blog Post",
            ReportFormat::Custom { .. } => "Custom Report",
        }
    }

    pub fn description(&self) -> (r: &str)
        ensures
            r@ == self.description_text(),
    {
        match self {
            ReportFormat::BriefingDoc => "Key information summary",
            ReportFormat::StudyGuide => "Comprehensive topic coverage",
            ReportFormat::BlogPost => "Engaging content article",
            ReportFormat::Custom { .. } => "Custom format report",
        }
    }

    /// Parses a key, ignoring case.
    pub fn from_str_key(s: &str) -> (r: Option<ReportFormat>)
        ensures
            match Self::spec_key_of(lowercase(s@)) {
                Some(k) => r is Some && r.unwrap().parsed_as(k),
                None => r is None,
            },
            all_ascii(s@) ==> match Self::spec_key_of(ascii_lower(s@)) {
                Some(k) => r is Some && r.unwrap().parsed_as(k),
                None => r is None,
            },
    {
        let l = to_lower(s);
        let k = l.as_str();
        if str_eq(k, "briefing_doc") || str_eq(k, "briefingdoc") || str_eq(k, "briefing") {
            Some(ReportFormat::BriefingDoc)
        } else if str_eq(k, "study_guide") || str_eq(k, "studyguide") || str_eq(k, "study") {
            Some(ReportFormat::StudyGuide)
        } else if str_eq(k, "blog_post") || str_eq(k, "blogpost") || str_eq(k, "blog") {
            Some(ReportFormat::BlogPost)
        } else if str_eq(k, "custom") {
            Some(ReportFormat::Custom { prompt: String::new() })
        } else {
            None
        }
    }

    /// The key of the format (`custom` for any custom prompt).
    pub fn to_string(&self) -> (r: String)
        ensures
            r@ == self.key(),
    {
        match self {
            ReportFormat::BriefingDoc => owned("briefing_doc"),
            ReportFormat::StudyGuide => owned("study_guide"),
            ReportFormat::BlogPost => owned("blog_post"),
            ReportFormat::Custom { .. } => owned("custom"),
        }
    }
}

// =========================================================================
// Source id nesting and generation payloads
// =========================================================================

/// A JSON number for a wire code.
pub open spec fn m_int(n: i32) -> JsonModel {
    int_model(n as int)
}

pub open spec fn m_str(s: Seq<char>) -> JsonModel {
    JsonModel::Str(s)
}

pub open spec fn m_arr(s: Seq<JsonModel>) -> JsonModel {
    JsonModel::Array(s)
}

/// `[[[sid1]], [[sid2]], ...]`
pub open spec fn triple_model(ids: Seq<String>) -> JsonModel {
    m_arr(Seq::new(ids.len(), |i: int| m_arr(seq![m_arr(seq![m_str(ids[i]@)])])))
}

/// `[[sid1], [sid2], ...]`
pub open spec fn double_model(ids: Seq<String>) -> JsonModel {
    m_arr(Seq::new(ids.len(), |i: int| m_arr(seq![m_str(ids[i]@)])))
}

/// Source ids as a triple-nested array, the form the payloads take at their
/// position 3.
pub fn to_triple_nested(source_ids: &[String]) -> (r: JsonValue)
    ensures
        r@ == triple_model(source_ids@),
{
    broadcast use crate::json::group_json;

    let mut out: Vec<JsonValue> = Vec::new();
    let mut i: usize = 0;
    while i < source_ids.len()
        invariant
            i <= source_ids@.len(),
            out@.len() == i,
            forall|k: int| #![trigger out@[k]] 0 <= k < i ==> out@[k]@ == m_arr(seq![m_arr(seq![m_str(source_ids@[k]@)])]),
        decreases source_ids@.len() - i,
    {
        let e = jarr1(jarr1(jstr(source_ids[i].as_str())));
        out.push(e);
        i = i + 1;
    }
    let r = jarr(out);
    assert(models_of(out@) =~= triple_model(source_ids@)->Array_0);
    r
}

/// Source ids as a double-nested array, the form they take inside most
/// config sub-arrays.
pub fn to_double_nested(source_ids: &[String]) -> (r: JsonValue)
    ensures
        r@ == double_model(source_ids@),
{
    broadcast use crate::json::group_json;

    let mut out: Vec<JsonValue> = Vec::new();
    let mut i: usize = 0;
    while i < source_ids.len()
        invariant
            i <= source_ids@.len(),
            out@.len() == i,
            forall|k: int| #![trigger out@[k]] 0 <= k < i ==> out@[k]@ == m_arr(seq![m_str(source_ids@[k]@)]),
        decreases source_ids@.len() - i,
    {
        let e = jarr1(jstr(source_ids[i].as_str()));
        out.push(e);
        i = i + 1;
    }
    let r = jarr(out);
    assert(models_of(out@) =~= double_model(source_ids@)->Array_0);
    r
}

/// Generation settings of one artifact type; each variant holds exactly the
/// fields its payload uses. Mind maps use another endpoint and have none.
#[derive(Debug, Clone)]
pub enum ArtifactConfig {
    Audio {
        format: AudioFormat,
        length: AudioLength,
        instructions: Option<String>,
        language: String,
        source_ids: Vec<String>,
    },
    Video {
        format: VideoFormat,
        /// `None` for cinematic videos.
        style: Option<VideoStyle>,
        instructions: Option<String>,
        language: String,
        source_ids: Vec<String>,
    },
    Report {
        format: ReportFormat,
        language: String,
        source_ids: Vec<String>,
        /// Appended to the template prompt.
        extra_instructions: Option<String>,
    },
    Quiz {
        difficulty: QuizDifficulty,
        quantity: QuizQuantity,
        instructions: Option<String>,
        source_ids: Vec<String>,
    },
    Flashcards {
        difficulty: QuizDifficulty,
        quantity: QuizQuantity,
        instructions: Option<String>,
        source_ids: Vec<String>,
    },
    Infographic {
        orientation: InfographicOrientation,
        detail: InfographicDetail,
        style: InfographicStyle,
        instructions: Option<String>,
        language: String,
        source_ids: Vec<String>,
    },
    SlideDeck {
        format: SlideDeckFormat,
        length: SlideDeckLength,
        instructions: Option<String>,
        language: String,
        source_ids: Vec<String>,
    },
    DataTable { instructions: String, language: String, source_ids: Vec<String> },
}

/// Optional instructions as sent: the empty string when absent.
pub open spec fn instr_text(o: Option<String>) -> Seq<char> {
    match o {
        Some(s) => s@,
        None => Seq::empty(),
    }
}

/// A video style code, or `null` for none.
pub open spec fn style_model(style: Option<VideoStyle>) -> JsonModel {
    match style {
        Some(s) => m_int(s.spec_code()),
        None => JsonModel::Null,
    }
}

/// `count` nulls.
pub open spec fn nulls(count: nat) -> Seq<JsonModel> {
    Seq::new(count, |i: int| JsonModel::Null)
}

/// The report prompt: the template prompt, followed by a blank line and the
/// extra instructions when there are any.
pub open spec fn report_prompt(format: ReportFormat, extra: Option<String>) -> Seq<char> {
    match extra {
        Some(e) => if e@.len() > 0 {
            format.prompt_text() + "\n\n"@ + e@
        } else {
            format.prompt_text()
        },
        None => format.prompt_text(),
    }
}

/// Audio (type 1), settings at index 6:
/// `[null, [instructions, length, null, double, language, null, format]]`.
pub open spec fn audio_model(
    format: AudioFormat,
    length: AudioLength,
    instructions: Option<String>,
    language: String,
    ids: Seq<String>,
) -> Seq<JsonModel> {
    let n = JsonModel::Null;
    seq![n, n, m_int(1), triple_model(ids), n, n, m_arr(seq![n, m_arr(seq![
        m_str(instr_text(instructions)),
        m_int(length.spec_code()),
        n,
        double_model(ids),
        m_str(language@),
        n,
        m_int(format.spec_code()),
    ])])]
}

/// Report (type 2), settings at index 7:
/// `[null, [title, description, null, double, language, prompt, null, true]]`.
pub open spec fn report_model(
    format: ReportFormat,
    language: String,
    ids: Seq<String>,
    extra: Option<String>,
) -> Seq<JsonModel> {
    let n = JsonModel::Null;
    seq![n, n, m_int(2), triple_model(ids), n, n, n, m_arr(seq![n, m_arr(seq![
        m_str(format.title_text()),
        m_str(format.description_text()),
        n,
        double_model(ids),
        m_str(language@),
        m_str(report_prompt(format, extra)),
        n,
        JsonModel::Bool(true),
    ])])]
}

/// Video (type 3), settings at index 8:
/// `[null, null, [double, language, instructions, null, format, style]]`.
pub open spec fn video_model(
    format: VideoFormat,
    style: Option<VideoStyle>,
    instructions: Option<String>,
    language: String,
    ids: Seq<String>,
) -> Seq<JsonModel> {
    let n = JsonModel::Null;
    seq![n, n, m_int(3), triple_model(ids), n, n, n, n, m_arr(seq![n, n, m_arr(seq![
        double_model(ids),
        m_str(language@),
        m_str(instr_text(instructions)),
        n,
        m_int(format.spec_code()),
        style_model(style),
    ])])]
}

/// Quiz (type 4, variant 2), settings at index 10:
/// `[null, [2, null, instructions, null x4, [quantity, difficulty]]]`.
pub open spec fn quiz_model(
    difficulty: QuizDifficulty,
    quantity: QuizQuantity,
    instructions: Option<String>,
    ids: Seq<String>,
) -> Seq<JsonModel> {
    let n = JsonModel::Null;
    seq![n, n, m_int(4), triple_model(ids)] + nulls(6) + seq![m_arr(seq![n, m_arr(seq![
        m_int(2),
        n,
        m_str(instr_text(instructions)),
        n,
        n,
        n,
        n,
        m_arr(seq![m_int(quantity.spec_code()), m_int(difficulty.spec_code())]),
    ])])]
}

/// Flashcards (type 4, variant 1), settings at index 10:
/// `[null, [1, null, instructions, null x3, [difficulty, quantity]]]`: the
/// pair comes one place earlier and in the other order than a quiz's.
pub open spec fn flashcards_model(
    difficulty: QuizDifficulty,
    quantity: QuizQuantity,
    instructions: Option<String>,
    ids: Seq<String>,
) -> Seq<JsonModel> {
    let n = JsonModel::Null;
    seq![n, n, m_int(4), triple_model(ids)] + nulls(6) + seq![m_arr(seq![n, m_arr(seq![
        m_int(1),
        n,
        m_str(instr_text(instructions)),
        n,
        n,
        n,
        m_arr(seq![m_int(difficulty.spec_code()), m_int(quantity.spec_code())]),
    ])])]
}

/// Infographic (type 7), settings at index 14:
/// `[[instructions, language, null, orientation, detail, style]]`.
pub open spec fn infographic_model(
    orientation: InfographicOrientation,
    detail: InfographicDetail,
    style: InfographicStyle,
    instructions: Option<String>,
    language: String,
    ids: Seq<String>,
) -> Seq<JsonModel> {
    let n = JsonModel::Null;
    seq![n, n, m_int(7), triple_model(ids)] + nulls(10) + seq![m_arr(seq![m_arr(seq![
        m_str(instr_text(instructions)),
        m_str(language@),
        n,
        m_int(orientation.spec_code()),
        m_int(detail.spec_code()),
        m_int(style.spec_code()),
    ])])]
}

/// Slide deck (type 8), settings at index 16:
/// `[[instructions, language, format, length]]`.
pub open spec fn slide_deck_model(
    format: SlideDeckFormat,
    length: SlideDeckLength,
    instructions: Option<String>,
    language: String,
    ids: Seq<String>,
) -> Seq<JsonModel> {
    let n = JsonModel::Null;
    seq![n, n, m_int(8), triple_model(ids)] + nulls(12) + seq![m_arr(seq![m_arr(seq![
        m_str(instr_text(instructions)),
        m_str(language@),
        m_int(format.spec_code()),
        m_int(length.spec_code()),
    ])])]
}

/// Data table (type 9), settings at index 18: `[null, [instructions, language]]`.
pub open spec fn data_table_model(instructions: String, language: String, ids: Seq<String>) -> Seq<
    JsonModel,
> {
    let n = JsonModel::Null;
    seq![n, n, m_int(9), triple_model(ids)] + nulls(14) + seq![
        m_arr(seq![n, m_arr(seq![m_str(instructions@), m_str(language@)])]),
    ]
}

impl ArtifactConfig {
    /// The positional array inside the payload, by variant.
    pub open spec fn inner_model(&self) -> Seq<JsonModel> {
        match self {
            ArtifactConfig::Audio { format, length, instructions, language, source_ids } =>
                audio_model(*format, *length, *instructions, *language, source_ids@),
            ArtifactConfig::Report { format, language, source_ids, extra_instructions } =>
                report_model(*format, *language, source_ids@, *extra_instructions),
            ArtifactConfig::Video { format, style, instructions, language, source_ids } =>
                video_model(*format, *style, *instructions, *language, source_ids@),
            ArtifactConfig::Quiz { difficulty, quantity, instructions, source_ids } =>
                quiz_model(*difficulty, *quantity, *instructions, source_ids@),
            ArtifactConfig::Flashcards { difficulty, quantity, instructions, source_ids } =>
                flashcards_model(*difficulty, *quantity, *instructions, source_ids@),
            ArtifactConfig::Infographic {
                orientation,
                detail,
                style,
                instructions,
                language,
                source_ids,
            } => infographic_model(
                *orientation,
                *detail,
                *style,
                *instructions,
                *language,
                source_ids@,
            ),
            ArtifactConfig::SlideDeck { format, length, instructions, language, source_ids } =>
                slide_deck_model(*format, *length, *instructions, *language, source_ids@),
            ArtifactConfig::DataTable { instructions, language, source_ids } => data_table_model(
                *instructions,
                *language,
                source_ids@,
            ),
        }
    }

    /// `[[2], notebook_id, [inner]]`
    pub open spec fn params_model(&self, notebook_id: Seq<char>) -> JsonModel {
        m_arr(seq![m_arr(seq![m_int(2)]), m_str(notebook_id), m_arr(self.inner_model())])
    }

    /// The params of `CREATE_ARTIFACT` for this configuration.
    pub fn to_params_array(&self, notebook_id: &str) -> (r: JsonValue)
        ensures
            r@ == self.params_model(notebook_id@),
    {
        let inner = match self {
            ArtifactConfig::Audio { format, length, instructions, language, source_ids } =>
                audio_inner(*format, *length, instructions, language, source_ids),
            ArtifactConfig::Report { format, language, source_ids, extra_instructions } =>
                report_inner(format, language, source_ids, extra_instructions),
            ArtifactConfig::Video { format, style, instructions, language, source_ids } =>
                video_inner(*format, *style, instructions, language, source_ids),
            ArtifactConfig::Quiz { difficulty, quantity, instructions, source_ids } =>
                quiz_inner(*difficulty, *quantity, instructions, source_ids),
            ArtifactConfig::Flashcards { difficulty, quantity, instructions, source_ids } =>
                flashcards_inner(*difficulty, *quantity, instructions, source_ids),
            ArtifactConfig::Infographic {
                orientation,
                detail,
                style,
                instructions,
                language,
                source_ids,
            } => infographic_inner(*orientation, *detail, *style, instructions, language, source_ids),
            ArtifactConfig::SlideDeck { format, length, instructions, language, source_ids } =>
                slide_deck_inner(*format, *length, instructions, language, source_ids),
            ArtifactConfig::DataTable { instructions, language, source_ids } => data_table_inner(
                instructions,
                language,
                source_ids,
            ),
        };
        let mut outer: Vec<JsonValue> = Vec::new();
        push_val(&mut outer, jarr1(jint(2)));
        push_val(&mut outer, jstr(notebook_id));
        push_val(&mut outer, jarr(inner));
        let r = jarr(outer);
        assert(models_of(outer@) =~= self.params_model(notebook_id@)->Array_0);
        r
    }
}

fn audio_inner(
    format: AudioFormat,
    length: AudioLength,
    instructions: &Option<String>,
    language: &String,
    source_ids: &Vec<String>,
) -> (v: Vec<JsonValue>)
    ensures
        models_of(v@) == audio_model(format, length, *instructions, *language, source_ids@),
{
    let mut cfg: Vec<JsonValue> = Vec::new();
    push_val(&mut cfg, instr_value(instructions));
    push_val(&mut cfg, jint(length.code()));
    push_val(&mut cfg, JsonValue::Null);
    push_val(&mut cfg, to_double_nested(source_ids.as_slice()));
    push_val(&mut cfg, jstr(language.as_str()));
    push_val(&mut cfg, JsonValue::Null);
    push_val(&mut cfg, jint(format.code()));
    let ghost m = models_of(cfg@);
    let cfg = jarr2(JsonValue::Null, jarr(cfg));
    let mut v = head(1, source_ids);
    null_pad(&mut v, 2);
    push_val(&mut v, cfg);
    assert(models_of(v@) =~~= audio_model(format, length, *instructions, *language, source_ids@)) by {
        assert(m =~= audio_model(format, length, *instructions, *language, source_ids@)[6]->Array_0[1]->Array_0);
    }
    v
}

fn report_inner(
    format: &ReportFormat,
    language: &String,
    source_ids: &Vec<String>,
    extra_instructions: &Option<String>,
) -> (v: Vec<JsonValue>)
    ensures
        models_of(v@) == report_model(*format, *language, source_ids@, *extra_instructions),
{
    let prompt = build_report_prompt(format, extra_instructions);
    let mut cfg: Vec<JsonValue> = Vec::new();
    push_val(&mut cfg, jstr(format.title()));
    push_val(&mut cfg, jstr(format.description()));
    push_val(&mut cfg, JsonValue::Null);
    push_val(&mut cfg, to_double_nested(source_ids.as_slice()));
    push_val(&mut cfg, jstr(language.as_str()));
    push_val(&mut cfg, JsonValue::Str(prompt));
    push_val(&mut cfg, JsonValue::Null);
    push_val(&mut cfg, JsonValue::Bool(true));
    let ghost m = models_of(cfg@);
    let cfg = jarr2(JsonValue::Null, jarr(cfg));
    let mut v = head(2, source_ids);
    null_pad(&mut v, 3);
    push_val(&mut v, cfg);
    assert(models_of(v@) =~~= report_model(*format, *language, source_ids@, *extra_instructions)) by {
        assert(m =~= report_model(*format, *language, source_ids@, *extra_instructions)[7]->Array_0[1]->Array_0);
    }
    v
}

fn video_inner(
    format: VideoFormat,
    style: Option<VideoStyle>,
    instructions: &Option<String>,
    language: &String,
    source_ids: &Vec<String>,
) -> (v: Vec<JsonValue>)
    ensures
        models_of(v@) == video_model(format, style, *instructions, *language, source_ids@),
{
    let mut cfg: Vec<JsonValue> = Vec::new();
    push_val(&mut cfg, to_double_nested(source_ids.as_slice()));
    push_val(&mut cfg, jstr(language.as_str()));
    push_val(&mut cfg, instr_value(instructions));
    push_val(&mut cfg, JsonValue::Null);
    push_val(&mut cfg, jint(format.code()));
    let sv = match style {
        Some(st) => jint(st.code()),
        None => JsonValue::Null,
    };
    push_val(&mut cfg, sv);
    let ghost m = models_of(cfg@);
    let mut outer: Vec<JsonValue> = Vec::new();
    push_val(&mut outer, JsonValue::Null);
    push_val(&mut outer, JsonValue::Null);
    push_val(&mut outer, jarr(cfg));
    let ghost mo = models_of(outer@);
    let mut v = head(3, source_ids);
    null_pad(&mut v, 4);
    push_val(&mut v, jarr(outer));
    assert(models_of(v@) =~~= video_model(format, style, *instructions, *language, source_ids@)) by {
        let spec_outer = video_model(format, style, *instructions, *language, source_ids@)[8]->Array_0;
        assert(m =~= spec_outer[2]->Array_0);
        assert(mo =~= spec_outer);
    }
    v
}

fn quiz_inner(
    difficulty: QuizDifficulty,
    quantity: QuizQuantity,
    instructions: &Option<String>,
    source_ids: &Vec<String>,
) -> (v: Vec<JsonValue>)
    ensures
        models_of(v@) == quiz_model(difficulty, quantity, *instructions, source_ids@),
{
    let mut cfg: Vec<JsonValue> = Vec::new();
    push_val(&mut cfg, jint(2));
    push_val(&mut cfg, JsonValue::Null);
    push_val(&mut cfg, instr_value(instructions));
    null_pad(&mut cfg, 4);
    push_val(&mut cfg, jarr2(jint(quantity.code()), jint(difficulty.code())));
    let ghost m = models_of(cfg@);
    let cfg = jarr2(JsonValue::Null, jarr(cfg));
    let mut v = head(4, source_ids);
    null_pad(&mut v, 6);
    push_val(&mut v, cfg);
    assert(models_of(v@) =~~= quiz_model(difficulty, quantity, *instructions, source_ids@)) by {
        assert(m =~= quiz_model(difficulty, quantity, *instructions, source_ids@)[10]->Array_0[1]->Array_0);
    }
    v
}

fn flashcards_inner(
    difficulty: QuizDifficulty,
    quantity: QuizQuantity,
    instructions: &Option<String>,
    source_ids: &Vec<String>,
) -> (v: Vec<JsonValue>)
    ensures
        models_of(v@) == flashcards_model(difficulty, quantity, *instructions, source_ids@),
{
    let mut cfg: Vec<JsonValue> = Vec::new();
    push_val(&mut cfg, jint(1));
    push_val(&mut cfg, JsonValue::Null);
    push_val(&mut cfg, instr_value(instructions));
    null_pad(&mut cfg, 3);
    push_val(&mut cfg, jarr2(jint(difficulty.code()), jint(quantity.code())));
    let ghost m = models_of(cfg@);
    let cfg = jarr2(JsonValue::Null, jarr(cfg));
    let mut v = head(4, source_ids);
    null_pad(&mut v, 6);
    push_val(&mut v, cfg);
    assert(models_of(v@) =~~= flashcards_model(difficulty, quantity, *instructions, source_ids@)) by {
        assert(m =~= flashcards_model(difficulty, quantity, *instructions, source_ids@)[10]->Array_0[1]->Array_0);
    }
    v
}

fn infographic_inner(
    orientation: InfographicOrientation,
    detail: InfographicDetail,
    style: InfographicStyle,
    instructions: &Option<String>,
    language: &String,
    source_ids: &Vec<String>,
) -> (v: Vec<JsonValue>)
    ensures
        models_of(v@) == infographic_model(
            orientation,
            detail,
            style,
            *instructions,
            *language,
            source_ids@,
        ),
{
    let mut cfg: Vec<JsonValue> = Vec::new();
    push_val(&mut cfg, instr_value(instructions));
    push_val(&mut cfg, jstr(language.as_str()));
    push_val(&mut cfg, JsonValue::Null);
    push_val(&mut cfg, jint(orientation.code()));
    push_val(&mut cfg, jint(detail.code()));
    push_val(&mut cfg, jint(style.code()));
    let ghost m = models_of(cfg@);
    let cfg = jarr1(jarr(cfg));
    let mut v = head(7, source_ids);
    null_pad(&mut v, 10);
    push_val(&mut v, cfg);
    let ghost spec = infographic_model(orientation, detail, style, *instructions, *language, source_ids@);
    assert(models_of(v@) =~~= spec) by {
        assert(m =~= spec[14]->Array_0[0]->Array_0);
    }
    v
}

fn slide_deck_inner(
    format: SlideDeckFormat,
    length: SlideDeckLength,
    instructions: &Option<String>,
    language: &String,
    source_ids: &Vec<String>,
) -> (v: Vec<JsonValue>)
    ensures
        models_of(v@) == slide_deck_model(format, length, *instructions, *language, source_ids@),
{
    let mut cfg: Vec<JsonValue> = Vec::new();
    push_val(&mut cfg, instr_value(instructions));
    push_val(&mut cfg, jstr(language.as_str()));
    push_val(&mut cfg, jint(format.code()));
    push_val(&mut cfg, jint(length.code()));
    let ghost m = models_of(cfg@);
    let cfg = jarr1(jarr(cfg));
    let mut v = head(8, source_ids);
    null_pad(&mut v, 12);
    push_val(&mut v, cfg);
    let ghost spec = slide_deck_model(format, length, *instructions, *language, source_ids@);
    assert(models_of(v@) =~~= spec) by {
        assert(m =~= spec[16]->Array_0[0]->Array_0);
    }
    v
}

fn data_table_inner(instructions: &String, language: &String, source_ids: &Vec<String>) -> (v: Vec<
    JsonValue,
>)
    ensures
        models_of(v@) == data_table_model(*instructions, *language, source_ids@),
{
    let cfg = jarr2(JsonValue::Null, jarr2(jstr(instructions.as_str()), jstr(language.as_str())));
    let mut v = head(9, source_ids);
    null_pad(&mut v, 14);
    push_val(&mut v, cfg);
    assert(models_of(v@) =~~= data_table_model(*instructions, *language, source_ids@));
    v
}

fn head(type_code: i32, source_ids: &Vec<String>) -> (v: Vec<JsonValue>)
    ensures
        models_of(v@) == seq![JsonModel::Null, JsonModel::Null, m_int(type_code), triple_model(source_ids@)],
{
    let mut v: Vec<JsonValue> = Vec::new();
    push_val(&mut v, JsonValue::Null);
    push_val(&mut v, JsonValue::Null);
    push_val(&mut v, jint(type_code));
    push_val(&mut v, to_triple_nested(source_ids.as_slice()));
    assert(models_of(v@) =~= seq![JsonModel::Null, JsonModel::Null, m_int(type_code), triple_model(source_ids@)]);
    v
}

/// Appends `count` nulls.
fn null_pad(v: &mut Vec<JsonValue>, count: usize)
    ensures
        models_of(final(v)@) == models_of(old(v)@) + nulls(count as nat),
{
    let mut i: usize = 0;
    while i < count
        invariant
            i <= count,
            models_of(v@) == models_of(old(v)@) + nulls(i as nat),
        decreases count - i,
    {
        push_val(v, JsonValue::Null);
        i = i + 1;
        assert(models_of(v@) =~= models_of(old(v)@) + nulls(i as nat));
    }
}

/// Optional instructions as a string value, empty when absent.
fn instr_value(instructions: &Option<String>) -> (r: JsonValue)
    ensures
        r@ == m_str(instr_text(*instructions)),
{
    match instructions {
        Some(s) => jstr(s.as_str()),
        None => JsonValue::Str(String::new()),
    }
}

/// The template prompt, with the extra instructions after a blank line.
fn build_report_prompt(format: &ReportFormat, extra: &Option<String>) -> (r: String)
    ensures
        r@ == report_prompt(*format, *extra),
{
    let base = format.prompt().unwrap();
    let mut out = owned(base);
    match extra {
        Some(e) => {
            if !e.as_str().is_empty() {
                push_str(&mut out, "\n\n");
                push_str(&mut out, e.as_str());
            }
        },
        None => {},
    }
    out
}

impl ArtifactConfig {
    /// The wire type code of the configured artifact.
    pub open spec fn type_code(&self) -> ArtifactTypeCode {
        match self {
            ArtifactConfig::Audio { .. } => ArtifactTypeCode::Audio,
            ArtifactConfig::Report { .. } => ArtifactTypeCode::Report,
            ArtifactConfig::Video { .. } => ArtifactTypeCode::Video,
            ArtifactConfig::Quiz { .. } => ArtifactTypeCode::QuizFlashcards,
            ArtifactConfig::Flashcards { .. } => ArtifactTypeCode::QuizFlashcards,
            ArtifactConfig::Infographic { .. } => ArtifactTypeCode::Infographic,
            ArtifactConfig::SlideDeck { .. } => ArtifactTypeCode::SlideDeck,
            ArtifactConfig::DataTable { .. } => ArtifactTypeCode::DataTable,
        }
    }

    /// The source ids of the configuration.
    pub open spec fn sources(&self) -> Seq<String> {
        match self {
            ArtifactConfig::Audio { source_ids, .. } => source_ids@,
            ArtifactConfig::Report { source_ids, .. } => source_ids@,
            ArtifactConfig::Video { source_ids, .. } => source_ids@,
            ArtifactConfig::Quiz { source_ids, .. } => source_ids@,
            ArtifactConfig::Flashcards { source_ids, .. } => source_ids@,
            ArtifactConfig::Infographic { source_ids, .. } => source_ids@,
            ArtifactConfig::SlideDeck { source_ids, .. } => source_ids@,
            ArtifactConfig::DataTable { source_ids, .. } => source_ids@,
        }
    }

    /// Index of the settings sub-array in the inner array.
    pub open spec fn config_index(&self) -> int {
        match self {
            ArtifactConfig::Audio { .. } => 6,
            ArtifactConfig::Report { .. } => 7,
            ArtifactConfig::Video { .. } => 8,
            ArtifactConfig::Quiz { .. } => 10,
            ArtifactConfig::Flashcards { .. } => 10,
            ArtifactConfig::Infographic { .. } => 14,
            ArtifactConfig::SlideDeck { .. } => 16,
            ArtifactConfig::DataTable { .. } => 18,
        }
    }
}

/// Every payload is `[[2], notebook_id, inner]`, where `inner` holds the
/// type code at index 2, the triple-nested source ids at index 3, nulls up to
/// the settings, and the settings last.
pub proof fn law_params_shape(c: ArtifactConfig, notebook_id: Seq<char>)
    ensures
        c.params_model(notebook_id) == m_arr(seq![m_arr(seq![m_int(2)]), m_str(notebook_id), m_arr(c.inner_model())]),
        c.inner_model().len() == c.config_index() + 1,
        c.inner_model()[0] == JsonModel::Null,
        c.inner_model()[1] == JsonModel::Null,
        c.inner_model()[2] == m_int(c.type_code().spec_code()),
        c.inner_model()[3] == triple_model(c.sources()),
        forall|i: int| 4 <= i < c.config_index() ==> #[trigger] c.inner_model()[i] == JsonModel::Null,
        c.inner_model()[c.config_index()] is Array,
{
}

/// What the user asked for, as sent: the instructions, or the empty text
/// when none were given.
pub open spec fn given_text(o: Option<String>) -> Seq<char> {
    match o {
        Some(s) => s@,
        None => Seq::empty(),
    }
}

/// The user's instructions reach the settings of every artifact type that
/// takes them, at that type's place: a quiz or flashcards at
/// `inner[10][1][2]` (after the variant, 2 for a quiz and 1 for flashcards),
/// audio at `inner[6][1][0]`, video at `inner[8][2][2]`, an infographic at
/// `inner[14][0][0]`, a slide deck at `inner[16][0][0]` and a data table at
/// `inner[18][1][0]`.
pub proof fn law_instructions_sent(c: ArtifactConfig)
    ensures
        ({
            let inner = c.inner_model();
            match c {
                ArtifactConfig::Quiz { instructions, .. } => {
                    &&& inner[10]->Array_0[1]->Array_0[0] == m_int(2)
                    &&& inner[10]->Array_0[1]->Array_0[2] == JsonModel::Str(given_text(instructions))
                },
                ArtifactConfig::Flashcards { instructions, .. } => {
                    &&& inner[10]->Array_0[1]->Array_0[0] == m_int(1)
                    &&& inner[10]->Array_0[1]->Array_0[2] == JsonModel::Str(given_text(instructions))
                },
                ArtifactConfig::Audio { instructions, .. } =>
                    inner[6]->Array_0[1]->Array_0[0] == JsonModel::Str(given_text(instructions)),
                ArtifactConfig::Video { instructions, .. } =>
                    inner[8]->Array_0[2]->Array_0[2] == JsonModel::Str(given_text(instructions)),
                ArtifactConfig::Infographic { instructions, .. } =>
                    inner[14]->Array_0[0]->Array_0[0] == JsonModel::Str(given_text(instructions)),
                ArtifactConfig::SlideDeck { instructions, .. } =>
                    inner[16]->Array_0[0]->Array_0[0] == JsonModel::Str(given_text(instructions)),
                ArtifactConfig::DataTable { instructions, .. } =>
                    inner[18]->Array_0[1]->Array_0[0] == JsonModel::Str(instructions@),
                ArtifactConfig::Report { .. } => true,
            }
        }),
{
}

/// A generated mind map: the id of the note that holds it, and its tree.
#[derive(Debug)]
pub struct MindMapResult {
    pub note_id: Option<String>,
    pub mind_map_data: Option<JsonValue>,
}

impl MindMapResult {
    pub fn new(note_id: String, mind_map_data: JsonValue) -> (r: MindMapResult)
        ensures
            opt_chars(r.note_id) == Some(note_id@),
            r.mind_map_data matches Some(d) && d@ == mind_map_data@,
    {
        MindMapResult { note_id: Some(note_id), mind_map_data: Some(mind_map_data) }
    }

    /// A result with neither a note nor a tree.
    pub fn empty() -> (r: MindMapResult)
        ensures
            r.note_id is None,
            r.mind_map_data is None,
    {
        MindMapResult { note_id: None, mind_map_data: None }
    }
}

} // verus!
