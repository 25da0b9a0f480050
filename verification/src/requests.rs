//! The requests that the tools accept, and how an artifact request becomes
//! a generation configuration.

use vstd::prelude::*;
use crate::rpc::artifacts::{
    ArtifactConfig, AudioFormat, AudioLength, VideoFormat, VideoStyle, ReportFormat, QuizDifficulty,
    QuizQuantity, InfographicOrientation, InfographicDetail, InfographicStyle, SlideDeckFormat,
    SlideDeckLength, opt_chars,
};
use crate::text::{lowercase, owned, push_str, str_eq};

verus! {

pub struct NotebookCreateRequest {
    pub title: String,
}

pub struct SourceAddRequest {
    pub notebook_id: String,
    pub title: String,
    pub content: String,
}

pub struct AskQuestionRequest {
    pub notebook_id: String,
    pub question: String,
}

pub struct SourceAddUrlRequest {
    pub notebook_id: String,
    pub url: String,
}

pub struct SourceAddDriveRequest {
    pub notebook_id: String,
    pub file_id: String,
    pub title: String,
    pub mime_type: Option<String>,
}

pub struct SourceAddFileRequest {
    pub notebook_id: String,
    pub file_path: String,
}

pub struct ArtifactListRequest {
    pub notebook_id: String,
    pub kind: Option<String>,
}

pub struct ArtifactGenerateRequest {
    pub notebook_id: String,
    pub kind: String,
    pub instructions: Option<String>,
    pub language: Option<String>,
    pub audio_format: Option<String>,
    pub audio_length: Option<String>,
    pub video_format: Option<String>,
    pub video_style: Option<String>,
    pub quiz_difficulty: Option<String>,
    pub quiz_quantity: Option<String>,
    pub report_format: Option<String>,
    pub infographic_orientation: Option<String>,
    pub infographic_detail: Option<String>,
    pub slide_deck_format: Option<String>,
    pub slide_deck_length: Option<String>,
    pub custom_prompt: Option<String>,
}

pub struct ArtifactDownloadRequest {
    pub notebook_id: String,
    pub artifact_id: String,
    pub output_path: String,
    pub format: Option<String>,
}

pub struct ArtifactDeleteRequest {
    pub notebook_id: String,
    pub artifact_id: String,
}

pub struct NotebookDeleteRequest {
    pub notebook_id: String,
}

pub struct NotebookGetRequest {
    pub notebook_id: String,
}

pub struct NotebookRenameRequest {
    pub notebook_id: String,
    pub new_title: String,
}

pub struct NotebookSummaryRequest {
    pub notebook_id: String,
}

pub struct NotebookShareStatusRequest {
    pub notebook_id: String,
}

pub struct NotebookShareSetRequest {
    pub notebook_id: String,
    pub public: bool,
}

pub struct SourceDeleteRequest {
    pub notebook_id: String,
    pub source_id: String,
}

pub struct SourceRenameRequest {
    pub notebook_id: String,
    pub source_id: String,
    pub new_title: String,
}

pub struct SourceGetFulltextRequest {
    pub notebook_id: String,
    pub source_id: String,
}

pub struct NoteCreateRequest {
    pub notebook_id: String,
    pub title: String,
    pub content: String,
}

pub struct NoteListRequest {
    pub notebook_id: String,
}

pub struct NoteDeleteRequest {
    pub notebook_id: String,
    pub note_id: String,
}

pub struct ChatHistoryRequest {
    pub notebook_id: String,
    pub limit: Option<u32>,
}

pub struct ResearchDeepDiveRequest {
    pub notebook_id: String,
    pub query: String,
    pub timeout_secs: Option<u64>,
}

pub struct ResearchDeepDiveStartRequest {
    pub notebook_id: String,
    pub query: String,
}

pub struct ResearchDeepDiveStatusRequest {
    pub notebook_id: String,
    pub task_id: Option<String>,
}

/// State shared by the tool handlers; it holds nothing of its own.
pub struct ServerState {}

/// The key a request option parses to under `parse`, or `default` when the
/// option is absent or not recognised.
pub open spec fn pick<T>(o: Option<String>, parse: spec_fn(Seq<char>) -> Option<T>, default: T) -> T {
    match o {
        Some(v) => match parse(lowercase(v@)) {
            Some(x) => x,
            None => default,
        },
        None => default,
    }
}

/// The characters of an optional string, empty when absent.
pub open spec fn or_empty(o: Option<String>) -> Seq<char> {
    match o {
        Some(s) => s@,
        None => Seq::empty(),
    }
}

pub open spec fn unknown_kind_message(kind: Seq<char>) -> Seq<char> {
    "Unknown artifact kind: '"@ + kind
        + "'. Valid: audio, video, report, quiz, flashcards, infographic, slide_deck, data_table, mind_map"@
}

pub open spec fn invalid_video_message(v: Seq<char>) -> Seq<char> {
    "Invalid video_format: '"@ + v + "'. Valid: explainer, brief, cinematic"@
}

pub open spec fn invalid_report_message(v: Seq<char>) -> Seq<char> {
    "Invalid report_format: '"@ + v + "'. Valid: briefing_doc, study_guide, blog_post, custom"@
}

/// The video format a request asks for; `None` when it names none that exists.
pub open spec fn video_choice(o: Option<String>) -> Option<VideoFormat> {
    match o {
        None => Some(VideoFormat::Explainer),
        Some(v) => if v@ == "cinematic"@ {
            Some(VideoFormat::Cinematic)
        } else {
            VideoFormat::spec_from_key(lowercase(v@))
        },
    }
}

/// The error `build_artifact_config` answers for a request, if any.
pub open spec fn build_error(kind: Seq<char>, req: ArtifactGenerateRequest) -> Option<Seq<char>> {
    if kind == "audio"@ || kind == "quiz"@ || kind == "flashcards"@ || kind == "infographic"@
        || kind == "slide_deck"@ || kind == "data_table"@ {
        None
    } else if kind == "video"@ {
        match req.video_format {
            Some(v) => if video_choice(req.video_format) is None {
                Some(invalid_video_message(v@))
            } else {
                None
            },
            None => None,
        }
    } else if kind == "report"@ {
        match req.report_format {
            Some(v) => if v@ == "custom"@ {
                if or_empty(req.custom_prompt).len() == 0 {
                    Some("custom_prompt is required when report_format=custom"@)
                } else {
                    None
                }
            } else if ReportFormat::spec_key_of(lowercase(v@)) is None {
                Some(invalid_report_message(v@))
            } else {
                None
            },
            None => None,
        }
    } else {
        Some(unknown_kind_message(kind))
    }
}

/// The report format a request asks for, when it asks for one that exists.
pub open spec fn report_ok(f: ReportFormat, req: ArtifactGenerateRequest) -> bool {
    match req.report_format {
        None => f == ReportFormat::BriefingDoc,
        Some(v) => if v@ == "custom"@ {
            f matches ReportFormat::Custom { prompt } && prompt@ == or_empty(req.custom_prompt)
        } else {
            ReportFormat::spec_key_of(lowercase(v@)) matches Some(k) && f.parsed_as(k)
        },
    }
}

/// What a successful `build_artifact_config` returns for each kind: the
/// request's options parsed, defaults where they are absent or not
/// recognised, the given language, and no sources yet.
pub open spec fn config_ok(c: ArtifactConfig, kind: Seq<char>, req: ArtifactGenerateRequest, lang: Seq<char>) -> bool {
    if kind == "audio"@ {
        c matches ArtifactConfig::Audio { format, length, instructions, language, source_ids } && {
            &&& format == pick(req.audio_format, |t| AudioFormat::spec_from_key(t), AudioFormat::DeepDive)
            &&& length == pick(req.audio_length, |t| AudioLength::spec_from_key(t), AudioLength::Default)
            &&& opt_chars(instructions) == opt_chars(req.instructions)
            &&& language@ == lang
            &&& source_ids@.len() == 0
        }
    } else if kind == "video"@ {
        c matches ArtifactConfig::Video { format, style, instructions, language, source_ids } && {
            &&& video_choice(req.video_format) == Some(format)
            &&& style == match req.video_style {
                Some(v) => VideoStyle::spec_from_key(lowercase(v@)),
                None => None,
            }
            &&& opt_chars(instructions) == opt_chars(req.instructions)
            &&& language@ == lang
            &&& source_ids@.len() == 0
        }
    } else if kind == "report"@ {
        c matches ArtifactConfig::Report { format, language, source_ids, extra_instructions } && {
            &&& report_ok(format, req)
            &&& opt_chars(extra_instructions) == opt_chars(req.instructions)
            &&& language@ == lang
            &&& source_ids@.len() == 0
        }
    } else if kind == "quiz"@ {
        c matches ArtifactConfig::Quiz { difficulty, quantity, instructions, source_ids } && {
            &&& difficulty == pick(req.quiz_difficulty, |t| QuizDifficulty::spec_from_key(t), QuizDifficulty::Medium)
            &&& quantity == pick(req.quiz_quantity, |t| QuizQuantity::spec_from_key(t), QuizQuantity::Standard)
            &&& opt_chars(instructions) == opt_chars(req.instructions)
            &&& source_ids@.len() == 0
        }
    } else if kind == "flashcards"@ {
        c matches ArtifactConfig::Flashcards { difficulty, quantity, instructions, source_ids } && {
            &&& difficulty == pick(req.quiz_difficulty, |t| QuizDifficulty::spec_from_key(t), QuizDifficulty::Medium)
            &&& quantity == pick(req.quiz_quantity, |t| QuizQuantity::spec_from_key(t), QuizQuantity::Standard)
            &&& opt_chars(instructions) == opt_chars(req.instructions)
            &&& source_ids@.len() == 0
        }
    } else if kind == "infographic"@ {
        c matches ArtifactConfig::Infographic { orientation, detail, style, instructions, language, source_ids } && {
            &&& orientation == pick(
                req.infographic_orientation,
                |t| InfographicOrientation::spec_from_key(t),
                InfographicOrientation::Landscape,
            )
            &&& detail == pick(
                req.infographic_detail,
                |t| InfographicDetail::spec_from_key(t),
                InfographicDetail::Standard,
            )
            &&& style == InfographicStyle::AutoSelect
            &&& opt_chars(instructions) == opt_chars(req.instructions)
            &&& language@ == lang
            &&& source_ids@.len() == 0
        }
    } else if kind == "slide_deck"@ {
        c matches ArtifactConfig::SlideDeck { format, length, instructions, language, source_ids } && {
            &&& format == pick(req.slide_deck_format, |t| SlideDeckFormat::spec_from_key(t), SlideDeckFormat::DetailedDeck)
            &&& length == pick(req.slide_deck_length, |t| SlideDeckLength::spec_from_key(t), SlideDeckLength::Default)
            &&& opt_chars(instructions) == opt_chars(req.instructions)
            &&& language@ == lang
            &&& source_ids@.len() == 0
        }
    } else if kind == "data_table"@ {
        c matches ArtifactConfig::DataTable { instructions, language, source_ids } && {
            &&& instructions@ == or_empty(req.instructions)
            &&& language@ == lang
            &&& source_ids@.len() == 0
        }
    } else {
        false
    }
}

fn clone_opt(o: &Option<String>) -> (r: Option<String>)
    ensures
        opt_chars(r) == opt_chars(*o),
{
    match o {
        Some(s) => Some(s.clone()),
        None => None,
    }
}

/// `prefix`, then `middle`, then `suffix`.
fn quoted(prefix: &str, middle: &str, suffix: &str) -> (r: String)
    ensures
        r@ == prefix@ + middle@ + suffix@,
{
    let mut out = owned(prefix);
    push_str(&mut out, middle);
    push_str(&mut out, suffix);
    out
}

/// The artifact kinds are different words.
proof fn lemma_kinds_distinct()
    ensures
        "audio"@ != "video"@,
        "audio"@ != "report"@,
        "audio"@ != "quiz"@,
        "audio"@ != "flashcards"@,
        "audio"@ != "infographic"@,
        "audio"@ != "slide_deck"@,
        "audio"@ != "data_table"@,
        "video"@ != "report"@,
        "video"@ != "quiz"@,
        "video"@ != "flashcards"@,
        "video"@ != "infographic"@,
        "video"@ != "slide_deck"@,
        "video"@ != "data_table"@,
        "report"@ != "quiz"@,
        "report"@ != "flashcards"@,
        "report"@ != "infographic"@,
        "report"@ != "slide_deck"@,
        "report"@ != "data_table"@,
        "quiz"@ != "flashcards"@,
        "quiz"@ != "infographic"@,
        "quiz"@ != "slide_deck"@,
        "quiz"@ != "data_table"@,
        "flashcards"@ != "infographic"@,
        "flashcards"@ != "slide_deck"@,
        "flashcards"@ != "data_table"@,
        "infographic"@ != "slide_deck"@,
        "infographic"@ != "data_table"@,
        "slide_deck"@ != "data_table"@,
{
    reveal_strlit("audio");
    reveal_strlit("video");
    reveal_strlit("report");
    reveal_strlit("quiz");
    reveal_strlit("flashcards");
    reveal_strlit("infographic");
    reveal_strlit("slide_deck");
    reveal_strlit("data_table");
    assert("audio"@.len() == 5 && "audio"@[0] == 'a');
    assert("video"@.len() == 5 && "video"@[0] == 'v');
    assert("report"@.len() == 6 && "report"@[0] == 'r');
    assert("quiz"@.len() == 4 && "quiz"@[0] == 'q');
    assert("flashcards"@.len() == 10 && "flashcards"@[0] == 'f');
    assert("infographic"@.len() == 11 && "infographic"@[0] == 'i');
    assert("slide_deck"@.len() == 10 && "slide_deck"@[0] == 's');
    assert("data_table"@.len() == 10 && "data_table"@[0] == 'd');
}

/// Turns an artifact request of the given kind into a generation
/// configuration with no sources, or the message of what is wrong with it.
pub fn build_artifact_config(kind: &str, req: &ArtifactGenerateRequest, lang: &str) -> (r: Result<ArtifactConfig, String>)
    ensures
        match build_error(kind@, *req) {
            Some(msg) => r matches Err(e) && e@ == msg,
            None => r matches Ok(c) && config_ok(c, kind@, *req, lang@),
        },
{
    proof {
        lemma_kinds_distinct();
    }
    let instructions = clone_opt(&req.instructions);
    if str_eq(kind, "audio") {
        let format = match &req.audio_format {
            Some(v) => match AudioFormat::from_str_key(v.as_str()) {
                Some(f) => f,
                None => AudioFormat::DeepDive,
            },
            None => AudioFormat::DeepDive,
        };
        let length = match &req.audio_length {
            Some(v) => match AudioLength::from_str_key(v.as_str()) {
                Some(f) => f,
                None => AudioLength::Default,
            },
            None => AudioLength::Default,
        };
        Ok(ArtifactConfig::Audio { format, length, instructions, language: owned(lang), source_ids: Vec::new() })
    } else if str_eq(kind, "video") {
        let format = match &req.video_format {
            Some(v) => if str_eq(v.as_str(), "cinematic") {
                VideoFormat::Cinematic
            } else {
                match VideoFormat::from_str_key(v.as_str()) {
                    Some(f) => f,
                    None => {
                        return Err(
                            quoted("Invalid video_format: '", v.as_str(), "'. Valid: explainer, brief, cinematic"),
                        );
                    },
                }
            },
            None => VideoFormat::Explainer,
        };
        let style = match &req.video_style {
            Some(v) => VideoStyle::from_str_key(v.as_str()),
            None => None,
        };
        Ok(ArtifactConfig::Video { format, style, instructions, language: owned(lang), source_ids: Vec::new() })
    } else if str_eq(kind, "report") {
        let format = match &req.report_format {
            Some(v) => if str_eq(v.as_str(), "custom") {
                let prompt = match &req.custom_prompt {
                    Some(p) => p.clone(),
                    None => String::new(),
                };
                if prompt.as_str().is_empty() {
                    return Err(owned("custom_prompt is required when report_format=custom"));
                }
                ReportFormat::Custom { prompt }
            } else {
                match ReportFormat::from_str_key(v.as_str()) {
                    Some(f) => f,
                    None => {
                        return Err(
                            quoted(
                                "Invalid report_format: '",
                                v.as_str(),
                                "'. Valid: briefing_doc, study_guide, blog_post, custom",
                            ),
                        );
                    },
                }
            },
            None => ReportFormat::BriefingDoc,
        };
        Ok(ArtifactConfig::Report { format, language: owned(lang), source_ids: Vec::new(), extra_instructions: instructions })
    } else if str_eq(kind, "quiz") || str_eq(kind, "flashcards") {
        let difficulty = match &req.quiz_difficulty {
            Some(v) => match QuizDifficulty::from_str_key(v.as_str()) {
                Some(f) => f,
                None => QuizDifficulty::Medium,
            },
            None => QuizDifficulty::Medium,
        };
        let quantity = match &req.quiz_quantity {
            Some(v) => match QuizQuantity::from_str_key(v.as_str()) {
                Some(f) => f,
                None => QuizQuantity::Standard,
            },
            None => QuizQuantity::Standard,
        };
        if str_eq(kind, "quiz") {
            Ok(ArtifactConfig::Quiz { difficulty, quantity, instructions, source_ids: Vec::new() })
        } else {
            Ok(ArtifactConfig::Flashcards { difficulty, quantity, instructions, source_ids: Vec::new() })
        }
    } else if str_eq(kind, "infographic") {
        let orientation = match &req.infographic_orientation {
            Some(v) => match InfographicOrientation::from_str_key(v.as_str()) {
                Some(f) => f,
                None => InfographicOrientation::Landscape,
            },
            None => InfographicOrientation::Landscape,
        };
        let detail = match &req.infographic_detail {
            Some(v) => match InfographicDetail::from_str_key(v.as_str()) {
                Some(f) => f,
                None => InfographicDetail::Standard,
            },
            None => InfographicDetail::Standard,
        };
        Ok(ArtifactConfig::Infographic {
            orientation,
            detail,
            style: InfographicStyle::AutoSelect,
            instructions,
            language: owned(lang),
            source_ids: Vec::new(),
        })
    } else if str_eq(kind, "slide_deck") {
        let format = match &req.slide_deck_format {
            Some(v) => match SlideDeckFormat::from_str_key(v.as_str()) {
                Some(f) => f,
                None => SlideDeckFormat::DetailedDeck,
            },
            None => SlideDeckFormat::DetailedDeck,
        };
        let length = match &req.slide_deck_length {
            Some(v) => match SlideDeckLength::from_str_key(v.as_str()) {
                Some(f) => f,
                None => SlideDeckLength::Default,
            },
            None => SlideDeckLength::Default,
        };
        Ok(ArtifactConfig::SlideDeck { format, length, instructions, language: owned(lang), source_ids: Vec::new() })
    } else if str_eq(kind, "data_table") {
        let text = match &req.instructions {
            Some(s) => s.clone(),
            None => String::new(),
        };
        Ok(ArtifactConfig::DataTable { instructions: text, language: owned(lang), source_ids: Vec::new() })
    } else {
        Err(
            quoted(
                "Unknown artifact kind: '",
                kind,
                "'. Valid: audio, video, report, quiz, flashcards, infographic, slide_deck, data_table, mind_map",
            ),
        )
    }
}

} // verus!
