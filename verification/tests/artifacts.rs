use notebooklm_mcp::json::JsonValue;
use notebooklm_mcp::rpc::artifacts::rpc_ids;
use notebooklm_mcp::rpc::artifacts::{
    to_double_nested, to_triple_nested, ArtifactConfig, ArtifactStatus, ArtifactType,
    ArtifactTypeCode, AudioFormat, AudioLength, GenerationStatus, InfographicDetail,
    InfographicOrientation, InfographicStyle, MindMapResult, QuizDifficulty, QuizQuantity,
    QuizVariant, ReportFormat, SlideDeckFormat, SlideDeckLength, VideoFormat, VideoStyle,
};

fn conv(v: &serde_json::Value) -> JsonValue {
    match v {
        serde_json::Value::Null => JsonValue::Null,
        serde_json::Value::Bool(b) => JsonValue::Bool(*b),
        serde_json::Value::Number(n) => {
            if let Some(u) = n.as_u64() {
                JsonValue::PosInt(u)
            } else if let Some(i) = n.as_i64() {
                JsonValue::NegInt(i)
            } else {
                JsonValue::Float(n.to_string())
            }
        }
        serde_json::Value::String(s) => JsonValue::Str(s.clone()),
        serde_json::Value::Array(a) => JsonValue::Array(a.iter().map(conv).collect()),
        serde_json::Value::Object(o) => {
            JsonValue::Object(o.iter().map(|(k, v)| (k.clone(), conv(v))).collect())
        }
    }
}

/// A value written as JSON text.
fn j(text: &str) -> JsonValue {
    conv(&serde_json::from_str(text).expect("test JSON"))
}

// -----------------------------------------------------------------------
// ArtifactTypeCode
// -----------------------------------------------------------------------

#[test]
fn test_artifact_type_code_values() {
    assert_eq!(ArtifactTypeCode::Audio.code(), 1);
    assert_eq!(ArtifactTypeCode::Report.code(), 2);
    assert_eq!(ArtifactTypeCode::Video.code(), 3);
    assert_eq!(ArtifactTypeCode::QuizFlashcards.code(), 4);
    assert_eq!(ArtifactTypeCode::MindMap.code(), 5);
    assert_eq!(ArtifactTypeCode::Infographic.code(), 7);
    assert_eq!(ArtifactTypeCode::SlideDeck.code(), 8);
    assert_eq!(ArtifactTypeCode::DataTable.code(), 9);
}

#[test]
fn test_artifact_type_code_from_code_roundtrip() {
    let codes = [1, 2, 3, 4, 5, 7, 8, 9];
    for code in codes {
        let parsed = ArtifactTypeCode::from_code(code).unwrap();
        assert_eq!(parsed.code(), code, "Roundtrip failed for code {}", code);
    }
}

#[test]
fn test_artifact_type_code_from_code_invalid() {
    assert!(ArtifactTypeCode::from_code(0).is_none());
    assert!(ArtifactTypeCode::from_code(6).is_none()); // Unused
    assert!(ArtifactTypeCode::from_code(10).is_none());
    assert!(ArtifactTypeCode::from_code(-1).is_none());
}

// -----------------------------------------------------------------------
// ArtifactStatus
// -----------------------------------------------------------------------

#[test]
fn test_artifact_status_values() {
    assert_eq!(ArtifactStatus::Processing.code(), 1);
    assert_eq!(ArtifactStatus::Pending.code(), 2);
    assert_eq!(ArtifactStatus::Completed.code(), 3);
    assert_eq!(ArtifactStatus::Failed.code(), 4);
}

#[test]
fn test_artifact_status_from_code_roundtrip() {
    for code in 1..=4 {
        let parsed = ArtifactStatus::from_code(code).unwrap();
        assert_eq!(parsed.code(), code);
    }
}

#[test]
fn test_artifact_status_display() {
    assert_eq!(ArtifactStatus::Processing.to_string(), "PROCESSING");
    assert_eq!(ArtifactStatus::Completed.to_string(), "COMPLETED");
    assert_eq!(ArtifactStatus::Failed.to_string(), "FAILED");
}

// -----------------------------------------------------------------------
// ArtifactType (user-facing)
// -----------------------------------------------------------------------

#[test]
fn test_artifact_type_from_type_code() {
    assert_eq!(
        ArtifactType::from_type_code_and_variant(ArtifactTypeCode::Audio, None),
        ArtifactType::Audio
    );
    assert_eq!(
        ArtifactType::from_type_code_and_variant(ArtifactTypeCode::Video, None),
        ArtifactType::Video
    );
    assert_eq!(
        ArtifactType::from_type_code_and_variant(ArtifactTypeCode::Report, None),
        ArtifactType::Report
    );
    assert_eq!(
        ArtifactType::from_type_code_and_variant(ArtifactTypeCode::MindMap, None),
        ArtifactType::MindMap
    );
    assert_eq!(
        ArtifactType::from_type_code_and_variant(ArtifactTypeCode::Infographic, None),
        ArtifactType::Infographic
    );
    assert_eq!(
        ArtifactType::from_type_code_and_variant(ArtifactTypeCode::SlideDeck, None),
        ArtifactType::SlideDeck
    );
    assert_eq!(
        ArtifactType::from_type_code_and_variant(ArtifactTypeCode::DataTable, None),
        ArtifactType::DataTable
    );
}

#[test]
fn test_artifact_type_quiz_flashcard_variant_distinction() {
    // Variant 1 = Flashcards
    assert_eq!(
        ArtifactType::from_type_code_and_variant(ArtifactTypeCode::QuizFlashcards, Some(1)),
        ArtifactType::Flashcards
    );
    // Variant 2 = Quiz
    assert_eq!(
        ArtifactType::from_type_code_and_variant(ArtifactTypeCode::QuizFlashcards, Some(2)),
        ArtifactType::Quiz
    );
    // No variant = Unknown
    assert_eq!(
        ArtifactType::from_type_code_and_variant(ArtifactTypeCode::QuizFlashcards, None),
        ArtifactType::Unknown
    );
    // Invalid variant = Unknown
    assert_eq!(
        ArtifactType::from_type_code_and_variant(ArtifactTypeCode::QuizFlashcards, Some(99)),
        ArtifactType::Unknown
    );
}

#[test]
fn test_artifact_type_as_str() {
    assert_eq!(ArtifactType::Audio.as_str(), "audio");
    assert_eq!(ArtifactType::MindMap.as_str(), "mind_map");
    assert_eq!(ArtifactType::SlideDeck.as_str(), "slide_deck");
    assert_eq!(ArtifactType::DataTable.as_str(), "data_table");
    assert_eq!(ArtifactType::Unknown.as_str(), "unknown");
}

#[test]
fn test_artifact_type_from_str_key() {
    assert_eq!(
        ArtifactType::from_str_key("audio"),
        Some(ArtifactType::Audio)
    );
    assert_eq!(
        ArtifactType::from_str_key("VIDEO"),
        Some(ArtifactType::Video)
    );
    assert_eq!(
        ArtifactType::from_str_key("mind_map"),
        Some(ArtifactType::MindMap)
    );
    assert_eq!(
        ArtifactType::from_str_key("mindmap"),
        Some(ArtifactType::MindMap)
    );
    assert_eq!(
        ArtifactType::from_str_key("slide_deck"),
        Some(ArtifactType::SlideDeck)
    );
    assert_eq!(
        ArtifactType::from_str_key("slidedeck"),
        Some(ArtifactType::SlideDeck)
    );
    assert_eq!(
        ArtifactType::from_str_key("data_table"),
        Some(ArtifactType::DataTable)
    );
    assert_eq!(
        ArtifactType::from_str_key("datatable"),
        Some(ArtifactType::DataTable)
    );
    assert_eq!(ArtifactType::from_str_key("invalid"), None);
}

// -----------------------------------------------------------------------
// Audio enums
// -----------------------------------------------------------------------

#[test]
fn test_audio_format_codes() {
    assert_eq!(AudioFormat::DeepDive.code(), 1);
    assert_eq!(AudioFormat::Brief.code(), 2);
    assert_eq!(AudioFormat::Critique.code(), 3);
    assert_eq!(AudioFormat::Debate.code(), 4);
}

#[test]
fn test_audio_format_from_str_key() {
    assert_eq!(
        AudioFormat::from_str_key("deep_dive"),
        Some(AudioFormat::DeepDive)
    );
    assert_eq!(
        AudioFormat::from_str_key("deepdive"),
        Some(AudioFormat::DeepDive)
    );
    assert_eq!(AudioFormat::from_str_key("BRIEF"), Some(AudioFormat::Brief));
    assert_eq!(AudioFormat::from_str_key("invalid"), None);
}

#[test]
fn test_audio_length_codes() {
    assert_eq!(AudioLength::Short.code(), 1);
    assert_eq!(AudioLength::Default.code(), 2);
    assert_eq!(AudioLength::Long.code(), 3);
}

#[test]
fn test_audio_length_from_str_key() {
    assert_eq!(AudioLength::from_str_key("short"), Some(AudioLength::Short));
    assert_eq!(
        AudioLength::from_str_key("default"),
        Some(AudioLength::Default)
    );
    assert_eq!(AudioLength::from_str_key("long"), Some(AudioLength::Long));
}

// -----------------------------------------------------------------------
// Video enums
// -----------------------------------------------------------------------

#[test]
fn test_video_format_codes() {
    assert_eq!(VideoFormat::Explainer.code(), 1);
    assert_eq!(VideoFormat::Brief.code(), 2);
    assert_eq!(VideoFormat::Cinematic.code(), 3);
}

#[test]
fn test_video_format_from_str_key() {
    assert_eq!(
        VideoFormat::from_str_key("explainer"),
        Some(VideoFormat::Explainer)
    );
    assert_eq!(
        VideoFormat::from_str_key("cinematic"),
        Some(VideoFormat::Cinematic)
    );
}

#[test]
fn test_video_format_timeout() {
    assert_eq!(VideoFormat::Cinematic.default_timeout_secs(), 1800);
    assert_eq!(VideoFormat::Explainer.default_timeout_secs(), 300);
    assert_eq!(VideoFormat::Brief.default_timeout_secs(), 300);
}

#[test]
fn test_video_style_codes() {
    assert_eq!(VideoStyle::AutoSelect.code(), 1);
    assert_eq!(VideoStyle::Classic.code(), 2);
    assert_eq!(VideoStyle::Whiteboard.code(), 3);
    assert_eq!(VideoStyle::Kawaii.code(), 4);
    assert_eq!(VideoStyle::Anime.code(), 5);
    assert_eq!(VideoStyle::Watercolor.code(), 6);
    assert_eq!(VideoStyle::RetroPrint.code(), 7);
    assert_eq!(VideoStyle::Heritage.code(), 8);
    assert_eq!(VideoStyle::PaperCraft.code(), 9);
}

#[test]
fn test_video_style_from_str_key() {
    assert_eq!(
        VideoStyle::from_str_key("auto"),
        Some(VideoStyle::AutoSelect)
    );
    assert_eq!(
        VideoStyle::from_str_key("whiteboard"),
        Some(VideoStyle::Whiteboard)
    );
    assert_eq!(
        VideoStyle::from_str_key("paper_craft"),
        Some(VideoStyle::PaperCraft)
    );
    assert_eq!(
        VideoStyle::from_str_key("papercraft"),
        Some(VideoStyle::PaperCraft)
    );
    assert_eq!(VideoStyle::from_str_key("invalid"), None);
}

// -----------------------------------------------------------------------
// Quiz/Flashcard enums
// -----------------------------------------------------------------------

#[test]
fn test_quiz_quantity_codes() {
    assert_eq!(QuizQuantity::Fewer.code(), 1);
    assert_eq!(QuizQuantity::Standard.code(), 2);
}

#[test]
fn test_quiz_difficulty_codes() {
    assert_eq!(QuizDifficulty::Easy.code(), 1);
    assert_eq!(QuizDifficulty::Medium.code(), 2);
    assert_eq!(QuizDifficulty::Hard.code(), 3);
}

#[test]
fn test_quiz_variant_from_code() {
    assert_eq!(QuizVariant::from_code(1), Some(QuizVariant::Flashcards));
    assert_eq!(QuizVariant::from_code(2), Some(QuizVariant::Quiz));
    assert!(QuizVariant::from_code(3).is_none());
}

// -----------------------------------------------------------------------
// Infographic enums
// -----------------------------------------------------------------------

#[test]
fn test_infographic_orientation_codes() {
    assert_eq!(InfographicOrientation::Landscape.code(), 1);
    assert_eq!(InfographicOrientation::Portrait.code(), 2);
    assert_eq!(InfographicOrientation::Square.code(), 3);
}

#[test]
fn test_infographic_detail_codes() {
    assert_eq!(InfographicDetail::Concise.code(), 1);
    assert_eq!(InfographicDetail::Standard.code(), 2);
    assert_eq!(InfographicDetail::Detailed.code(), 3);
}

#[test]
fn test_infographic_style_code() {
    assert_eq!(InfographicStyle::AutoSelect.code(), 1);
}

// -----------------------------------------------------------------------
// Slide Deck enums
// -----------------------------------------------------------------------

#[test]
fn test_slide_deck_format_codes() {
    assert_eq!(SlideDeckFormat::DetailedDeck.code(), 1);
    assert_eq!(SlideDeckFormat::PresenterSlides.code(), 2);
}

#[test]
fn test_slide_deck_length_codes() {
    assert_eq!(SlideDeckLength::Default.code(), 1);
    assert_eq!(SlideDeckLength::Short.code(), 2);
}

// -----------------------------------------------------------------------
// ReportFormat (string enum)
// -----------------------------------------------------------------------

#[test]
fn test_report_format_has_prompts() {
    assert!(ReportFormat::BriefingDoc.prompt().is_some());
    assert!(ReportFormat::StudyGuide.prompt().is_some());
    assert!(ReportFormat::BlogPost.prompt().is_some());
    assert!(ReportFormat::Custom {
        prompt: "test".into()
    }
    .prompt()
    .is_some());
}

#[test]
fn test_report_format_custom_prompt_passthrough() {
    let custom = ReportFormat::Custom {
        prompt: "My custom prompt".to_string(),
    };
    assert_eq!(custom.prompt(), Some("My custom prompt"));
}

#[test]
fn test_report_format_display() {
    assert_eq!(ReportFormat::BriefingDoc.to_string(), "briefing_doc");
    assert_eq!(ReportFormat::StudyGuide.to_string(), "study_guide");
    assert_eq!(ReportFormat::BlogPost.to_string(), "blog_post");
    assert_eq!(
        ReportFormat::Custom {
            prompt: String::new()
        }
        .to_string(),
        "custom"
    );
}

#[test]
fn test_report_format_from_str_key() {
    assert_eq!(
        ReportFormat::from_str_key("briefing_doc"),
        Some(ReportFormat::BriefingDoc)
    );
    assert_eq!(
        ReportFormat::from_str_key("briefingdoc"),
        Some(ReportFormat::BriefingDoc)
    );
    assert_eq!(
        ReportFormat::from_str_key("study_guide"),
        Some(ReportFormat::StudyGuide)
    );
    assert_eq!(
        ReportFormat::from_str_key("blog_post"),
        Some(ReportFormat::BlogPost)
    );
    assert_eq!(
        ReportFormat::from_str_key("custom"),
        Some(ReportFormat::Custom {
            prompt: String::new()
        })
    );
    assert_eq!(ReportFormat::from_str_key("invalid"), None);
}

// -----------------------------------------------------------------------
// RPC IDs
// -----------------------------------------------------------------------

#[test]
fn test_rpc_ids_are_non_empty() {
    assert!(!rpc_ids::CREATE_ARTIFACT.is_empty());
    assert!(!rpc_ids::LIST_ARTIFACTS.is_empty());
    assert!(!rpc_ids::DELETE_ARTIFACT.is_empty());
    assert!(!rpc_ids::GET_INTERACTIVE_HTML.is_empty());
    assert!(!rpc_ids::GENERATE_MIND_MAP.is_empty());
    assert!(!rpc_ids::CREATE_NOTE.is_empty());
    assert!(!rpc_ids::GET_NOTES_AND_MIND_MAPS.is_empty());
}

#[test]
fn test_mind_map_uses_different_rpc() {
    // Mind map generation uses a DIFFERENT endpoint than other artifacts
    assert_ne!(rpc_ids::GENERATE_MIND_MAP, rpc_ids::CREATE_ARTIFACT);
}

// -----------------------------------------------------------------------
// Source ID formatting helpers
// -----------------------------------------------------------------------

#[test]
fn test_to_triple_nested() {
    let ids = vec!["sid1".to_string(), "sid2".to_string()];
    let result = to_triple_nested(&ids);
    let arr = result.as_array().unwrap();
    assert_eq!(arr.len(), 2);
    // [[[sid1]], [[sid2]]]
    assert_eq!(
        arr[0].as_array().unwrap()[0].as_array().unwrap()[0]
            .as_str()
            .unwrap(),
        "sid1"
    );
    assert_eq!(
        arr[1].as_array().unwrap()[0].as_array().unwrap()[0]
            .as_str()
            .unwrap(),
        "sid2"
    );
}

#[test]
fn test_to_double_nested() {
    let ids = vec!["sid1".to_string(), "sid2".to_string()];
    let result = to_double_nested(&ids);
    let arr = result.as_array().unwrap();
    assert_eq!(arr.len(), 2);
    // [[sid1], [sid2]]
    assert_eq!(arr[0].as_array().unwrap()[0].as_str().unwrap(), "sid1");
    assert_eq!(arr[1].as_array().unwrap()[0].as_str().unwrap(), "sid2");
}

#[test]
fn test_to_triple_nested_empty() {
    let result = to_triple_nested(&[]);
    assert!(result.as_array().unwrap().is_empty());
}

// -----------------------------------------------------------------------
// ArtifactConfig::to_params_array — one test per variant
// -----------------------------------------------------------------------

fn source_ids() -> Vec<String> {
    vec!["src-aaa-111".to_string(), "src-bbb-222".to_string()]
}

/// Helper: extract the inner array from params: [[2], nb_id, [inner]]
fn inner_array(params: &JsonValue) -> Vec<&JsonValue> {
    params.as_array().unwrap()[2]
        .as_array()
        .unwrap()
        .iter()
        .collect()
}

// --- Audio ---

#[test]
fn test_audio_params_structure() {
    let config = ArtifactConfig::Audio {
        format: AudioFormat::DeepDive,
        length: AudioLength::Default,
        instructions: Some("Focus on key concepts".to_string()),
        language: "en".to_string(),
        source_ids: source_ids(),
    };
    let params = config.to_params_array("nb-123");

    // Outer: [[2], "nb-123", [inner]]
    let outer = params.as_array().unwrap();
    assert_eq!(outer.len(), 3);
    assert_eq!(outer[0].as_array().unwrap()[0].as_i64().unwrap(), 2);
    assert_eq!(outer[1].as_str().unwrap(), "nb-123");

    // Inner: type_code at [2]
    let inner = inner_array(&params);
    assert_eq!(inner.len(), 7); // indices 0-6
    assert_eq!(inner[2].as_i64().unwrap(), 1); // type code
    assert!(inner[3].is_array()); // triple nested source_ids

    // Config at index 6
    let config_arr = inner[6].as_array().unwrap();
    assert_eq!(config_arr.len(), 2);
    let config_inner = config_arr[1].as_array().unwrap();
    assert_eq!(config_inner[0].as_str().unwrap(), "Focus on key concepts"); // instructions
    assert_eq!(config_inner[1].as_i64().unwrap(), 2); // length=Default
    assert_eq!(config_inner[3].is_array(), true); // double nested source_ids
    assert_eq!(config_inner[4].as_str().unwrap(), "en"); // language
    assert_eq!(config_inner[6].as_i64().unwrap(), 1); // format=DeepDive
}

// --- Report ---

#[test]
fn test_report_params_structure() {
    let config = ArtifactConfig::Report {
        format: ReportFormat::StudyGuide,
        language: "en".to_string(),
        source_ids: source_ids(),
        extra_instructions: None,
    };
    let params = config.to_params_array("nb-456");

    let inner = inner_array(&params);
    assert_eq!(inner.len(), 8); // indices 0-7
    assert_eq!(inner[2].as_i64().unwrap(), 2); // type code

    // Config at index 7
    let config_inner = inner[7].as_array().unwrap()[1].as_array().unwrap();
    assert_eq!(config_inner[0].as_str().unwrap(), "Study Guide"); // title
    assert_eq!(
        config_inner[1].as_str().unwrap(),
        "Comprehensive topic coverage"
    ); // description
    assert!(config_inner[2].is_null()); // padding
    assert_eq!(config_inner[4].as_str().unwrap(), "en"); // language
    assert!(config_inner[5].as_str().unwrap().contains("study guide")); // prompt
    assert!(config_inner[7].as_bool().unwrap()); // true
}

#[test]
fn test_report_custom_with_extra_instructions() {
    let config = ArtifactConfig::Report {
        format: ReportFormat::Custom {
            prompt: "Summarize in bullet points".to_string(),
        },
        language: "es".to_string(),
        source_ids: source_ids(),
        extra_instructions: Some("Focus on chapter 3".to_string()),
    };
    let params = config.to_params_array("nb-789");
    let config_inner = inner_array(&params)[7].as_array().unwrap()[1]
        .as_array()
        .unwrap();

    // Prompt should combine base + extra
    let prompt = config_inner[5].as_str().unwrap();
    assert!(prompt.contains("Summarize in bullet points"));
    assert!(prompt.contains("Focus on chapter 3"));
}

// --- Video ---

#[test]
fn test_video_params_structure() {
    let config = ArtifactConfig::Video {
        format: VideoFormat::Explainer,
        style: Some(VideoStyle::Whiteboard),
        instructions: None,
        language: "en".to_string(),
        source_ids: source_ids(),
    };
    let params = config.to_params_array("nb-vid");

    let inner = inner_array(&params);
    assert_eq!(inner.len(), 9); // indices 0-8
    assert_eq!(inner[2].as_i64().unwrap(), 3);

    // Config at index 8: [null, null, [double, language, instr, null, format, style]]
    let config_arr = inner[8].as_array().unwrap();
    let config_inner = config_arr[2].as_array().unwrap();
    assert!(config_inner[0].is_array()); // double nested
    assert_eq!(config_inner[1].as_str().unwrap(), "en");
    assert_eq!(config_inner[2].as_str().unwrap(), ""); // no instructions
    assert_eq!(config_inner[4].as_i64().unwrap(), 1); // Explainer
    assert_eq!(config_inner[5].as_i64().unwrap(), 3); // Whiteboard
}

#[test]
fn test_video_cinematic_no_style() {
    let config = ArtifactConfig::Video {
        format: VideoFormat::Cinematic,
        style: None, // CRITICAL: Cinematic has no style
        instructions: Some("Make it epic".to_string()),
        language: "en".to_string(),
        source_ids: source_ids(),
    };
    let params = config.to_params_array("nb-cin");

    let inner = inner_array(&params);
    let config_inner = inner[8].as_array().unwrap()[2].as_array().unwrap();
    assert_eq!(config_inner[4].as_i64().unwrap(), 3); // Cinematic
    assert!(config_inner[5].is_null()); // NO style
    assert_eq!(config_inner[2].as_str().unwrap(), "Make it epic");
}

// --- Quiz ---

#[test]
fn test_quiz_params_structure() {
    let config = ArtifactConfig::Quiz {
        difficulty: QuizDifficulty::Hard,
        quantity: QuizQuantity::Standard,
        instructions: None,
        source_ids: source_ids(),
    };
    let params = config.to_params_array("nb-quiz");

    let inner = inner_array(&params);
    assert_eq!(inner.len(), 11); // indices 0-10
    assert_eq!(inner[2].as_i64().unwrap(), 4); // QuizFlashcards type

    // Config at index 10: [null, [2, null, instr, null×3, [quantity, difficulty]]]
    let config_arr = inner[10].as_array().unwrap();
    let variant_arr = config_arr[1].as_array().unwrap();
    assert_eq!(variant_arr[0].as_i64().unwrap(), 2); // variant=Quiz
    assert_eq!(variant_arr[7].as_array().unwrap()[0].as_i64().unwrap(), 2); // quantity=Standard
    assert_eq!(variant_arr[7].as_array().unwrap()[1].as_i64().unwrap(), 3); // difficulty=Hard
}

// --- Flashcards ---

#[test]
fn test_flashcards_params_structure() {
    let config = ArtifactConfig::Flashcards {
        difficulty: QuizDifficulty::Easy,
        quantity: QuizQuantity::Fewer,
        instructions: None,
        source_ids: source_ids(),
    };
    let params = config.to_params_array("nb-flash");

    let inner = inner_array(&params);
    assert_eq!(inner.len(), 11);
    assert_eq!(inner[2].as_i64().unwrap(), 4); // QuizFlashcards type

    // Config at index 10: [null, [1, null, instr, null×2, [difficulty, quantity]]]
    let config_arr = inner[10].as_array().unwrap();
    let variant_arr = config_arr[1].as_array().unwrap();
    assert_eq!(variant_arr[0].as_i64().unwrap(), 1); // variant=Flashcards

    // CRITICAL: [difficulty, quantity] at position [6] — REVERSED from Quiz!
    let pair = variant_arr[6].as_array().unwrap();
    assert_eq!(pair[0].as_i64().unwrap(), 1); // difficulty=Easy FIRST
    assert_eq!(pair[1].as_i64().unwrap(), 1); // quantity=Fewer SECOND
}

#[test]
fn test_quiz_flashcard_order_reversal() {
    // This is THE most critical test in the entire module.
    // Quiz: [quantity, difficulty] at variant[7]
    // Flashcards: [difficulty, quantity] at variant[6]

    let quiz = ArtifactConfig::Quiz {
        difficulty: QuizDifficulty::Hard,
        quantity: QuizQuantity::Fewer,
        instructions: None,
        source_ids: source_ids(),
    };
    let quiz_params = quiz.to_params_array("nb");
    let quiz_variant = inner_array(&quiz_params)[10].as_array().unwrap()[1]
        .as_array()
        .unwrap();
    let quiz_pair = quiz_variant[7].as_array().unwrap();
    // Quiz: [quantity=Fewer=1, difficulty=Hard=3]
    assert_eq!(quiz_pair[0].as_i64().unwrap(), 1); // quantity FIRST
    assert_eq!(quiz_pair[1].as_i64().unwrap(), 3); // difficulty SECOND

    let flash = ArtifactConfig::Flashcards {
        difficulty: QuizDifficulty::Hard,
        quantity: QuizQuantity::Fewer,
        instructions: None,
        source_ids: source_ids(),
    };
    let flash_params = flash.to_params_array("nb");
    let flash_variant = inner_array(&flash_params)[10].as_array().unwrap()[1]
        .as_array()
        .unwrap();
    let flash_pair = flash_variant[6].as_array().unwrap();
    // Flashcards: [difficulty=Hard=3, quantity=Fewer=1]
    assert_eq!(flash_pair[0].as_i64().unwrap(), 3); // difficulty FIRST
    assert_eq!(flash_pair[1].as_i64().unwrap(), 1); // quantity SECOND

    // Prove they are DIFFERENT
    assert_ne!(quiz_pair[0], flash_pair[0]);
    assert_ne!(quiz_pair[1], flash_pair[1]);
}

// --- Infographic ---

#[test]
fn test_infographic_params_structure() {
    let config = ArtifactConfig::Infographic {
        orientation: InfographicOrientation::Landscape,
        detail: InfographicDetail::Standard,
        style: InfographicStyle::AutoSelect,
        instructions: Some("Colorful".to_string()),
        language: "en".to_string(),
        source_ids: source_ids(),
    };
    let params = config.to_params_array("nb-inf");

    let inner = inner_array(&params);
    assert_eq!(inner.len(), 15); // indices 0-14
    assert_eq!(inner[2].as_i64().unwrap(), 7);

    // Config at index 14: [[instructions, language, null, orientation, detail, style]]
    let config_arr = inner[14].as_array().unwrap()[0].as_array().unwrap();
    assert_eq!(config_arr[0].as_str().unwrap(), "Colorful");
    assert_eq!(config_arr[1].as_str().unwrap(), "en");
    assert!(config_arr[2].is_null());
    assert_eq!(config_arr[3].as_i64().unwrap(), 1); // Landscape
    assert_eq!(config_arr[4].as_i64().unwrap(), 2); // Standard
    assert_eq!(config_arr[5].as_i64().unwrap(), 1); // AutoSelect
}

// --- Slide Deck ---

#[test]
fn test_slide_deck_params_structure() {
    let config = ArtifactConfig::SlideDeck {
        format: SlideDeckFormat::PresenterSlides,
        length: SlideDeckLength::Short,
        instructions: None,
        language: "en".to_string(),
        source_ids: source_ids(),
    };
    let params = config.to_params_array("nb-slide");

    let inner = inner_array(&params);
    assert_eq!(inner.len(), 17); // indices 0-16
    assert_eq!(inner[2].as_i64().unwrap(), 8);

    // Config at index 16: [[instructions, language, format, length]]
    let config_arr = inner[16].as_array().unwrap()[0].as_array().unwrap();
    assert_eq!(config_arr[0].as_str().unwrap(), ""); // no instructions
    assert_eq!(config_arr[1].as_str().unwrap(), "en");
    assert_eq!(config_arr[2].as_i64().unwrap(), 2); // PresenterSlides
    assert_eq!(config_arr[3].as_i64().unwrap(), 2); // Short
}

// --- Data Table ---

#[test]
fn test_data_table_params_structure() {
    let config = ArtifactConfig::DataTable {
        instructions: "Extract all numerical data".to_string(),
        language: "en".to_string(),
        source_ids: source_ids(),
    };
    let params = config.to_params_array("nb-data");

    let inner = inner_array(&params);
    assert_eq!(inner.len(), 19); // indices 0-18
    assert_eq!(inner[2].as_i64().unwrap(), 9);

    // Config at index 18: [null, [instructions, language]]
    let config_arr = inner[18].as_array().unwrap();
    let config_inner = config_arr[1].as_array().unwrap();
    assert_eq!(
        config_inner[0].as_str().unwrap(),
        "Extract all numerical data"
    );
    assert_eq!(config_inner[1].as_str().unwrap(), "en");
}

// -----------------------------------------------------------------------
// Edge cases
// -----------------------------------------------------------------------

#[test]
fn test_audio_no_instructions_defaults_to_empty_string() {
    let config = ArtifactConfig::Audio {
        format: AudioFormat::Brief,
        length: AudioLength::Short,
        instructions: None,
        language: "en".to_string(),
        source_ids: vec!["only-src".to_string()],
    };
    let params = config.to_params_array("nb");
    let inner = inner_array(&params);
    let config_inner = inner[6].as_array().unwrap()[1].as_array().unwrap();
    assert_eq!(config_inner[0].as_str().unwrap(), ""); // defaults to ""
}

#[test]
fn test_all_params_have_correct_outer_structure() {
    // Verify that ALL variants produce [[2], notebook_id, [inner...]]
    let nb = "nb-test";
    let sources = source_ids();

    let configs = vec![
        ArtifactConfig::Audio {
            format: AudioFormat::DeepDive,
            length: AudioLength::Default,
            instructions: None,
            language: "en".into(),
            source_ids: sources.clone(),
        },
        ArtifactConfig::Video {
            format: VideoFormat::Brief,
            style: Some(VideoStyle::Classic),
            instructions: None,
            language: "en".into(),
            source_ids: sources.clone(),
        },
        ArtifactConfig::Report {
            format: ReportFormat::BlogPost,
            language: "en".into(),
            source_ids: sources.clone(),
            extra_instructions: None,
        },
        ArtifactConfig::Quiz {
            difficulty: QuizDifficulty::Medium,
            quantity: QuizQuantity::Standard,
            instructions: None,
            source_ids: sources.clone(),
        },
        ArtifactConfig::Flashcards {
            difficulty: QuizDifficulty::Medium,
            quantity: QuizQuantity::Standard,
            instructions: None,
            source_ids: sources.clone(),
        },
        ArtifactConfig::Infographic {
            orientation: InfographicOrientation::Square,
            detail: InfographicDetail::Concise,
            style: InfographicStyle::AutoSelect,
            instructions: None,
            language: "en".into(),
            source_ids: sources.clone(),
        },
        ArtifactConfig::SlideDeck {
            format: SlideDeckFormat::DetailedDeck,
            length: SlideDeckLength::Default,
            instructions: None,
            language: "en".into(),
            source_ids: sources.clone(),
        },
        ArtifactConfig::DataTable {
            instructions: "table".into(),
            language: "en".into(),
            source_ids: sources,
        },
    ];

    for config in configs {
        let params = config.to_params_array(nb);
        let outer = params.as_array().unwrap();
        assert_eq!(outer.len(), 3, "Outer array must have 3 elements");
        assert_eq!(
            outer[0].as_array().unwrap()[0].as_i64().unwrap(),
            2,
            "First element must be [2]"
        );
        assert_eq!(
            outer[1].as_str().unwrap(),
            nb,
            "Second element must be notebook_id"
        );
        assert!(outer[2].is_array(), "Third element must be inner array");
    }
}

// -----------------------------------------------------------------------
// GenerationStatus
// -----------------------------------------------------------------------

#[test]
fn test_generation_status_new() {
    let s = GenerationStatus::new("task-123".to_string(), ArtifactStatus::Processing);
    assert_eq!(s.task_id, "task-123");
    assert_eq!(s.status, ArtifactStatus::Processing);
    assert!(s.error.is_none());
    assert!(s.error_code.is_none());
    assert!(s.is_in_progress());
    assert!(!s.is_complete());
    assert!(!s.is_failed());
    assert!(!s.is_rate_limited());
}

#[test]
fn test_generation_status_new_completed() {
    let s = GenerationStatus::new("task-456".to_string(), ArtifactStatus::Completed);
    assert!(s.is_complete());
    assert!(!s.is_in_progress());
    assert!(!s.is_failed());
}

#[test]
fn test_generation_status_rate_limited() {
    let s = GenerationStatus::rate_limited("Too many requests");
    assert_eq!(s.task_id, "rate_limited");
    assert_eq!(s.status, ArtifactStatus::Failed);
    assert_eq!(s.error.as_deref(), Some("Too many requests"));
    assert_eq!(s.error_code.as_deref(), Some("USER_DISPLAYABLE_ERROR"));
    assert!(s.is_rate_limited());
    assert!(s.is_failed());
}

#[test]
fn test_generation_status_failed() {
    let s = GenerationStatus::failed(
        "task-789".to_string(),
        "Something went wrong",
        "INTERNAL_ERROR",
    );
    assert_eq!(s.task_id, "task-789");
    assert!(s.is_failed());
    assert!(!s.is_rate_limited());
    assert_eq!(s.error_code.as_deref(), Some("INTERNAL_ERROR"));
}

#[test]
fn test_generation_status_display() {
    let s = GenerationStatus::new("abc".to_string(), ArtifactStatus::Processing);
    assert_eq!(
        s.to_string(),
        "GenerationStatus(task_id=abc, status=PROCESSING)"
    );

    let r = GenerationStatus::rate_limited("slow down");
    let display = r.to_string();
    assert!(display.contains("USER_DISPLAYABLE_ERROR"));
    assert!(display.contains("slow down"));
}

#[test]
fn test_generation_status_pending_is_in_progress() {
    let s = GenerationStatus::new("task-p".to_string(), ArtifactStatus::Pending);
    assert!(s.is_in_progress());
    assert!(!s.is_complete());
}

// -----------------------------------------------------------------------
// MindMapResult
// -----------------------------------------------------------------------

#[test]
fn artifacts_test_mind_map_result_new() {
    let data = j(r#"{"name": "Test Map", "children": []}"#);
    let r = MindMapResult::new("note-123".to_string(), data.deep_clone());
    assert_eq!(r.note_id.as_deref(), Some("note-123"));
    assert_eq!(r.mind_map_data.as_ref(), Some(&data));
}

#[test]
fn artifacts_test_mind_map_result_empty() {
    let r = MindMapResult::empty();
    assert!(r.note_id.is_none());
    assert!(r.mind_map_data.is_none());
}


#[test]
fn test_artifact_type_key_ignores_case() {
    for key in ["AUDIO", "Mind_Map", "slideDeck", "DataTable", "invalid", "Unknown"] {
        assert_eq!(ArtifactType::from_str_key(key), ArtifactType::from_str_key(&key.to_lowercase()));
    }
    assert_eq!(ArtifactType::from_str_key("VIDEO"), Some(ArtifactType::Video));
}
