use notebooklm_mcp::response_chunks::{json_chunks, strip_antixssi_prefix, text_lines};

#[test]
fn test_json_chunks_finds_each_chunk() {
    let text = ")]}'\n\n25\n[[\"wrb.fr\",\"a\",\"1\"]]\n30\n[[\"e\",4,null]]\n";
    let (body, chunks) = json_chunks(text).unwrap();
    assert!(body.starts_with("[[\"wrb.fr\""));
    assert_eq!(chunks, vec!["[[\"wrb.fr\",\"a\",\"1\"]]".to_string(), "[[\"e\",4,null]]".to_string()]);
}

#[test]
fn test_json_chunks_joins_split_lines() {
    let text = "[[\"a\",\n\"b\"]]\n";
    let (_, chunks) = json_chunks(text).unwrap();
    assert_eq!(chunks, vec!["[[\"a\",\n\"b\"]]".to_string()]);
}

#[test]
fn test_json_chunks_no_bracket() {
    assert!(json_chunks(")]}'\nno json here").is_none());
    assert!(json_chunks("").is_none());
}

#[test]
fn test_json_chunks_incomplete_is_dropped() {
    let (body, chunks) = json_chunks("garbage\n[[\"wrb.fr\"").unwrap();
    assert_eq!(body, "[[\"wrb.fr\"");
    assert!(chunks.is_empty());
}

#[test]
fn test_text_lines_like_str_lines() {
    for text in ["a\nb", "a\r\nb\n", "", "\n", "a\n\nb\r", "x\r\n\r\n"] {
        let chars: Vec<char> = text.chars().collect();
        let got: Vec<String> = text_lines(&chars).iter().map(|l| l.iter().collect()).collect();
        let want: Vec<String> = text.lines().map(|l| l.to_string()).collect();
        assert_eq!(got, want, "lines of {:?}", text);
    }
}

#[test]
fn test_strip_merges_chunks_into_one_array() {
    let text = ")]}'\n\n25\n[[\"wrb.fr\",\"a\",\"1\"]]\n30\n[[\"e\", 4, null]]\n7\n\"tail\"\n";
    assert_eq!(
        strip_antixssi_prefix(text),
        "[[\"wrb.fr\",\"a\",\"1\"],[\"e\",4,null],\"tail\"]"
    );
}

#[test]
fn test_strip_without_bracket_or_chunks() {
    assert_eq!(strip_antixssi_prefix("no json here"), "no json here");
    assert_eq!(strip_antixssi_prefix(""), "");
    assert_eq!(strip_antixssi_prefix("garbage\n[[\"wrb.fr\""), "[[\"wrb.fr\"");
}
