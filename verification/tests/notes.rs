use notebooklm_mcp::rpc::notes::{Note, ChatTurn};

#[test]
fn test_note_struct_fields() {
    let note = Note {
        id: "note-123".to_string(),
        title: "My Note".to_string(),
        content: "Content here".to_string(),
    };
    assert_eq!(note.id, "note-123");
    assert_eq!(note.title, "My Note");
    assert_eq!(note.content, "Content here");
}

#[test]
fn test_chat_turn_struct_fields() {
    let turn = ChatTurn {
        role: "user".to_string(),
        text: "Hello".to_string(),
    };
    assert_eq!(turn.role, "user");
    assert_eq!(turn.text, "Hello");
}

