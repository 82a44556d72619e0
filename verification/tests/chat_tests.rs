use goose_tui::chat::{ChatMessage, ChatState, MessageRole, ToolCallDisplay};

fn typed(text: &str) -> ChatState {
    let mut c = ChatState::new();
    for ch in text.chars() {
        c.input_insert(ch);
    }
    c
}

#[test]
fn new_chat_is_empty() {
    let c = ChatState::new();
    assert!(c.messages.is_empty());
    assert!(c.tool_calls.is_empty());
    assert_eq!(c.input, "");
    assert_eq!(c.input_cursor, 0);
    assert_eq!(c.streaming_text, "");
    assert!(!c.is_streaming);
}

#[test]
fn insert_moves_cursor_by_bytes() {
    let mut c = ChatState::new();
    c.input_insert('a');
    assert_eq!(c.input_cursor, 1);
    c.input_insert('é');
    assert_eq!(c.input_cursor, 3);
    c.input_insert('€');
    assert_eq!(c.input_cursor, 6);
    c.input_insert('🦆');
    assert_eq!(c.input_cursor, 10);
    assert_eq!(c.input, "aé€🦆");
}

#[test]
fn insert_in_the_middle() {
    let mut c = typed("ac");
    c.input_left();
    c.input_insert('b');
    assert_eq!(c.input, "abc");
    assert_eq!(c.input_cursor, 2);
}

#[test]
fn backspace_undoes_insert() {
    let mut c = typed("hé");
    c.input_left();
    let before = (c.input.clone(), c.input_cursor);
    c.input_insert('ß');
    assert_eq!(c.input, "hßé");
    c.input_backspace();
    assert_eq!((c.input.clone(), c.input_cursor), before);
}

#[test]
fn backspace_removes_multibyte_char() {
    let mut c = typed("x€");
    c.input_backspace();
    assert_eq!(c.input, "x");
    assert_eq!(c.input_cursor, 1);
}

#[test]
fn backspace_at_start_does_nothing() {
    let mut c = typed("ab");
    c.input_home();
    c.input_backspace();
    assert_eq!(c.input, "ab");
    assert_eq!(c.input_cursor, 0);
}

#[test]
fn delete_under_cursor() {
    let mut c = typed("aéb");
    c.input_home();
    c.input_right();
    c.input_delete();
    assert_eq!(c.input, "ab");
    assert_eq!(c.input_cursor, 1);
}

#[test]
fn delete_at_end_does_nothing() {
    let mut c = typed("ab");
    c.input_delete();
    assert_eq!(c.input, "ab");
    assert_eq!(c.input_cursor, 2);
}

#[test]
fn left_and_right_step_over_characters() {
    let mut c = typed("a€b");
    assert_eq!(c.input_cursor, 5);
    c.input_left();
    assert_eq!(c.input_cursor, 4);
    c.input_left();
    assert_eq!(c.input_cursor, 1);
    c.input_left();
    assert_eq!(c.input_cursor, 0);
    c.input_left();
    assert_eq!(c.input_cursor, 0);
    c.input_right();
    assert_eq!(c.input_cursor, 1);
    c.input_right();
    assert_eq!(c.input_cursor, 4);
    c.input_right();
    assert_eq!(c.input_cursor, 5);
    c.input_right();
    assert_eq!(c.input_cursor, 5);
}

#[test]
fn left_then_delete_is_backspace() {
    let mut a = typed("xyz");
    let mut b = typed("xyz");
    a.input_left();
    a.input_delete();
    b.input_backspace();
    assert_eq!(a.input, b.input);
    assert_eq!(a.input_cursor, b.input_cursor);
}

#[test]
fn home_and_end() {
    let mut c = typed("日本");
    c.input_home();
    assert_eq!(c.input_cursor, 0);
    c.input_end();
    assert_eq!(c.input_cursor, 6);
}

#[test]
fn take_input_empties_the_line() {
    let mut c = typed("hello");
    let t = c.take_input();
    assert_eq!(t, "hello");
    assert_eq!(c.input, "");
    assert_eq!(c.input_cursor, 0);
}

#[test]
fn push_user_message_appends() {
    let mut c = ChatState::new();
    c.push_user_message("hi".to_string());
    assert_eq!(c.messages.len(), 1);
    assert!(matches!(c.messages[0].role, MessageRole::User));
    assert_eq!(c.messages[0].content, "hi");
}

#[test]
fn finalize_stream_moves_reply_into_transcript() {
    let mut c = ChatState::new();
    c.is_streaming = true;
    c.streaming_text = "answer".to_string();
    c.tool_calls.push(ToolCallDisplay {
        title: "t".to_string(),
        id: "1".to_string(),
        status: "running".to_string(),
    });
    c.finalize_stream();
    assert_eq!(c.messages.len(), 1);
    assert!(matches!(c.messages[0].role, MessageRole::Assistant));
    assert_eq!(c.messages[0].content, "answer");
    assert_eq!(c.streaming_text, "");
    assert!(!c.is_streaming);
    assert!(c.tool_calls.is_empty());
}

#[test]
fn finalize_stream_without_text_adds_nothing() {
    let mut c = ChatState::new();
    c.messages.push(ChatMessage { role: MessageRole::System, content: "x".to_string() });
    c.is_streaming = true;
    c.finalize_stream();
    assert_eq!(c.messages.len(), 1);
    assert!(!c.is_streaming);
}

#[test]
fn word_wrap_matches_paragraph_wrapping() {
    assert_eq!(goose_tui::chat::word_wrap("aa bb cc", 5), vec!["aa bb", "cc"]);
    assert_eq!(goose_tui::chat::word_wrap("", 5), vec![""]);
    assert_eq!(goose_tui::chat::word_wrap("x  y", 0), vec!["x  y"]);
}
