use goose_tui::acp::{ExtensionInfo, ProviderInfo, SessionInfo};
use goose_tui::chat::{ChatMessage, ChatState, MessageRole, ToolCallDisplay};
use goose_tui::layout::{
    counted, decimal_string, extension_row, help_bar, input_border, input_text, message_lines,
    provider_row, scroll_offset, separator, session_row, splash_spinner, status_bar, work_spinner,
};
use goose_tui::markdown::StyledSpan;
use goose_tui::theme::{Style, Theme};

fn texts(spans: &[StyledSpan]) -> Vec<String> {
    spans.iter().map(|s| s.content.clone()).collect()
}

#[test]
fn decimal_numbers() {
    assert_eq!(decimal_string(0), "0");
    assert_eq!(decimal_string(7), "7");
    assert_eq!(decimal_string(1234567890), "1234567890");
    assert_eq!(counted(" providers (", 12, ") "), " providers (12) ");
}

#[test]
fn spinners_cycle() {
    assert_eq!(work_spinner(0), '⣾');
    assert_eq!(work_spinner(9), '⣽');
    assert_eq!(splash_spinner(0), '⠋');
    assert_eq!(splash_spinner(1), '⠋');
    assert_eq!(splash_spinner(2), '⠙');
    assert_eq!(splash_spinner(21), '⠋');
}

#[test]
fn status_bar_counts_messages() {
    let mut c = ChatState::new();
    assert_eq!(texts(&status_bar(&c, 0)), vec![" ◆ ", "goose", "  │  ", "0 messages"]);
    c.push_user_message("a".to_string());
    assert_eq!(texts(&status_bar(&c, 0))[3], "1 message");
    c.push_user_message("b".to_string());
    assert_eq!(texts(&status_bar(&c, 0))[3], "2 messages");
    c.is_streaming = true;
    assert_eq!(texts(&status_bar(&c, 3)), vec![" ⢿ ", "generating…"]);
}

#[test]
fn help_bar_text() {
    let t: String = texts(&help_bar()).concat();
    assert_eq!(t, " /help commands  │  ctrl+c quit  │  ctrl+l clear");
}

#[test]
fn separator_width() {
    assert_eq!(separator(3), "───");
    assert_eq!(separator(0), "");
}

#[test]
fn scroll_keeps_last_line_visible() {
    assert_eq!(scroll_offset(10, 4), 6);
    assert_eq!(scroll_offset(3, 4), 0);
    assert_eq!(scroll_offset(70000, 0), 4464);
}

#[test]
fn input_box() {
    let mut c = ChatState::new();
    assert_eq!(input_text(&c).content, "Type a message or /help for commands…");
    assert_eq!(input_border(&c), Style::new().fg(Theme::BORDER_ACTIVE));
    c.is_streaming = true;
    assert_eq!(input_text(&c).content, "");
    assert_eq!(input_border(&c), Style::new().fg(Theme::BORDER));
    c.input_insert('x');
    assert_eq!(input_text(&c).content, "x");
}

#[test]
fn transcript_lines() {
    let mut c = ChatState::new();
    c.messages.push(ChatMessage { role: MessageRole::System, content: "one two three".to_string() });
    c.messages.push(ChatMessage { role: MessageRole::User, content: "**hi**".to_string() });
    let lines = message_lines(&c, 8, 0);
    assert_eq!(lines.len(), 7);
    assert_eq!(texts(&lines[0]), vec!["  ℹ  ", "one two"]);
    assert_eq!(texts(&lines[1]), vec!["     ", "three"]);
    assert!(lines[2].is_empty());
    assert_eq!(texts(&lines[3]), vec!["  ▸ ", "you"]);
    assert!(lines[4].is_empty());
    assert_eq!(texts(&lines[5]), vec!["    ", "hi"]);
    assert_eq!(lines[5][1].style, Style::new().fg(Theme::TEXT_PRIMARY).bold());
    assert!(lines[6].is_empty());
}

#[test]
fn streaming_and_tools_lines() {
    let mut c = ChatState::new();
    c.is_streaming = true;
    c.streaming_text = "partial".to_string();
    c.tool_calls.push(ToolCallDisplay { title: "shell".to_string(), id: "1".to_string(), status: "running".to_string() });
    let lines = message_lines(&c, 40, 1);
    assert_eq!(lines.len(), 4);
    assert_eq!(texts(&lines[0]), vec!["  ◆ ", "goose"]);
    assert!(lines[1].is_empty());
    assert_eq!(texts(&lines[2]), vec!["    ", "partial"]);
    assert_eq!(texts(&lines[3]), vec!["    ⣽ ", "shell", "  running"]);
}

#[test]
fn list_rows() {
    let e = ExtensionInfo { name: "dev".to_string(), enabled: true, ext_type: "builtin".to_string() };
    let row = extension_row(&e, true);
    assert_eq!(texts(&row), vec![" ✓ ", "dev", "  [builtin]"]);
    assert_eq!(row[1].style, Theme::selected());
    let p = ProviderInfo {
        id: "o".to_string(),
        name: "Ollama".to_string(),
        configured: false,
        description: "local".to_string(),
        models: vec![],
    };
    let row = provider_row(&p, false);
    assert_eq!(texts(&row), vec![" ○ ", "Ollama", "  local"]);
    assert_eq!(row[0].style, Style::new().fg(Theme::TEXT_DIM));
    let s = SessionInfo { id: "1".to_string(), title: String::new(), updated_at: "now".to_string() };
    assert_eq!(texts(&session_row(&s, true)), vec![" ▸ ", "Untitled Session", "  now"]);
    assert_eq!(texts(&session_row(&s, false))[0], "   ");
}
