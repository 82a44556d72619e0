use goose_tui::acp::{AgentMessage, ClientCommand, ExtensionInfo, ProviderInfo, SessionInfo};
use goose_tui::app::{first_word, App, AppView, KeyCode, Modifiers};
use goose_tui::chat::MessageRole;

fn provider(id: &str, configured: bool, models: Vec<&str>) -> ProviderInfo {
    ProviderInfo {
        id: id.to_string(),
        name: id.to_uppercase(),
        configured,
        description: String::new(),
        models: models.into_iter().map(|m| m.to_string()).collect(),
    }
}

fn chat_app() -> App {
    let mut app = App::new();
    app.handle_agent_message(AgentMessage::SessionCreated("active".to_string()));
    app
}

fn type_text(app: &mut App, text: &str) {
    for c in text.chars() {
        app.handle_key(KeyCode::Char(c), Modifiers::NONE);
    }
}

fn last_text(app: &App) -> String {
    app.chat.messages.last().unwrap().content.clone()
}

#[test]
fn starts_on_splash() {
    let app = App::new();
    assert_eq!(app.view, AppView::Splash);
    assert!(!app.should_quit);
    assert!(!app.session_active);
}

#[test]
fn initialized_asks_for_providers() {
    let mut app = App::new();
    let cmds = app.handle_agent_message(AgentMessage::Initialized);
    assert!(matches!(cmds.as_slice(), [ClientCommand::ListProviders]));
}

#[test]
fn configured_provider_starts_session() {
    let mut app = App::new();
    let cmds = app.handle_agent_message(AgentMessage::ProvidersList(vec![
        provider("a", false, vec![]),
        provider("b", true, vec![]),
    ]));
    assert!(matches!(cmds.as_slice(), [ClientCommand::CreateSession]));
    assert_eq!(app.view, AppView::Splash);
    assert_eq!(app.onboarding.providers.len(), 2);
}

#[test]
fn no_configured_provider_shows_onboarding() {
    let mut app = App::new();
    let cmds = app.handle_agent_message(AgentMessage::ProvidersList(vec![provider("a", false, vec![])]));
    assert!(cmds.is_empty());
    assert_eq!(app.view, AppView::Onboarding);
}

#[test]
fn session_created_opens_chat() {
    let app = chat_app();
    assert_eq!(app.view, AppView::Chat);
    assert!(app.session_active);
    assert_eq!(last_text(&app), "Session started. How can I help?");
    assert!(matches!(app.chat.messages[0].role, MessageRole::System));
}

#[test]
fn streamed_chunks_become_one_message() {
    let mut app = chat_app();
    app.handle_agent_message(AgentMessage::TextChunk("Hel".to_string()));
    app.handle_agent_message(AgentMessage::TextChunk("lo".to_string()));
    assert!(app.chat.is_streaming);
    assert_eq!(app.chat.streaming_text, "Hello");
    app.handle_agent_message(AgentMessage::ResponseComplete);
    assert_eq!(app.chat.messages.len(), 2);
    assert_eq!(last_text(&app), "Hello");
    assert!(matches!(app.chat.messages[1].role, MessageRole::Assistant));
    assert!(!app.chat.is_streaming);
}

#[test]
fn tool_calls_start_and_update() {
    let mut app = chat_app();
    app.handle_agent_message(AgentMessage::ToolCallStarted { title: "shell".to_string(), id: "t1".to_string() });
    app.handle_agent_message(AgentMessage::ToolCallStarted { title: "edit".to_string(), id: "t2".to_string() });
    assert_eq!(app.chat.tool_calls[0].status, "running");
    app.handle_agent_message(AgentMessage::ToolCallUpdate { id: "t2".to_string(), status: "Completed".to_string() });
    assert_eq!(app.chat.tool_calls[0].status, "running");
    assert_eq!(app.chat.tool_calls[1].status, "Completed");
    app.handle_agent_message(AgentMessage::ToolCallUpdate { id: "zz".to_string(), status: "x".to_string() });
    assert_eq!(app.chat.tool_calls[1].status, "Completed");
    app.handle_agent_message(AgentMessage::ResponseComplete);
    assert!(app.chat.tool_calls.is_empty());
}

#[test]
fn error_message_is_shown() {
    let mut app = chat_app();
    app.handle_agent_message(AgentMessage::Error("boom".to_string()));
    assert_eq!(last_text(&app), "Error: boom");
}

#[test]
fn lists_switch_views() {
    let mut app = chat_app();
    app.handle_agent_message(AgentMessage::SessionsList(vec![SessionInfo {
        id: "s".to_string(),
        title: String::new(),
        updated_at: String::new(),
    }]));
    assert_eq!(app.view, AppView::Sessions);
    assert_eq!(app.sessions.sessions.len(), 1);
    app.handle_agent_message(AgentMessage::ExtensionsList(vec![]));
    assert_eq!(app.view, AppView::Extensions);
}

#[test]
fn enter_sends_prompt() {
    let mut app = chat_app();
    type_text(&mut app, "Hi there");
    let cmds = app.handle_key(KeyCode::Enter, Modifiers::NONE);
    match cmds.as_slice() {
        [ClientCommand::SendPrompt(p)] => assert_eq!(p, "Hi there"),
        _ => panic!("expected one prompt"),
    }
    assert_eq!(app.chat.input, "");
    assert!(app.chat.is_streaming);
    assert_eq!(last_text(&app), "Hi there");
}

#[test]
fn enter_on_empty_input_does_nothing() {
    let mut app = chat_app();
    let n = app.chat.messages.len();
    let cmds = app.handle_key(KeyCode::Enter, Modifiers::NONE);
    assert!(cmds.is_empty());
    assert_eq!(app.chat.messages.len(), n);
}

#[test]
fn shift_enter_is_ignored() {
    let mut app = chat_app();
    type_text(&mut app, "x");
    let cmds = app.handle_key(KeyCode::Enter, Modifiers::SHIFT);
    assert!(cmds.is_empty());
    assert_eq!(app.chat.input, "x");
}

#[test]
fn typed_slash_commands() {
    let mut app = chat_app();
    type_text(&mut app, "/sessions");
    let cmds = app.handle_key(KeyCode::Enter, Modifiers::NONE);
    assert!(matches!(cmds.as_slice(), [ClientCommand::ListSessions]));
    type_text(&mut app, "/bogus arg");
    app.handle_key(KeyCode::Enter, Modifiers::NONE);
    assert_eq!(last_text(&app), "Unknown command: /bogus. Type /help");
}

#[test]
fn slash_help_lists_commands() {
    let mut app = chat_app();
    let cmds = app.handle_slash_command("/help");
    assert!(cmds.is_empty());
    let text = last_text(&app);
    assert!(text.starts_with("Available commands:\n  /sessions"));
    assert!(text.ends_with("/quit      - exit goose"));
}

#[test]
fn slash_commands_with_spaces() {
    let mut app = chat_app();
    let cmds = app.handle_slash_command("  /extensions  now ");
    assert!(matches!(cmds.as_slice(), [ClientCommand::ListExtensions]));
    let cmds = app.handle_slash_command("/provider");
    assert!(matches!(cmds.as_slice(), [ClientCommand::ListProviders]));
    assert_eq!(app.view, AppView::Onboarding);
}

#[test]
fn slash_clear_new_quit() {
    let mut app = chat_app();
    app.chat.push_user_message("hello".to_string());
    app.handle_slash_command("/clear");
    assert_eq!(app.chat.messages.len(), 1);
    assert_eq!(last_text(&app), "Chat cleared.");
    let cmds = app.handle_slash_command("/new");
    assert!(matches!(cmds.as_slice(), [ClientCommand::CreateSession]));
    assert!(app.chat.messages.is_empty());
    app.handle_slash_command("/quit");
    assert!(app.should_quit);
}

#[test]
fn first_word_of_command() {
    assert_eq!(first_word("  /new  session"), "/new");
    assert_eq!(first_word("/help"), "/help");
    assert_eq!(first_word("\t/x\u{3000}"), "/x");
}

#[test]
fn ctrl_l_clears() {
    let mut app = chat_app();
    app.handle_key(KeyCode::Char('l'), Modifiers::CONTROL);
    assert_eq!(app.chat.messages.len(), 1);
    assert_eq!(last_text(&app), "Chat cleared.");
}

#[test]
fn ctrl_c_quits_everywhere() {
    let mut app = App::new();
    app.handle_key(KeyCode::Char('c'), Modifiers::CONTROL | Modifiers::SHIFT);
    assert!(app.should_quit);
    let mut app = chat_app();
    app.handle_key(KeyCode::Char('c'), Modifiers::CONTROL);
    assert!(app.should_quit);
}

#[test]
fn splash_ignores_keys() {
    let mut app = App::new();
    let cmds = app.handle_key(KeyCode::Char('a'), Modifiers::NONE);
    assert!(cmds.is_empty());
    assert_eq!(app.chat.input, "");
}

#[test]
fn editing_keys_in_chat() {
    let mut app = chat_app();
    type_text(&mut app, "abc");
    app.handle_key(KeyCode::Left, Modifiers::NONE);
    app.handle_key(KeyCode::Backspace, Modifiers::NONE);
    assert_eq!(app.chat.input, "ac");
    app.handle_key(KeyCode::Home, Modifiers::NONE);
    app.handle_key(KeyCode::Delete, Modifiers::NONE);
    assert_eq!(app.chat.input, "c");
    app.handle_key(KeyCode::End, Modifiers::NONE);
    app.handle_key(KeyCode::Char('D'), Modifiers::SHIFT);
    app.handle_key(KeyCode::Char('x'), Modifiers::ALT);
    assert_eq!(app.chat.input, "cD");
    app.handle_key(KeyCode::Right, Modifiers::NONE);
    assert_eq!(app.chat.input_cursor, 2);
}

#[test]
fn onboarding_search_and_select() {
    let mut app = App::new();
    app.handle_agent_message(AgentMessage::ProvidersList(vec![
        provider("openai", false, vec!["gpt-4o", "gpt-4"]),
        provider("ollama", false, vec![]),
    ]));
    type_text(&mut app, "oll");
    assert_eq!(app.onboarding.search_query, "oll");
    app.handle_key(KeyCode::Backspace, Modifiers::NONE);
    assert_eq!(app.onboarding.search_query, "ol");
    assert_eq!(app.onboarding.selected_idx, 0);
    let cmds = app.handle_key(KeyCode::Enter, Modifiers::NONE);
    match cmds.as_slice() {
        [ClientCommand::SaveDefaults { provider, model }, ClientCommand::CreateSession] => {
            assert_eq!(provider, "ollama");
            assert_eq!(model, "");
        }
        _ => panic!("expected save and create"),
    }
    app.onboarding.search_query = String::new();
    let cmds = app.handle_key(KeyCode::Enter, Modifiers::NONE);
    match cmds.as_slice() {
        [ClientCommand::SaveDefaults { provider, model }, ClientCommand::CreateSession] => {
            assert_eq!(provider, "openai");
            assert_eq!(model, "gpt-4o");
        }
        _ => panic!("expected save and create"),
    }
    let cmds = app.handle_key(KeyCode::Esc, Modifiers::NONE);
    assert!(matches!(cmds.as_slice(), [ClientCommand::CreateSession]));
}

#[test]
fn onboarding_enter_without_match_does_nothing() {
    let mut app = App::new();
    app.handle_agent_message(AgentMessage::ProvidersList(vec![provider("a", false, vec![])]));
    type_text(&mut app, "zz");
    let cmds = app.handle_key(KeyCode::Enter, Modifiers::NONE);
    assert!(cmds.is_empty());
}

#[test]
fn sessions_keys() {
    let mut app = chat_app();
    app.handle_agent_message(AgentMessage::SessionsList(vec![]));
    let cmds = app.handle_key(KeyCode::Enter, Modifiers::NONE);
    assert!(cmds.is_empty());
    let cmds = app.handle_key(KeyCode::Char('n'), Modifiers::NONE);
    assert!(matches!(cmds.as_slice(), [ClientCommand::CreateSession]));
    assert!(app.chat.messages.is_empty());
    app.handle_key(KeyCode::Esc, Modifiers::NONE);
    assert_eq!(app.view, AppView::Chat);
}

#[test]
fn extensions_toggle() {
    let mut app = chat_app();
    app.handle_agent_message(AgentMessage::ExtensionsList(vec![
        ExtensionInfo { name: "dev".to_string(), enabled: true, ext_type: "builtin".to_string() },
        ExtensionInfo { name: "mem".to_string(), enabled: false, ext_type: "stdio".to_string() },
    ]));
    app.handle_key(KeyCode::Down, Modifiers::NONE);
    let cmds = app.handle_key(KeyCode::Char(' '), Modifiers::NONE);
    match cmds.as_slice() {
        [ClientCommand::ToggleExtension { key, enabled }] => {
            assert_eq!(key, "mem");
            assert!(*enabled);
        }
        _ => panic!("expected a toggle"),
    }
    assert!(app.extensions.extensions[1].enabled);
    assert!(app.extensions.extensions[0].enabled);
    app.handle_key(KeyCode::Esc, Modifiers::NONE);
    assert_eq!(app.view, AppView::Chat);
}

#[test]
fn tick_advances() {
    let mut app = App::new();
    app.on_tick();
    app.on_tick();
    assert_eq!(app.tick, 2);
}

#[test]
fn room_check() {
    let app = App::new();
    assert!(app.input_has_room());
}
