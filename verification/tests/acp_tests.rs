use goose_tui::acp::{
    extension_from_fields, permission_choice, session_from_fields, ClientCommand, CommandLoop,
    LoopAction, LoopPhase,
};

#[test]
fn commands_before_initialize_are_dropped() {
    let mut l = CommandLoop::new();
    assert!(matches!(l.step(ClientCommand::ListSessions), LoopAction::Ignore));
    assert!(matches!(l.step(ClientCommand::SendPrompt("x".to_string())), LoopAction::Ignore));
    assert!(matches!(l.step(ClientCommand::Shutdown), LoopAction::Ignore));
    assert_eq!(l.phase, LoopPhase::AwaitingInit);
    assert!(matches!(l.step(ClientCommand::Initialize), LoopAction::Initialize));
    assert_eq!(l.phase, LoopPhase::Ready);
}

#[test]
fn ready_phase_serves_requests() {
    let mut l = CommandLoop::new();
    l.step(ClientCommand::Initialize);
    assert!(matches!(l.step(ClientCommand::Initialize), LoopAction::ReplyInitialized));
    assert!(matches!(
        l.step(ClientCommand::ListProviders),
        LoopAction::Request(ClientCommand::ListProviders)
    ));
    assert!(matches!(l.step(ClientCommand::SendPrompt("x".to_string())), LoopAction::Ignore));
    match l.step(ClientCommand::SaveDefaults { provider: "p".to_string(), model: "m".to_string() }) {
        LoopAction::Request(ClientCommand::SaveDefaults { provider, model }) => {
            assert_eq!(provider, "p");
            assert_eq!(model, "m");
        }
        _ => panic!("expected a request"),
    }
    assert!(matches!(l.step(ClientCommand::Shutdown), LoopAction::Stop));
}

#[test]
fn session_takes_prompts_until_closed() {
    let mut l = CommandLoop::new();
    l.step(ClientCommand::Initialize);
    assert!(matches!(l.step(ClientCommand::CreateSession), LoopAction::StartSession));
    assert_eq!(l.phase, LoopPhase::InSession);
    match l.step(ClientCommand::SendPrompt("hello".to_string())) {
        LoopAction::Prompt(p) => assert_eq!(p, "hello"),
        _ => panic!("expected a prompt"),
    }
    assert!(matches!(
        l.step(ClientCommand::ToggleExtension { key: "k".to_string(), enabled: true }),
        LoopAction::Request(ClientCommand::ToggleExtension { enabled: true, .. })
    ));
    assert!(matches!(l.step(ClientCommand::Initialize), LoopAction::Ignore));
    assert!(matches!(l.step(ClientCommand::Shutdown), LoopAction::EndSession));
    assert_eq!(l.phase, LoopPhase::Ready);
}

#[test]
fn create_session_inside_session_only_leaves_it() {
    let mut l = CommandLoop::new();
    l.step(ClientCommand::Initialize);
    l.step(ClientCommand::CreateSession);
    assert!(matches!(l.step(ClientCommand::CreateSession), LoopAction::EndSession));
    assert_eq!(l.phase, LoopPhase::Ready);
    assert!(matches!(l.step(ClientCommand::CreateSession), LoopAction::StartSession));
}

#[test]
fn extension_fields() {
    let e = extension_from_fields(Some("dev".to_string()), Some(true), Some("builtin".to_string()))
        .unwrap();
    assert_eq!(e.name, "dev");
    assert!(e.enabled);
    assert_eq!(e.ext_type, "builtin");
    let e = extension_from_fields(Some("x".to_string()), Some(false), None).unwrap();
    assert_eq!(e.ext_type, "unknown");
    assert!(extension_from_fields(None, Some(true), None).is_none());
    assert!(extension_from_fields(Some("x".to_string()), None, None).is_none());
}

#[test]
fn session_fields_default_to_empty() {
    let s = session_from_fields("id1".to_string(), None, Some("today".to_string()));
    assert_eq!(s.id, "id1");
    assert_eq!(s.title, "");
    assert_eq!(s.updated_at, "today");
}

#[test]
fn permission_picks_first_option() {
    assert_eq!(
        permission_choice(vec!["allow".to_string(), "deny".to_string()]),
        Some("allow".to_string())
    );
    assert_eq!(permission_choice(vec![]), None);
}
