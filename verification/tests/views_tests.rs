use goose_tui::acp::{ExtensionInfo, ProviderInfo, SessionInfo};
use goose_tui::views::{contains_str, matches_lowered, ExtensionsState, OnboardingState, SessionsState};

fn provider(id: &str, name: &str) -> ProviderInfo {
    ProviderInfo {
        id: id.to_string(),
        name: name.to_string(),
        configured: false,
        description: String::new(),
        models: vec![],
    }
}

#[test]
fn sessions_move_within_bounds() {
    let mut s = SessionsState::new();
    s.move_down();
    assert_eq!(s.selected_idx, 0);
    for i in 0..3 {
        s.sessions.push(SessionInfo {
            id: format!("{i}"),
            title: String::new(),
            updated_at: String::new(),
        });
    }
    s.move_down();
    s.move_down();
    s.move_down();
    assert_eq!(s.selected_idx, 2);
    s.move_up();
    assert_eq!(s.selected_idx, 1);
    s.move_up();
    s.move_up();
    assert_eq!(s.selected_idx, 0);
}

#[test]
fn extensions_move_within_bounds() {
    let mut e = ExtensionsState::new();
    e.extensions.push(ExtensionInfo { name: "a".to_string(), enabled: true, ext_type: "b".to_string() });
    e.move_down();
    assert_eq!(e.selected_idx, 0);
    e.move_up();
    assert_eq!(e.selected_idx, 0);
}

#[test]
fn contains_substring() {
    assert!(contains_str("openai", "pen"));
    assert!(contains_str("abc", ""));
    assert!(!contains_str("abc", "abcd"));
    assert!(!contains_str("abc", "ac"));
}

#[test]
fn matches_name_or_id() {
    assert!(matches_lowered("anthropic", "sonnet", "thro"));
    assert!(matches_lowered("x", "sonnet", "onne"));
    assert!(!matches_lowered("x", "y", "z"));
}

#[test]
fn filter_ignores_case() {
    let mut o = OnboardingState::new();
    o.providers.push(provider("openai", "OpenAI"));
    o.providers.push(provider("anthropic", "Anthropic"));
    o.providers.push(provider("GROQ", "Groq Cloud"));
    assert_eq!(o.filtered_providers().len(), 3);
    o.search_query = "OPEN".to_string();
    let f = o.filtered_providers();
    assert_eq!(f.len(), 1);
    assert_eq!(f[0].id, "openai");
    o.search_query = "groq".to_string();
    let f = o.filtered_providers();
    assert_eq!(f.len(), 1);
    assert_eq!(f[0].name, "Groq Cloud");
    o.search_query = "cloud".to_string();
    assert_eq!(o.filtered_providers().len(), 1);
}

#[test]
fn onboarding_moves_over_filtered_list() {
    let mut o = OnboardingState::new();
    o.providers.push(provider("a1", "A1"));
    o.providers.push(provider("a2", "A2"));
    o.providers.push(provider("b", "B"));
    o.search_query = "a".to_string();
    o.move_down();
    o.move_down();
    assert_eq!(o.selected_idx, 1);
    o.move_up();
    assert_eq!(o.selected_idx, 0);
    o.search_query = "zzz".to_string();
    o.selected_idx = 0;
    o.move_down();
    assert_eq!(o.selected_idx, 0);
}
