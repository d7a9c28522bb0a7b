use grok_provider::config::{ConfigRenderState, ConfigurationView};
use grok_provider::state::{State, StoreAction};
use grok_provider::text::{str_contains, str_lt, trim_str};

#[test]
fn panel_shows_loading_until_credentials_settle() {
    let view = ConfigurationView::new();
    let state = State::new();
    assert_eq!(view.render_state(&state), ConfigRenderState::LoadingCredentials);
}

#[test]
fn panel_shows_editor_while_unauthenticated() {
    let mut view = ConfigurationView::new();
    view.credentials_loaded();
    let state = State::new();
    assert_eq!(view.render_state(&state), ConfigRenderState::ApiKeyEditor);
}

#[test]
fn panel_distinguishes_key_origin_when_authenticated() {
    let mut view = ConfigurationView::new();
    view.credentials_loaded();

    let mut env_state = State::new();
    env_state.authenticate(Some("k".to_string()), None).unwrap();
    assert_eq!(
        view.render_state(&env_state),
        ConfigRenderState::AuthenticatedStatus { from_env: true }
    );

    let mut stored_state = State::new();
    stored_state.authenticate(None, Some(b"k".to_vec())).unwrap();
    assert_eq!(
        view.render_state(&stored_state),
        ConfigRenderState::AuthenticatedStatus { from_env: false }
    );
}

#[test]
fn blank_submission_is_ignored() {
    let view = ConfigurationView::new();
    let mut state = State::new();
    let r = view.save_api_key("   \n\t ", &mut state, "https://api.x.ai/v1");
    assert!(r.is_none());
    assert!(state.api_key.is_none());
}

#[test]
fn submission_is_trimmed_and_persisted() {
    let view = ConfigurationView::new();
    let mut state = State::new();
    let r = view.save_api_key("  xai-key \n", &mut state, "https://api.x.ai/v1");
    assert_eq!(state.api_key.as_deref(), Some("xai-key"));
    assert!(!state.api_key_from_env);
    match r {
        Some(StoreAction::Write { url, label, secret }) => {
            assert_eq!(url, "https://api.x.ai/v1");
            assert_eq!(label, "Bearer");
            assert_eq!(secret, b"xai-key".to_vec());
        }
        _ => panic!("expected a store write"),
    }
}

#[test]
fn trim_strips_ascii_whitespace_only_at_the_ends() {
    assert_eq!(trim_str("  a b \t\r\n"), "a b");
    assert_eq!(trim_str(""), "");
    assert_eq!(trim_str(" \t "), "");
    assert_eq!(trim_str("key"), "key");
}

#[test]
fn string_order_and_containment_helpers() {
    assert!(str_lt("grok-2", "grok-3"));
    assert!(str_lt("grok", "grok-2"));
    assert!(!str_lt("grok-3", "grok-3"));
    assert!(str_contains("grok-2-vision-latest", "vision"));
    assert!(!str_contains("grok-3-latest", "vision"));
    assert!(str_contains("anything", ""));
}
