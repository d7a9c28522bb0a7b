use grok_provider::state::{AuthenticateError, State, StoreAction};

#[test]
fn env_key_wins_and_sets_from_env() {
    let mut state = State::new();
    let r = state.authenticate(
        Some("env-key".to_string()),
        Some(b"stored-key".to_vec()),
    );
    assert!(r.is_ok());
    assert_eq!(state.api_key.as_deref(), Some("env-key"));
    assert!(state.api_key_from_env);
}

#[test]
fn stored_key_used_when_env_absent() {
    let mut state = State::new();
    let r = state.authenticate(None, Some(b"stored-key".to_vec()));
    assert!(r.is_ok());
    assert_eq!(state.api_key.as_deref(), Some("stored-key"));
    assert!(!state.api_key_from_env);
}

#[test]
fn no_source_fails_with_credentials_not_found() {
    let mut state = State::new();
    let r = state.authenticate(None, None);
    assert!(matches!(r, Err(AuthenticateError::CredentialsNotFound)));
    assert!(state.api_key.is_none());
    assert!(!state.api_key_from_env);
}

#[test]
fn invalid_stored_bytes_fail_with_decoding_error() {
    let mut state = State::new();
    let r = state.authenticate(None, Some(vec![0xff, 0xfe, 0x00]));
    assert!(matches!(r, Err(AuthenticateError::InvalidKeyEncoding)));
    assert!(state.api_key.is_none());
}

#[test]
fn authenticate_is_noop_when_already_authenticated() {
    let mut state = State::new();
    state.authenticate(Some("first".to_string()), None).unwrap();
    let r = state.authenticate(Some("second".to_string()), None);
    assert!(r.is_ok());
    assert_eq!(state.api_key.as_deref(), Some("first"));
    assert!(state.api_key_from_env);
}

#[test]
fn set_api_key_persists_then_marks_not_from_env() {
    let mut state = State::new();
    let action = state.set_api_key("user-key".to_string(), "https://api.x.ai/v1");
    assert_eq!(state.api_key.as_deref(), Some("user-key"));
    assert!(!state.api_key_from_env);
    match action {
        StoreAction::Write { url, label, secret } => {
            assert_eq!(url, "https://api.x.ai/v1");
            assert_eq!(label, "Bearer");
            assert_eq!(secret, b"user-key".to_vec());
        }
        StoreAction::Delete { .. } => panic!("expected a write"),
    }
}

#[test]
fn reset_api_key_clears_state_and_store() {
    let mut state = State::new();
    state.set_api_key("user-key".to_string(), "https://api.x.ai/v1");
    let action = state.reset_api_key("https://api.x.ai/v1");
    assert!(state.api_key.is_none());
    assert!(!state.api_key_from_env);
    match action {
        StoreAction::Delete { url } => assert_eq!(url, "https://api.x.ai/v1"),
        StoreAction::Write { .. } => panic!("expected a delete"),
    }
}
