use grok_provider::models::GrokSettings;
use grok_provider::provider::{
    CompletionError, GrokLanguageModel, GrokLanguageModelProvider, StreamDecision, ToolChoice,
    resolve_api_url,
};
use grok_provider::state::State;
use grok_provider::wire::HostRequest;

fn empty_settings() -> GrokSettings {
    GrokSettings { api_url: String::new(), available_models: Vec::new() }
}

fn authenticated_state() -> State {
    let mut state = State::new();
    state.authenticate(Some("test-key".to_string()), None).unwrap();
    state
}

fn empty_request() -> HostRequest {
    HostRequest { messages: Vec::new() }
}

#[test]
fn empty_api_url_resolves_to_default() {
    assert_eq!(resolve_api_url(""), "https://api.x.ai/v1");
}

#[test]
fn configured_api_url_used_verbatim() {
    assert_eq!(resolve_api_url("https://proxy.example/v1"), "https://proxy.example/v1");
}

#[test]
fn default_models_are_fixed() {
    let provider = GrokLanguageModelProvider::new();
    let m = provider.default_model();
    assert_eq!(m.id, "grok-3-latest");
    assert_eq!(m.model.display_name, "Grok 3");
    assert_eq!(m.max_token_count(), 131072);
    assert_eq!(m.max_output_tokens(), Some(4096));
    let f = provider.default_fast_model();
    assert_eq!(f.id, "grok-3-fast-latest");
    assert_eq!(f.model.display_name, "Grok 3 Fast");
}

#[test]
fn provided_models_follow_catalog() {
    let provider = GrokLanguageModelProvider::new();
    let models = provider.provided_models(&empty_settings());
    assert_eq!(models.len(), 8);
    assert_eq!(models[0].id, "grok-2-latest");
    assert_eq!(models[1].id, "grok-2-vision-latest");
    assert_eq!(models[7].id, "grok-3-mini-latest");
    assert_eq!(models[7].name(), "Grok 3 Mini (Thinking)");
}

#[test]
fn supports_images_only_for_vision_ids() {
    let provider = GrokLanguageModelProvider::new();
    let models = provider.provided_models(&empty_settings());
    for m in &models {
        assert_eq!(m.supports_images(), m.id.contains("vision"), "id {}", m.id);
    }
    assert!(models.iter().any(|m| m.supports_images()));
}

#[test]
fn tools_and_every_tool_choice_supported() {
    let provider = GrokLanguageModelProvider::new();
    let m = provider.default_model();
    assert!(m.supports_tools());
    assert!(m.supports_tool_choice(ToolChoice::Auto));
    assert!(m.supports_tool_choice(ToolChoice::Any));
    assert!(m.supports_tool_choice(ToolChoice::Disabled));
}

#[test]
fn telemetry_id_is_provider_qualified() {
    let provider = GrokLanguageModelProvider::new();
    assert_eq!(provider.default_model().telemetry_id(), "grok/grok-3-latest");
}

#[test]
fn stream_without_key_fails_before_any_network_call() {
    let provider = GrokLanguageModelProvider::new();
    let mut m = provider.default_model();
    let state = State::new();
    let r = m.begin_stream_completion(&empty_request(), Some(&state), &empty_settings());
    assert!(matches!(r, StreamDecision::Reject(CompletionError::MissingApiKey)));
    assert_eq!(m.request_limiter.active(), 0);
}

#[test]
fn stream_without_state_reports_dropped_context() {
    let provider = GrokLanguageModelProvider::new();
    let mut m = provider.default_model();
    let r = m.begin_stream_completion(&empty_request(), None, &empty_settings());
    assert!(matches!(r, StreamDecision::Reject(CompletionError::AppStateDropped)));
}

#[test]
fn stream_uses_key_and_resolved_url() {
    let provider = GrokLanguageModelProvider::new();
    let mut m = provider.default_model();
    let state = authenticated_state();
    let r = m.begin_stream_completion(&empty_request(), Some(&state), &empty_settings());
    match r {
        StreamDecision::Start(p) => {
            assert_eq!(p.api_key, "test-key");
            assert_eq!(p.api_url, "https://api.x.ai/v1");
            assert_eq!(p.request.model, "grok-3-latest");
            assert!(p.request.stream);
            assert_eq!(p.request.max_tokens, Some(4096));
        }
        _ => panic!("expected the call to start"),
    }
}

#[test]
fn fifth_concurrent_stream_waits_until_one_finishes() {
    let provider = GrokLanguageModelProvider::new();
    let mut m: GrokLanguageModel = provider.default_model();
    let state = authenticated_state();
    let settings = empty_settings();
    for _ in 0..4 {
        let r = m.begin_stream_completion(&empty_request(), Some(&state), &settings);
        assert!(matches!(r, StreamDecision::Start(_)));
    }
    assert_eq!(m.request_limiter.active(), 4);
    let fifth = m.begin_stream_completion(&empty_request(), Some(&state), &settings);
    assert!(matches!(fifth, StreamDecision::Wait));
    m.finish_stream_completion();
    let retry = m.begin_stream_completion(&empty_request(), Some(&state), &settings);
    assert!(matches!(retry, StreamDecision::Start(_)));
}

#[test]
fn provider_delegates_credential_operations() {
    let mut provider = GrokLanguageModelProvider::new();
    assert!(!provider.is_authenticated());
    provider.authenticate(Some("k".to_string()), None).unwrap();
    assert!(provider.is_authenticated());
    provider.reset_credentials("https://api.x.ai/v1");
    assert!(!provider.is_authenticated());
}
