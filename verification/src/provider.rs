//! The provider: the catalog/factory for per-model handles, the handle's
//! capability surface, and the streaming-completion decisions (key lookup,
//! endpoint defaulting, concurrency admission). The wire client that
//! performs the HTTP call lives in the embedding application; a prepared
//! call comes back to it as plain values.

use vstd::prelude::*;
use crate::catalog::{catalog_table, represents};
use crate::limiter::RequestLimiter;
use crate::models::{
    CatalogEntry, EntryView, GrokSettings, ModelDescriptor, builtin_desc, entry_views,
};
use crate::state::{AuthenticateError, State, StoreAction};
use crate::text::{contains_seq, str_contains};
use vstd::utf8::valid_utf8;
use crate::wire::{HostRequest, WireRequest, into_wire};

verus! {

/// The provider's stable identifier.
pub fn provider_id() -> (r: &'static str)
    ensures
        r@ == "grok"@,
{
    "grok"
}

/// The provider's display name.
pub fn provider_name() -> (r: &'static str)
    ensures
        r@ == "Grok"@,
{
    "Grok"
}

/// The environment variable consulted first for a key; a key from here is
/// never persisted to the credential store.
pub fn api_key_env_var() -> (r: &'static str)
    ensures
        r@ == "XAI_API_KEY"@,
{
    "XAI_API_KEY"
}

/// The public endpoint used when the configured URL is empty.
pub fn default_api_url() -> (r: &'static str)
    ensures
        r@ == "https://api.x.ai/v1"@,
{
    "https://api.x.ai/v1"
}

/// An empty configured URL resolves to the documented default endpoint; a
/// non-empty one is used verbatim.
pub fn resolve_api_url(configured: &str) -> (r: String)
    ensures
        configured@.len() == 0 ==> r@ == "https://api.x.ai/v1"@,
        configured@.len() > 0 ==> r@ == configured@,
{
    if configured.is_empty() {
        default_api_url().to_owned()
    } else {
        configured.to_owned()
    }
}

/// Failures a streaming-completion call surfaces to the host, each
/// distinct so the host can react (re-authentication only for a missing
/// key).
pub enum CompletionError {
    /// No API key was set at call time.
    MissingApiKey,
    /// The owning context was torn down before the call could read the key.
    AppStateDropped,
    /// The network or HTTP layer failed; the message is the transport's.
    Transport(String),
    /// A streamed event could not be decoded; the message is the decoder's.
    Protocol(String),
}

/// A tool-choice mode requested by the host: automatic, forced-any, or
/// disabled.
#[derive(Clone, Copy, PartialEq, Eq, Structural)]
pub enum ToolChoice {
    Auto,
    Any,
    Disabled,
}

/// Everything the wire client needs for one streaming call.
pub struct PreparedCompletion {
    pub api_url: String,
    pub api_key: String,
    pub request: WireRequest,
}

/// What becomes of a streaming-completion call.
pub enum StreamDecision {
    /// A permit was taken and the call may go out.
    Start(PreparedCompletion),
    /// All permits are in flight; retry once one frees.
    Wait,
    /// The call fails before any network traffic.
    Reject(CompletionError),
}

/// A per-model handle: an immutable snapshot of the model's identity and
/// metadata, plus the handle's own concurrency limiter.
pub struct GrokLanguageModel {
    pub id: String,
    pub model: ModelDescriptor,
    pub request_limiter: RequestLimiter,
}

impl GrokLanguageModel {
    pub open spec fn wf(&self) -> bool {
        self.request_limiter.wf()
    }

    /// The model's identifier, the descriptor's name.
    pub fn id(&self) -> (r: String)
        ensures
            r@ == self.id@,
    {
        self.id.clone()
    }

    /// The model's display name.
    pub fn name(&self) -> (r: String)
        ensures
            r@ == self.model@.display_name,
    {
        self.model.display_name.clone()
    }

    /// The owning provider's identifier.
    pub fn provider_id(&self) -> (r: &'static str)
        ensures
            r@ == "grok"@,
    {
        provider_id()
    }

    /// The owning provider's display name.
    pub fn provider_name(&self) -> (r: &'static str)
        ensures
            r@ == "Grok"@,
    {
        provider_name()
    }

    /// Tool calling is always available.
    pub fn supports_tools(&self) -> (r: bool)
        ensures
            r == true,
    {
        true
    }

    /// Image input is available exactly for the vision models.
    pub fn supports_images(&self) -> (r: bool)
        ensures
            r == contains_seq(self.id@, "vision"@),
    {
        str_contains(self.id.as_str(), "vision")
    }

    /// Every tool-choice mode is accepted.
    pub fn supports_tool_choice(&self, choice: ToolChoice) -> (r: bool)
        ensures
            r == true,
    {
        match choice {
            ToolChoice::Auto => true,
            ToolChoice::Any => true,
            ToolChoice::Disabled => true,
        }
    }

    /// The provider-qualified identifier reported for telemetry.
    pub fn telemetry_id(&self) -> (r: String)
        ensures
            r@ == "grok/"@ + self.id@,
    {
        let prefix: String = "grok/".to_owned();
        prefix.concat(self.id.as_str())
    }

    pub fn max_token_count(&self) -> (r: usize)
        ensures
            r == self.model@.max_tokens,
    {
        self.model.max_tokens
    }

    pub fn max_output_tokens(&self) -> (r: Option<u32>)
        ensures
            r == self.model@.max_output_tokens,
    {
        self.model.max_output_tokens
    }

    /// Decides one streaming-completion call. In order: the owning
    /// context must still be reachable; a concurrency permit must be
    /// free, else the call waits; a key must be set, else the call fails
    /// before any network traffic; the endpoint falls back to the default
    /// when unconfigured; and the host request is translated to the wire
    /// shape under the model's output-token ceiling. The caller reports
    /// the call's end through `finish_stream_completion`.
    pub fn begin_stream_completion(
        &mut self,
        request: &HostRequest,
        state: Option<&State>,
        settings: &GrokSettings,
    ) -> (r: StreamDecision)
        requires
            old(self).wf(),
        ensures
            final(self).wf(),
            final(self).id@ == old(self).id@,
            final(self).model@ == old(self).model@,
            final(self).request_limiter.spec_cap() == old(self).request_limiter.spec_cap(),
            state is None ==> r == StreamDecision::Reject(CompletionError::AppStateDropped)
                && final(self).request_limiter.spec_active() == old(
                self).request_limiter.spec_active(),
            state matches Some(st) ==> (!old(self).request_limiter.can_grant()
                ==> r == StreamDecision::Wait
                    && final(self).request_limiter.spec_active() == old(
                    self).request_limiter.spec_active()),
            state matches Some(st) ==> ((old(self).request_limiter.can_grant()
                && st@.api_key is None)
                ==> r == StreamDecision::Reject(CompletionError::MissingApiKey)
                    && final(self).request_limiter.spec_active() == old(
                    self).request_limiter.spec_active()),
            state matches Some(st) ==> ((old(self).request_limiter.can_grant()
                && st@.api_key is Some)
                ==> final(self).request_limiter.spec_active()
                    == old(self).request_limiter.spec_active() + 1
                    && (r matches StreamDecision::Start(p)
                        && p.api_key@ == st@.api_key->0
                        && (settings@.api_url.len() == 0
                            ==> p.api_url@ == "https://api.x.ai/v1"@)
                        && (settings@.api_url.len() > 0 ==> p.api_url@ == settings@.api_url)
                        && p.request.model@ == old(self).id@
                        && p.request.stream == true
                        && p.request.max_tokens == old(self).model@.max_output_tokens
                        && p.request.messages@.len() == request.messages@.len()
                        && (forall|i: int|
                            0 <= i < p.request.messages@.len()
                                ==> (#[trigger] p.request.messages@[i]).role
                                    == request.messages@[i].role
                                    && p.request.messages@[i].content@
                                    == request.messages@[i].content@))),
    {
        let st = match state {
            Some(st) => st,
            None => {
                return StreamDecision::Reject(CompletionError::AppStateDropped);
            },
        };
        if !self.request_limiter.try_acquire() {
            return StreamDecision::Wait;
        }
        let api_key = match &st.api_key {
            Some(key) => key.clone(),
            None => {
                self.request_limiter.release();
                return StreamDecision::Reject(CompletionError::MissingApiKey);
            },
        };
        let api_url = resolve_api_url(settings.api_url.as_str());
        let wire_request = into_wire(request, self.id.as_str(), self.model.max_output_tokens);
        StreamDecision::Start(PreparedCompletion { api_url, api_key, request: wire_request })
    }

    /// Returns the permit of a finished streaming call.
    pub fn finish_stream_completion(&mut self)
        requires
            old(self).wf(),
            old(self).request_limiter.spec_active() > 0,
        ensures
            final(self).wf(),
            final(self).id@ == old(self).id@,
            final(self).model@ == old(self).model@,
            final(self).request_limiter.spec_cap() == old(self).request_limiter.spec_cap(),
            final(self).request_limiter.spec_active() == old(self).request_limiter.spec_active()
                - 1,
    {
        self.request_limiter.release();
    }
}

/// The catalog/factory: enumerates the selectable models and reports
/// authentication status; the credential state it owns is shared with the
/// configuration view by the embedding application.
pub struct GrokLanguageModelProvider {
    pub state: State,
}

/// The number of streaming requests one model handle may have in flight.
pub open spec fn handle_concurrency() -> int {
    4
}

impl GrokLanguageModelProvider {
    /// The provider's stable identifier.
    pub fn id(&self) -> (r: &'static str)
        ensures
            r@ == "grok"@,
    {
        provider_id()
    }

    /// The provider's display name.
    pub fn name(&self) -> (r: &'static str)
        ensures
            r@ == "Grok"@,
    {
        provider_name()
    }

    pub fn new() -> (r: Self)
        ensures
            r.state@.api_key is None,
            !r.state@.api_key_from_env,
            r.state.wf(),
    {
        GrokLanguageModelProvider { state: State::new() }
    }

    /// Wraps one descriptor as a model handle with a fresh limiter.
    fn create_language_model(&self, model: ModelDescriptor) -> (r: GrokLanguageModel)
        ensures
            r.id@ == model@.name,
            r.model@ == model@,
            r.request_limiter.spec_cap() == handle_concurrency(),
            r.request_limiter.spec_active() == 0,
            r.wf(),
    {
        GrokLanguageModel { id: model.name.clone(), model, request_limiter: RequestLimiter::new(4) }
    }

    pub fn is_authenticated(&self) -> (r: bool)
        ensures
            r == (self.state@.api_key is Some),
    {
        self.state.is_authenticated()
    }

    /// Delegates to the credential state; see `State::authenticate`.
    pub fn authenticate(&mut self, env_key: Option<String>, stored: Option<Vec<u8>>) -> (r: Result<
        (),
        AuthenticateError,
    >)
        requires
            old(self).state.wf(),
        ensures
            final(self).state.wf(),
            old(self).state@.api_key is Some ==> r is Ok && final(self).state@ == old(self).state@,
            env_key matches Some(k) ==> (old(self).state@.api_key is None
                ==> r is Ok && final(self).state@.api_key == Some(k@)
                    && final(self).state@.api_key_from_env),
            stored matches Some(b) ==> (old(self).state@.api_key is None && env_key is None ==> {
                if valid_utf8(b@) {
                    r is Ok && !final(self).state@.api_key_from_env && final(self).state@.api_key
                        is Some
                } else {
                    r == Err::<(), AuthenticateError>(AuthenticateError::InvalidKeyEncoding)
                        && final(self).state@ == old(self).state@
                }
            }),
            old(self).state@.api_key is None && env_key is None && stored is None ==> r == Err::<
                (),
                AuthenticateError,
            >(AuthenticateError::CredentialsNotFound) && final(self).state@ == old(self).state@,
    {
        self.state.authenticate(env_key, stored)
    }

    /// Delegates to the credential state; see `State::reset_api_key`.
    pub fn reset_credentials(&mut self, api_url: &str) -> (r: StoreAction)
        ensures
            final(self).state@.api_key is None,
            !final(self).state@.api_key_from_env,
            final(self).state.wf(),
            r matches StoreAction::Delete { url } && url@ == api_url@,
    {
        self.state.reset_api_key(api_url)
    }

    /// The provider's recommended default model, not looked up from the
    /// catalog.
    pub fn default_model(&self) -> (r: GrokLanguageModel)
        ensures
            r.id@ == "grok-3-latest"@,
            r.model@ == builtin_desc("grok-3-latest"@, "Grok 3"@, 131072),
            r.request_limiter.spec_cap() == handle_concurrency(),
            r.request_limiter.spec_active() == 0,
            r.wf(),
    {
        self.create_language_model(
            ModelDescriptor {
                name: "grok-3-latest".to_owned(),
                display_name: "Grok 3".to_owned(),
                max_tokens: 131072,
                max_output_tokens: Some(4096),
                max_completion_tokens: Some(4096),
            },
        )
    }

    /// The cheaper, faster default alternative.
    pub fn default_fast_model(&self) -> (r: GrokLanguageModel)
        ensures
            r.id@ == "grok-3-fast-latest"@,
            r.model@ == builtin_desc("grok-3-fast-latest"@, "Grok 3 Fast"@, 131072),
            r.request_limiter.spec_cap() == handle_concurrency(),
            r.request_limiter.spec_active() == 0,
            r.wf(),
    {
        self.create_language_model(
            ModelDescriptor {
                name: "grok-3-fast-latest".to_owned(),
                display_name: "Grok 3 Fast".to_owned(),
                max_tokens: 131072,
                max_output_tokens: Some(4096),
                max_completion_tokens: Some(4096),
            },
        )
    }

    /// One handle per catalog slot, in key order: the built-in list
    /// overwritten and extended by the settings overrides. Each handle is
    /// identified by its descriptor's name and starts with a fresh
    /// limiter.
    pub fn provided_models(&self, settings: &GrokSettings) -> (r: Vec<GrokLanguageModel>)
        ensures
            exists|es: Seq<EntryView>|
                #[trigger] represents(es, catalog_table(settings@.available_models))
                    && r@.len() == es.len() && (forall|i: int|
                    0 <= i < r@.len() ==> (#[trigger] r@[i]).id@ == es[i].model.name && r@[i].model@
                        == es[i].model && r@[i].request_limiter.spec_cap() == handle_concurrency()
                        && r@[i].request_limiter.spec_active() == 0),
    {
        let entries: Vec<CatalogEntry> = settings.catalog_entries();
        let mut out: Vec<GrokLanguageModel> = Vec::new();
        let mut i: usize = 0;
        while i < entries.len()
            invariant
                i <= entries.len(),
                out@.len() == i,
                forall|j: int|
                    0 <= j < i ==> (#[trigger] out@[j]).id@ == entry_views(entries@)[j].model.name
                        && out@[j].model@ == entry_views(entries@)[j].model
                        && out@[j].request_limiter.spec_cap() == handle_concurrency()
                        && out@[j].request_limiter.spec_active() == 0,
            decreases entries.len() - i,
        {
            let e = entries[i].clone();
            out.push(self.create_language_model(e.model));
            i = i + 1;
        }
        proof {
            let es = entry_views(entries@);
            assert(represents(es, catalog_table(settings@.available_models)) && out@.len()
                == es.len() && (forall|j: int|
                0 <= j < out@.len() ==> (#[trigger] out@[j]).id@ == es[j].model.name
                    && out@[j].model@ == es[j].model && out@[j].request_limiter.spec_cap()
                    == handle_concurrency() && out@[j].request_limiter.spec_active() == 0));
        }
        out
    }
}

} // verus!
