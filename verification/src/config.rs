//! The settings panel's decisions: which of its three states to show, and
//! what a submitted key becomes. The widgets themselves (the editor field,
//! the labels, the styling) are drawn by the embedding application.

use vstd::prelude::*;
use crate::state::{State, StoreAction};
use crate::text::{trim_str, trimmed};

verus! {

/// What the settings panel shows.
#[derive(Clone, Copy, Debug, PartialEq, Eq, Structural)]
pub enum ConfigRenderState {
    /// The initial authentication attempt is still in flight.
    LoadingCredentials,
    /// No key is held: an input form to paste and submit one.
    ApiKeyEditor,
    /// A key is held; the flag distinguishes "via environment variable"
    /// from "via stored key".
    AuthenticatedStatus { from_env: bool },
}

/// The settings panel bound to the credential state: it remembers only
/// whether its initial authentication attempt is still running.
pub struct ConfigurationView {
    pub loading: bool,
}

impl ConfigurationView {
    /// A fresh panel starts in the loading state while the application
    /// runs the initial authentication attempt.
    pub fn new() -> (r: Self)
        ensures
            r.loading,
    {
        ConfigurationView { loading: true }
    }

    /// The application reports that the initial attempt finished,
    /// whichever way it went.
    pub fn credentials_loaded(&mut self)
        ensures
            !final(self).loading,
    {
        self.loading = false;
    }

    /// Which of the three states to render: loading while the initial
    /// attempt runs, the input form while unauthenticated, else the
    /// status line with the key's origin.
    pub fn render_state(&self, state: &State) -> (r: ConfigRenderState)
        ensures
            self.loading ==> r == ConfigRenderState::LoadingCredentials,
            !self.loading && state@.api_key is None ==> r == ConfigRenderState::ApiKeyEditor,
            !self.loading && state@.api_key is Some ==> r
                == (ConfigRenderState::AuthenticatedStatus {
                from_env: state@.api_key_from_env,
            }),
    {
        if self.loading {
            ConfigRenderState::LoadingCredentials
        } else if !state.is_authenticated() {
            ConfigRenderState::ApiKeyEditor
        } else {
            ConfigRenderState::AuthenticatedStatus { from_env: state.api_key_from_env }
        }
    }

    /// Submits the editor's content: the input is trimmed, an empty
    /// submission is ignored, and a non-empty one installs the key and
    /// calls for the store write of `State::set_api_key`.
    pub fn save_api_key(&self, input: &str, state: &mut State, api_url: &str) -> (r: Option<
        StoreAction,
    >)
        ensures
            trimmed(input@).len() == 0 ==> r is None && final(state)@ == old(state)@,
            trimmed(input@).len() > 0 ==> {
                &&& final(state)@.api_key == Some(trimmed(input@))
                &&& !final(state)@.api_key_from_env
                &&& final(state).wf()
                &&& r matches Some(a) ==> a matches StoreAction::Write { url, label, secret }
                    && url@ == api_url@ && label@ == "Bearer"@ && secret@
                    == vstd::utf8::encode_utf8(trimmed(input@))
                &&& r is Some
            },
    {
        let key = trim_str(input);
        if key.as_str().is_empty() {
            return None;
        }
        Some(state.set_api_key(key, api_url))
    }
}

} // verus!
