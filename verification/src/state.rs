//! Credential state: the current API key, where it came from, and the
//! authenticate / set-key / reset-key transitions. The embedding
//! application performs the actual environment read and credential-store
//! I/O and hands the results in as plain values; the store writes that a
//! transition calls for come back as `StoreAction` values.

use vstd::prelude::*;
use vstd::utf8::{decode_utf8, valid_utf8};
use crate::text::string_from_utf8;

verus! {

/// Why an authentication attempt failed.
#[derive(Debug)]
pub enum AuthenticateError {
    /// Neither the environment variable nor the credential store held a key.
    CredentialsNotFound,
    /// The stored bytes are not valid UTF-8 text.
    InvalidKeyEncoding,
}

/// A credential-store operation that the caller must carry out.
pub enum StoreAction {
    Write { url: String, label: String, secret: Vec<u8> },
    Delete { url: String },
}

/// The provider's credential state.
pub struct State {
    pub api_key: Option<String>,
    pub api_key_from_env: bool,
}

pub ghost struct StateView {
    pub api_key: Option<Seq<char>>,
    pub api_key_from_env: bool,
}

impl View for State {
    type V = StateView;

    open spec fn view(&self) -> StateView {
        StateView {
            api_key: match self.api_key {
                Some(k) => Some(k@),
                None => None,
            },
            api_key_from_env: self.api_key_from_env,
        }
    }
}

impl State {
    /// A key can be flagged as environment-derived only while one is held.
    pub open spec fn wf(&self) -> bool {
        self@.api_key_from_env ==> self@.api_key is Some
    }

    /// Fresh state: unauthenticated.
    pub fn new() -> (r: Self)
        ensures
            r@.api_key is None,
            !r@.api_key_from_env,
            r.wf(),
    {
        State { api_key: None, api_key_from_env: false }
    }

    /// True exactly while an API key is held.
    pub fn is_authenticated(&self) -> (r: bool)
        ensures
            r == (self@.api_key is Some),
    {
        self.api_key.is_some()
    }

    /// Adopts a key: the environment variable first and flagged as such,
    /// else the stored credential decoded as UTF-8 text. Already being
    /// authenticated is a no-op success. No input writes the store: the
    /// environment key in particular is never persisted back.
    pub fn authenticate(&mut self, env_key: Option<String>, stored: Option<Vec<u8>>) -> (r: Result<
        (),
        AuthenticateError,
    >)
        requires
            old(self).wf(),
        ensures
            final(self).wf(),
            old(self)@.api_key is Some ==> r is Ok && final(self)@ == old(self)@,
            env_key matches Some(k) ==> (old(self)@.api_key is None ==> r is Ok && final(self)@
                == (StateView { api_key: Some(k@), api_key_from_env: true })),
            stored matches Some(b) ==> (old(self)@.api_key is None && env_key is None ==> {
                if valid_utf8(b@) {
                    r is Ok && final(self)@ == (StateView {
                        api_key: Some(decode_utf8(b@)),
                        api_key_from_env: false,
                    })
                } else {
                    r == Err::<(), AuthenticateError>(AuthenticateError::InvalidKeyEncoding)
                        && final(self)@ == old(self)@
                }
            }),
            old(self)@.api_key is None && env_key is None && stored is None ==> r == Err::<
                (),
                AuthenticateError,
            >(AuthenticateError::CredentialsNotFound) && final(self)@ == old(self)@,
    {
        if self.api_key.is_some() {
            return Ok(());
        }
        match env_key {
            Some(key) => {
                self.api_key = Some(key);
                self.api_key_from_env = true;
                Ok(())
            },
            None => match stored {
                Some(bytes) => match string_from_utf8(bytes) {
                    Some(key) => {
                        self.api_key = Some(key);
                        self.api_key_from_env = false;
                        Ok(())
                    },
                    None => Err(AuthenticateError::InvalidKeyEncoding),
                },
                None => Err(AuthenticateError::CredentialsNotFound),
            },
        }
    }

    /// Installs a user-supplied key and calls for it to be persisted under
    /// the configured endpoint URL with the label `Bearer`. The caller
    /// performs the returned write; a failure there is logged, not fatal.
    pub fn set_api_key(&mut self, api_key: String, api_url: &str) -> (r: StoreAction)
        ensures
            final(self)@.api_key == Some(api_key@),
            !final(self)@.api_key_from_env,
            final(self).wf(),
            r matches StoreAction::Write { url, label, secret } && url@ == api_url@ && label@
                == "Bearer"@ && secret@ == vstd::utf8::encode_utf8(api_key@),
    {
        let secret = api_key.as_str().as_bytes_vec();
        self.api_key = Some(api_key);
        self.api_key_from_env = false;
        StoreAction::Write { url: api_url.to_owned(), label: "Bearer".to_owned(), secret }
    }

    /// Clears the key and its origin flag and calls for the stored
    /// credential under the configured endpoint URL to be removed.
    pub fn reset_api_key(&mut self, api_url: &str) -> (r: StoreAction)
        ensures
            final(self)@.api_key is None,
            !final(self)@.api_key_from_env,
            final(self).wf(),
            r matches StoreAction::Delete { url } && url@ == api_url@,
    {
        self.api_key = None;
        self.api_key_from_env = false;
        StoreAction::Delete { url: api_url.to_owned() }
    }
}

} // verus!
