//! Provider adapter for the Grok (x.ai) chat-completion API.
//!
//! The adapter manages API-key acquisition, storage and invalidation, exposes
//! a catalog of selectable models with their token-limit metadata, and
//! translates between the host's request/response representation and the
//! OpenAI-compatible wire format. All I/O (environment reads, the credential
//! store, HTTP) is performed by the embedding application; the library makes
//! every decision on plain values and states each one in a contract.

pub mod catalog;
pub mod config;
pub mod limiter;
pub mod models;
pub mod provider;
pub mod state;
pub mod text;
pub mod wire;
