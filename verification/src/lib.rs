//! Authentication and session subsystem for a blog platform.
//!
//! The library verifies the security-sensitive core: the OAuth2 login
//! orchestration with its organization-membership gate, the token-keyed
//! session store with TTL semantics, and the shared error taxonomy.
//! Network transports (the identity provider, the backing key-value store,
//! the HTTP surface) live outside the library and hand it plain values.

pub mod auth;
pub mod blog;
pub mod decimal;
pub mod errors;
pub mod web;
