//! Password hashing in four variants, and the orchestration of passkey
//! (WebAuthn) registration and authentication around single-use pending
//! ceremony state.

pub mod account;
pub mod ceremony;
pub mod config;
pub mod crypto;
pub mod registry;
pub mod store;
