//! Credential and token lifecycle for an authentication service: accounts,
//! bearer tokens with rotation, single-use verification tokens, and the
//! operations that compose them.

mod ident;
pub mod laws;
pub mod ledger;
pub mod service;
pub mod store;
pub mod text;
pub mod tokens;
pub mod verification;
