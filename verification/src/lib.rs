//! Core of an OAuth2 login service: per-provider authorization-code exchange
//! and profile normalization, reconciliation of normalized identities against
//! a shared in-memory user table, issuance and validation of signed session
//! tokens, and the request-time authentication guard for protected routes.
//!
//! All I/O (HTTP transport, TLS, environment) lives outside this crate; the
//! crate holds the decisions and data transformations, each with a contract.

pub mod b64;
pub mod bytes;
pub mod claims;
pub mod errors;
pub mod ext;
pub mod flow;
pub mod guard;
pub mod model;
pub mod oauth;
pub mod store;
pub mod token;
