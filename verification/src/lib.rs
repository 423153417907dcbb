//! An OpenID Connect relying party without I/O of its own.
//!
//! The library builds the HTTP requests of the authorization-code flow, judges
//! the replies, keeps the CSRF state, and decides what the callback listener
//! does with each redirect. Whoever embeds it sends the requests and serves
//! the callback; every decision in between is taken here, under contract.

pub mod flow;
pub mod http;
pub mod json;
pub mod oidc;
pub mod query;
pub mod text;
pub mod utils;

