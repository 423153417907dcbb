//! The OpenID Connect flow: the relying party, its callback listener, and the
//! reading of identity tokens.

pub mod callback_listener;
pub mod jwt_client;
pub mod oidc_agent;
pub mod oidc_client;
pub mod redirect_url;
