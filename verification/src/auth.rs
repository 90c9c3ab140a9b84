//! The credentials that `plit auth login` stores.
use vstd::prelude::*;

verus! {

/// The stored credentials: the token, who it belongs to, and the server.
pub struct AuthConfig {
    pub token: String,
    pub username: String,
    pub pipelit_url: String,
}

} // verus!
