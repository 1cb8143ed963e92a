//! The configuration an attestation attempt needs: the bearer credential
//! and the service endpoint. Loading it from disk is the caller's business;
//! the pipeline takes it as a plain, read-only value.
use vstd::prelude::*;

verus! {

/// The credential and endpoint of one attestation service.
#[derive(Clone, Debug, PartialEq)]
pub struct Config {
    /// The opaque bearer credential.
    pub token: String,
    /// The base URL of the attestation service.
    pub endpoint: String,
}

impl Config {
    pub fn new(token: String, endpoint: String) -> (r: Config)
        ensures
            r.token == token,
            r.endpoint == endpoint,
    {
        Config { token, endpoint }
    }
}

} // verus!
