//! The SIP endpoint.

use vstd::prelude::*;

verus! {

/// Configuration of the SIP endpoint.
#[derive(Clone, Debug)]
pub struct SipConfig {
    pub listen_port: u16,
    pub account_uri: String,
    pub registrar: String,
    pub username: String,
    pub password: String,
    pub max_concurrent_calls: u32,
}

} // verus!
