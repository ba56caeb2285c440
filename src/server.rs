//! Settings of the HTTPS endpoint that receives pushed locations.
use vstd::prelude::*;

verus! {

/// Where the server listens and where its TLS material lies.
#[derive(Clone, Debug)]
pub struct Config {
    /// Port to listen on.
    pub port: u16,
    /// Path to the TLS certificate, in PEM.
    pub cert: String,
    /// Path to the TLS private key, in PEM.
    pub key: String,
}

} // verus!
