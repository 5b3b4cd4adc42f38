//! Run configuration: the status page, the endpoints in probing order, and
//! the secrets. Built once at startup and only read afterwards.
use vstd::prelude::*;

verus! {

/// Names of the two metrics that one endpoint's timings are reported under.
#[derive(Clone, Debug)]
pub struct Metric {
    /// Metric for the time until inclusion.
    pub inclusion: String,
    /// Metric for the time until finalization.
    pub finalization: String,
}

/// One probed ledger endpoint.
#[derive(Clone, Debug)]
pub struct NetworkConfig {
    pub rpc: String,
    pub metrics: Metric,
}

/// Read-only secrets, never logged.
#[derive(Clone)]
pub struct Secrets {
    /// Bearer token of the status-page API.
    pub instatus_key: String,
    /// Secret URI the signing key is derived from.
    pub substrate_uri: String,
}

pub struct Config {
    /// Status-page identifier.
    pub page: String,
    /// Endpoints, in probing order.
    pub transactions: Vec<NetworkConfig>,
    pub secrets: Secrets,
    /// Pause after each full round, in seconds.
    pub interval_sec: u32,
}

} // verus!
