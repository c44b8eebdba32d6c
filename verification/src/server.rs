//! Process-wide pieces of the service: its shared state and its tracing defaults.
use vstd::prelude::*;
use std::sync::Arc;
use crate::conf::SharedConf;

verus! {

/// The state handed to every request handler.
#[derive(Clone)]
pub struct AppState {
    pub conf: Arc<SharedConf>,
}

impl AppState {
    /// The state of a service configured by `conf`.
    pub fn new(conf: Arc<SharedConf>) -> (s: Self)
        ensures
            s.conf == conf,
    {
        AppState { conf }
    }
}

/// The tracing filter directives used when none are configured.
pub open spec fn default_filter_directives() -> Seq<Seq<char>> {
    seq![
        "h2=info"@,
        "hyper_util=info"@,
        "hyper=info"@,
        "opentelemetry_sdk=info"@,
        "opentelemetry-http=info"@,
        "opentelemetry-otlp=info"@,
        "reqwest::connect=info"@,
        "rustls=info"@,
        "sqlx::query=info"@,
        "tendermint_rpc=info"@,
        "gh-pve-webhook=debug"@,
        "debug"@,
    ]
}

/// The tracing filter directives used when none are configured: `info` for the
/// noisy dependencies, `debug` for this service and everything else.
pub fn default_env_filter() -> (r: [&'static str; 12])
    ensures
        r@.map_values(|s: &str| s@) == default_filter_directives(),
{
    let r = [
        "h2=info",
        "hyper_util=info",
        "hyper=info",
        "opentelemetry_sdk=info",
        "opentelemetry-http=info",
        "opentelemetry-otlp=info",
        "reqwest::connect=info",
        "rustls=info",
        "sqlx::query=info",
        "tendermint_rpc=info",
        "gh-pve-webhook=debug",
        "debug",
    ];
    proof {
        assert(r@.map_values(|s: &str| s@) =~= default_filter_directives());
    }
    r
}

} // verus!
