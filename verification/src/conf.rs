//! Service configuration and its defaults.
use vstd::prelude::*;
use std::sync::Arc;
use crate::text::{concat3, string_views};

verus! {

/// The tracing settings read from the environment (`tracing_kickstart`).
#[verifier::external_type_specification]
#[verifier::external_body]
pub struct ExTracingConfigOverride(tracing_kickstart::TracingConfigOverride);


/// Settings of the webhook API listener.
#[derive(Clone, Debug)]
pub struct ApiConfig {
    /// Defaults to localhost, set to `0.0.0.0` for any
    pub listen_host: String,
    /// Defaults to 8080
    pub listen_port: u16,
}

impl ApiConfig {
    /// The loopback address `127.0.0.1`.
    pub fn listen_host_default() -> (r: String)
        ensures
            r@ == "127.0.0.1"@,
    {
        String::from_str("127.0.0.1")
    }

    /// Port 8080.
    pub fn listen_port_default() -> (r: u16)
        ensures
            r == 8080,
    {
        8080
    }
}

impl Default for ApiConfig {
    fn default() -> (r: Self)
        ensures
            r.listen_host@ == "127.0.0.1"@,
            r.listen_port == 8080,
    {
        Self { listen_host: Self::listen_host_default(), listen_port: Self::listen_port_default() }
    }
}

/// Settings of the GitHub side: credentials and the webhook filters.
#[derive(Clone)]
pub struct GithubConfig {
    pub token: String,
    pub webhook_secret: String,
    /// restrict webhook processing to orgs/users
    pub repo_owners: Option<Vec<String>>,
    pub required_label: String,
    pub runner_labels: Vec<String>,
}

/// The runner labels configured when none are given.
pub open spec fn default_runner_labels() -> Seq<Seq<char>> {
    seq!["self-hosted"@, "proxmox"@, "ephemeral"@, "linux"@, "x64"@]
}

impl GithubConfig {
    /// The label `self-hosted`.
    pub fn required_label_default() -> (r: String)
        ensures
            r@ == "self-hosted"@,
    {
        String::from_str("self-hosted")
    }

    /// The labels `self-hosted`, `proxmox`, `ephemeral`, `linux`, `x64`, in that order.
    pub fn runner_labels_default() -> (r: Vec<String>)
        ensures
            string_views(r@) == default_runner_labels(),
    {
        let r = vec![
            String::from_str("self-hosted"),
            String::from_str("proxmox"),
            String::from_str("ephemeral"),
            String::from_str("linux"),
            String::from_str("x64"),
        ];
        proof {
            assert(string_views(r@) =~= default_runner_labels());
        }
        r
    }
}

/// Settings of the Proxmox VE side.
pub struct PveConfig {
    pub host_url: url::Url,
    pub token_id: String,
    pub token_secret: String,
    pub node: String,
    pub template_vmid: u32,
    pub snippets_local_dir: String,
    pub snippets_template_name: String,
    pub runner_vmid_min: u32,
    pub runner_vmid_max: u32,
    /// Seconds between two reaper passes.
    pub reap_interval: u64,
    pub reap_dryrun: bool,
    /// The resource pool of the runner VMs, if one is configured: VMs outside it are
    /// never reaped.
    pub runner_pool: Option<String>,
}

impl PveConfig {
    /// The lowest VM id given to runners: 5000.
    pub fn runner_vmid_min_default() -> (r: u32)
        ensures
            r == 5000,
    {
        5000
    }

    /// The highest VM id given to runners: 5999.
    pub fn runner_vmid_max_default() -> (r: u32)
        ensures
            r == 5999,
    {
        5999
    }

    /// One minute, in seconds.
    pub fn reap_interval_default() -> (r: u64)
        ensures
            r == 60,
    {
        60
    }

    /// Reaping deletes VMs unless configured otherwise.
    pub fn reap_dryrun_default() -> (r: bool)
        ensures
            r == false,
    {
        false
    }

    /// The path of the cloud-init template: `{snippets_local_dir}/{snippets_template_name}`.
    pub fn snippets_template_path(&self) -> (r: String)
        ensures
            r@ == self.snippets_local_dir@ + "/"@ + self.snippets_template_name@,
    {
        concat3(self.snippets_local_dir.as_str(), "/", self.snippets_template_name.as_str())
    }
}

/// The whole configuration.
pub struct Conf {
    pub api: ApiConfig,
    pub pve: PveConfig,
    pub github: GithubConfig,
    pub tracing: tracing_kickstart::TracingConfigOverride,
}

/// The configuration, each part shared behind its own reference count.
#[derive(Clone)]
pub struct SharedConf {
    pub api: Arc<ApiConfig>,
    pub pve: Arc<PveConfig>,
    pub github: Arc<GithubConfig>,
    pub tracing: Arc<tracing_kickstart::TracingConfigOverride>,
}

impl Conf {
    /// Moves each part behind a shared reference.
    pub fn into_shared(self) -> (r: SharedConf)
        ensures
            *r.api == self.api,
            *r.pve == self.pve,
            *r.github == self.github,
            *r.tracing == self.tracing,
    {
        SharedConf {
            api: Arc::new(self.api),
            pve: Arc::new(self.pve),
            github: Arc::new(self.github),
            tracing: Arc::new(self.tracing),
        }
    }
}

} // verus!
