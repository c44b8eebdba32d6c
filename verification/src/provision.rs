//! What provisioning a runner VM creates: its id, its snippet paths and its settings.
use vstd::prelude::*;
use crate::cloud_config::CloudConfigParams;
use crate::conf::PveConfig;
use crate::text::{concat2, concat3, decimal, decimal_string};

verus! {

/// `rand::random_range(min..=max)`: a value drawn uniformly from `min..=max` by the
/// thread-local generator (which panics on an empty range).
#[verifier::external_body]
fn random_vm_id(min: u32, max: u32) -> (r: u32)
    requires
        min <= max,
    ensures
        min <= r <= max,
{
    rand::random_range(min..=max)
}

/// Whether `ids` holds `id`.
fn contains_id(ids: &Vec<u16>, id: u16) -> (r: bool)
    ensures
        r == ids@.contains(id),
{
    let n = ids.len();
    let mut i: usize = 0;
    while i < n
        invariant
            n == ids@.len(),
            i <= n,
            forall|j: int| 0 <= j < i ==> ids@[j] != id,
        decreases n - i,
    {
        if ids[i] == id {
            return true;
        }
        i = i + 1;
    }
    false
}

/// A random id in the runner range, as [`random_vm_id`] draws it.
pub fn get_random_vm_id(conf: &PveConfig) -> (r: u16)
    requires
        conf.runner_vmid_min <= conf.runner_vmid_max <= u16::MAX,
    ensures
        conf.runner_vmid_min <= r <= conf.runner_vmid_max,
{
    random_vm_id(conf.runner_vmid_min, conf.runner_vmid_max) as u16
}

/// A new runner id: random ids are drawn from the runner range until one comes up
/// that no VM in `existing` uses. A free id must exist, else no draw ever succeeds.
/// The draws are counted in a `u64`; should that count ever run out, which takes
/// centuries of draws, the lowest free id is taken.
pub fn pick_new_vm_id(existing: &Vec<u16>, conf: &PveConfig) -> (r: u16)
    requires
        conf.runner_vmid_min <= conf.runner_vmid_max <= u16::MAX,
        exists|id: u16|
            conf.runner_vmid_min <= id <= conf.runner_vmid_max && !#[trigger] existing@.contains(id),
    ensures
        conf.runner_vmid_min <= r <= conf.runner_vmid_max,
        !existing@.contains(r),
{
    let mut draws: u64 = 0;
    while draws < u64::MAX
        invariant
            conf.runner_vmid_min <= conf.runner_vmid_max <= u16::MAX,
        decreases u64::MAX - draws,
    {
        let new_id = get_random_vm_id(conf);
        if !contains_id(existing, new_id) {
            return new_id;
        }
        draws = draws + 1;
    }
    let min = conf.runner_vmid_min;
    let max = conf.runner_vmid_max;
    let mut id: u32 = min;
    while id <= max
        invariant
            min <= id <= max + 1,
            max <= u16::MAX,
            min == conf.runner_vmid_min,
            max == conf.runner_vmid_max,
            forall|k: u16| min <= k < id ==> #[trigger] existing@.contains(k),
        decreases max + 1 - id,
    {
        if !contains_id(existing, id as u16) {
            return id as u16;
        }
        id = id + 1;
    }
    proof {
        let free = choose|k: u16| min <= k <= max && !#[trigger] existing@.contains(k);
        assert(existing@.contains(free));
    }
    vstd::pervasive::unreached()
}

/// The VM name of a runner: `github-runner-{vmid}`.
pub open spec fn runner_vm_name(vmid: u16) -> Seq<char> {
    "github-runner-"@ + decimal(vmid as nat)
}

/// The snippet file name of a runner: `{vmid}.yaml`.
pub open spec fn snippet_file_name(vmid: u16) -> Seq<char> {
    decimal(vmid as nat) + ".yaml"@
}

/// Everything that provisioning one runner VM writes and sets.
pub struct ProvisionPlan {
    pub vmid: u16,
    /// The cloud-init template read.
    pub template_path: String,
    /// The snippet written: `{snippets_local_dir}/{vmid}.yaml`.
    pub output_path: String,
    /// The name of the cloned VM.
    pub vm_name: String,
    /// The `cicustom` setting that points the VM at its snippet.
    pub cicustom: String,
    /// The `ipconfig0` setting.
    pub ipconfig0: String,
    /// The parameters of the runner's cloud-init config.
    pub params: CloudConfigParams,
}

impl ProvisionPlan {
    /// The plan for runner VM `vmid` of repository `{org}/{repo}`, registered with
    /// `labels` and `runner_token`.
    pub fn new(
        conf: &PveConfig,
        vmid: u16,
        org: &str,
        repo: &str,
        labels: Vec<String>,
        runner_token: String,
    ) -> (p: Self)
        ensures
            p.vmid == vmid,
            p.template_path@ == conf.snippets_local_dir@ + "/"@ + conf.snippets_template_name@,
            p.output_path@ == conf.snippets_local_dir@ + "/"@ + snippet_file_name(vmid),
            p.vm_name@ == runner_vm_name(vmid),
            p.cicustom@ == "user=local-isos:snippets/"@ + snippet_file_name(vmid),
            p.ipconfig0@ == "ip=dhcp"@,
            p.params.vmid == vmid,
            p.params.repo@ == org@ + "/"@ + repo@,
            p.params.labels == labels,
            p.params.runner_token == runner_token,
    {
        let template_path = conf.snippets_template_path();
        let id = decimal_string(vmid as u64);
        let output_filename = concat2(id.as_str(), ".yaml");
        let output_path = concat3(conf.snippets_local_dir.as_str(), "/", output_filename.as_str());
        let vm_name = concat2("github-runner-", id.as_str());
        let cicustom = concat2("user=local-isos:snippets/", output_filename.as_str());
        let full_repo = concat3(org, "/", repo);
        ProvisionPlan {
            vmid,
            template_path,
            output_path,
            vm_name,
            cicustom,
            ipconfig0: String::from_str("ip=dhcp"),
            params: CloudConfigParams { vmid, repo: full_repo, labels, runner_token },
        }
    }
}

} // verus!
