//! Which runner VMs the reaper deletes, and how.
use vstd::prelude::*;
use vstd::utf8::encode_utf8;
use crate::middleware::github_webhook::signature::hex_digit_value;
use crate::text::str_equal;

verus! {

/// Whether a VM is to be reaped, and whether it was running when checked.
#[derive(Debug, Copy, Clone)]
pub struct ReapDecision {
    pub reap: bool,
    pub vm_is_running: bool,
}

impl ReapDecision {
    /// A decision for a VM in `status`: it is running when the status is `running`.
    pub fn new_from_status(reap: bool, status: &str) -> (d: Self)
        ensures
            d.reap == reap,
            d.vm_is_running == (status@ == "running"@),
    {
        Self { reap, vm_is_running: str_equal(status, "running") }
    }

    /// Reap the VM.
    pub fn reap(status: &str) -> (d: Self)
        ensures
            d.reap,
            d.vm_is_running == (status@ == "running"@),
    {
        Self::new_from_status(true, status)
    }

    /// Leave the VM alone.
    pub fn skip(status: &str) -> (d: Self)
        ensures
            !d.reap,
            d.vm_is_running == (status@ == "running"@),
    {
        Self::new_from_status(false, status)
    }
}

/// Min age (one minute, in nanoseconds) before a VM is considered for reaping,
/// so that VMs just created and not yet started are kept.
pub const MIN_VM_AGE_NANOS: i128 = 60_000_000_000i128;

/// Max age (one hour, in nanoseconds) a running job VM may reach before it is
/// terminated.
pub const MAX_VM_AGE_NANOS: i128 = 3_600_000_000_000i128;

/// A pool name, by its text.
pub open spec fn pool_view(pool: Option<String>) -> Option<Seq<char>> {
    match pool {
        Some(p) => Some(p@),
        None => None,
    }
}

/// Whether a runner pool is configured and the VM is not a member of it.
pub open spec fn outside_runner_pool(runner_pool: Option<Seq<char>>, vm_pool: Option<Seq<char>>) -> bool {
    runner_pool is Some && runner_pool != vm_pool
}

/// Whether the VM is outside the configured runner pool.
pub fn is_outside_runner_pool(runner_pool: &Option<String>, vm_pool: &Option<String>) -> (r: bool)
    ensures
        r == outside_runner_pool(pool_view(*runner_pool), pool_view(*vm_pool)),
{
    match runner_pool {
        None => false,
        Some(configured) => match vm_pool {
            None => true,
            Some(member) => !str_equal(configured.as_str(), member.as_str()),
        },
    }
}

/// Whether the reaper knows what to do with a VM of this age and status: a VM past
/// the minimum age and inside the runner pool must be `running` or `stopped`.
pub open spec fn status_handled(vm_age: int, status: Seq<char>, outside_pool: bool) -> bool {
    vm_age < MIN_VM_AGE_NANOS || outside_pool || status == "running"@ || status == "stopped"@
}

/// Whether a VM of this age (in nanoseconds) and status is reaped.
pub open spec fn should_reap(vm_age: int, status: Seq<char>, outside_pool: bool) -> bool {
    if vm_age < MIN_VM_AGE_NANOS {
        false
    } else if outside_pool {
        false
    } else if status == "running"@ {
        vm_age > MAX_VM_AGE_NANOS
    } else {
        true
    }
}

/// Decides the fate of a VM of age `vm_age` (nanoseconds since its creation) in
/// `status`, in the pool `vm_pool`: younger than a minute it stays; outside a
/// configured runner pool it stays; running, it goes once older than an hour;
/// stopped, it goes.
pub fn decide_reap(
    vm_age: i128,
    status: &str,
    runner_pool: &Option<String>,
    vm_pool: &Option<String>,
) -> (d: ReapDecision)
    requires
        status_handled(
            vm_age as int,
            status@,
            outside_runner_pool(pool_view(*runner_pool), pool_view(*vm_pool)),
        ),
    ensures
        d.reap == should_reap(
            vm_age as int,
            status@,
            outside_runner_pool(pool_view(*runner_pool), pool_view(*vm_pool)),
        ),
        d.vm_is_running == (status@ == "running"@),
{
    if vm_age < MIN_VM_AGE_NANOS {
        return ReapDecision::skip(status);
    }
    if is_outside_runner_pool(runner_pool, vm_pool) {
        return ReapDecision::skip(status);
    }
    if str_equal(status, "running") {
        if vm_age > MAX_VM_AGE_NANOS {
            ReapDecision::reap(status)
        } else {
            ReapDecision::skip(status)
        }
    } else {
        ReapDecision::reap(status)
    }
}

/// A VM younger than the minimum age, or outside the configured runner pool, is never
/// reaped; otherwise a running VM is reaped only once older than the maximum age, and
/// a stopped VM always is.
pub proof fn lemma_reap_policy(vm_age: int, status: Seq<char>, outside_pool: bool)
    requires
        status_handled(vm_age, status, outside_pool),
    ensures
        vm_age < MIN_VM_AGE_NANOS ==> !should_reap(vm_age, status, outside_pool),
        outside_pool ==> !should_reap(vm_age, status, outside_pool),
        !outside_pool && status == "running"@ ==> (should_reap(vm_age, status, outside_pool)
            <==> vm_age > MAX_VM_AGE_NANOS),
        !outside_pool && status == "stopped"@ && vm_age >= MIN_VM_AGE_NANOS ==> should_reap(
            vm_age,
            status,
            outside_pool,
        ),
{
    reveal_strlit("running");
    reveal_strlit("stopped");
    assert("running"@[0] != "stopped"@[0]);
}

/// Whether the reaper knows what to do with a VM of this age and status.
pub fn is_status_handled(vm_age: i128, status: &str, outside_pool: bool) -> (r: bool)
    ensures
        r == status_handled(vm_age as int, status@, outside_pool),
{
    vm_age < MIN_VM_AGE_NANOS || outside_pool || str_equal(status, "running") || str_equal(status, "stopped")
}

/// Whether a listed resource is a VM that the reaper considers: one whose id is in
/// the runner id range.
pub open spec fn is_candidate(vmid: Option<u32>, min: u32, max: u32) -> bool {
    vmid matches Some(id) && min <= id && id <= max
}

/// The positions, in order, of the listed resources that the reaper considers.
pub open spec fn candidate_positions(vmids: Seq<Option<u32>>, min: u32, max: u32) -> Seq<int>
    decreases vmids.len(),
{
    if vmids.len() == 0 {
        Seq::empty()
    } else {
        let rest = candidate_positions(vmids.drop_last(), min, max);
        if is_candidate(vmids.last(), min, max) {
            rest.push(vmids.len() - 1)
        } else {
            rest
        }
    }
}

/// The positions considered are exactly those of the VMs in the runner id range.
pub proof fn lemma_candidates_in_range(vmids: Seq<Option<u32>>, min: u32, max: u32, i: int)
    ensures
        candidate_positions(vmids, min, max).contains(i) <==> (0 <= i < vmids.len()
            && is_candidate(vmids[i], min, max)),
    decreases vmids.len(),
{
    if vmids.len() > 0 {
        let init = vmids.drop_last();
        lemma_candidates_in_range(init, min, max, i);
        let rest = candidate_positions(init, min, max);
        if 0 <= i < init.len() {
            assert(init[i] == vmids[i]);
        }
        if is_candidate(vmids.last(), min, max) {
            let last = vmids.len() - 1;
            if rest.push(last).contains(i) && !rest.contains(i) {
                let k = choose|k: int| 0 <= k < rest.push(last).len() && rest.push(last)[k] == i;
                assert(k == rest.len());
            }
            if rest.contains(i) {
                let k = choose|k: int| 0 <= k < rest.len() && rest[k] == i;
                assert(rest.push(last)[k] == i);
            }
            assert(rest.push(last)[rest.len() as int] == last);
        }
        if rest.contains(i) {
            lemma_positions_below(init, min, max);
        }
    }
}

proof fn lemma_positions_below(vmids: Seq<Option<u32>>, min: u32, max: u32)
    ensures
        forall|k: int| 0 <= k < candidate_positions(vmids, min, max).len() ==> 0 <= #[trigger] candidate_positions(vmids, min, max)[k] < vmids.len(),
    decreases vmids.len(),
{
    if vmids.len() > 0 {
        let init = vmids.drop_last();
        lemma_positions_below(init, min, max);
        let rest = candidate_positions(init, min, max);
        if is_candidate(vmids.last(), min, max) {
            assert forall|k: int| 0 <= k < rest.push(vmids.len() - 1).len() implies 0 <= #[trigger] rest.push(vmids.len() - 1)[k] < vmids.len() by {
                if k < rest.len() {
                    assert(rest.push(vmids.len() - 1)[k] == rest[k]);
                }
            }
        }
    }
}

/// The positions, in the cluster's resource list, of the VMs to check, given each
/// resource's VM id (`None` for resources that are not VMs).
pub fn reap_candidates(vmids: &Vec<Option<u32>>, min: u32, max: u32) -> (r: Vec<usize>)
    ensures
        r@.map_values(|p: usize| p as int) == candidate_positions(vmids@, min, max),
{
    let mut r: Vec<usize> = Vec::new();
    let n = vmids.len();
    let mut i: usize = 0;
    while i < n
        invariant
            n == vmids@.len(),
            i <= n,
            r@.map_values(|p: usize| p as int) == candidate_positions(vmids@.take(i as int), min, max),
        decreases n - i,
    {
        proof {
            assert(vmids@.take(i + 1).drop_last() =~= vmids@.take(i as int));
            assert(vmids@.take(i + 1).last() == vmids@[i as int]);
        }
        let ghost before = r@;
        if let Some(id) = vmids[i] {
            if min <= id && id <= max {
                r.push(i);
                proof {
                    assert(r@.map_values(|p: usize| p as int) =~= before.map_values(|p: usize| p as int).push(i as int));
                }
            }
        }
        i = i + 1;
    }
    proof {
        assert(vmids@.take(n as int) =~= vmids@);
    }
    r
}

/// How to remove a VM.
#[derive(Debug, Copy, Clone)]
pub struct ReapPlan {
    /// Force-stop the VM first.
    pub stop_first: bool,
    /// Destroy the VM (purging it and its unreferenced disks).
    pub destroy: bool,
}

/// A running VM is stopped first; it is destroyed unless this is a dry run (so a
/// dry run never destroys a VM).
pub fn reap_plan(is_running: bool, dryrun: bool) -> (p: ReapPlan)
    ensures
        p.stop_first == is_running,
        p.destroy == !dryrun,
{
    ReapPlan { stop_first: is_running, destroy: !dryrun }
}

/// Why a VM could not be checked.
#[derive(Debug, Copy, Clone, PartialEq, Eq)]
pub enum CheckReapError {
    /// The VM config has no description.
    DescriptionMissing,
    /// The description is not valid percent-encoded UTF-8.
    DescriptionDecode,
    /// The resource has no status.
    StatusMissing,
}

/// The message of each check failure.
pub open spec fn check_error_message(e: CheckReapError) -> Seq<char> {
    match e {
        CheckReapError::DescriptionMissing => "Failed to get vm description"@,
        CheckReapError::DescriptionDecode => "Failed to decode vm description"@,
        CheckReapError::StatusMissing => "Failed to get vm status"@,
    }
}

impl CheckReapError {
    /// The message of this failure.
    pub fn message(&self) -> (m: &'static str)
        ensures
            m@ == check_error_message(*self),
    {
        match self {
            CheckReapError::DescriptionMissing => "Failed to get vm description",
            CheckReapError::DescriptionDecode => "Failed to decode vm description",
            CheckReapError::StatusMissing => "Failed to get vm status",
        }
    }
}

/// Percent-decoding of bytes: `%` followed by two hex digits stands for the byte
/// they denote; every other byte, `+` included, stands for itself.
pub open spec fn percent_decoded(b: Seq<u8>) -> Seq<u8>
    decreases b.len(),
{
    if b.len() == 0 {
        b
    } else if b[0] == 37u8 && b.len() >= 3 && hex_digit_value(b[1]) is Some && hex_digit_value(
        b[2],
    ) is Some {
        seq![(hex_digit_value(b[1])->0 * 16 + hex_digit_value(b[2])->0) as u8] + percent_decoded(
            b.skip(3),
        )
    } else {
        seq![b[0]] + percent_decoded(b.skip(1))
    }
}

/// `urlencoding::decode`: percent-decodes the UTF-8 bytes of `text` and reads the
/// result as UTF-8, failing when it is not valid UTF-8.
#[verifier::external_body]
fn url_decode(text: &str) -> (r: Option<String>)
    ensures
        match r {
            Some(s) => encode_utf8(s@) == percent_decoded(encode_utf8(text@)),
            None => !vstd::utf8::valid_utf8(percent_decoded(encode_utf8(text@))),
        },
{
    match urlencoding::decode(text) {
        Ok(decoded) => Some(decoded.into_owned()),
        Err(_) => None,
    }
}

/// The description and status of a VM, read for the reap check: the description is
/// URL-decoded; each step fails as described by [`CheckReapError`], in this order.
pub fn read_vm_state(description: Option<&str>, status: Option<&str>) -> (r: Result<
    (String, String),
    CheckReapError,
>)
    ensures
        match r {
            Ok((text, st)) => {
                &&& description matches Some(d) && encode_utf8(text@) == percent_decoded(
                    encode_utf8(d@),
                )
                &&& status matches Some(s) && st@ == s@
            },
            Err(CheckReapError::DescriptionMissing) => description is None,
            Err(CheckReapError::DescriptionDecode) => description matches Some(d)
                && !vstd::utf8::valid_utf8(percent_decoded(encode_utf8(d@))),
            Err(CheckReapError::StatusMissing) => {
                &&& description matches Some(d) && vstd::utf8::valid_utf8(
                    percent_decoded(encode_utf8(d@)),
                )
                &&& status is None
            },
        },
{
    let description = match description {
        Some(d) => d,
        None => {
            return Err(CheckReapError::DescriptionMissing);
        },
    };
    let text = match url_decode(description) {
        Some(t) => t,
        None => {
            return Err(CheckReapError::DescriptionDecode);
        },
    };
    let status = match status {
        Some(s) => s,
        None => {
            proof {
                vstd::utf8::encode_utf8_valid_utf8(text@);
            }
            return Err(CheckReapError::StatusMissing);
        },
    };
    Ok((text, String::from_str(status)))
}

} // verus!
