//! The job metadata recorded in a runner VM's description.
use vstd::prelude::*;
use crate::links::{parse_url, url_serialization};
use crate::text::{
    all_digits, concat2, concat3, decimal, decimal_string, decimal_value, lemma_decimal_denotes,
    replace_all, replace_all_str,
};

verus! {

/// A UTC time: seconds since the Unix epoch and the nanoseconds past that second.
#[derive(Debug, Copy, Clone, PartialEq, Eq)]
pub struct UtcTimestamp {
    pub seconds: i64,
    pub nanos: u32,
}

/// `chrono::Utc::now()`, taken apart by `timestamp` into the whole seconds since the
/// Unix epoch and by `timestamp_subsec_nanos` into the nanoseconds past that second.
/// Nothing is stated of the value: it is the clock's.
#[verifier::external_body]
fn utc_now() -> (r: UtcTimestamp) {
    let now = chrono::Utc::now();
    UtcTimestamp { seconds: now.timestamp(), nanos: now.timestamp_subsec_nanos() }
}

/// The fields of a workflow job payload that the metadata records.
pub struct WorkflowJobPayloadData {
    pub id: u64,
    pub run_id: u64,
    pub workflow_name: String,
    pub created_at: UtcTimestamp,
    pub name: String,
}

/// What a runner VM records about the job it was created for.
pub struct VmMetadata {
    pub workflow_name: String,
    pub repo: String,
    /// The serialized URL of the repository page.
    pub repo_url: String,
    pub job_id: u64,
    /// The serialized URL of the job page.
    pub job_url: String,
    pub job_name: String,
    pub job_created_at: UtcTimestamp,
    pub run_id: u64,
    /// The serialized URL of the workflow run page.
    pub run_url: String,
    /// When the VM was created.
    pub vm_created_at: UtcTimestamp,
}

/// Why the metadata could not be built.
#[derive(Debug)]
pub enum VmMetadataError {
    /// The workflow job payload did not deserialize; the message says why.
    PayloadDeserialize(String),
}

/// `{owner}/{name}`.
pub open spec fn repo_full_name(owner: Seq<char>, name: Seq<char>) -> Seq<char> {
    owner + "/"@ + name
}

/// The GitHub page of a repository.
pub open spec fn repo_url_text(repo: Seq<char>) -> Seq<char> {
    "https://github.com/"@ + repo
}

/// The GitHub page of a workflow run.
pub open spec fn run_url_text(repo: Seq<char>, run_id: u64) -> Seq<char> {
    "https://github.com/"@ + repo + "/actions/runs/"@ + decimal(run_id as nat)
}

/// The GitHub page of a job: under the serialized run URL.
pub open spec fn job_url_text(repo: Seq<char>, run_id: u64, job_id: u64) -> Seq<char> {
    url_serialization(run_url_text(repo, run_id))->0 + "/job/"@ + decimal(job_id as nat)
}

/// The run page ends in the run id and the job page in the job id: after the fixed
/// prefix (`https://github.com/{repo}/actions/runs/`, and the serialized run page
/// followed by `/job/`) stands the full decimal rendering of the id, a text of digits
/// that denotes it.
pub proof fn lemma_pages_name_their_ids(repo: Seq<char>, run_id: u64, job_id: u64)
    ensures
        ({
            let prefix = "https://github.com/"@ + repo + "/actions/runs/"@;
            let page = run_url_text(repo, run_id);
            &&& page.len() > prefix.len()
            &&& page.subrange(0, prefix.len() as int) == prefix
            &&& all_digits(page.skip(prefix.len() as int))
            &&& decimal_value(page.skip(prefix.len() as int)) == run_id
        }),
        ({
            let prefix = url_serialization(run_url_text(repo, run_id))->0 + "/job/"@;
            let page = job_url_text(repo, run_id, job_id);
            &&& page.len() > prefix.len()
            &&& page.subrange(0, prefix.len() as int) == prefix
            &&& all_digits(page.skip(prefix.len() as int))
            &&& decimal_value(page.skip(prefix.len() as int)) == job_id
        }),
{
    lemma_decimal_denotes(run_id as nat);
    lemma_decimal_denotes(job_id as nat);
    let prefix = "https://github.com/"@ + repo + "/actions/runs/"@;
    let page = run_url_text(repo, run_id);
    assert(page.subrange(0, prefix.len() as int) =~= prefix);
    assert(page.skip(prefix.len() as int) =~= decimal(run_id as nat));
    let jprefix = url_serialization(run_url_text(repo, run_id))->0 + "/job/"@;
    let jpage = job_url_text(repo, run_id, job_id);
    assert(jpage.subrange(0, jprefix.len() as int) =~= jprefix);
    assert(jpage.skip(jprefix.len() as int) =~= decimal(job_id as nat));
}

/// Distinct jobs of a run have distinct job pages.
pub proof fn lemma_job_pages_distinct(repo: Seq<char>, run_id: u64, job_a: u64, job_b: u64)
    requires
        job_a != job_b,
    ensures
        job_url_text(repo, run_id, job_a) != job_url_text(repo, run_id, job_b),
{
    lemma_pages_name_their_ids(repo, run_id, job_a);
    lemma_pages_name_their_ids(repo, run_id, job_b);
}

/// Distinct runs of a repository have distinct run pages.
pub proof fn lemma_run_pages_distinct(repo: Seq<char>, run_a: u64, run_b: u64)
    requires
        run_a != run_b,
    ensures
        run_url_text(repo, run_a) != run_url_text(repo, run_b),
{
    lemma_pages_name_their_ids(repo, run_a, 0);
    lemma_pages_name_their_ids(repo, run_b, 0);
}

/// Whether the three pages of a job's metadata parse as URLs.
pub open spec fn urls_parse(repo: Seq<char>, run_id: u64, job_id: u64) -> bool {
    &&& url_serialization(repo_url_text(repo)) is Some
    &&& url_serialization(run_url_text(repo, run_id)) is Some
    &&& url_serialization(job_url_text(repo, run_id, job_id)) is Some
}

/// The metadata that `try_from_event` builds.
pub open spec fn metadata_matches(
    m: VmMetadata,
    data: WorkflowJobPayloadData,
    repo: Seq<char>,
    vm_created_at: UtcTimestamp,
) -> bool {
    &&& m.workflow_name@ == data.workflow_name@
    &&& m.repo@ == repo
    &&& m.repo_url@ == url_serialization(repo_url_text(repo))->0
    &&& m.run_url@ == url_serialization(run_url_text(repo, data.run_id))->0
    &&& m.job_url@ == url_serialization(job_url_text(repo, data.run_id, data.id))->0
    &&& m.job_id == data.id
    &&& m.job_name@ == data.name@
    &&& m.job_created_at == data.created_at
    &&& m.run_id == data.run_id
    &&& m.vm_created_at == vm_created_at
}

/// The time from `since` to `now`, in nanoseconds.
pub open spec fn nanos_between(since: UtcTimestamp, now: UtcTimestamp) -> int {
    (now.seconds - since.seconds) * 1_000_000_000 + now.nanos - since.nanos
}

impl VmMetadata {
    /// The run page of a repository's workflow run.
    fn run_url(repo: &str, run_id: u64) -> (r: Result<String, url::ParseError>)
        ensures
            match r {
                Ok(text) => url_serialization(run_url_text(repo@, run_id)) == Some(text@),
                Err(_) => url_serialization(run_url_text(repo@, run_id)) is None,
            },
    {
        let id = decimal_string(run_id);
        let mut text = concat3("https://github.com/", repo, "/actions/runs/");
        text.append(id.as_str());
        parse_url(text.as_str())
    }

    /// The job page of a workflow run's job.
    fn job_url(repo: &str, run_id: u64, job_id: u64) -> (r: Result<String, url::ParseError>)
        requires
            url_serialization(run_url_text(repo@, run_id)) is Some,
        ensures
            match r {
                Ok(text) => url_serialization(job_url_text(repo@, run_id, job_id)) == Some(text@),
                Err(_) => url_serialization(job_url_text(repo@, run_id, job_id)) is None,
            },
    {
        match Self::run_url(repo, run_id) {
            Ok(run_text) => {
                let id = decimal_string(job_id);
                let text = concat3(run_text.as_str(), "/job/", id.as_str());
                parse_url(text.as_str())
            },
            Err(e) => Err(e),
        }
    }

    /// Builds the metadata of a VM created at `vm_created_at` for the
    /// job in `parsed` (the deserialized payload, or the deserialization error) of
    /// repository `{owner}/{repo}`.
    pub fn try_from_event(
        parsed: Result<WorkflowJobPayloadData, String>,
        repo: &str,
        owner: &str,
        vm_created_at: UtcTimestamp,
    ) -> (r: Result<Self, VmMetadataError>)
        requires
            parsed matches Ok(data) ==> urls_parse(repo_full_name(owner@, repo@), data.run_id, data.id),
        ensures
            match parsed {
                Err(msg) => r matches Err(VmMetadataError::PayloadDeserialize(m)) && m@ == msg@,
                Ok(data) => r matches Ok(m) && metadata_matches(
                    m,
                    data,
                    repo_full_name(owner@, repo@),
                    vm_created_at,
                ),
            },
    {
        let data = match parsed {
            Ok(d) => d,
            Err(msg) => {
                return Err(VmMetadataError::PayloadDeserialize(msg));
            },
        };
        let repo_name = concat3(owner, "/", repo);
        let repo_url = match parse_url(concat2("https://github.com/", repo_name.as_str()).as_str()) {
            Ok(u) => u,
            Err(_) => vstd::pervasive::unreached(),
        };
        let run_url = match Self::run_url(repo_name.as_str(), data.run_id) {
            Ok(u) => u,
            Err(_) => vstd::pervasive::unreached(),
        };
        let job_url = match Self::job_url(repo_name.as_str(), data.run_id, data.id) {
            Ok(u) => u,
            Err(_) => vstd::pervasive::unreached(),
        };
        Ok(Self {
            workflow_name: data.workflow_name,
            repo: repo_name,
            repo_url,
            job_id: data.id,
            job_url,
            job_name: data.name,
            job_created_at: data.created_at,
            run_id: data.run_id,
            run_url,
            vm_created_at,
        })
    }

    /// Whether the three pages of a job's metadata parse as URLs.
    pub fn urls_parse(repo: &str, owner: &str, run_id: u64, job_id: u64) -> (ok: bool)
        ensures
            ok == urls_parse(repo_full_name(owner@, repo@), run_id, job_id),
    {
        let repo_name = concat3(owner, "/", repo);
        if parse_url(concat2("https://github.com/", repo_name.as_str()).as_str()).is_err() {
            return false;
        }
        if Self::run_url(repo_name.as_str(), run_id).is_err() {
            return false;
        }
        Self::job_url(repo_name.as_str(), run_id, job_id).is_ok()
    }

    /// Builds the metadata of a VM created now, as [`VmMetadata::try_from_event`] does;
    /// `None` when one of the job's pages does not parse as a URL.
    pub fn try_from_event_now(
        parsed: Result<WorkflowJobPayloadData, String>,
        repo: &str,
        owner: &str,
    ) -> (r: Option<Result<Self, VmMetadataError>>)
        ensures
            match parsed {
                Err(msg) => r matches Some(Err(VmMetadataError::PayloadDeserialize(m))) && m@
                    == msg@,
                Ok(data) => match r {
                    None => !urls_parse(repo_full_name(owner@, repo@), data.run_id, data.id),
                    Some(res) => {
                        &&& urls_parse(repo_full_name(owner@, repo@), data.run_id, data.id)
                        &&& res matches Ok(m) && metadata_matches(
                            m,
                            data,
                            repo_full_name(owner@, repo@),
                            m.vm_created_at,
                        )
                    },
                },
            },
    {
        if let Ok(data) = &parsed {
            if !Self::urls_parse(repo, owner, data.run_id, data.id) {
                return None;
            }
        }
        Some(Self::try_from_event(parsed, repo, owner, utc_now()))
    }

    /// The age in nanoseconds, at `now`, of the VM.
    pub fn vm_age_at(&self, now: UtcTimestamp) -> (age: i128)
        ensures
            age == nanos_between(self.vm_created_at, now),
    {
        let seconds: i128 = now.seconds as i128 - self.vm_created_at.seconds as i128;
        proof {
            assert(-0x1_0000_0000_0000_0000 <= seconds <= 0x1_0000_0000_0000_0000);
            assert(-0x1_0000_0000_0000_0000 * 1_000_000_000 <= seconds * 1_000_000_000
                <= 0x1_0000_0000_0000_0000 * 1_000_000_000) by (nonlinear_arith)
                requires
                    -0x1_0000_0000_0000_0000 <= seconds <= 0x1_0000_0000_0000_0000,
            ;
        }
        seconds * 1_000_000_000i128 + now.nanos as i128 - self.vm_created_at.nanos as i128
    }

    /// The age of the VM now, in nanoseconds.
    pub fn vm_age(&self) -> (age: i128)
        ensures
            exists|now: UtcTimestamp| age == nanos_between(self.vm_created_at, now),
    {
        let now = utc_now();
        self.vm_age_at(now)
    }
}

/// Doubles each line break of a YAML document, so that each field stands in a
/// paragraph of its own in the VM description.
pub fn spread_yaml_lines(yaml: &str) -> (r: String)
    ensures
        r@ == replace_all(yaml@, "\n"@, "\n\n"@),
{
    proof {
        reveal_strlit("\n");
    }
    replace_all_str(yaml, "\n", "\n\n")
}

} // verus!
