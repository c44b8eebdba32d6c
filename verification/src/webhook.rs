//! Which webhook events lead to a new runner, and why the others are ignored.
use vstd::prelude::*;
use std::sync::Arc;
use crate::conf::{GithubConfig, SharedConf};
use crate::text::{concat2, concat3, contains_string, join, join_strings, str_equal, string_views};
use octocrab::models::webhook_events::{WebhookEvent, WebhookEventPayload};
use serde_json::to_value;

verus! {

/// The name GitHub gives to workflow job events.
pub open spec fn workflow_job_kind() -> Seq<char> {
    "workflow_job"@
}

/// The name GitHub gives to the action of a newly queued job.
pub open spec fn queued_action() -> Seq<char> {
    "queued"@
}

/// The repository an event concerns.
#[derive(Debug)]
pub struct Repository {
    pub name: String,
    /// The login of the repository owner, when the payload names one.
    pub owner_login: Option<String>,
}

/// The part of a workflow job payload that the filters read.
#[derive(Debug)]
pub struct WorkflowJobPayload {
    /// The job action, as GitHub names it (`queued`, `in_progress`, ...).
    pub action: String,
    /// The job's `labels`: `None` when they are not an array; an element is `None`
    /// when it is not a string.
    pub labels: Option<Vec<Option<String>>>,
}

/// The event-specific payload.
#[derive(Debug)]
pub enum EventPayload {
    WorkflowJob(WorkflowJobPayload),
    Other,
}

/// A webhook event received from GitHub.
#[derive(Debug)]
pub struct Event {
    /// The event type, as GitHub names it (`workflow_job`, `push`, ...).
    pub kind: String,
    /// The login of the sender, when the payload names one.
    pub sender_login: Option<String>,
    pub repository: Option<Repository>,
    pub payload: EventPayload,
}

/// The abstract value of a [`Repository`].
pub struct RepositoryView {
    pub name: Seq<char>,
    pub owner_login: Option<Seq<char>>,
}

/// The abstract value of a [`WorkflowJobPayload`].
pub struct WorkflowJobPayloadView {
    pub action: Seq<char>,
    pub labels: Option<Seq<Option<Seq<char>>>>,
}

/// The abstract value of an [`EventPayload`].
pub enum EventPayloadView {
    WorkflowJob(WorkflowJobPayloadView),
    Other,
}

/// The abstract value of an [`Event`].
pub struct EventView {
    pub kind: Seq<char>,
    pub sender_login: Option<Seq<char>>,
    pub repository: Option<RepositoryView>,
    pub payload: EventPayloadView,
}

/// The view of an optional string.
pub open spec fn opt_view(s: Option<String>) -> Option<Seq<char>> {
    match s {
        Some(t) => Some(t@),
        None => None,
    }
}

impl View for Event {
    type V = EventView;

    open spec fn view(&self) -> EventView {
        EventView {
            kind: self.kind@,
            sender_login: opt_view(self.sender_login),
            repository: match self.repository {
                Some(r) => Some(RepositoryView { name: r.name@, owner_login: opt_view(r.owner_login) }),
                None => None,
            },
            payload: match self.payload {
                EventPayload::WorkflowJob(p) => EventPayloadView::WorkflowJob(
                    WorkflowJobPayloadView {
                        action: p.action@,
                        labels: match p.labels {
                            Some(ls) => Some(ls@.map_values(|l: Option<String>| opt_view(l))),
                            None => None,
                        },
                    },
                ),
                EventPayload::Other => EventPayloadView::Other,
            },
        }
    }
}

/// The event that GitHub's webhook request with this `X-GitHub-Event` header and
/// body denotes, as the filters read it; `None` when the request does not parse.
pub uninterp spec fn webhook_event(header: Seq<char>, body: Seq<u8>) -> Option<EventView>;

/// `octocrab::models::webhook_events::WebhookEvent::try_from_header_and_body`: the
/// event of a webhook request, taken apart into the fields the filters read (the
/// event type and job action by their serialized names, the repository, owner and
/// sender logins, the job's labels), or `None` when octocrab refuses the request or
/// one of those names does not serialize to a JSON string.
#[verifier::external_body]
pub fn parse_webhook_event(header: &str, body: &[u8]) -> (r: Option<Event>)
    ensures
        match r {
            Some(e) => webhook_event(header@, body@) == Some(e@),
            None => webhook_event(header@, body@) is None,
        },
{
    let e = WebhookEvent::try_from_header_and_body(header, body).ok()?;
    Some(Event {
        kind: to_value(e.kind).ok()?.as_str()?.into(),
        sender_login: e.sender.map(|a| a.login),
        repository: e.repository.map(|r| Repository { name: r.name, owner_login: r.owner.map(|o| o.login) }),
        payload: match e.specific {
            WebhookEventPayload::WorkflowJob(p) => EventPayload::WorkflowJob(WorkflowJobPayload {
                action: to_value(p.action).ok()?.as_str()?.into(),
                labels: p.workflow_job["labels"].as_array().map(|ls| ls.iter().map(|l| l.as_str().map(Into::into)).collect()),
            }),
            _ => EventPayload::Other,
        },
    })
}

/// The owner login of an event's repository, when present.
pub open spec fn owner_of(event: &Event) -> Option<Seq<char>> {
    match event.repository {
        Some(r) => match r.owner_login {
            Some(o) => Some(o@),
            None => None,
        },
        None => None,
    }
}

/// The name of an event's repository, when present.
pub open spec fn repository_name_of(event: &Event) -> Option<Seq<char>> {
    match event.repository {
        Some(r) => Some(r.name@),
        None => None,
    }
}

impl Event {
    /// The login of the repository owner.
    pub fn repository_owner_name(&self) -> (r: Option<String>)
        ensures
            match r {
                Some(o) => owner_of(self) == Some(o@),
                None => owner_of(self) is None,
            },
    {
        match &self.repository {
            Some(repo) => match &repo.owner_login {
                Some(o) => Some(o.clone()),
                None => None,
            },
            None => None,
        }
    }

    /// The repository name.
    pub fn repository_name(&self) -> (r: Option<String>)
        ensures
            match r {
                Some(n) => repository_name_of(self) == Some(n@),
                None => repository_name_of(self) is None,
            },
    {
        match &self.repository {
            Some(repo) => Some(repo.name.clone()),
            None => None,
        }
    }
}

/// Why an event leads to no runner.
#[derive(Debug, Clone, PartialEq, Eq)]
pub enum IgnoreReason {
    EventKindMismatch { kind: String },
    WorkflowJobEventActionMismatch { action: String },
    RunnerRequiredLabel { label: String, job_labels: Vec<String> },
    RunnerLabelMismatch { missing_labels: Vec<String> },
    OwnerNotPermitted { owner: String },
    OwnerMissing,
}

/// The abstract value of an [`IgnoreReason`].
pub enum IgnoreReasonView {
    EventKindMismatch { kind: Seq<char> },
    WorkflowJobEventActionMismatch { action: Seq<char> },
    RunnerRequiredLabel { label: Seq<char>, job_labels: Seq<Seq<char>> },
    RunnerLabelMismatch { missing_labels: Seq<Seq<char>> },
    OwnerNotPermitted { owner: Seq<char> },
    OwnerMissing,
}

impl View for IgnoreReason {
    type V = IgnoreReasonView;

    open spec fn view(&self) -> IgnoreReasonView {
        match self {
            IgnoreReason::EventKindMismatch { kind } => IgnoreReasonView::EventKindMismatch {
                kind: kind@,
            },
            IgnoreReason::WorkflowJobEventActionMismatch {
                action,
            } => IgnoreReasonView::WorkflowJobEventActionMismatch { action: action@ },
            IgnoreReason::RunnerRequiredLabel {
                label,
                job_labels,
            } => IgnoreReasonView::RunnerRequiredLabel {
                label: label@,
                job_labels: string_views(job_labels@),
            },
            IgnoreReason::RunnerLabelMismatch {
                missing_labels,
            } => IgnoreReasonView::RunnerLabelMismatch {
                missing_labels: string_views(missing_labels@),
            },
            IgnoreReason::OwnerNotPermitted { owner } => IgnoreReasonView::OwnerNotPermitted {
                owner: owner@,
            },
            IgnoreReason::OwnerMissing => IgnoreReasonView::OwnerMissing,
        }
    }
}

/// The text of an ignore reason.
pub open spec fn ignore_reason_text(r: IgnoreReasonView) -> Seq<char> {
    match r {
        IgnoreReasonView::EventKindMismatch { kind } => "Event kind not handled: "@ + kind,
        IgnoreReasonView::WorkflowJobEventActionMismatch {
            action,
        } => "Workflow job event action not handled: "@ + action,
        IgnoreReasonView::RunnerRequiredLabel { label, job_labels } => "Required runner label '"@
            + label + "' not included in job labels: "@ + join(job_labels, ", "@),
        IgnoreReasonView::RunnerLabelMismatch {
            missing_labels,
        } => "Job has unsupported runner labels: "@ + join(missing_labels, ", "@),
        IgnoreReasonView::OwnerNotPermitted {
            owner,
        } => "Repository owner isn't included in the allow list: "@ + owner,
        IgnoreReasonView::OwnerMissing => "Repository owner missing from webhook payload"@,
    }
}

impl IgnoreReason {
    /// The human-readable text of this reason.
    pub fn to_display_string(&self) -> (r: String)
        ensures
            r@ == ignore_reason_text(self@),
    {
        match self {
            IgnoreReason::EventKindMismatch { kind } => concat2(
                "Event kind not handled: ",
                kind.as_str(),
            ),
            IgnoreReason::WorkflowJobEventActionMismatch { action } => concat2(
                "Workflow job event action not handled: ",
                action.as_str(),
            ),
            IgnoreReason::RunnerRequiredLabel { label, job_labels } => {
                let mut s = concat3(
                    "Required runner label '",
                    label.as_str(),
                    "' not included in job labels: ",
                );
                let joined = join_strings(job_labels, ", ");
                s.append(joined.as_str());
                s
            },
            IgnoreReason::RunnerLabelMismatch { missing_labels } => {
                let joined = join_strings(missing_labels, ", ");
                concat2("Job has unsupported runner labels: ", joined.as_str())
            },
            IgnoreReason::OwnerNotPermitted { owner } => concat2(
                "Repository owner isn't included in the allow list: ",
                owner.as_str(),
            ),
            IgnoreReason::OwnerMissing => String::from_str(
                "Repository owner missing from webhook payload",
            ),
        }
    }
}

/// What became of an event.
#[derive(Debug, Clone, PartialEq, Eq)]
pub enum HandleState {
    Handled,
    Ignored { reason: IgnoreReason },
}

impl HandleState {
    /// The human-readable text of this outcome.
    pub fn to_display_string(&self) -> (r: String)
        ensures
            r@ == match self {
                HandleState::Handled => "Handled"@,
                HandleState::Ignored { reason } => "Ignored: "@ + ignore_reason_text(reason@),
            },
    {
        match self {
            HandleState::Handled => String::from_str("Handled"),
            HandleState::Ignored { reason } => {
                let text = reason.to_display_string();
                concat2("Ignored: ", text.as_str())
            },
        }
    }

    /// The outcome of an ignored event.
    pub fn ignored(reason: IgnoreReason) -> (r: Self)
        ensures
            r == (HandleState::Ignored { reason }),
    {
        HandleState::Ignored { reason }
    }
}

impl From<IgnoreReason> for HandleState {
    fn from(reason: IgnoreReason) -> (r: Self) {
        HandleState::Ignored { reason }
    }
}

impl vstd::std_specs::convert::FromSpecImpl<IgnoreReason> for HandleState {
    open spec fn obeys_from_spec() -> bool {
        true
    }

    open spec fn from_spec(reason: IgnoreReason) -> HandleState {
        HandleState::Ignored { reason }
    }
}

/// A failure while handling an event.
#[derive(Debug)]
pub enum HandleError {
    /// An unexpected error occured; the message says which.
    Eyre(String),
}

/// The outcome of handling an event.
pub type HandleResult = Result<HandleState, HandleError>;

/// The HTTP status that answers a handled webhook: 200, or 500 on failure.
pub fn response_status(result: &HandleResult) -> (status: u16)
    ensures
        status == (if result is Ok { 200u16 } else { 500u16 }),
{
    match result {
        Ok(_) => 200,
        Err(_) => 500,
    }
}

/// What to do with an event.
pub enum Verdict {
    /// Nothing: the event is ignored for this reason.
    Ignore(IgnoreReason),
    /// Register a runner for this repository and provision a VM for it.
    Provision { owner: String, repo: String },
}

/// The abstract value of a [`Verdict`].
pub enum VerdictView {
    Ignore(IgnoreReasonView),
    Provision { owner: Seq<char>, repo: Seq<char> },
}

impl View for Verdict {
    type V = VerdictView;

    open spec fn view(&self) -> VerdictView {
        match self {
            Verdict::Ignore(r) => VerdictView::Ignore(r@),
            Verdict::Provision { owner, repo } => VerdictView::Provision {
                owner: owner@,
                repo: repo@,
            },
        }
    }
}

/// Whether the allow list, if configured, names `owner`.
pub open spec fn owner_permitted(repo_owners: Option<Vec<String>>, owner: Seq<char>) -> bool {
    match repo_owners {
        Some(allowed) => string_views(allowed@).contains(owner),
        None => true,
    }
}

/// The message of the failure when the payload is not a workflow job.
pub open spec fn payload_mismatch_message() -> Seq<char> {
    "event payload doesn't match kind"@
}

/// The message of the failure when the job labels are not an array.
pub open spec fn labels_not_array_message() -> Seq<char> {
    "event labels type isn't an array"@
}

/// Whether every job label is a string.
pub open spec fn all_strings(labels: Seq<Option<String>>) -> bool {
    forall|i: int| 0 <= i < labels.len() ==> (#[trigger] labels[i]) is Some
}

/// The texts of job labels that are all strings.
pub open spec fn label_texts(labels: Seq<Option<String>>) -> Seq<Seq<char>> {
    labels.map_values(|l: Option<String>| l->0@)
}

/// The job labels that no configured runner label matches, in job order.
pub open spec fn missing_labels(job_labels: Seq<Seq<char>>, runner_labels: Seq<Seq<char>>) -> Seq<
    Seq<char>,
> {
    job_labels.filter(|l: Seq<char>| !runner_labels.contains(l))
}

/// Whether handling `event` under `github` gets as far as reading the job labels.
pub open spec fn reaches_label_check(github: GithubConfig, event: &Event) -> bool {
    &&& event.kind@ == workflow_job_kind()
    &&& owner_of(event) is Some
    &&& owner_permitted(github.repo_owners, owner_of(event)->0)
    &&& event.payload matches EventPayload::WorkflowJob(p) && p.action@ == queued_action() && p.labels is Some
}

/// Whether every label is a string wherever the labels are read.
pub open spec fn labels_readable(github: GithubConfig, event: &Event) -> bool {
    reaches_label_check(github, event) ==> all_strings(
        event.payload->WorkflowJob_0.labels->0@,
    )
}

/// What handling `event` under `github` decides, or the message of its failure.
pub open spec fn decide(github: GithubConfig, event: &Event) -> Result<VerdictView, Seq<char>> {
    if event.kind@ != workflow_job_kind() {
        Ok(VerdictView::Ignore(IgnoreReasonView::EventKindMismatch { kind: event.kind@ }))
    } else if owner_of(event) is None {
        Ok(VerdictView::Ignore(IgnoreReasonView::OwnerMissing))
    } else if !owner_permitted(github.repo_owners, owner_of(event)->0) {
        Ok(VerdictView::Ignore(IgnoreReasonView::OwnerNotPermitted { owner: owner_of(event)->0 }))
    } else if let EventPayload::WorkflowJob(payload) = event.payload {
        if payload.action@ != queued_action() {
            Ok(
                VerdictView::Ignore(
                    IgnoreReasonView::WorkflowJobEventActionMismatch { action: payload.action@ },
                ),
            )
        } else if let Some(labels) = payload.labels {
            let job_labels = label_texts(labels@);
            let runner_labels = string_views(github.runner_labels@);
            if !job_labels.contains(github.required_label@) {
                Ok(
                    VerdictView::Ignore(
                        IgnoreReasonView::RunnerRequiredLabel {
                            label: github.required_label@,
                            job_labels,
                        },
                    ),
                )
            } else if missing_labels(job_labels, runner_labels).len() > 0 {
                Ok(
                    VerdictView::Ignore(
                        IgnoreReasonView::RunnerLabelMismatch {
                            missing_labels: missing_labels(job_labels, runner_labels),
                        },
                    ),
                )
            } else {
                Ok(
                    VerdictView::Provision {
                        owner: owner_of(event)->0,
                        repo: repository_name_of(event)->0,
                    },
                )
            }
        } else {
            Err(labels_not_array_message())
        }
    } else {
        Err(payload_mismatch_message())
    }
}

/// An event leads to a runner only when it passes every filter: it is a queued
/// workflow job of a repository whose owner the allow list (if any) names, its job
/// labels include the required label, and every job label is a supported runner label.
pub proof fn lemma_provisioned_events_pass_filters(github: GithubConfig, event: &Event)
    requires
        decide(github, event) is Ok,
        decide(github, event)->Ok_0 is Provision,
    ensures
        event.kind@ == workflow_job_kind(),
        owner_of(event) == Some(decide(github, event)->Ok_0->Provision_owner),
        repository_name_of(event) == Some(decide(github, event)->Ok_0->Provision_repo),
        owner_permitted(github.repo_owners, owner_of(event)->0),
        event.payload matches EventPayload::WorkflowJob(p) && p.action@ == queued_action() && p.labels is Some,
        ({
            let job_labels = label_texts(event.payload->WorkflowJob_0.labels->0@);
            &&& job_labels.contains(github.required_label@)
            &&& forall|i: int|
                0 <= i < job_labels.len() ==> string_views(github.runner_labels@).contains(
                    #[trigger] job_labels[i],
                )
        }),
{
    let job_labels = label_texts(event.payload->WorkflowJob_0.labels->0@);
    let runner_labels = string_views(github.runner_labels@);
    assert forall|i: int| 0 <= i < job_labels.len() implies runner_labels.contains(
        #[trigger] job_labels[i],
    ) by {
        if !runner_labels.contains(job_labels[i]) {
            job_labels.lemma_filter_contains(|l: Seq<char>| !runner_labels.contains(l), i);
        }
    }
}

/// Every event that passes the filters leads to a runner for its repository: a
/// queued workflow job whose repository has an owner that the allow list, if one is
/// configured, names at any position, and whose job labels are all strings, include
/// the required label at any position, and are each one of the configured runner
/// labels.
pub proof fn lemma_qualifying_events_are_provisioned(github: GithubConfig, event: &Event)
    requires
        event.kind@ == "workflow_job"@,
        event.repository is Some,
        event.repository->0.owner_login is Some,
        github.repo_owners is Some ==> exists|k: int|
            0 <= k < github.repo_owners->0@.len() && (#[trigger] github.repo_owners->0@[k])@
                == event.repository->0.owner_login->0@,
        event.payload is WorkflowJob,
        event.payload->WorkflowJob_0.action@ == "queued"@,
        event.payload->WorkflowJob_0.labels is Some,
        forall|k: int|
            0 <= k < event.payload->WorkflowJob_0.labels->0@.len()
                ==> (#[trigger] event.payload->WorkflowJob_0.labels->0@[k]) is Some,
        exists|k: int|
            0 <= k < event.payload->WorkflowJob_0.labels->0@.len()
                && (#[trigger] event.payload->WorkflowJob_0.labels->0@[k])->0@ == github.required_label@,
        forall|k: int|
            0 <= k < event.payload->WorkflowJob_0.labels->0@.len() ==> exists|m: int|
                0 <= m < github.runner_labels@.len() && (#[trigger] github.runner_labels@[m])@
                    == (#[trigger] event.payload->WorkflowJob_0.labels->0@[k])->0@,
    ensures
        decide(github, event) == Ok::<VerdictView, Seq<char>>(
            VerdictView::Provision {
                owner: event.repository->0.owner_login->0@,
                repo: event.repository->0.name@,
            },
        ),
{
    let owner = event.repository->0.owner_login->0@;
    if github.repo_owners is Some {
        let allowed = github.repo_owners->0@;
        let k = choose|k: int| 0 <= k < allowed.len() && (#[trigger] allowed[k])@ == owner;
        assert(string_views(allowed)[k] == owner);
    }
    let labels = event.payload->WorkflowJob_0.labels->0@;
    let job_labels = label_texts(labels);
    let runner_labels = string_views(github.runner_labels@);
    let k = choose|k: int| 0 <= k < labels.len() && (#[trigger] labels[k])->0@ == github.required_label@;
    assert(job_labels[k] == github.required_label@);
    assert forall|i: int| 0 <= i < job_labels.len() implies runner_labels.contains(#[trigger] job_labels[i]) by {
        let m = choose|m: int| 0 <= m < github.runner_labels@.len() && (#[trigger] github.runner_labels@[m])@ == labels[i]->0@;
        assert(runner_labels[m] == job_labels[i]);
    }
    assert(missing_labels(job_labels, runner_labels) =~= Seq::<Seq<char>>::empty()) by {
        let f = |l: Seq<char>| !runner_labels.contains(l);
        if missing_labels(job_labels, runner_labels).len() > 0 {
            let x = missing_labels(job_labels, runner_labels)[0];
            assert(missing_labels(job_labels, runner_labels).contains(x));
            job_labels.lemma_filter_contains_rev(f, x);
            let i = choose|i: int| 0 <= i < job_labels.len() && job_labels[i] == x;
            assert(runner_labels.contains(job_labels[i]));
            assert(!f(x)) by {
                assert(job_labels.filter(f)[0] == x);
                #[allow(deprecated)]
                job_labels.filter_lemma(f);
            }
        }
    }
    reveal_strlit("workflow_job");
    reveal_strlit("queued");
}

/// Decides what to do with webhook events.
pub struct WebhookHandler {
    conf: Arc<SharedConf>,
}

impl WebhookHandler {
    /// The configuration the handler decides by.
    pub closed spec fn config(&self) -> SharedConf {
        *self.conf
    }

    /// A handler that decides by `conf`.
    pub fn new(conf: Arc<SharedConf>) -> (h: Self)
        ensures
            h.config() == *conf,
    {
        Self { conf }
    }

    /// The shared configuration.
    pub fn conf(&self) -> (c: &Arc<SharedConf>)
        ensures
            **c == self.config(),
    {
        &self.conf
    }

    /// Whether every job label of `event` that the filters read is a string.
    pub fn labels_readable(&self, event: &Event) -> (r: bool)
        ensures
            r == labels_readable(*self.config().github, event),
    {
        let github: &GithubConfig = &self.conf.github;
        if !str_equal(event.kind.as_str(), "workflow_job") {
            return true;
        }
        let owner = match event.repository_owner_name() {
            Some(o) => o,
            None => {
                return true;
            },
        };
        if let Some(allowed) = &github.repo_owners {
            if !contains_string(allowed, &owner) {
                return true;
            }
        }
        let payload = match &event.payload {
            EventPayload::WorkflowJob(p) => p,
            EventPayload::Other => {
                return true;
            },
        };
        if !str_equal(payload.action.as_str(), "queued") {
            return true;
        }
        let labels = match &payload.labels {
            Some(l) => l,
            None => {
                return true;
            },
        };
        let n = labels.len();
        let mut i: usize = 0;
        #[verifier::loop_isolation(false)]
        while i < n
            invariant
                n == labels@.len(),
                i <= n,
                forall|j: int| 0 <= j < i ==> (#[trigger] labels@[j]) is Some,
            decreases n - i,
        {
            if labels[i].is_none() {
                return false;
            }
            i = i + 1;
        }
        true
    }

    /// Runs the webhook filters: the event's type, the repository owner against the
    /// allow list, the job action, the required label and the supported runner labels.
    pub fn evaluate(&self, event: &Event) -> (r: Result<Verdict, HandleError>)
        requires
            labels_readable(*self.config().github, event),
        ensures
            match r {
                Ok(v) => decide(*self.config().github, event) == Ok::<VerdictView, Seq<char>>(v@),
                Err(HandleError::Eyre(m)) => decide(*self.config().github, event) == Err::<
                    VerdictView,
                    Seq<char>,
                >(m@),
            },
    {
        let github: &GithubConfig = &self.conf.github;
        if !str_equal(event.kind.as_str(), "workflow_job") {
            return Ok(Verdict::Ignore(IgnoreReason::EventKindMismatch { kind: event.kind.clone() }));
        }
        let owner = match event.repository_owner_name() {
            Some(o) => o,
            None => {
                return Ok(Verdict::Ignore(IgnoreReason::OwnerMissing));
            },
        };
        let repo = match &event.repository {
            Some(r) => r.name.clone(),
            None => {
                return Ok(Verdict::Ignore(IgnoreReason::OwnerMissing));
            },
        };
        if let Some(allowed) = &github.repo_owners {
            if !contains_string(allowed, &owner) {
                return Ok(Verdict::Ignore(IgnoreReason::OwnerNotPermitted { owner }));
            }
        }
        let payload = match &event.payload {
            EventPayload::WorkflowJob(p) => p,
            EventPayload::Other => {
                return Err(HandleError::Eyre(String::from_str("event payload doesn't match kind")));
            },
        };
        if !str_equal(payload.action.as_str(), "queued") {
            return Ok(
                Verdict::Ignore(
                    IgnoreReason::WorkflowJobEventActionMismatch { action: payload.action.clone() },
                ),
            );
        }
        let labels = match &payload.labels {
            Some(l) => l,
            None => {
                return Err(HandleError::Eyre(String::from_str("event labels type isn't an array")));
            },
        };
        let label_strs = collect_labels(labels);
        if !contains_string(&label_strs, &github.required_label) {
            return Ok(
                Verdict::Ignore(
                    IgnoreReason::RunnerRequiredLabel {
                        job_labels: label_strs,
                        label: github.required_label.clone(),
                    },
                ),
            );
        }
        let missing = missing_runner_labels(&label_strs, &github.runner_labels);
        if missing.len() > 0 {
            return Ok(Verdict::Ignore(IgnoreReason::RunnerLabelMismatch { missing_labels: missing }));
        }
        Ok(Verdict::Provision { owner, repo })
    }
}

/// The job labels as strings.
fn collect_labels(labels: &Vec<Option<String>>) -> (r: Vec<String>)
    requires
        all_strings(labels@),
    ensures
        string_views(r@) == label_texts(labels@),
{
    let mut r: Vec<String> = Vec::new();
    let n = labels.len();
    let mut i: usize = 0;
    while i < n
        invariant
            n == labels@.len(),
            i <= n,
            all_strings(labels@),
            string_views(r@) == label_texts(labels@).take(i as int),
        decreases n - i,
    {
        match &labels[i] {
            Some(l) => {
                let ghost before = r@;
                r.push(l.clone());
                proof {
                    assert(label_texts(labels@)[i as int] == l@);
                    assert(string_views(r@) =~= string_views(before).push(l@));
                }
            },
            None => {
                assert(labels@[i as int] is Some);
            },
        }
        proof {
            assert(string_views(r@) =~= label_texts(labels@).take(i + 1));
        }
        i = i + 1;
    }
    proof {
        assert(label_texts(labels@).take(n as int) =~= label_texts(labels@));
    }
    r
}

/// The job labels that no runner label matches, in job order.
fn missing_runner_labels(job_labels: &Vec<String>, runner_labels: &Vec<String>) -> (r: Vec<String>)
    ensures
        string_views(r@) == missing_labels(string_views(job_labels@), string_views(runner_labels@)),
{
    let ghost jobs = string_views(job_labels@);
    let ghost runners = string_views(runner_labels@);
    let ghost pred = |l: Seq<char>| !runners.contains(l);
    let mut r: Vec<String> = Vec::new();
    let n = job_labels.len();
    let mut i: usize = 0;
    proof {
        assert(jobs.take(0) =~= Seq::<Seq<char>>::empty());
        reveal(Seq::filter);
        assert(jobs.take(0).filter(pred) =~= Seq::<Seq<char>>::empty());
    }
    while i < n
        invariant
            n == job_labels@.len(),
            i <= n,
            jobs == string_views(job_labels@),
            runners == string_views(runner_labels@),
            pred == (|l: Seq<char>| !runners.contains(l)),
            string_views(r@) == jobs.take(i as int).filter(pred),
        decreases n - i,
    {
        let label = &job_labels[i];
        let known = contains_string(runner_labels, label);
        proof {
            jobs.take(i as int).lemma_filter_push(label@, pred);
            assert(jobs.take(i + 1) =~= jobs.take(i as int).push(label@));
        }
        if !known {
            r.push(label.clone());
            proof {
                assert(string_views(r@) =~= jobs.take(i as int).filter(pred).push(label@));
            }
        }
        i = i + 1;
    }
    proof {
        assert(jobs.take(n as int) =~= jobs);
    }
    r
}

} // verus!
