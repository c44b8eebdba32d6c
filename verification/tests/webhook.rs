use gh_scaleset_pve::conf::{ApiConfig, Conf, GithubConfig, PveConfig};
use gh_scaleset_pve::webhook::{
    parse_webhook_event, response_status, Event, EventPayload, HandleError, HandleResult,
    HandleState, IgnoreReason, Repository, Verdict, WebhookHandler, WorkflowJobPayload,
};
use std::sync::Arc;

fn handler(repo_owners: Option<Vec<&str>>) -> WebhookHandler {
    let conf = Conf {
        api: ApiConfig::default(),
        pve: PveConfig {
            host_url: url::Url::parse("https://pve.example:8006").unwrap(),
            token_id: "id".to_string(),
            token_secret: "secret".to_string(),
            node: "pve1".to_string(),
            template_vmid: 9000,
            snippets_local_dir: "/snippets".to_string(),
            snippets_template_name: "t.yaml".to_string(),
            runner_vmid_min: 5000,
            runner_vmid_max: 5999,
            reap_interval: 60,
            reap_dryrun: false,
            runner_pool: None,
        },
        github: GithubConfig {
            token: "t".to_string(),
            webhook_secret: "s".to_string(),
            repo_owners: repo_owners.map(|v| v.into_iter().map(String::from).collect()),
            required_label: GithubConfig::required_label_default(),
            runner_labels: GithubConfig::runner_labels_default(),
        },
        tracing: tracing_kickstart::TracingConfigOverride::default(),
    };
    WebhookHandler::new(Arc::new(conf.into_shared()))
}

fn job_event(owner: Option<&str>, action: &str, labels: Option<Vec<Option<&str>>>) -> Event {
    Event {
        kind: "workflow_job".to_string(),
        sender_login: Some("someone".to_string()),
        repository: Some(Repository {
            name: "widgets".to_string(),
            owner_login: owner.map(String::from),
        }),
        payload: EventPayload::WorkflowJob(WorkflowJobPayload {
            action: action.to_string(),
            labels: labels.map(|v| v.into_iter().map(|l| l.map(String::from)).collect()),
        }),
    }
}

fn ignored(v: Result<Verdict, HandleError>) -> IgnoreReason {
    match v {
        Ok(Verdict::Ignore(r)) => r,
        _ => panic!("expected the event to be ignored"),
    }
}

#[test]
fn queued_job_with_supported_labels_is_provisioned() {
    let h = handler(Some(vec!["acme"]));
    let e = job_event(Some("acme"), "queued", Some(vec![Some("self-hosted"), Some("linux")]));
    assert!(h.labels_readable(&e));
    match h.evaluate(&e) {
        Ok(Verdict::Provision { owner, repo }) => {
            assert_eq!(owner, "acme");
            assert_eq!(repo, "widgets");
        },
        _ => panic!("expected provisioning"),
    }
}

#[test]
fn other_event_kinds_are_ignored() {
    let h = handler(None);
    let mut e = job_event(Some("acme"), "queued", Some(vec![Some("self-hosted")]));
    e.kind = "push".to_string();
    assert_eq!(ignored(h.evaluate(&e)), IgnoreReason::EventKindMismatch { kind: "push".to_string() });
}

#[test]
fn missing_owner_is_ignored() {
    let h = handler(None);
    let e = job_event(None, "queued", Some(vec![Some("self-hosted")]));
    assert_eq!(ignored(h.evaluate(&e)), IgnoreReason::OwnerMissing);
    let mut e = job_event(Some("acme"), "queued", None);
    e.repository = None;
    assert_eq!(ignored(h.evaluate(&e)), IgnoreReason::OwnerMissing);
}

#[test]
fn owners_outside_allow_list_are_ignored() {
    let h = handler(Some(vec!["acme", "other"]));
    let e = job_event(Some("mallory"), "queued", Some(vec![Some("self-hosted")]));
    assert_eq!(
        ignored(h.evaluate(&e)),
        IgnoreReason::OwnerNotPermitted { owner: "mallory".to_string() }
    );
}

#[test]
fn non_queued_actions_are_ignored() {
    let h = handler(None);
    let e = job_event(
        Some("acme"),
        "completed",
        Some(vec![Some("self-hosted")]),
    );
    assert_eq!(
        ignored(h.evaluate(&e)),
        IgnoreReason::WorkflowJobEventActionMismatch { action: "completed".to_string() }
    );
}

#[test]
fn jobs_without_required_label_are_ignored() {
    let h = handler(None);
    let e = job_event(Some("acme"), "queued", Some(vec![Some("ubuntu-latest")]));
    assert_eq!(
        ignored(h.evaluate(&e)),
        IgnoreReason::RunnerRequiredLabel {
            label: "self-hosted".to_string(),
            job_labels: vec!["ubuntu-latest".to_string()],
        }
    );
}

#[test]
fn jobs_with_unsupported_labels_are_ignored() {
    let h = handler(None);
    let e = job_event(
        Some("acme"),
        "queued",
        Some(vec![Some("self-hosted"), Some("gpu"), Some("x64"), Some("arm64")]),
    );
    assert_eq!(
        ignored(h.evaluate(&e)),
        IgnoreReason::RunnerLabelMismatch {
            missing_labels: vec!["gpu".to_string(), "arm64".to_string()],
        }
    );
}

#[test]
fn payload_of_other_kind_fails() {
    let h = handler(None);
    let mut e = job_event(Some("acme"), "queued", None);
    e.payload = EventPayload::Other;
    match h.evaluate(&e) {
        Err(HandleError::Eyre(m)) => assert_eq!(m, "event payload doesn't match kind"),
        _ => panic!("expected a failure"),
    }
}

#[test]
fn labels_that_are_not_an_array_fail() {
    let h = handler(None);
    let e = job_event(Some("acme"), "queued", None);
    match h.evaluate(&e) {
        Err(HandleError::Eyre(m)) => assert_eq!(m, "event labels type isn't an array"),
        _ => panic!("expected a failure"),
    }
}

#[test]
fn non_string_labels_are_detected_only_where_read() {
    let h = handler(None);
    let e = job_event(Some("acme"), "queued", Some(vec![Some("self-hosted"), None]));
    assert!(!h.labels_readable(&e));
    let e = job_event(
        Some("acme"),
        "completed",
        Some(vec![None]),
    );
    assert!(h.labels_readable(&e));
}

#[test]
fn event_accessors() {
    let e = job_event(Some("acme"), "queued", None);
    assert_eq!(e.repository_owner_name(), Some("acme".to_string()));
    assert_eq!(e.repository_name(), Some("widgets".to_string()));
    let e = job_event(None, "queued", None);
    assert_eq!(e.repository_owner_name(), None);
}

#[test]
fn ignore_reason_texts() {
    assert_eq!(
        IgnoreReason::EventKindMismatch { kind: "push".to_string() }.to_display_string(),
        "Event kind not handled: push"
    );
    assert_eq!(
        IgnoreReason::WorkflowJobEventActionMismatch { action: "completed".to_string() }.to_display_string(),
        "Workflow job event action not handled: completed"
    );
    assert_eq!(
        IgnoreReason::RunnerRequiredLabel {
            label: "self-hosted".to_string(),
            job_labels: vec!["a".to_string(), "b".to_string()],
        }
        .to_display_string(),
        "Required runner label 'self-hosted' not included in job labels: a, b"
    );
    assert_eq!(
        IgnoreReason::RunnerLabelMismatch { missing_labels: vec!["gpu".to_string()] }.to_display_string(),
        "Job has unsupported runner labels: gpu"
    );
    assert_eq!(
        IgnoreReason::OwnerNotPermitted { owner: "m".to_string() }.to_display_string(),
        "Repository owner isn't included in the allow list: m"
    );
    assert_eq!(
        IgnoreReason::OwnerMissing.to_display_string(),
        "Repository owner missing from webhook payload"
    );
}

#[test]
fn handle_state_texts_and_status() {
    assert_eq!(HandleState::Handled.to_display_string(), "Handled");
    let s = HandleState::ignored(IgnoreReason::OwnerMissing);
    assert_eq!(s, HandleState::Ignored { reason: IgnoreReason::OwnerMissing });
    assert_eq!(s.to_display_string(), "Ignored: Repository owner missing from webhook payload");
    let ok: HandleResult = Ok(HandleState::Handled);
    assert_eq!(response_status(&ok), 200);
    let err: HandleResult = Err(HandleError::Eyre("boom".to_string()));
    assert_eq!(response_status(&err), 500);
}

#[test]
fn ignore_reason_converts_to_ignored_state() {
    let s: HandleState = IgnoreReason::OwnerMissing.into();
    assert_eq!(s, HandleState::Ignored { reason: IgnoreReason::OwnerMissing });
}

const AUTHOR: &str = r#"{"login":"acme","id":1,"node_id":"N","avatar_url":"https://a.example/","gravatar_id":"","url":"https://a.example/","html_url":"https://a.example/","followers_url":"https://a.example/","following_url":"https://a.example/","gists_url":"https://a.example/","starred_url":"https://a.example/","subscriptions_url":"https://a.example/","organizations_url":"https://a.example/","repos_url":"https://a.example/","events_url":"https://a.example/","received_events_url":"https://a.example/","type":"User","site_admin":false}"#;

fn job_body(action: &str, labels: &str) -> String {
    format!(
        r#"{{"action":"{action}","workflow_job":{{"id":1,"labels":{labels}}},"repository":{{"id":7,"name":"widgets","url":"https://api.example/repos/acme/widgets","owner":{AUTHOR}}},"sender":{AUTHOR}}}"#
    )
}

#[test]
fn webhook_requests_are_parsed_into_events() {
    let body = job_body("queued", r#"["self-hosted","linux"]"#);
    let e = parse_webhook_event("workflow_job", body.as_bytes()).expect("the request parses");
    assert_eq!(e.kind, "workflow_job");
    assert_eq!(e.sender_login, Some("acme".to_string()));
    assert_eq!(e.repository_owner_name(), Some("acme".to_string()));
    assert_eq!(e.repository_name(), Some("widgets".to_string()));
    match &e.payload {
        EventPayload::WorkflowJob(p) => {
            assert_eq!(p.action, "queued");
            assert_eq!(p.labels, Some(vec![Some("self-hosted".to_string()), Some("linux".to_string())]));
        },
        EventPayload::Other => panic!("expected a workflow job payload"),
    }
    let h = handler(None);
    assert!(h.labels_readable(&e));
    assert!(matches!(h.evaluate(&e), Ok(Verdict::Provision { .. })));
}

#[test]
fn parsed_labels_keep_their_json_shape() {
    let body = job_body("in_progress", r#"["self-hosted",3]"#);
    let e = parse_webhook_event("workflow_job", body.as_bytes()).unwrap();
    match &e.payload {
        EventPayload::WorkflowJob(p) => {
            assert_eq!(p.action, "in_progress");
            assert_eq!(p.labels, Some(vec![Some("self-hosted".to_string()), None]));
        },
        EventPayload::Other => panic!("expected a workflow job payload"),
    }
    let body = job_body("queued", r#""self-hosted""#);
    match parse_webhook_event("workflow_job", body.as_bytes()).unwrap().payload {
        EventPayload::WorkflowJob(p) => assert_eq!(p.labels, None),
        EventPayload::Other => panic!("expected a workflow job payload"),
    }
}

#[test]
fn other_event_types_keep_their_name() {
    let body = format!(r#"{{"zen":"Keep it logically awesome.","sender":{AUTHOR}}}"#);
    let e = parse_webhook_event("some_new_event", body.as_bytes()).unwrap();
    assert_eq!(e.kind, "some_new_event");
    assert!(matches!(e.payload, EventPayload::Other));
    assert_eq!(
        ignored(handler(None).evaluate(&e)),
        IgnoreReason::EventKindMismatch { kind: "some_new_event".to_string() }
    );
}

#[test]
fn malformed_requests_do_not_parse() {
    assert!(parse_webhook_event("workflow_job", b"not json").is_none());
    let body = job_body("exploded", r#"[]"#);
    assert!(parse_webhook_event("workflow_job", body.as_bytes()).is_none());
}
