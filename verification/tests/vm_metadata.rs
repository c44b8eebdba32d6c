use gh_scaleset_pve::vm_metadata::{
    spread_yaml_lines, UtcTimestamp, VmMetadata, VmMetadataError, WorkflowJobPayloadData,
};

fn at(seconds: i64, nanos: u32) -> UtcTimestamp {
    UtcTimestamp { seconds, nanos }
}

fn data() -> WorkflowJobPayloadData {
    WorkflowJobPayloadData {
        id: 42,
        run_id: 7,
        workflow_name: "CI".to_string(),
        created_at: UtcTimestamp { seconds: 1_700_000_000, nanos: 0 },
        name: "build".to_string(),
    }
}

#[test]
fn metadata_from_job() {
    let m = VmMetadata::try_from_event(Ok(data()), "widgets", "acme", at(1_700_000_100, 250)).unwrap();
    assert_eq!(m.workflow_name, "CI");
    assert_eq!(m.repo, "acme/widgets");
    assert_eq!(m.repo_url.as_str(), "https://github.com/acme/widgets");
    assert_eq!(m.job_id, 42);
    assert_eq!(m.job_url.as_str(), "https://github.com/acme/widgets/actions/runs/7/job/42");
    assert_eq!(m.job_name, "build");
    assert_eq!(m.job_created_at, UtcTimestamp { seconds: 1_700_000_000, nanos: 0 });
    assert_eq!(m.run_id, 7);
    assert_eq!(m.run_url.as_str(), "https://github.com/acme/widgets/actions/runs/7");
    assert_eq!(m.vm_created_at, at(1_700_000_100, 250));
}

#[test]
fn payload_errors_are_reported() {
    match VmMetadata::try_from_event(Err("missing field `id`".to_string()), "w", "a", at(0, 0)) {
        Err(VmMetadataError::PayloadDeserialize(m)) => assert_eq!(m, "missing field `id`"),
        Ok(_) => panic!("expected an error"),
    }
}

#[test]
fn metadata_now() {
    assert!(VmMetadata::urls_parse("widgets", "acme", 7, 42));
    let m = VmMetadata::try_from_event_now(Ok(data()), "widgets", "acme").unwrap().unwrap();
    assert!(m.vm_created_at.seconds > 1_700_000_000);
    let age = m.vm_age();
    assert!(age >= 0 && age < 600_000_000_000);
}

#[test]
fn age_in_nanoseconds() {
    let m = VmMetadata::try_from_event(Ok(data()), "widgets", "acme", at(100, 0)).unwrap();
    assert_eq!(m.vm_age_at(at(160, 0)), 60_000_000_000);
    assert_eq!(m.vm_age_at(at(99, 0)), -1_000_000_000);
    assert_eq!(m.vm_age_at(at(3_700, 1)), 3_600_000_000_001);
    let late = VmMetadata::try_from_event(Ok(data()), "widgets", "acme", at(100, 999_999_999)).unwrap();
    assert_eq!(late.vm_age_at(at(101, 0)), 1);
    let far = VmMetadata::try_from_event(Ok(data()), "widgets", "acme", at(i64::MIN, 0)).unwrap();
    assert_eq!(far.vm_age_at(at(i64::MAX, 0)), (u64::MAX as i128) * 1_000_000_000);
}

#[test]
fn yaml_lines_are_spread() {
    assert_eq!(spread_yaml_lines("a: 1\nb: 2\n"), "a: 1\n\nb: 2\n\n");
    assert_eq!(spread_yaml_lines(""), "");
}
