use gh_scaleset_pve::reaper::{
    decide_reap, is_outside_runner_pool, is_status_handled, read_vm_state, reap_candidates,
    reap_plan, CheckReapError, ReapDecision, MAX_VM_AGE_NANOS, MIN_VM_AGE_NANOS,
};

#[test]
fn decision_constructors() {
    let d = ReapDecision::new_from_status(true, "running");
    assert!(d.reap && d.vm_is_running);
    let d = ReapDecision::reap("stopped");
    assert!(d.reap && !d.vm_is_running);
    let d = ReapDecision::skip("running");
    assert!(!d.reap && d.vm_is_running);
}

fn no_pool() -> Option<String> {
    None
}

#[test]
fn young_vms_are_kept() {
    let d = decide_reap(MIN_VM_AGE_NANOS - 1, "stopped", &no_pool(), &no_pool());
    assert!(!d.reap);
    assert!(!d.vm_is_running);
    let d = decide_reap(0, "paused", &no_pool(), &no_pool());
    assert!(!d.reap);
}

#[test]
fn running_vms_go_after_an_hour() {
    assert!(!decide_reap(MIN_VM_AGE_NANOS, "running", &no_pool(), &no_pool()).reap);
    assert!(!decide_reap(MAX_VM_AGE_NANOS, "running", &no_pool(), &no_pool()).reap);
    let d = decide_reap(MAX_VM_AGE_NANOS + 1, "running", &no_pool(), &no_pool());
    assert!(d.reap && d.vm_is_running);
}

#[test]
fn stopped_vms_go_after_a_minute() {
    let d = decide_reap(MIN_VM_AGE_NANOS, "stopped", &no_pool(), &no_pool());
    assert!(d.reap && !d.vm_is_running);
}

#[test]
fn vms_outside_the_runner_pool_are_kept() {
    let runners = Some("runners".to_string());
    let other = Some("other".to_string());
    assert!(is_outside_runner_pool(&runners, &other));
    assert!(is_outside_runner_pool(&runners, &no_pool()));
    assert!(!is_outside_runner_pool(&runners, &runners));
    assert!(!is_outside_runner_pool(&no_pool(), &other));
    let d = decide_reap(MAX_VM_AGE_NANOS + 1, "running", &runners, &other);
    assert!(!d.reap && d.vm_is_running);
    assert!(!decide_reap(MIN_VM_AGE_NANOS, "stopped", &runners, &no_pool()).reap);
    assert!(!decide_reap(MIN_VM_AGE_NANOS, "paused", &runners, &other).reap);
    assert!(decide_reap(MIN_VM_AGE_NANOS, "stopped", &runners, &runners).reap);
    assert!(decide_reap(MIN_VM_AGE_NANOS, "stopped", &no_pool(), &other).reap);
}

#[test]
fn unknown_status_is_not_handled_past_min_age() {
    assert!(!is_status_handled(MIN_VM_AGE_NANOS, "paused", false));
    assert!(is_status_handled(MIN_VM_AGE_NANOS, "paused", true));
    assert!(is_status_handled(MIN_VM_AGE_NANOS - 1, "paused", false));
    assert!(is_status_handled(MAX_VM_AGE_NANOS * 2, "running", false));
    assert!(is_status_handled(MAX_VM_AGE_NANOS * 2, "stopped", false));
}

#[test]
fn candidates_are_vms_in_range() {
    let ids = vec![Some(100), None, Some(5000), Some(5999), Some(6000), Some(5500)];
    assert_eq!(reap_candidates(&ids, 5000, 5999), vec![2, 3, 5]);
}

#[test]
fn plans() {
    let p = reap_plan(true, false);
    assert!(p.stop_first && p.destroy);
    let p = reap_plan(false, true);
    assert!(!p.stop_first && !p.destroy);
}

#[test]
fn vm_state_reading() {
    assert_eq!(read_vm_state(None, Some("running")), Err(CheckReapError::DescriptionMissing));
    assert_eq!(read_vm_state(Some("a%20b"), None), Err(CheckReapError::StatusMissing));
    assert_eq!(read_vm_state(Some("%FF"), Some("running")), Err(CheckReapError::DescriptionDecode));
    assert_eq!(
        read_vm_state(Some("repo%3A%20acme%2Fw%0Ajob_id%3A%201+2%zz%"), Some("stopped")),
        Ok(("repo: acme/w\njob_id: 1+2%zz%".to_string(), "stopped".to_string()))
    );
    assert_eq!(
        read_vm_state(Some("plain"), Some("running")),
        Ok(("plain".to_string(), "running".to_string()))
    );
}

#[test]
fn check_error_messages() {
    assert_eq!(CheckReapError::DescriptionMissing.message(), "Failed to get vm description");
    assert_eq!(CheckReapError::DescriptionDecode.message(), "Failed to decode vm description");
    assert_eq!(CheckReapError::StatusMissing.message(), "Failed to get vm status");
}
