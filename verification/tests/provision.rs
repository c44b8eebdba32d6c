use gh_scaleset_pve::conf::PveConfig;
use gh_scaleset_pve::provision::{get_random_vm_id, pick_new_vm_id, ProvisionPlan};

fn pve_config(min: u32, max: u32) -> PveConfig {
    PveConfig {
        host_url: url::Url::parse("https://pve.example:8006").unwrap(),
        token_id: "id".to_string(),
        token_secret: "secret".to_string(),
        node: "pve1".to_string(),
        template_vmid: 9000,
        snippets_local_dir: "/mnt/snippets".to_string(),
        snippets_template_name: "runner.yaml".to_string(),
        runner_vmid_min: min,
        runner_vmid_max: max,
        reap_interval: 60,
        reap_dryrun: false,
        runner_pool: None,
    }
}

#[test]
fn random_ids_stay_in_range() {
    let conf = pve_config(5000, 5009);
    for _ in 0..200 {
        let id = get_random_vm_id(&conf);
        assert!((5000..=5009).contains(&id));
    }
    assert_eq!(get_random_vm_id(&pve_config(7, 7)), 7);
}

#[test]
fn picked_id_is_free() {
    let taken: Vec<u16> = (5000..5009).collect();
    for _ in 0..50 {
        assert_eq!(pick_new_vm_id(&taken, &pve_config(5000, 5009)), 5009);
    }
    let some_taken = vec![5000, 5002];
    for _ in 0..50 {
        let id = pick_new_vm_id(&some_taken, &pve_config(5000, 5003));
        assert!(id == 5001 || id == 5003);
    }
    assert_eq!(pick_new_vm_id(&vec![], &pve_config(7, 7)), 7);
}

#[test]
fn plan_for_runner() {
    let conf = pve_config(5000, 5999);
    let plan = ProvisionPlan::new(
        &conf,
        5042,
        "acme",
        "widgets",
        vec!["self-hosted".to_string()],
        "tok".to_string(),
    );
    assert_eq!(plan.vmid, 5042);
    assert_eq!(plan.template_path, "/mnt/snippets/runner.yaml");
    assert_eq!(plan.output_path, "/mnt/snippets/5042.yaml");
    assert_eq!(plan.vm_name, "github-runner-5042");
    assert_eq!(plan.cicustom, "user=local-isos:snippets/5042.yaml");
    assert_eq!(plan.ipconfig0, "ip=dhcp");
    assert_eq!(plan.params.vmid, 5042);
    assert_eq!(plan.params.repo, "acme/widgets");
    assert_eq!(plan.params.labels, vec!["self-hosted".to_string()]);
    assert_eq!(plan.params.runner_token, "tok");
}
