use gh_scaleset_pve::conf::{ApiConfig, Conf, GithubConfig, PveConfig};

pub fn pve_config() -> PveConfig {
    PveConfig {
        host_url: url::Url::parse("https://pve.example:8006").unwrap(),
        token_id: "root@pam!runner".to_string(),
        token_secret: "secret".to_string(),
        node: "pve1".to_string(),
        template_vmid: 9000,
        snippets_local_dir: "/mnt/snippets".to_string(),
        snippets_template_name: "runner.yaml".to_string(),
        runner_vmid_min: PveConfig::runner_vmid_min_default(),
        runner_vmid_max: PveConfig::runner_vmid_max_default(),
        reap_interval: PveConfig::reap_interval_default(),
        reap_dryrun: PveConfig::reap_dryrun_default(),
        runner_pool: None,
    }
}

#[test]
fn api_defaults() {
    assert_eq!(ApiConfig::listen_host_default(), "127.0.0.1");
    assert_eq!(ApiConfig::listen_port_default(), 8080);
    let api = ApiConfig::default();
    assert_eq!(api.listen_host, "127.0.0.1");
    assert_eq!(api.listen_port, 8080);
}

#[test]
fn github_defaults() {
    assert_eq!(GithubConfig::required_label_default(), "self-hosted");
    assert_eq!(
        GithubConfig::runner_labels_default(),
        vec!["self-hosted", "proxmox", "ephemeral", "linux", "x64"]
    );
}

#[test]
fn pve_defaults() {
    assert_eq!(PveConfig::runner_vmid_min_default(), 5000);
    assert_eq!(PveConfig::runner_vmid_max_default(), 5999);
    assert_eq!(PveConfig::reap_interval_default(), 60);
    assert!(!PveConfig::reap_dryrun_default());
}

#[test]
fn snippets_template_path_joins_dir_and_name() {
    assert_eq!(pve_config().snippets_template_path(), "/mnt/snippets/runner.yaml");
}

#[test]
fn shared_conf_keeps_each_part() {
    let conf = Conf {
        api: ApiConfig::default(),
        pve: pve_config(),
        github: GithubConfig {
            token: "t".to_string(),
            webhook_secret: "s".to_string(),
            repo_owners: None,
            required_label: GithubConfig::required_label_default(),
            runner_labels: GithubConfig::runner_labels_default(),
        },
        tracing: tracing_kickstart::TracingConfigOverride::default(),
    };
    let shared = conf.into_shared();
    assert_eq!(shared.api.listen_port, 8080);
    assert_eq!(shared.pve.node, "pve1");
    assert_eq!(shared.github.required_label, "self-hosted");
}
