use gh_scaleset_pve::cloud_config::{CloudConfigGenerator, CloudConfigParams};

fn params() -> CloudConfigParams {
    CloudConfigParams {
        vmid: 5123,
        repo: "acme/widgets".to_string(),
        labels: vec!["self-hosted".to_string(), "linux".to_string()],
        runner_token: "TOKEN123".to_string(),
    }
}

#[test]
fn generator_keeps_its_paths() {
    let g = CloudConfigGenerator::new("/in/t.yaml".to_string(), "/out/5123.yaml".to_string());
    assert_eq!(g.template_path(), "/in/t.yaml");
    assert_eq!(g.output_path(), "/out/5123.yaml");
}

#[test]
fn params_map_in_order() {
    let map = params().into_map();
    assert_eq!(
        map,
        vec![
            ("VMID".to_string(), "5123".to_string()),
            ("GH_REPO".to_string(), "acme/widgets".to_string()),
            ("LABELS".to_string(), "self-hosted,linux".to_string()),
            ("RUNNER_TOKEN".to_string(), "TOKEN123".to_string()),
        ]
    );
}

#[test]
fn build_substitutes_every_placeholder() {
    let template = "hostname: runner-${VMID}\nrepo: ${GH_REPO}\nlabels: ${LABELS}\ntoken: ${RUNNER_TOKEN}\nagain: ${VMID}\nkeep: ${OTHER} $VMID\n";
    let out = CloudConfigGenerator::build(template.to_string(), params());
    assert_eq!(
        out,
        "hostname: runner-5123\nrepo: acme/widgets\nlabels: self-hosted,linux\ntoken: TOKEN123\nagain: 5123\nkeep: ${OTHER} $VMID\n"
    );
}

#[test]
fn build_without_placeholders_is_identity() {
    let template = "#cloud-config\npackages: [curl]\n";
    assert_eq!(CloudConfigGenerator::build(template.to_string(), params()), template);
}

#[test]
fn adjacent_placeholders_are_each_replaced_once() {
    let mut p = params();
    p.runner_token = "{VMID}".to_string();
    let template = "${VMID}${GH_REPO}${LABELS}${RUNNER_TOKEN}${VMID}";
    assert_eq!(
        CloudConfigGenerator::build(template.to_string(), p),
        "5123acme/widgetsself-hosted,linux{VMID}5123"
    );
}

#[test]
fn shell_variables_and_unknown_placeholders_are_kept() {
    let template = "echo $HOME ${OTHER} $1 ${VMID}$ ${GH_REPO}";
    assert_eq!(
        CloudConfigGenerator::build(template.to_string(), params()),
        "echo $HOME ${OTHER} $1 5123$ acme/widgets"
    );
}
