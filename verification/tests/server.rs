use gh_scaleset_pve::server::default_env_filter;

#[test]
fn default_filter_directives() {
    let f = default_env_filter();
    assert_eq!(
        f.join(","),
        "h2=info,hyper_util=info,hyper=info,opentelemetry_sdk=info,opentelemetry-http=info,opentelemetry-otlp=info,reqwest::connect=info,rustls=info,sqlx::query=info,tendermint_rpc=info,gh-pve-webhook=debug,debug"
    );
}
