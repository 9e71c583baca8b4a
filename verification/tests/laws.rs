use fwd_deck::config::{
    load_effective_config, ConfigSource, ConfigSourceKind, LoadedConfigFile, TimeoutConfig, TunnelConfig,
};
use fwd_deck::display::tunnel_matches_list_query;
use fwd_deck::tags::tunnel_matches_tags;
use fwd_deck::validate::validate_config;

fn tunnel(name: &str, local_port: u16, tags: &[&str]) -> TunnelConfig {
    TunnelConfig {
        name: name.to_owned(),
        enabled: true,
        description: Some("Primary Database".to_owned()),
        tags: tags.iter().map(|t| (*t).to_owned()).collect(),
        local_host: None,
        local_port,
        remote_host: "db.internal".to_owned(),
        remote_port: 5432,
        ssh_user: "user".to_owned(),
        ssh_host: "bastion.example.com".to_owned(),
        ssh_port: None,
        identity_file: None,
        timeouts: TimeoutConfig::default(),
    }
}

fn file(kind: ConfigSourceKind, path: &str, tunnels: Vec<TunnelConfig>) -> LoadedConfigFile {
    LoadedConfigFile::new(ConfigSource::new(kind, path.to_owned()), tunnels)
}

fn strings(values: &[&str]) -> Vec<String> {
    values.iter().map(|v| (*v).to_owned()).collect()
}

#[test]
fn query_ignores_case_on_concrete_values() {
    let t = tunnel("Dev-DB", 15432, &[]);

    for query in ["dev", "DEV", "Dev", "primary", "PRIMARY DATABASE"] {
        assert_eq!(
            tunnel_matches_list_query(&t, query),
            tunnel_matches_list_query(&t, &query.to_ascii_lowercase()),
            "{query}"
        );
        assert!(tunnel_matches_list_query(&t, query), "{query}");
    }
    assert!(!tunnel_matches_list_query(&t, "cache"));
}

#[test]
fn more_required_tags_narrow_and_order_does_not_matter() {
    let t = tunnel("db", 15432, &["dev", "project-a"]);

    assert!(tunnel_matches_tags(&t, &strings(&["dev"])));
    assert!(tunnel_matches_tags(&t, &strings(&["dev", "project-a"])));
    assert!(tunnel_matches_tags(&t, &strings(&["project-a", "dev"])));
    assert!(!tunnel_matches_tags(&t, &strings(&["dev", "prod"])));
    assert!(!tunnel_matches_tags(&t, &strings(&["prod", "dev"])));
}

#[test]
fn privileged_local_port_is_warned() {
    let config = load_effective_config(
        vec![file(ConfigSourceKind::Local, "fwd-deck.toml", vec![tunnel("web", 80, &[]), tunnel("db", 15432, &[])])],
        None,
    );

    let report = validate_config(&config);

    let warned: Vec<Option<&str>> = report
        .warnings
        .iter()
        .filter(|w| w.message == "local_port below 1024 may require elevated privileges")
        .map(|w| w.tunnel_name.as_deref())
        .collect();
    assert_eq!(warned, vec![Some("web")]);
    assert!(report.is_valid());
}

#[test]
fn sharing_names_and_ports_across_files_is_allowed() {
    let config = load_effective_config(
        vec![
            file(ConfigSourceKind::Global, "/home/u/.config/fwd-deck/config.toml", vec![tunnel("db", 15432, &[])]),
            file(ConfigSourceKind::Local, "fwd-deck.toml", vec![tunnel("db", 15432, &[])]),
        ],
        None,
    );

    let report = validate_config(&config);

    assert!(report.is_valid(), "{:?}", report.errors);
    assert_eq!(config.tunnels.len(), 2);
}

#[test]
fn timeouts_take_tunnel_then_local_then_global_then_default() {
    let mut global = file(ConfigSourceKind::Global, "/g.toml", Vec::new());
    global.timeouts.connect_timeout_seconds = Some(20);
    global.timeouts.server_alive_interval_seconds = Some(40);
    let mut local_tunnel = tunnel("db", 15432, &[]);
    local_tunnel.timeouts.connect_timeout_seconds = Some(5);
    let mut local = file(ConfigSourceKind::Local, "fwd-deck.toml", vec![local_tunnel]);
    local.timeouts.connect_timeout_seconds = Some(10);
    local.timeouts.server_alive_count_max = Some(7);

    let config = load_effective_config(vec![global, local], None);
    let timeouts = config.tunnels[0].timeouts;

    assert_eq!(timeouts.connect_timeout_seconds, 5);
    assert_eq!(timeouts.server_alive_interval_seconds, 40);
    assert_eq!(timeouts.server_alive_count_max, 7);
    assert_eq!(timeouts.start_grace_milliseconds, 300);
}
