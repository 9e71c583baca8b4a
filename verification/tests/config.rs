use fwd_deck::config::{
    ConfigSource, ConfigSourceKind, EffectiveConfig, LoadedConfigFile, LoadedConfigOverrideFile,
    ResolvedTunnelConfig, TimeoutConfig, TunnelConfig, TunnelConfigOverride,
};
use fwd_deck::edit::{
    add_tunnel_to_config_file, add_tunnels_to_config_file, config_file_for_missing_path,
    remove_tunnel_from_config_file, update_tunnel_in_config_file, ConfigEditError,
};
use fwd_deck::overrides::{
    remove_tunnel_and_override_from_config_files, remove_tunnel_override_from_config_file,
    update_tunnel_and_override_name_in_config_files, upsert_tunnel_override_in_config_file, OverrideFileChange,
};
use fwd_deck::paths::local_override_config_path;
use fwd_deck::tags::{
    filter_tunnels_by_tags, filter_tunnels_excluding_tags, normalize_tag, tag_is_valid, tunnel_matches_tags,
};
use fwd_deck::validate::validate_config;

fn tunnel(name: &str, local_port: u16) -> TunnelConfig {
    TunnelConfig {
        name: name.to_owned(),
        enabled: true,
        description: None,
        tags: Vec::new(),
        local_host: None,
        local_port,
        remote_host: "db.internal".to_owned(),
        remote_port: 5432,
        ssh_user: "user".to_owned(),
        ssh_host: "bastion.example.com".to_owned(),
        ssh_port: None,
        identity_file: None,
        timeouts: TimeoutConfig::default(),
    }
}

fn local_source() -> ConfigSource {
    ConfigSource::new(ConfigSourceKind::Local, "fwd-deck.toml".to_owned())
}

fn empty_local_file() -> LoadedConfigFile {
    config_file_for_missing_path(local_source(), true).expect("a missing file may be created")
}

fn file_with(tunnels: Vec<TunnelConfig>) -> LoadedConfigFile {
    let mut file = empty_local_file();
    for t in tunnels {
        file = add_tunnel_to_config_file(file, t).expect("add tunnel");
    }
    file
}

#[test]
fn tunnel_config_uses_default_local_host_when_omitted() {
    let tunnel = tunnel("db", 15432);

    assert_eq!(tunnel.effective_local_host(), "127.0.0.1");
}

#[test]
fn tunnel_config_uses_given_local_host() {
    let mut tunnel = tunnel("db", 15432);
    tunnel.local_host = Some("0.0.0.0".to_owned());

    assert_eq!(tunnel.effective_local_host(), "0.0.0.0");
}

#[test]
fn validation_reports_duplicate_names_in_same_file() {
    let source = local_source();
    let config = EffectiveConfig::new(
        vec![LoadedConfigFile::new(source.clone(), vec![tunnel("db", 15432), tunnel("db", 25432)])],
        vec![ResolvedTunnelConfig::new(source.clone(), tunnel("db", 25432))],
    );

    let report = validate_config(&config);

    assert!(!report.is_valid());
    assert!(report.errors.iter().any(|error| error.message == "Duplicate name in the same configuration file"));
}

#[test]
fn validation_reports_duplicate_local_ports() {
    let source = local_source();
    let config = EffectiveConfig::new(
        vec![LoadedConfigFile::new(source.clone(), vec![tunnel("db", 15432), tunnel("cache", 15432)])],
        vec![
            ResolvedTunnelConfig::new(source.clone(), tunnel("db", 15432)),
            ResolvedTunnelConfig::new(source, tunnel("cache", 15432)),
        ],
    );

    let report = validate_config(&config);

    assert!(!report.is_valid());
    assert!(report.errors.iter().any(|error| error.message == "local_port 15432 duplicates db"));
}

#[test]
fn validation_reports_disabled_duplicate_local_ports() {
    let source = local_source();
    let mut disabled = tunnel("disabled-db", 15432);
    disabled.enabled = false;
    let config = EffectiveConfig::new(
        vec![LoadedConfigFile::new(source.clone(), vec![tunnel("db", 15432), disabled])],
        vec![ResolvedTunnelConfig::new(source, tunnel("db", 15432))],
    );

    let report = validate_config(&config);

    assert!(!report.is_valid());
    assert!(report.errors.iter().any(|error| error.message == "local_port 15432 duplicates db"));
}

#[test]
fn validation_allows_same_name_and_local_port_across_sources() {
    let global_source = ConfigSource::new(ConfigSourceKind::Global, "global.toml".to_owned());
    let local_source = local_source();
    let config = EffectiveConfig::new(
        vec![
            LoadedConfigFile::new(global_source.clone(), vec![tunnel("db", 15432)]),
            LoadedConfigFile::new(local_source.clone(), vec![tunnel("db", 15432)]),
        ],
        vec![
            ResolvedTunnelConfig::new(global_source, tunnel("db", 15432)),
            ResolvedTunnelConfig::new(local_source, tunnel("db", 15432)),
        ],
    );

    let report = validate_config(&config);

    assert!(report.is_valid());
}

#[test]
fn validation_reports_local_host_with_whitespace() {
    let source = local_source();
    let mut invalid_tunnel = tunnel("db", 15432);
    invalid_tunnel.local_host = Some("127.0.0.1 ".to_owned());
    let config = EffectiveConfig::new(
        vec![LoadedConfigFile::new(source.clone(), vec![invalid_tunnel.clone()])],
        vec![ResolvedTunnelConfig::new(source, invalid_tunnel)],
    );

    let report = validate_config(&config);

    assert!(!report.is_valid());
    assert!(report.errors.iter().any(|error| error.message == "local_host cannot contain whitespace"));
}

#[test]
fn validation_reports_disabled_tunnel_field_errors() {
    let source = local_source();
    let mut invalid_tunnel = tunnel("disabled-db", 15432);
    invalid_tunnel.enabled = false;
    invalid_tunnel.tags = vec!["Invalid Tag".to_owned()];
    invalid_tunnel.local_host = Some("127.0.0.1 ".to_owned());
    invalid_tunnel.remote_port = 0;
    let config = EffectiveConfig::new(vec![LoadedConfigFile::new(source, vec![invalid_tunnel])], Vec::new());

    let report = validate_config(&config);

    assert!(!report.is_valid());
    assert!(report.errors.iter().any(|error| error.message == "local_host cannot contain whitespace"));
    assert!(report.errors.iter().any(|error| error.message.contains("tag must contain only")));
    assert!(report.errors.iter().any(|error| error.message == "remote_port must be greater than or equal to 1"));
}

#[test]
fn validation_warns_privileged_local_ports() {
    let source = local_source();
    let config = EffectiveConfig::new(
        vec![LoadedConfigFile::new(source.clone(), vec![tunnel("web", 80)])],
        vec![ResolvedTunnelConfig::new(source, tunnel("web", 80))],
    );

    let report = validate_config(&config);

    assert!(report.is_valid());
    assert!(report
        .warnings
        .iter()
        .any(|warning| warning.message == "local_port below 1024 may require elevated privileges"));
}

#[test]
fn validation_accepts_ordinary_configuration() {
    let source = local_source();
    let config = EffectiveConfig::new(
        vec![LoadedConfigFile::new(source.clone(), vec![tunnel("db", 15432), tunnel("cache", 16379)])],
        vec![
            ResolvedTunnelConfig::new(source.clone(), tunnel("db", 15432)),
            ResolvedTunnelConfig::new(source, tunnel("cache", 16379)),
        ],
    );

    let report = validate_config(&config);

    assert!(report.is_valid());
    assert!(!report.has_warnings());
}

#[test]
fn tags_are_normalized_and_validated() {
    assert_eq!(normalize_tag(" Dev "), "dev");
    assert!(tag_is_valid("project-a"));
    assert!(tag_is_valid("client/foo"));
    assert!(!tag_is_valid(""));
    assert!(!tag_is_valid("project a"));
    assert!(!tag_is_valid("案件"));
}

#[test]
fn filter_tunnels_by_tags_matches_all_tags() {
    let source = local_source();
    let mut dev_db = tunnel("dev-db", 15432);
    dev_db.tags = vec!["dev".to_owned(), "project-a".to_owned()];
    let mut prod_db = tunnel("prod-db", 25432);
    prod_db.tags = vec!["prod".to_owned(), "project-a".to_owned()];
    let tunnels = vec![ResolvedTunnelConfig::new(source.clone(), dev_db), ResolvedTunnelConfig::new(source, prod_db)];

    let matched = filter_tunnels_by_tags(&tunnels, &["dev".to_owned(), "project-a".to_owned()]);

    assert_eq!(matched.len(), 1);
    assert_eq!(matched[0].tunnel.name, "dev-db");
}

#[test]
fn filter_tunnels_excluding_tags_removes_any_matching_tag() {
    let source = local_source();
    let mut dev_db = tunnel("dev-db", 15432);
    dev_db.tags = vec!["dev".to_owned(), "project-a".to_owned()];
    let mut prod_db = tunnel("prod-db", 25432);
    prod_db.tags = vec!["prod".to_owned(), "project-a".to_owned()];
    let mut archived_db = tunnel("archived-db", 35432);
    archived_db.tags = vec!["archived".to_owned()];
    let tunnels = vec![
        ResolvedTunnelConfig::new(source.clone(), dev_db),
        ResolvedTunnelConfig::new(source.clone(), prod_db),
        ResolvedTunnelConfig::new(source, archived_db),
    ];

    let matched = filter_tunnels_excluding_tags(&tunnels, &["prod".to_owned(), "archived".to_owned()]);

    assert_eq!(matched.len(), 1);
    assert_eq!(matched[0].tunnel.name, "dev-db");
}

#[test]
fn filter_tunnels_excluding_tags_compares_without_requiring_normalized_tunnel_tags() {
    let source = local_source();
    let mut tunnel = tunnel("prod-db", 25432);
    tunnel.tags = vec![" Prod ".to_owned(), "PROJECT-A".to_owned()];
    let tunnels = vec![ResolvedTunnelConfig::new(source, tunnel)];

    let matched = filter_tunnels_excluding_tags(&tunnels, &["prod".to_owned()]);

    assert!(matched.is_empty());
}

#[test]
fn tunnel_matches_tags_compares_without_requiring_normalized_tunnel_tags() {
    let mut tunnel = tunnel("dev-db", 15432);
    tunnel.tags = vec![" Dev ".to_owned(), "PROJECT-A".to_owned()];

    let matched = tunnel_matches_tags(&tunnel, &["dev".to_owned(), "project-a".to_owned()]);

    assert!(matched);
}

#[test]
fn add_tunnel_rejects_duplicate_id() {
    let file = file_with(vec![tunnel("db", 15432)]);

    let result = add_tunnel_to_config_file(file, tunnel("db", 25432));

    assert!(matches!(result, Err(ConfigEditError::DuplicateName { .. })));
}

#[test]
fn add_tunnel_rejects_duplicate_local_port() {
    let mut disabled = tunnel("disabled-db", 15432);
    disabled.enabled = false;
    let file = file_with(vec![disabled]);

    let result = add_tunnel_to_config_file(file, tunnel("db", 15432));

    assert!(matches!(result, Err(ConfigEditError::DuplicateLocalPort { .. })));
}

#[test]
fn add_tunnel_refuses_missing_file_that_may_not_be_created() {
    let result = config_file_for_missing_path(local_source(), false);

    assert_eq!(result, Err(ConfigEditError::Missing { path: "fwd-deck.toml".to_owned() }));
}

#[test]
fn add_tunnels_adds_multiple_entries_atomically() {
    let loaded =
        add_tunnels_to_config_file(empty_local_file(), vec![tunnel("db", 15432), tunnel("cache", 16379)])
            .expect("add tunnels");

    assert_eq!(loaded.tunnels.len(), 2);
    assert_eq!(loaded.tunnels[0].name, "db");
    assert_eq!(loaded.tunnels[1].name, "cache");
}

#[test]
fn add_tunnels_rejects_duplicate_local_port() {
    let file = file_with(vec![tunnel("db", 15432)]);

    let result = add_tunnels_to_config_file(file, vec![tunnel("cache", 15432)]);

    assert!(matches!(result, Err(ConfigEditError::DuplicateLocalPort { .. })));
}

#[test]
fn add_tunnels_rejects_duplicates_within_the_batch() {
    let result = add_tunnels_to_config_file(empty_local_file(), vec![tunnel("db", 15432), tunnel("db", 16379)]);

    assert!(matches!(result, Err(ConfigEditError::DuplicateName { .. })));
}

#[test]
fn remove_tunnel_removes_matching_id() {
    let file = file_with(vec![tunnel("db", 15432), tunnel("cache", 16379)]);

    let loaded = remove_tunnel_from_config_file(file, "db").expect("remove tunnel");

    assert_eq!(loaded.tunnels.len(), 1);
    assert_eq!(loaded.tunnels[0].name, "cache");
}

#[test]
fn remove_tunnel_reports_unknown_id() {
    let file = file_with(vec![tunnel("db", 15432)]);

    let result = remove_tunnel_from_config_file(file, "cache");

    assert_eq!(
        result,
        Err(ConfigEditError::NotFound { path: "fwd-deck.toml".to_owned(), name: "cache".to_owned() })
    );
}

#[test]
fn update_tunnel_replaces_matching_id() {
    let file = file_with(vec![tunnel("db", 15432), tunnel("cache", 16379)]);
    let mut updated = tunnel("dev-db", 25432);
    updated.description = Some("Development database".to_owned());

    let loaded = update_tunnel_in_config_file(file, "db", updated).expect("update tunnel");

    assert_eq!(loaded.tunnels.len(), 2);
    assert_eq!(loaded.tunnels[0].name, "dev-db");
    assert_eq!(loaded.tunnels[0].description.as_deref(), Some("Development database"));
    assert_eq!(loaded.tunnels[1].name, "cache");
}

#[test]
fn update_tunnel_rejects_duplicate_id() {
    let file = file_with(vec![tunnel("db", 15432), tunnel("cache", 16379)]);

    let result = update_tunnel_in_config_file(file, "db", tunnel("cache", 25432));

    assert!(matches!(result, Err(ConfigEditError::DuplicateName { .. })));
}

#[test]
fn update_tunnel_rejects_duplicate_local_port() {
    let mut disabled = tunnel("disabled-db", 16379);
    disabled.enabled = false;
    let file = file_with(vec![tunnel("db", 15432), disabled]);

    let result = update_tunnel_in_config_file(file, "db", tunnel("dev-db", 16379));

    assert!(matches!(result, Err(ConfigEditError::DuplicateLocalPort { .. })));
}

#[test]
fn tunnel_override_upsert_and_remove_manage_override_file() {
    let source = ConfigSource::new(ConfigSourceKind::Local, "fwd-deck.override.toml".to_owned());
    let mut tunnel_override = TunnelConfigOverride::new("db".to_owned());
    tunnel_override.description = Some("My database".to_owned());

    let written = upsert_tunnel_override_in_config_file(LoadedConfigOverrideFile::new(source, Vec::new()), tunnel_override)
        .expect("upsert tunnel override")
        .expect("override file kept");
    assert_eq!(written.tunnels[0].description.as_deref(), Some("My database"));

    let removed = remove_tunnel_override_from_config_file(written, "db").expect("remove tunnel override");
    assert!(removed.is_none());
}

#[test]
fn local_config_rename_and_remove_keep_override_in_sync() {
    let local = file_with(vec![tunnel("db", 15432)]);
    let override_source = ConfigSource::new(ConfigSourceKind::Local, "fwd-deck.override.toml".to_owned());
    let mut tunnel_override = TunnelConfigOverride::new("db".to_owned());
    tunnel_override.enabled = Some(false);
    let overrides = upsert_tunnel_override_in_config_file(
        LoadedConfigOverrideFile::new(override_source, Vec::new()),
        tunnel_override,
    )
    .expect("add tunnel override")
    .expect("override file kept");

    let (local, change) = update_tunnel_and_override_name_in_config_files(
        "fwd-deck.toml",
        Some(local),
        Some(overrides),
        ConfigSourceKind::Local,
        "db",
        tunnel("dev-db", 15432),
    )
    .expect("rename local tunnel");
    let OverrideFileChange::Write(renamed) = change else {
        panic!("override file should be rewritten");
    };
    assert_eq!(renamed.tunnels[0].name, "dev-db");
    assert_eq!(local.tunnels[0].name, "dev-db");

    let (local, change) = remove_tunnel_and_override_from_config_files(
        "fwd-deck.toml",
        Some(local),
        Some(renamed),
        ConfigSourceKind::Local,
        "dev-db",
    )
    .expect("remove local tunnel");
    assert!(matches!(change, OverrideFileChange::Remove));
    assert!(local.tunnels.is_empty());
}

#[test]
fn local_config_rename_preflights_duplicate_override_name() {
    let local = file_with(vec![tunnel("db", 15432)]);
    let override_source = ConfigSource::new(ConfigSourceKind::Local, "fwd-deck.override.toml".to_owned());
    let mut first = TunnelConfigOverride::new("db".to_owned());
    first.enabled = Some(false);
    let mut second = TunnelConfigOverride::new("db".to_owned());
    second.description = Some("My database".to_owned());
    let overrides = LoadedConfigOverrideFile::new(override_source, vec![first, second]);

    let result = update_tunnel_and_override_name_in_config_files(
        "fwd-deck.toml",
        Some(local),
        Some(overrides),
        ConfigSourceKind::Local,
        "db",
        tunnel("dev-db", 15432),
    );

    assert!(matches!(result, Err(ConfigEditError::DuplicateName { .. })));
}

#[test]
fn local_override_path_is_derived_from_local_config_path() {
    assert_eq!(local_override_config_path("config/fwd-deck.toml"), "config/fwd-deck.override.toml");
    assert_eq!(local_override_config_path("config/work"), "config/work.override.toml");
}
