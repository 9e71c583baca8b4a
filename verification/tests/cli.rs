use fwd_deck::config::{
    ConfigSource, ConfigSourceKind, EffectiveConfig, LoadedConfigFile, ResolvedTunnelConfig, TimeoutConfig,
    TunnelConfig,
};
use fwd_deck::display::{
    app_launch_error_from_output, app_open_command_args, format_list_remote_endpoint, format_remote_endpoint,
    pad_display_width, pad_display_width_with_visible_width, shell_quote, tunnel_matches_list_query, AppLaunchError,
    FWD_DECK_APP_BUNDLE_IDENTIFIER, FWD_DECK_APP_OPEN_WORKSPACE_ARG, LIST_REMOTE_HOST_MAX_WIDTH, TRUNCATION_MARKER,
};
use fwd_deck::selection::{
    find_local_port_conflict, find_tunnel_by_name, find_tunnel_id_conflict, select_tunnels_for_list,
    sorted_statuses_by_id, watched_stale_runtime_ids,
};
use fwd_deck::state::{tunnel_runtime_id, TunnelState};
use fwd_deck::table::{list_column_widths, list_rows, status_column_widths, status_rows};
use fwd_deck::tunnel::{ProcessState, TunnelRuntimeStatus};
use unicode_width::UnicodeWidthStr;

fn display_width(value: &str) -> usize {
    UnicodeWidthStr::width(value)
}

fn effective_config_with_tunnels(tunnels: Vec<TunnelConfig>) -> EffectiveConfig {
    let source = ConfigSource::new(ConfigSourceKind::Local, "fwd-deck.toml".to_owned());
    let resolved_tunnels = tunnels
        .iter()
        .cloned()
        .map(|tunnel| ResolvedTunnelConfig::new(source.clone(), tunnel))
        .collect::<Vec<_>>();

    EffectiveConfig::new(vec![LoadedConfigFile::new(source, tunnels)], resolved_tunnels)
}

fn tunnel_ids<'a>(tunnels: &[&'a ResolvedTunnelConfig]) -> Vec<&'a str> {
    tunnels.iter().map(|resolved| resolved.tunnel.name.as_str()).collect()
}

fn status_ids<'a>(statuses: &[&'a TunnelRuntimeStatus]) -> Vec<&'a str> {
    statuses.iter().map(|status| status.state.name.as_str()).collect()
}

fn runtime_status(id: &str, process_state: ProcessState) -> TunnelRuntimeStatus {
    TunnelRuntimeStatus {
        state: TunnelState {
            runtime_id: runtime_id(id),
            name: id.to_owned(),
            pid: 1000,
            local_host: "127.0.0.1".to_owned(),
            local_port: 15432,
            remote_host: "db.internal".to_owned(),
            remote_port: 5432,
            ssh_user: "user".to_owned(),
            ssh_host: "bastion.example.com".to_owned(),
            ssh_port: None,
            source_kind: ConfigSourceKind::Local,
            source_path: "fwd-deck.toml".to_owned(),
            started_at_unix_seconds: 1_700_000_000,
        },
        process_state,
    }
}

fn tunnel(id: &str, local_port: u16) -> TunnelConfig {
    TunnelConfig {
        name: id.to_owned(),
        enabled: true,
        description: None,
        tags: Vec::new(),
        local_host: None,
        local_port,
        remote_host: "db.internal".to_owned(),
        remote_port: 5432,
        ssh_user: "user".to_owned(),
        ssh_host: "bastion.example.com".to_owned(),
        ssh_port: None,
        identity_file: None,
        timeouts: TimeoutConfig::default(),
    }
}

fn runtime_id(name: &str) -> String {
    tunnel_runtime_id(ConfigSourceKind::Local, "fwd-deck.toml", name)
}

#[test]
fn find_tunnel_id_conflict_detects_existing_tunnel() {
    let config = effective_config_with_tunnels(vec![tunnel("db", 15432)]);

    let conflict = find_tunnel_id_conflict(&config, ConfigSourceKind::Local, "db");

    assert_eq!(conflict.map(|resolved| resolved.tunnel.name.as_str()), Some("db"));
}

#[test]
fn find_tunnel_id_conflict_returns_none_for_new_tunnel() {
    let config = effective_config_with_tunnels(vec![tunnel("db", 15432)]);

    let conflict = find_tunnel_id_conflict(&config, ConfigSourceKind::Local, "cache");

    assert!(conflict.is_none());
}

#[test]
fn find_tunnel_id_conflict_ignores_other_scope() {
    let config = effective_config_with_tunnels(vec![tunnel("db", 15432)]);

    let conflict = find_tunnel_id_conflict(&config, ConfigSourceKind::Global, "db");

    assert!(conflict.is_none());
}

#[test]
fn find_local_port_conflict_detects_other_tunnel() {
    let config = effective_config_with_tunnels(vec![tunnel("db", 15432)]);

    let conflict = find_local_port_conflict(&config, ConfigSourceKind::Local, "cache", 15432);

    assert_eq!(conflict.map(|resolved| resolved.tunnel.name.as_str()), Some("db"));
}

#[test]
fn find_local_port_conflict_ignores_same_tunnel_id() {
    let config = effective_config_with_tunnels(vec![tunnel("db", 15432)]);

    let conflict = find_local_port_conflict(&config, ConfigSourceKind::Local, "db", 15432);

    assert!(conflict.is_none());
}

#[test]
fn watched_stale_tunnel_ids_returns_all_stale_tunnels_without_filter() {
    let statuses = vec![
        runtime_status("db", ProcessState::Stale),
        runtime_status("cache", ProcessState::Running),
        runtime_status("search", ProcessState::Stale),
    ];

    let ids = watched_stale_runtime_ids(&statuses, &[], None);

    assert_eq!(ids, vec![runtime_id("db"), runtime_id("search")]);
}

#[test]
fn watched_stale_tunnel_ids_filters_by_requested_ids() {
    let statuses = vec![
        runtime_status("db", ProcessState::Stale),
        runtime_status("cache", ProcessState::Stale),
        runtime_status("search", ProcessState::Running),
    ];

    let ids = watched_stale_runtime_ids(&statuses, &[runtime_id("cache"), runtime_id("search")], None);

    assert_eq!(ids, vec![runtime_id("cache")]);
}

#[test]
fn watched_stale_tunnel_ids_respects_scope() {
    let statuses = vec![runtime_status("db", ProcessState::Stale)];

    let ids = watched_stale_runtime_ids(&statuses, &[], Some(ConfigSourceKind::Global));

    assert!(ids.is_empty());
}

#[test]
fn sorted_statuses_by_id_sorts_statuses_by_id() {
    let statuses = vec![
        runtime_status("prod-db", ProcessState::Running),
        runtime_status("dev-db", ProcessState::Running),
    ];

    let sorted = sorted_statuses_by_id(&statuses);

    assert_eq!(status_ids(&sorted), vec!["dev-db", "prod-db"]);
}

#[test]
fn shell_quote_keeps_safe_arguments_unquoted() {
    let quoted = shell_quote("127.0.0.1:15432:db.internal:5432");

    assert_eq!(quoted, "127.0.0.1:15432:db.internal:5432");
}

#[test]
fn shell_quote_quotes_arguments_with_spaces_and_single_quotes() {
    let quoted = shell_quote("/tmp/key file's name");

    assert_eq!(quoted, "'/tmp/key file'\\''s name'");
}

#[test]
fn shell_quote_keeps_empty_argument_as_is() {
    assert_eq!(shell_quote(""), "");
}

#[test]
fn app_open_command_args_include_workspace_path() {
    let args = app_open_command_args("/tmp/my-workspace");

    assert_eq!(
        args,
        vec![
            "-n",
            "-b",
            FWD_DECK_APP_BUNDLE_IDENTIFIER,
            "--args",
            FWD_DECK_APP_OPEN_WORKSPACE_ARG,
            "/tmp/my-workspace"
        ]
    );
}

#[test]
fn app_launch_error_maps_missing_app_output() {
    let error =
        app_launch_error_from_output(Some(1), "LSOpenURLsWithRole() failed with error -10814 for the file /tmp.");

    assert!(matches!(error, AppLaunchError::AppNotInstalled));
}

#[test]
fn app_launch_error_maps_bundle_identifier_lookup_failure() {
    let error = app_launch_error_from_output(
        Some(1),
        "LSCopyApplicationURLsForBundleIdentifier() failed while trying to determine the application with bundle identifier dev.oiekjr.fwddeck.",
    );

    assert!(matches!(error, AppLaunchError::AppNotInstalled));
}

#[test]
fn app_launch_error_reports_status_without_output() {
    assert_eq!(
        app_launch_error_from_output(Some(-3), "  \n"),
        AppLaunchError::AppLaunchFailed { message: "/usr/bin/open exited with status -3.".to_owned() }
    );
    assert_eq!(
        app_launch_error_from_output(None, ""),
        AppLaunchError::AppLaunchFailed { message: "/usr/bin/open was terminated by signal.".to_owned() }
    );
}

#[test]
fn app_launch_error_reports_trimmed_output() {
    assert_eq!(
        app_launch_error_from_output(Some(1), "  boom \n"),
        AppLaunchError::AppLaunchFailed { message: "/usr/bin/open の出力:\nboom".to_owned() }
    );
}

#[test]
fn pad_display_width_handles_wide_characters() {
    let value = "prod-ポリゴンDB";

    let padded = pad_display_width(value, 24);

    assert!(padded.starts_with(value));
    assert_eq!(UnicodeWidthStr::width(padded.as_str()), 24);
}

#[test]
fn pad_display_width_keeps_long_values() {
    let value = "japandb-as.cluster-clpmwhbh0sfa.ap-northeast-1.rds.amazonaws.com:5432";

    let padded = pad_display_width(value, 24);

    assert_eq!(padded, value);
}

#[test]
fn list_column_widths_expands_id_to_longest_value() {
    let config = effective_config_with_tunnels(vec![tunnel("db", 15432), tunnel("prod-登記情報管理システム", 15433)]);

    let rows = list_rows(&config.tunnels, false);
    let widths = list_column_widths(&rows);

    assert_eq!(widths.id, display_width("prod-登記情報管理システム"));
}

#[test]
fn list_column_widths_keep_minimums_for_short_values() {
    let config = effective_config_with_tunnels(vec![tunnel("db", 15432)]);

    let rows = list_rows(&config.tunnels, false);
    let widths = list_column_widths(&rows);

    assert_eq!((widths.id, widths.local, widths.remote, widths.ssh, widths.tags), (24, 24, 32, 32, 24));
    assert_eq!(rows[0].tags, "-");
    assert_eq!(rows[0].local, "127.0.0.1:15432");
}

#[test]
fn status_column_widths_expands_id_to_longest_value() {
    let statuses = [
        runtime_status("db", ProcessState::Running),
        runtime_status("prod-登記情報管理システム", ProcessState::Running),
    ];

    let rows = status_rows(&statuses, 1_700_000_000, false);
    let widths = status_column_widths(&rows);

    assert_eq!(widths.id, display_width("prod-登記情報管理システム"));
}

#[test]
fn status_rows_color_state_only_on_terminal() {
    let statuses = [runtime_status("db", ProcessState::Stale)];

    let plain = status_rows(&statuses, 1_700_000_090, false);
    let colored = status_rows(&statuses, 1_700_000_090, true);

    assert_eq!(plain[0].process_state, "STALE");
    assert_eq!(colored[0].process_state, "\x1b[31mSTALE\x1b[0m");
    assert_eq!(colored[0].process_state_width, 5);
    assert_eq!(plain[0].started, "1m ago");
    assert_eq!(plain[0].pid, "1000");
}

#[test]
fn pad_display_width_with_visible_width_ignores_decoration_width() {
    let value = "\x1b[32mRUNNING\x1b[0m";

    let padded = pad_display_width_with_visible_width(value, display_width("RUNNING"), 10);

    assert!(padded.starts_with(value));
    assert!(padded.ends_with("   "));
}

#[test]
fn format_list_remote_endpoint_truncates_host_and_keeps_port() {
    let mut tunnel = tunnel("db", 15432);
    tunnel.remote_host = "japandb-as.cluster-clpmwhbh0sfa.ap-northeast-1.rds.amazonaws.com".to_owned();

    let remote = format_list_remote_endpoint(&tunnel, false);
    let Some((host, port)) = remote.rsplit_once(':') else {
        panic!("remote endpoint should include a port");
    };

    assert_eq!(display_width(host), LIST_REMOTE_HOST_MAX_WIDTH);
    assert!(host.ends_with(TRUNCATION_MARKER));
    assert_eq!(port, "5432");
}

#[test]
fn format_list_remote_endpoint_keeps_full_host_when_wide() {
    let mut tunnel = tunnel("db", 15432);
    tunnel.remote_host = "japandb-as.cluster-clpmwhbh0sfa.ap-northeast-1.rds.amazonaws.com".to_owned();

    let remote = format_list_remote_endpoint(&tunnel, true);

    assert_eq!(remote, format_remote_endpoint(&tunnel));
}

#[test]
fn tunnel_matches_list_query_matches_id_case_insensitively() {
    let tunnel = tunnel("Dev-DB", 15432);

    assert!(tunnel_matches_list_query(&tunnel, "dev"));
}

#[test]
fn tunnel_matches_list_query_matches_description_case_insensitively() {
    let mut tunnel = tunnel("db", 15432);
    tunnel.description = Some("Development database".to_owned());

    assert!(tunnel_matches_list_query(&tunnel, "database"));
}

#[test]
fn select_tunnels_for_list_matches_tags_and_query() {
    let mut dev_db = tunnel("dev-db", 15432);
    dev_db.tags = vec!["dev".to_owned()];
    let mut prod_db = tunnel("prod-db", 25432);
    prod_db.tags = vec!["prod".to_owned()];
    let config = effective_config_with_tunnels(vec![dev_db, prod_db]);

    let tunnels = select_tunnels_for_list(&config, &["dev".to_owned()], Some("db"));

    assert_eq!(tunnels.len(), 1);
    assert_eq!(tunnels[0].tunnel.name, "dev-db");
}

#[test]
fn select_tunnels_for_list_sorts_tunnels_by_id() {
    let config = effective_config_with_tunnels(vec![tunnel("prod-db", 25432), tunnel("dev-db", 15432)]);

    let tunnels = select_tunnels_for_list(&config, &[], None);

    assert_eq!(tunnel_ids(&tunnels), vec!["dev-db", "prod-db"]);
}

#[test]
fn find_tunnel_by_id_returns_exact_match() {
    let config = effective_config_with_tunnels(vec![tunnel("dev-db", 15432)]);

    let tunnel = find_tunnel_by_name(&config, "dev-db", None);

    assert_eq!(tunnel.map(|resolved| resolved.tunnel.name.as_str()), Some("dev-db"));
}

#[test]
fn find_tunnel_by_id_does_not_return_partial_match() {
    let config = effective_config_with_tunnels(vec![tunnel("dev-db", 15432)]);

    let tunnel = find_tunnel_by_name(&config, "dev", None);

    assert!(tunnel.is_none());
}
