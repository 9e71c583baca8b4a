use fwd_deck::config::{ConfigSource, ConfigSourceKind, EffectiveConfig, LoadedConfigFile, ResolvedTunnelConfig, TimeoutConfig, TunnelConfig};
use fwd_deck::dashboard::{build_dashboard_state, format_state_ssh_endpoint, path_view};
use fwd_deck::runtime_paths::{
    collect_workspace_switch_stop_targets, global_state_status_is_visible, no_workspace_local_config_path,
    preferences_path_from_app_config_dir, resolve_global_config_path, runtime_paths_from_preferences,
    preferences_changed, scoped_runtime_statuses, stop_target_state_path, workspace_key, workspace_path_changed,
    workspace_state_file_path, workspace_switch_plan, workspace_switch_stop_failure_message, RuntimePathError,
    StopTargetError, WorkspaceSwitchStopTarget, STATE_FILE_NAME,
};
use fwd_deck::operations::OperationTargetInput;
use fwd_deck::state::TunnelState;
use fwd_deck::tunnel::{ProcessState, TunnelRuntimeStatus};
use fwd_deck::validate::ValidationReport;
use fwd_deck::workspace::{AppPreferences, RuntimeScope, ScopedRuntimeStatus, WorkspaceSelection};

fn tunnel(name: &str, local_port: u16) -> TunnelConfig {
    TunnelConfig {
        name: name.to_owned(),
        enabled: true,
        description: None,
        tags: Vec::new(),
        local_host: None,
        local_port,
        remote_host: "db.internal".to_owned(),
        remote_port: 5432,
        ssh_user: "user".to_owned(),
        ssh_host: "bastion.example.com".to_owned(),
        ssh_port: None,
        identity_file: None,
        timeouts: TimeoutConfig::default(),
    }
}

fn state(name: &str, kind: ConfigSourceKind, source_path: &str, pid: u32) -> TunnelState {
    let resolved = ResolvedTunnelConfig::new(ConfigSource::new(kind, source_path.to_owned()), tunnel(name, 15432));
    TunnelState::from_resolved_tunnel(&resolved, source_path, pid, 1_700_000_000)
}

fn status(name: &str, kind: ConfigSourceKind, source_path: &str, process_state: ProcessState) -> TunnelRuntimeStatus {
    TunnelRuntimeStatus { state: state(name, kind, source_path, 42), process_state }
}

fn preferences_with_workspace(path: &str) -> AppPreferences {
    let mut preferences = AppPreferences::default();
    preferences.active_workspace_path = Some(path.to_owned());
    preferences.workspace_history = vec![path.to_owned()];
    preferences
}

#[test]
fn workspace_key_is_fnv1a_of_path_in_lower_hex() {
    assert_eq!(workspace_key(""), "cbf29ce484222325");
    assert_eq!(workspace_key("a"), "af63dc4c8601ec8c");
    assert_eq!(workspace_key("foobar"), "85944171f73967e8");
    assert_eq!(workspace_key("/work/project"), "9f033b4e78300849");
}

#[test]
fn workspace_key_hashes_utf8_bytes() {
    assert_eq!(workspace_key("/Users/example/ワーク"), "b1dd036fb6b313c3");
}

#[test]
fn workspace_state_path_uses_stable_lower_hex_key() {
    let state_path = workspace_state_file_path("/app/config", "/work/project");
    let key = state_path
        .strip_suffix("/state.toml")
        .and_then(|parent| parent.rsplit('/').next())
        .expect("state path should contain workspace key");

    assert_eq!(key.len(), 16);
    assert!(key.chars().all(|character| character.is_ascii_hexdigit()));
    assert!(key.chars().all(|character| !character.is_ascii_uppercase()));
    assert!(state_path.ends_with(STATE_FILE_NAME));
    assert_eq!(state_path, "/app/config/workspace-states/9f033b4e78300849/state.toml");
}

#[test]
fn app_files_live_in_the_app_config_directory() {
    assert_eq!(preferences_path_from_app_config_dir("/app/config"), "/app/config/preferences.toml");
    assert_eq!(no_workspace_local_config_path("/app/config"), "/app/config/no-workspace/fwd-deck.toml");
}

#[test]
fn global_config_path_follows_preferences_then_default() {
    let mut preferences = AppPreferences::default();
    assert_eq!(
        resolve_global_config_path(&preferences, Some("/home/u/.config/fwd-deck/config.toml")),
        Ok(Some("/home/u/.config/fwd-deck/config.toml".to_owned()))
    );
    assert_eq!(resolve_global_config_path(&preferences, None), Err(RuntimePathError::MissingGlobalConfigPath));

    preferences.global_config_path = Some("/etc/fwd-deck.toml".to_owned());
    assert_eq!(resolve_global_config_path(&preferences, None), Ok(Some("/etc/fwd-deck.toml".to_owned())));

    preferences.use_global = false;
    assert_eq!(resolve_global_config_path(&preferences, None), Ok(None));
}

#[test]
fn runtime_paths_for_a_workspace() {
    let paths = runtime_paths_from_preferences(
        "/app/config",
        preferences_with_workspace("/work/project"),
        Some("/home/u/.config/fwd-deck/config.toml"),
        Some("/home/u/.local/state/fwd-deck/state.toml"),
    )
    .expect("paths resolve");

    assert_eq!(paths.config_paths.global.as_deref(), Some("/home/u/.config/fwd-deck/config.toml"));
    assert_eq!(paths.config_paths.local, "/work/project/fwd-deck.toml");
    assert_eq!(paths.local_config_path.as_deref(), Some("/work/project/fwd-deck.toml"));
    assert_eq!(paths.global_state_path, "/home/u/.local/state/fwd-deck/state.toml");
    assert_eq!(
        paths.workspace_state_path.as_deref(),
        Some("/app/config/workspace-states/9f033b4e78300849/state.toml")
    );
    assert_eq!(paths.config_path_for_scope(ConfigSourceKind::Local), Ok("/work/project/fwd-deck.toml".to_owned()));
}

#[test]
fn runtime_paths_without_a_workspace() {
    let paths = runtime_paths_from_preferences("/app/config", AppPreferences::default(), Some("/g.toml"), Some("/s.toml"))
        .expect("paths resolve");

    assert_eq!(paths.config_paths.local, "/app/config/no-workspace/fwd-deck.toml");
    assert_eq!(paths.local_config_path, None);
    assert_eq!(paths.workspace_state_path, None);
    assert_eq!(paths.config_path_for_scope(ConfigSourceKind::Local), Err(RuntimePathError::MissingWorkspace));
    assert_eq!(paths.state_path_for_source(ConfigSourceKind::Local), Err(RuntimePathError::MissingWorkspace));
    assert_eq!(paths.state_path_for_source(ConfigSourceKind::Global), Ok("/s.toml"));
}

#[test]
fn runtime_paths_refuse_missing_state_path() {
    let result = runtime_paths_from_preferences("/app/config", AppPreferences::default(), Some("/g.toml"), None);

    assert_eq!(result.err(), Some(RuntimePathError::MissingStatePath));

    let neither = runtime_paths_from_preferences("/app/config", AppPreferences::default(), None, None);
    assert_eq!(neither.err(), Some(RuntimePathError::MissingGlobalConfigPath));
}

#[test]
fn workspace_change_is_detected() {
    let a = preferences_with_workspace("/work/a");
    let b = preferences_with_workspace("/work/b");

    assert!(workspace_path_changed(&a, &b));
    assert!(!workspace_path_changed(&a, &preferences_with_workspace("/work/a")));
    assert!(workspace_path_changed(&a, &AppPreferences::default()));
}

#[test]
fn global_state_local_status_is_visible_for_active_workspace() {
    let s = status("db", ConfigSourceKind::Local, "/work/a/fwd-deck.toml", ProcessState::Running);

    assert!(global_state_status_is_visible(&s, true));
}

#[test]
fn global_state_local_status_is_hidden_for_other_workspace() {
    let s = status("db", ConfigSourceKind::Local, "/work/b/fwd-deck.toml", ProcessState::Running);

    assert!(!global_state_status_is_visible(&s, false));
    let global = status("db", ConfigSourceKind::Global, "/g.toml", ProcessState::Running);
    assert!(global_state_status_is_visible(&global, false));
}

#[test]
fn scoped_statuses_keep_visible_global_then_local_workspace_states() {
    let global = vec![
        status("g", ConfigSourceKind::Global, "/g.toml", ProcessState::Running),
        status("other", ConfigSourceKind::Local, "/work/b/fwd-deck.toml", ProcessState::Running),
        status("cli", ConfigSourceKind::Local, "/work/a/fwd-deck.toml", ProcessState::Stale),
    ];
    let workspace = vec![
        status("app", ConfigSourceKind::Local, "/work/a/fwd-deck.toml", ProcessState::Running),
        status("odd", ConfigSourceKind::Global, "/g.toml", ProcessState::Running),
    ];

    let scoped = scoped_runtime_statuses(&global, &[false, false, true], Some(workspace.as_slice()));
    let names: Vec<(&str, RuntimeScope)> =
        scoped.iter().map(|s| (s.status.state.name.as_str(), s.runtime_scope)).collect();

    assert_eq!(
        names,
        vec![("g", RuntimeScope::Global), ("cli", RuntimeScope::Global), ("app", RuntimeScope::Workspace)]
    );
}

#[test]
fn workspace_switch_stops_old_workspace_local_state() {
    let paths = runtime_paths_from_preferences(
        "/app/config",
        preferences_with_workspace("/work/a"),
        Some("/g.toml"),
        Some("/s.toml"),
    )
    .expect("paths resolve");
    let global = vec![status("cli-db", ConfigSourceKind::Local, "/work/a/fwd-deck.toml", ProcessState::Stale)];
    let workspace = vec![status("app-db", ConfigSourceKind::Local, "/work/a/fwd-deck.toml", ProcessState::Running)];

    let targets = collect_workspace_switch_stop_targets(&paths, &global, &[true], &workspace, &[true]);

    assert_eq!(targets.len(), 2);
    assert_eq!(targets[0].runtime_scope, RuntimeScope::Global);
    assert_eq!(targets[0].state_path, "/s.toml");
    assert_eq!(targets[0].id, global[0].state.runtime_id);
    assert_eq!(targets[1].runtime_scope, RuntimeScope::Workspace);
    assert_eq!(targets[1].display_id(), format!("workspace:{}", workspace[0].state.runtime_id));
}

#[test]
fn workspace_switch_keeps_global_source_state() {
    let paths = runtime_paths_from_preferences(
        "/app/config",
        preferences_with_workspace("/work/a"),
        Some("/g.toml"),
        Some("/s.toml"),
    )
    .expect("paths resolve");
    let global = vec![status("global-db", ConfigSourceKind::Global, "/g.toml", ProcessState::Running)];

    let targets = collect_workspace_switch_stop_targets(&paths, &global, &[true], &[], &[]);

    assert!(targets.is_empty());
}

#[test]
fn format_state_ssh_endpoint_shows_port_when_set() {
    let mut s = state("db", ConfigSourceKind::Local, "/work/a/fwd-deck.toml", 1);
    assert_eq!(format_state_ssh_endpoint(&s), "user@bastion.example.com");
    s.ssh_port = Some(2222);
    assert_eq!(format_state_ssh_endpoint(&s), "user@bastion.example.com:2222");
}

#[test]
fn dashboard_orders_tunnels_and_attaches_tracked_state() {
    let source = ConfigSource::new(ConfigSourceKind::Local, "/work/a/fwd-deck.toml".to_owned());
    let config = EffectiveConfig::new(
        vec![LoadedConfigFile::new(source.clone(), vec![tunnel("web", 18080), tunnel("api", 18081)])],
        vec![
            ResolvedTunnelConfig::new(source.clone(), tunnel("web", 18080)),
            ResolvedTunnelConfig::new(source, tunnel("api", 18081)),
        ],
    );
    let statuses = vec![
        ScopedRuntimeStatus {
            runtime_scope: RuntimeScope::Workspace,
            status: status("web", ConfigSourceKind::Local, "/work/a/fwd-deck.toml", ProcessState::Running),
        },
        ScopedRuntimeStatus {
            runtime_scope: RuntimeScope::Workspace,
            status: status("api", ConfigSourceKind::Local, "/work/a/fwd-deck.toml", ProcessState::Stale),
        },
        ScopedRuntimeStatus {
            runtime_scope: RuntimeScope::Global,
            status: status("web", ConfigSourceKind::Global, "/g.toml", ProcessState::Running),
        },
    ];
    let paths = runtime_paths_from_preferences("/app/config", preferences_with_workspace("/work/a"), Some("/g.toml"), Some("/s.toml"))
        .expect("paths resolve");

    let dashboard = build_dashboard_state(&paths, &config, &statuses, &ValidationReport::valid());

    assert!(dashboard.has_config);
    assert!(dashboard.validation.is_valid);
    assert_eq!(dashboard.paths.workspace_path, "/work/a");
    assert_eq!(dashboard.paths.global_config_path, "/g.toml");
    let names: Vec<&str> = dashboard.tunnels.iter().map(|t| t.name.as_str()).collect();
    assert_eq!(names, vec!["api", "web"]);
    assert_eq!(dashboard.tunnels[0].status.as_ref().map(|s| s.state.as_str()), Some("stale"));
    assert_eq!(dashboard.tunnels[1].status.as_ref().map(|s| s.runtime_key.as_str()), Some("workspace:web"));
    let followed: Vec<(&str, RuntimeScope)> =
        dashboard.tracked_tunnels.iter().map(|t| (t.name.as_str(), t.runtime_scope)).collect();
    assert_eq!(
        followed,
        vec![("api", RuntimeScope::Workspace), ("web", RuntimeScope::Global), ("web", RuntimeScope::Workspace)]
    );
    assert_eq!(dashboard.tracked_tunnels[0].local, "127.0.0.1:15432");
}

#[test]
fn path_view_leaves_absent_paths_empty() {
    let paths = runtime_paths_from_preferences("/app/config", AppPreferences::default(), Some("/g.toml"), Some("/s.toml"))
        .expect("paths resolve");

    let view = path_view(&paths);

    assert_eq!(view.workspace_path, "");
    assert_eq!(view.local_config_path, "");
    assert_eq!(view.workspace_state_path, "");
    assert_eq!(view.global_state_path, "/s.toml");
    assert!(view.use_global);
}

#[test]
fn preferences_change_is_detected_field_by_field() {
    let a = preferences_with_workspace("/work/a");
    let mut b = preferences_with_workspace("/work/a");
    assert!(!preferences_changed(&a, &b));
    b.workspace_history.push("/work/b".to_owned());
    assert!(preferences_changed(&a, &b));
    let mut c = preferences_with_workspace("/work/a");
    c.auto_stop_tunnels_on_quit = true;
    assert!(preferences_changed(&a, &c));
}

#[test]
fn workspace_switch_plan_stops_previous_only_when_workspace_changes() {
    let select = |path: &str| WorkspaceSelection {
        workspace_path: Some(path.to_owned()),
        global_config_path: None,
        use_global: None,
        hide_dock_icon_when_window_hidden: None,
        auto_stop_tunnels_on_quit: None,
    };

    let plan = workspace_switch_plan(
        preferences_with_workspace("/work/a"),
        Some("/work/a".to_owned()),
        vec!["/work/a".to_owned()],
        select("/work/b"),
    );
    assert!(plan.stop_previous);
    assert_eq!(plan.previous.active_workspace_path.as_deref(), Some("/work/a"));
    assert_eq!(plan.next.active_workspace_path.as_deref(), Some("/work/b"));
    assert_eq!(plan.next.workspace_history, vec!["/work/b".to_owned(), "/work/a".to_owned()]);

    let same = workspace_switch_plan(
        preferences_with_workspace("/work/a"),
        Some("/work/a".to_owned()),
        vec!["/work/a".to_owned()],
        select("/work/a"),
    );
    assert!(!same.stop_previous);
}

#[test]
fn stop_target_state_path_follows_scope_or_configured_kind() {
    let paths = runtime_paths_from_preferences("/app/config", AppPreferences::default(), Some("/g.toml"), Some("/s.toml"))
        .expect("paths resolve");
    let source = ConfigSource::new(ConfigSourceKind::Global, "/g.toml".to_owned());
    let config = EffectiveConfig::new(
        vec![LoadedConfigFile::new(source.clone(), vec![tunnel("db", 15432)])],
        vec![ResolvedTunnelConfig::new(source, tunnel("db", 15432))],
    );
    let target = |id: &str, runtime_scope| OperationTargetInput { id: id.to_owned(), runtime_scope };

    assert_eq!(stop_target_state_path(&paths, &config, &target("db", None)), Ok("/s.toml".to_owned()));
    assert_eq!(
        stop_target_state_path(&paths, &config, &target("x", Some(RuntimeScope::Global))),
        Ok("/s.toml".to_owned())
    );
    assert_eq!(
        stop_target_state_path(&paths, &config, &target("x", Some(RuntimeScope::Workspace))),
        Err(StopTargetError::MissingWorkspace)
    );
    let unknown = stop_target_state_path(&paths, &config, &target("x", None)).expect_err("unknown tunnel");
    assert_eq!(unknown.to_display_string(), "入力が不正です: 未定義のトンネル ID です: x");
}

#[test]
fn runtime_path_messages() {
    assert_eq!(
        RuntimePathError::MissingWorkspace.to_display_string(),
        "local 設定を操作するにはワークスペースを選択してください"
    );
    let target = WorkspaceSwitchStopTarget {
        id: "r1".to_owned(),
        runtime_scope: RuntimeScope::Workspace,
        state_path: "/s.toml".to_owned(),
    };
    assert_eq!(
        workspace_switch_stop_failure_message(&target, "denied"),
        "旧ワークスペースのポートフォワーディングを停止できませんでした: workspace:r1: denied"
    );
}
