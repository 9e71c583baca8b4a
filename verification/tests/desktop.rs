use fwd_deck::config::{
    ConfigSource, ConfigSourceKind, EffectiveConfig, LoadedConfigFile, ResolvedTunnelConfig, TimeoutConfig,
    TunnelConfig,
};
use fwd_deck::state::TunnelState;
use fwd_deck::tunnel::{ProcessState, TunnelRuntimeStatus};
use fwd_deck::validate::validate_config;
use fwd_deck::workspace::{
    apply_workspace_selection, normalize_loaded_preferences, quit_confirmation_message, quit_running_tunnels_action,
    remember_workspace_path, remove_workspace_history_entry_from_preferences, runtime_scope_for_source,
    runtime_status_key, runtime_status_lookup_key, tray_icon_kind, tray_tunnel_menu_items, tray_workspace_menu_items,
    quit_dialog_action, quit_tunnel_targets_from_statuses, validate_new_tunnel, AppPreferences, DialogAnswer,
    QuitDialogAction, QUIT_DIALOG_KEEP_LABEL, QUIT_DIALOG_STOP_LABEL, QuitRunningTunnelsAction, RuntimeScope, ScopedRuntimeStatus, TrayIconKind,
    TrayTunnelMenuItem, TrayTunnelOperation, TrayWorkspaceMenuItem, WorkspaceSelection,
    TRAY_MENU_CURRENT_WORKSPACE, WORKSPACE_HISTORY_LIMIT, tray_tunnels_notice, tray_tunnels_submenu, TrayTunnelsEntry,
};

fn display_path(path: &str) -> String {
    path.to_owned()
}

fn empty_selection() -> WorkspaceSelection {
    WorkspaceSelection {
        workspace_path: None,
        global_config_path: None,
        use_global: None,
        hide_dock_icon_when_window_hidden: None,
        auto_stop_tunnels_on_quit: None,
    }
}

fn tunnel_config(id: &str, local_port: u16) -> TunnelConfig {
    TunnelConfig {
        name: id.to_owned(),
        enabled: true,
        description: None,
        tags: Vec::new(),
        local_host: None,
        local_port,
        remote_host: "127.0.0.1".to_owned(),
        remote_port: 5432,
        ssh_user: "user".to_owned(),
        ssh_host: "bastion.example.com".to_owned(),
        ssh_port: None,
        identity_file: None,
        timeouts: TimeoutConfig::default(),
    }
}

fn resolved_tunnel_with_port(id: &str, source_path: &str, local_port: u16) -> ResolvedTunnelConfig {
    ResolvedTunnelConfig::new(
        ConfigSource::new(ConfigSourceKind::Local, source_path.to_owned()),
        tunnel_config(id, local_port),
    )
}

fn tunnel_state(id: &str, source_kind: ConfigSourceKind, source_path: &str, pid: u32) -> TunnelState {
    TunnelState {
        runtime_id: format!("{}:{}:{}", if source_kind == ConfigSourceKind::Global { "global" } else { "local" }, source_path, id),
        name: id.to_owned(),
        pid,
        local_host: "127.0.0.1".to_owned(),
        local_port: 15432,
        remote_host: "127.0.0.1".to_owned(),
        remote_port: 5432,
        ssh_user: "user".to_owned(),
        ssh_host: "bastion.example.com".to_owned(),
        ssh_port: None,
        source_kind,
        source_path: source_path.to_owned(),
        started_at_unix_seconds: 1_700_000_000,
    }
}

fn runtime_status(source_kind: ConfigSourceKind, source_path: &str) -> TunnelRuntimeStatus {
    TunnelRuntimeStatus { state: tunnel_state("db", source_kind, source_path, 1000), process_state: ProcessState::Running }
}

fn scoped_runtime_status(
    resolved: &ResolvedTunnelConfig,
    runtime_scope: RuntimeScope,
    process_state: ProcessState,
) -> ScopedRuntimeStatus {
    ScopedRuntimeStatus {
        runtime_scope,
        status: TunnelRuntimeStatus {
            state: TunnelState::from_resolved_tunnel(resolved, resolved.source.path.as_str(), 1000, 1_700_000_000),
            process_state,
        },
    }
}

fn tray_item_by_id<'a>(items: &'a [TrayTunnelMenuItem], id: &str) -> &'a TrayTunnelMenuItem {
    items.iter().find(|item| item.action.id == id).expect("tray item should exist")
}

fn workspace_item_by_path<'a>(items: &'a [TrayWorkspaceMenuItem], path: &str) -> &'a TrayWorkspaceMenuItem {
    items
        .iter()
        .find(|item| item.action.as_ref().map(|action| action.workspace_path == path).unwrap_or(false))
        .expect("workspace item should exist")
}

#[test]
fn workspace_selection_updates_dock_visibility_preference() {
    let mut preferences = AppPreferences::default();

    apply_workspace_selection(
        &mut preferences,
        WorkspaceSelection { hide_dock_icon_when_window_hidden: Some(true), ..empty_selection() },
    );

    assert!(preferences.hide_dock_icon_when_window_hidden);
}

#[test]
fn workspace_selection_updates_auto_stop_tunnels_on_quit_preference() {
    let mut preferences = AppPreferences::default();

    apply_workspace_selection(
        &mut preferences,
        WorkspaceSelection { auto_stop_tunnels_on_quit: Some(true), ..empty_selection() },
    );

    assert!(preferences.auto_stop_tunnels_on_quit);
}

#[test]
fn workspace_selection_updates_history_without_duplicates() {
    let mut preferences = AppPreferences::default();

    for path in ["/tmp/first", "/tmp/second", "/tmp/first"] {
        apply_workspace_selection(
            &mut preferences,
            WorkspaceSelection { workspace_path: Some(path.to_owned()), ..empty_selection() },
        );
    }

    assert_eq!(preferences.active_workspace_path.as_deref(), Some("/tmp/first"));
    assert_eq!(preferences.workspace_history, vec!["/tmp/first".to_owned(), "/tmp/second".to_owned()]);
}

#[test]
fn workspace_selection_with_blank_path_clears_workspace() {
    let mut preferences = AppPreferences::default();
    apply_workspace_selection(
        &mut preferences,
        WorkspaceSelection { workspace_path: Some("/tmp/first".to_owned()), ..empty_selection() },
    );

    apply_workspace_selection(
        &mut preferences,
        WorkspaceSelection {
            workspace_path: Some("  ".to_owned()),
            global_config_path: Some(" ".to_owned()),
            use_global: Some(false),
            ..empty_selection()
        },
    );

    assert!(preferences.active_workspace_path.is_none());
    assert!(preferences.global_config_path.is_none());
    assert!(!preferences.use_global);
    assert_eq!(preferences.workspace_history, vec!["/tmp/first".to_owned()]);
}

#[test]
fn workspace_history_is_limited_to_ten_entries() {
    let mut preferences = AppPreferences::default();

    for index in 0..12 {
        apply_workspace_selection(
            &mut preferences,
            WorkspaceSelection { workspace_path: Some(format!("/tmp/workspace-{index}")), ..empty_selection() },
        );
    }

    assert_eq!(preferences.workspace_history.len(), WORKSPACE_HISTORY_LIMIT);
    assert_eq!(preferences.workspace_history[0], "/tmp/workspace-11");
}

#[test]
fn remember_workspace_path_moves_path_to_front() {
    let mut preferences = AppPreferences {
        workspace_history: vec!["/a".to_owned(), "/b".to_owned(), "/c".to_owned()],
        ..AppPreferences::default()
    };

    remember_workspace_path(&mut preferences, "/b".to_owned());

    assert_eq!(preferences.workspace_history, vec!["/b".to_owned(), "/a".to_owned(), "/c".to_owned()]);
}

#[test]
fn normalize_loaded_preferences_drops_repeats_and_missing_entries() {
    let mut preferences = AppPreferences { version: 0, ..AppPreferences::default() };

    normalize_loaded_preferences(
        &mut preferences,
        Some("/a".to_owned()),
        vec!["/a".to_owned(), "/b".to_owned(), "/a".to_owned()],
    );

    assert_eq!(preferences.version, AppPreferences::default().version);
    assert_eq!(preferences.active_workspace_path.as_deref(), Some("/a"));
    assert_eq!(preferences.workspace_history, vec!["/a".to_owned(), "/b".to_owned()]);
}

#[test]
fn workspace_history_removal_keeps_active_workspace() {
    let mut preferences = AppPreferences {
        active_workspace_path: Some("/a".to_owned()),
        workspace_history: vec!["/a".to_owned(), "/b".to_owned()],
        ..AppPreferences::default()
    };

    remove_workspace_history_entry_from_preferences(&mut preferences, "/a", Some("/a".to_owned()))
        .expect("remove history entry");

    assert_eq!(preferences.active_workspace_path.as_deref(), Some("/a"));
    assert_eq!(preferences.workspace_history, vec!["/b".to_owned()]);
}

#[test]
fn workspace_history_removal_rejects_blank_path() {
    let mut preferences = AppPreferences::default();

    let result = remove_workspace_history_entry_from_preferences(&mut preferences, "  ", None);

    assert_eq!(result, Err("削除対象のワークスペースパスが空です".to_owned()));
}

#[test]
fn tray_menu_items_reflect_running_and_stale_tunnels() {
    let running = resolved_tunnel_with_port("running-db", "fwd-deck.toml", 15432);
    let stale = resolved_tunnel_with_port("stale-db", "fwd-deck.toml", 15433);
    let idle = resolved_tunnel_with_port("idle-db", "fwd-deck.toml", 15434);
    let config = EffectiveConfig::new(Vec::new(), vec![running.clone(), stale.clone(), idle.clone()]);
    let statuses = vec![
        scoped_runtime_status(&running, RuntimeScope::Workspace, ProcessState::Running),
        scoped_runtime_status(&stale, RuntimeScope::Workspace, ProcessState::Stale),
    ];
    let validation = validate_config(&config);

    let items = tray_tunnel_menu_items(&config, &statuses, &validation);

    let running_item = tray_item_by_id(&items, "running-db");
    assert!(running_item.checked);
    assert!(running_item.enabled);
    assert_eq!(running_item.action.operation, TrayTunnelOperation::Stop);
    assert_eq!(running_item.action.runtime_scope, Some(RuntimeScope::Workspace));

    let stale_item = tray_item_by_id(&items, "stale-db");
    assert_eq!(stale_item.label, "stale-db (stale)");
    assert!(!stale_item.checked);
    assert!(stale_item.enabled);
    assert_eq!(stale_item.action.operation, TrayTunnelOperation::Start);

    let idle_item = tray_item_by_id(&items, "idle-db");
    assert!(!idle_item.checked);
    assert!(idle_item.enabled);
    assert_eq!(idle_item.action.operation, TrayTunnelOperation::Start);
}

#[test]
fn tray_icon_kind_reflects_running_tunnels() {
    let running = resolved_tunnel_with_port("running-db", "fwd-deck.toml", 15432);
    let stale = resolved_tunnel_with_port("stale-db", "fwd-deck.toml", 15433);
    let stale_status = scoped_runtime_status(&stale, RuntimeScope::Workspace, ProcessState::Stale);
    let running_status = scoped_runtime_status(&running, RuntimeScope::Workspace, ProcessState::Running);

    assert_eq!(tray_icon_kind(&[]), TrayIconKind::Idle);
    assert_eq!(tray_icon_kind(&[stale_status]), TrayIconKind::Idle);
    assert_eq!(tray_icon_kind(&[running_status]), TrayIconKind::Active);
}

#[test]
fn tray_menu_items_disable_start_actions_when_config_is_invalid() {
    let running = resolved_tunnel_with_port("running-db", "fwd-deck.toml", 15432);
    let mut invalid = resolved_tunnel_with_port("idle-db", "fwd-deck.toml", 15433);
    invalid.tunnel.remote_host.clear();
    let config = EffectiveConfig::new(Vec::new(), vec![running.clone(), invalid.clone()]);
    let statuses = vec![scoped_runtime_status(&running, RuntimeScope::Workspace, ProcessState::Running)];
    let validation = validate_config(&config);

    let items = tray_tunnel_menu_items(&config, &statuses, &validation);

    assert!(tray_item_by_id(&items, "running-db").enabled);
    assert!(!tray_item_by_id(&items, "idle-db").enabled);
}

#[test]
fn tray_workspace_menu_items_reflect_current_and_history() {
    let active = "/tmp/fwd-deck-active";
    let recent = "/tmp/fwd-deck-recent";
    let preferences = AppPreferences {
        active_workspace_path: Some(active.to_owned()),
        workspace_history: vec![active.to_owned(), recent.to_owned()],
        ..AppPreferences::default()
    };

    let items = tray_workspace_menu_items(&preferences);

    let current = &items[0];
    assert_eq!(current.menu_id, TRAY_MENU_CURRENT_WORKSPACE);
    assert!(current.label.contains(&display_path(active)));
    assert!(current.checked);
    assert!(!current.enabled);
    assert!(current.action.is_none());

    let recent_item = workspace_item_by_path(&items, recent);
    assert_eq!(recent_item.label, display_path(recent));
    assert!(!recent_item.checked);
    assert!(recent_item.enabled);
    assert_eq!(items.len(), 2);
}

#[test]
fn tray_workspace_menu_items_without_workspace() {
    let items = tray_workspace_menu_items(&AppPreferences::default());

    assert_eq!(items.len(), 1);
    assert_eq!(items[0].label, "No workspace selected");
    assert!(!items[0].checked);
}

#[test]
fn quit_confirmation_message_uses_compact_text() {
    let message = quit_confirmation_message();

    assert_eq!(message, "起動中のポートフォワーディングがあります。\n停止して終了しますか？");
}

#[test]
fn quit_running_tunnels_action_reflects_auto_stop_preference() {
    let prompt_preferences = AppPreferences::default();
    let auto_stop_preferences = AppPreferences { auto_stop_tunnels_on_quit: true, ..AppPreferences::default() };

    assert_eq!(quit_running_tunnels_action(&prompt_preferences), QuitRunningTunnelsAction::Prompt);
    assert_eq!(quit_running_tunnels_action(&auto_stop_preferences), QuitRunningTunnelsAction::AutoStop);
}

#[test]
fn runtime_scope_matches_config_source_kind() {
    assert_eq!(runtime_scope_for_source(ConfigSourceKind::Global), RuntimeScope::Global);
    assert_eq!(runtime_scope_for_source(ConfigSourceKind::Local), RuntimeScope::Workspace);
}

#[test]
fn runtime_status_key_includes_scope_and_id() {
    assert_eq!(runtime_status_key(RuntimeScope::Global, "db"), "global:db");
    assert_eq!(runtime_status_key(RuntimeScope::Workspace, "db"), "workspace:db");
}

#[test]
fn runtime_status_lookup_key_uses_config_source_kind() {
    let status = ScopedRuntimeStatus {
        runtime_scope: RuntimeScope::Global,
        status: runtime_status(ConfigSourceKind::Local, "fwd-deck.toml"),
    };

    assert_eq!(runtime_status_lookup_key(&status), (RuntimeScope::Workspace, "db"));
}

#[test]
fn validate_new_tunnel_reports_first_problem() {
    let source = ConfigSource::new(ConfigSourceKind::Local, "fwd-deck.toml".to_owned());
    let config = EffectiveConfig::new(
        vec![LoadedConfigFile::new(source.clone(), vec![tunnel_config("db", 15432)])],
        vec![ResolvedTunnelConfig::new(source, tunnel_config("db", 15432))],
    );

    let mut blank = tunnel_config("cache", 16379);
    blank.ssh_user = " ".to_owned();
    assert_eq!(validate_new_tunnel(&config, &blank), Err("ssh_user は必須です".to_owned()));

    let mut bad_tag = tunnel_config("cache", 16379);
    bad_tag.tags = vec!["ok".to_owned(), "Bad Tag".to_owned()];
    assert_eq!(
        validate_new_tunnel(&config, &bad_tag),
        Err("tag は小文字 ASCII、数字、'-'、'_'、'.'、'/' のみ使用できます: Bad Tag".to_owned())
    );

    assert_eq!(
        validate_new_tunnel(&config, &tunnel_config("db", 16379)),
        Err("同じ ID のトンネルが既に存在します: db (fwd-deck.toml)".to_owned())
    );
    assert_eq!(
        validate_new_tunnel(&config, &tunnel_config("cache", 15432)),
        Err("local_port は既存トンネルと重複しています: 15432 (db)".to_owned())
    );
    assert_eq!(validate_new_tunnel(&config, &tunnel_config("cache", 16379)), Ok(()));
}

#[test]
fn quit_dialog_action_maps_custom_buttons() {
    assert_eq!(
        quit_dialog_action(&DialogAnswer::Custom(QUIT_DIALOG_STOP_LABEL.to_owned())),
        QuitDialogAction::StopAndQuit
    );
    assert_eq!(
        quit_dialog_action(&DialogAnswer::Custom(QUIT_DIALOG_KEEP_LABEL.to_owned())),
        QuitDialogAction::QuitOnly
    );
    assert_eq!(quit_dialog_action(&DialogAnswer::Cancel), QuitDialogAction::Cancel);
    assert_eq!(quit_dialog_action(&DialogAnswer::Yes), QuitDialogAction::StopAndQuit);
    assert_eq!(quit_dialog_action(&DialogAnswer::No), QuitDialogAction::QuitOnly);
    assert_eq!(quit_dialog_action(&DialogAnswer::Custom("other".to_owned())), QuitDialogAction::Cancel);
}

#[test]
fn collect_visible_quit_targets_separates_stale_state() {
    let statuses = vec![ScopedRuntimeStatus {
        runtime_scope: RuntimeScope::Global,
        status: TunnelRuntimeStatus {
            state: tunnel_state("db", ConfigSourceKind::Global, "global-fwd-deck.toml", u32::MAX),
            process_state: ProcessState::Stale,
        },
    }];

    let targets =
        quit_tunnel_targets_from_statuses(&statuses, "global-state.toml", None).expect("collect quit targets");

    assert!(targets.running.is_empty());
    assert_eq!(targets.stale.len(), 1);
    assert_eq!(targets.stale[0].process_state, ProcessState::Stale);
    assert_eq!(targets.stale[0].state_path, "global-state.toml");
}

#[test]
fn quit_targets_need_a_workspace_for_workspace_states() {
    let statuses = vec![ScopedRuntimeStatus {
        runtime_scope: RuntimeScope::Workspace,
        status: runtime_status(ConfigSourceKind::Local, "fwd-deck.toml"),
    }];

    assert!(quit_tunnel_targets_from_statuses(&statuses, "global-state.toml", None).is_none());
    let targets = quit_tunnel_targets_from_statuses(&statuses, "global-state.toml", Some("workspace-state.toml"))
        .expect("collect quit targets");
    assert_eq!(targets.running.len(), 1);
    assert_eq!(targets.running[0].state_path, "workspace-state.toml");
    assert_eq!(targets.running[0].runtime_scope, RuntimeScope::Workspace);
}

#[test]
fn quit_targets_carry_runtime_ids_and_show_scope() {
    let status = ScopedRuntimeStatus {
        runtime_scope: RuntimeScope::Global,
        status: runtime_status(ConfigSourceKind::Global, "global-fwd-deck.toml"),
    };
    let runtime_id = status.status.state.runtime_id.clone();

    let targets =
        quit_tunnel_targets_from_statuses(&[status], "global-state.toml", None).expect("collect quit targets");

    assert_eq!(targets.running.len(), 1);
    assert_eq!(targets.running[0].id, runtime_id);
    assert_eq!(targets.running[0].display_id(), format!("global:{runtime_id}"));
}

#[test]
fn tray_tunnels_submenu_shows_notices_for_no_tunnels_and_invalid_config() {
    assert_eq!(tray_tunnels_submenu(0, true), vec![TrayTunnelsEntry::NoTunnels]);
    assert_eq!(tray_tunnels_submenu(2, true), vec![TrayTunnelsEntry::Item(0), TrayTunnelsEntry::Item(1)]);
    assert_eq!(
        tray_tunnels_submenu(1, false),
        vec![TrayTunnelsEntry::Item(0), TrayTunnelsEntry::Separator, TrayTunnelsEntry::InvalidConfig]
    );
    assert_eq!(
        tray_tunnels_notice(TrayTunnelsEntry::NoTunnels),
        Some(("tray-no-tunnels".to_owned(), "No tunnels configured".to_owned()))
    );
    assert_eq!(
        tray_tunnels_notice(TrayTunnelsEntry::InvalidConfig),
        Some(("tray-invalid-config".to_owned(), "Config has errors".to_owned()))
    );
    assert_eq!(tray_tunnels_notice(TrayTunnelsEntry::Item(0)), None);
}
