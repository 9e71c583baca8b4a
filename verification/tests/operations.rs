use fwd_deck::config::{
    ConfigPaths, ConfigSource, ConfigSourceKind, EffectiveConfig, LoadedConfigFile, ResolvedTunnelConfig,
    TimeoutConfig, TunnelConfig,
};
use fwd_deck::display::{parse_tag_list, split_commas};
use fwd_deck::edit::ConfigEditError;
use fwd_deck::operations::{
    ensure_operation_targets_selected, operation_report_from_outcomes, operation_target_label, plan_start_operations,
    start_operation_result_outcome, stop_tunnel_result_for_app, tray_operation_event_from_report, OperationOutcome,
    OperationReport, OperationFailureView, OperationSuccessView, OperationTargetInput, TrayOperationResultEvent,
    MISSING_WORKSPACE_MESSAGE,
};
use fwd_deck::state::TunnelState;
use fwd_deck::targets::{
    choose_config_edit_target, config_edit_target_for_scope, config_edit_targets_for_id, config_path_for_scope,
    EditTargetChoice, EditTargetError,
};
use fwd_deck::tunnel::{ProcessState, StartedTunnel, StoppedTunnel, TunnelRuntimeError};
use fwd_deck::workspace::{
    ensure_valid_config, quit_plan, quit_request_decision, QuitConfirmationState, QuitPlan, QuitRequestDecision,
    QuitRunningTunnelsAction, QuitTunnelTarget, QuitTunnelTargets, RuntimeScope, TunnelInput,
};

fn tunnel(id: &str, local_port: u16) -> TunnelConfig {
    TunnelConfig {
        name: id.to_owned(),
        enabled: true,
        description: None,
        tags: Vec::new(),
        local_host: None,
        local_port,
        remote_host: "db.internal".to_owned(),
        remote_port: 5432,
        ssh_user: "user".to_owned(),
        ssh_host: "bastion.example.com".to_owned(),
        ssh_port: None,
        identity_file: None,
        timeouts: TimeoutConfig::default(),
    }
}

fn state(name: &str, pid: u32) -> TunnelState {
    TunnelState {
        runtime_id: format!("local:fwd-deck.toml:{name}"),
        name: name.to_owned(),
        pid,
        local_host: "127.0.0.1".to_owned(),
        local_port: 15432,
        remote_host: "db.internal".to_owned(),
        remote_port: 5432,
        ssh_user: "user".to_owned(),
        ssh_host: "bastion.example.com".to_owned(),
        ssh_port: None,
        source_kind: ConfigSourceKind::Local,
        source_path: "fwd-deck.toml".to_owned(),
        started_at_unix_seconds: 1_700_000_000,
    }
}

fn target(id: &str, scope: Option<RuntimeScope>) -> OperationTargetInput {
    OperationTargetInput { id: id.to_owned(), runtime_scope: scope }
}

fn mixed_config() -> EffectiveConfig {
    let global = ConfigSource::new(ConfigSourceKind::Global, "global.toml".to_owned());
    let local = ConfigSource::new(ConfigSourceKind::Local, "fwd-deck.toml".to_owned());
    EffectiveConfig::new(
        vec![
            LoadedConfigFile::new(global.clone(), vec![tunnel("shared", 15000)]),
            LoadedConfigFile::new(local.clone(), vec![tunnel("db", 15432), tunnel("cache", 16379)]),
        ],
        vec![
            ResolvedTunnelConfig::new(global, tunnel("shared", 15000)),
            ResolvedTunnelConfig::new(local.clone(), tunnel("db", 15432)),
            ResolvedTunnelConfig::new(local, tunnel("cache", 16379)),
        ],
    )
}

#[test]
fn operation_target_label_adds_scope() {
    assert_eq!(operation_target_label(&target("db", Some(RuntimeScope::Global))), "db (global)");
    assert_eq!(operation_target_label(&target("db", None)), "db");
}

#[test]
fn empty_batches_are_refused() {
    assert_eq!(
        ensure_operation_targets_selected(&[]),
        Err("入力が不正です: 操作対象のトンネルが選択されていません".to_owned())
    );
    assert!(plan_start_operations(&[], &mixed_config(), "g.toml", None).is_err());
}

#[test]
fn start_operations_are_grouped_by_state_file() {
    let config = mixed_config();
    let targets = vec![target("db", None), target("shared", None), target("missing", None), target("cache", None)];

    let plan = plan_start_operations(&targets, &config, "global-state.toml", Some("workspace-state.toml"))
        .expect("plan");

    assert_eq!(plan.groups.len(), 2);
    assert_eq!(plan.groups[0].state_path, "workspace-state.toml");
    assert_eq!(plan.groups[0].targets.iter().map(|t| t.index).collect::<Vec<_>>(), vec![0, 3]);
    assert_eq!(plan.groups[0].targets[1].tunnel.tunnel.name, "cache");
    assert_eq!(plan.groups[1].state_path, "global-state.toml");
    assert_eq!(plan.groups[1].targets.iter().map(|t| t.index).collect::<Vec<_>>(), vec![1]);
    assert_eq!(
        plan.outcomes[2],
        Some(OperationOutcome::Failed(OperationFailureView {
            id: "missing".to_owned(),
            message: "入力が不正です: 未定義のトンネル ID です: missing".to_owned(),
        }))
    );
    assert!(plan.outcomes[0].is_none());
}

#[test]
fn start_operations_need_a_workspace_for_local_tunnels() {
    let config = mixed_config();

    let plan = plan_start_operations(&[target("db", None)], &config, "global-state.toml", None).expect("plan");

    assert!(plan.groups.is_empty());
    assert!(matches!(&plan.outcomes[0], Some(OperationOutcome::Failed(f)) if f.message == MISSING_WORKSPACE_MESSAGE));
}

#[test]
fn start_results_become_outcomes() {
    let t = target("db", Some(RuntimeScope::Workspace));
    let started: Result<StartedTunnel, TunnelRuntimeError> = Ok(StartedTunnel { state: state("db", 7) });
    let running: Result<StartedTunnel, TunnelRuntimeError> = Err(TunnelRuntimeError::AlreadyRunning {
        runtime_id: "local:fwd-deck.toml:db".to_owned(),
        name: "db".to_owned(),
        pid: 8,
    });
    let untracked: Result<StartedTunnel, TunnelRuntimeError> =
        Err(TunnelRuntimeError::NotTracked { runtime_id: "x".to_owned() });

    assert_eq!(
        start_operation_result_outcome(&t, &started),
        OperationOutcome::Succeeded(OperationSuccessView {
            id: "db (workspace)".to_owned(),
            message: "db を開始しました (pid: 7)".to_owned(),
        })
    );
    assert_eq!(
        start_operation_result_outcome(&t, &running),
        OperationOutcome::Succeeded(OperationSuccessView {
            id: "db (workspace)".to_owned(),
            message: "db はすでに開始済みです (pid: 8)".to_owned(),
        })
    );
    assert_eq!(
        start_operation_result_outcome(&t, &untracked),
        OperationOutcome::Failed(OperationFailureView {
            id: "db (workspace)".to_owned(),
            message: "Tunnel is not tracked: x".to_owned(),
        })
    );
}

#[test]
fn stop_results_become_messages() {
    let stale: Result<StoppedTunnel, TunnelRuntimeError> =
        Ok(StoppedTunnel { state: state("db", 9), previous_state: ProcessState::Stale });
    let gone: Result<StoppedTunnel, TunnelRuntimeError> =
        Err(TunnelRuntimeError::NotTracked { runtime_id: "db".to_owned() });

    assert_eq!(stop_tunnel_result_for_app("db", &stale), Ok("db の stale 状態を削除しました (pid: 9)".to_owned()));
    assert_eq!(stop_tunnel_result_for_app("db", &gone), Ok("db はすでに停止済みです".to_owned()));
}

#[test]
fn reports_and_tray_events_summarise_outcomes() {
    let report = operation_report_from_outcomes(vec![
        Some(OperationOutcome::Succeeded(OperationSuccessView { id: "a".to_owned(), message: "ok".to_owned() })),
        None,
        Some(OperationOutcome::Skipped),
        Some(OperationOutcome::Failed(OperationFailureView { id: "b".to_owned(), message: "bad".to_owned() })),
        Some(OperationOutcome::Failed(OperationFailureView { id: "c".to_owned(), message: "worse".to_owned() })),
    ]);

    assert_eq!(report.succeeded.len(), 1);
    assert_eq!(report.failed.len(), 2);
    assert_eq!(
        tray_operation_event_from_report(&report),
        Some(TrayOperationResultEvent {
            kind: "info".to_owned(),
            summary: "1 件成功、2 件失敗しました".to_owned(),
            detail: Some("b: bad\nc: worse".to_owned()),
        })
    );

    let all_good = OperationReport {
        succeeded: vec![OperationSuccessView { id: "a".to_owned(), message: "ok".to_owned() }],
        failed: Vec::new(),
    };
    assert_eq!(
        tray_operation_event_from_report(&all_good),
        Some(TrayOperationResultEvent {
            kind: "success".to_owned(),
            summary: "1 件の操作が完了しました".to_owned(),
            detail: None,
        })
    );
    let nothing = OperationReport { succeeded: Vec::new(), failed: Vec::new() };
    assert_eq!(tray_operation_event_from_report(&nothing), None);
}

#[test]
fn edit_targets_follow_scope_and_count() {
    let paths = ConfigPaths::new(Some("global.toml".to_owned()), "fwd-deck.toml".to_owned());
    let global = LoadedConfigFile::new(
        ConfigSource::new(ConfigSourceKind::Global, "global.toml".to_owned()),
        vec![tunnel("db", 15000)],
    );
    let local = LoadedConfigFile::new(
        ConfigSource::new(ConfigSourceKind::Local, "fwd-deck.toml".to_owned()),
        vec![tunnel("db", 15432), tunnel("cache", 16379)],
    );

    assert_eq!(config_path_for_scope(&paths, ConfigSourceKind::Global), Some("global.toml".to_owned()));
    let both = config_edit_targets_for_id(&paths, Some(&global), Some(&local), "db");
    assert_eq!(both.len(), 2);
    assert_eq!(both[0].scope, ConfigSourceKind::Global);
    assert!(matches!(
        choose_config_edit_target(&paths, both, "db", false),
        Err(EditTargetError::Ambiguous { id }) if id == "db"
    ));

    let one = config_edit_targets_for_id(&paths, Some(&global), Some(&local), "cache");
    assert!(matches!(
        choose_config_edit_target(&paths, one, "cache", false),
        Ok(EditTargetChoice::Chosen(t)) if t.tunnel.local_port == 16379 && t.path == "fwd-deck.toml"
    ));
    assert_eq!(
        choose_config_edit_target(&paths, Vec::new(), "none", true),
        Err(EditTargetError::Edit(ConfigEditError::NotFound {
            path: "fwd-deck.toml".to_owned(),
            name: "none".to_owned()
        }))
    );

    let no_global = ConfigPaths::new(None, "fwd-deck.toml".to_owned());
    assert_eq!(
        config_edit_target_for_scope(&no_global, None, "db", ConfigSourceKind::Global),
        Err(EditTargetError::MissingGlobalConfigPath)
    );
    assert_eq!(
        config_edit_target_for_scope(&paths, None, "db", ConfigSourceKind::Local),
        Err(EditTargetError::Edit(ConfigEditError::Missing { path: "fwd-deck.toml".to_owned() }))
    );
}

#[test]
fn tag_lists_are_split_and_normalized() {
    assert_eq!(split_commas("a,,b"), vec!["a".to_owned(), String::new(), "b".to_owned()]);
    assert_eq!(parse_tag_list("  "), Ok(Vec::new()));
    assert_eq!(parse_tag_list(" Dev ,project-a"), Ok(vec!["dev".to_owned(), "project-a".to_owned()]));
    assert!(parse_tag_list("ok,bad tag").is_err());
}

#[test]
fn ensure_valid_config_lists_errors() {
    let source = ConfigSource::new(ConfigSourceKind::Local, "fwd-deck.toml".to_owned());
    let config = EffectiveConfig::new(
        vec![LoadedConfigFile::new(source.clone(), vec![tunnel("db", 15432), tunnel("db", 15432)])],
        vec![ResolvedTunnelConfig::new(source, tunnel("db", 15432))],
    );

    let result = ensure_valid_config(&config);

    assert!(matches!(&result, Err(m) if m.starts_with("設定にエラーがあります: Duplicate name in the same configuration file")));
    assert_eq!(ensure_valid_config(&EffectiveConfig::new(Vec::new(), Vec::new())), Ok(()));
}

#[test]
fn tunnel_input_is_trimmed() {
    let input = TunnelInput {
        id: " db ".to_owned(),
        description: Some("  ".to_owned()),
        tags: vec![" dev ".to_owned()],
        local_host: " 127.0.0.1 ".to_owned(),
        local_port: 15432,
        remote_host: " db.internal".to_owned(),
        remote_port: 5432,
        ssh_user: "user ".to_owned(),
        ssh_host: " bastion".to_owned(),
        ssh_port: Some(22),
        identity_file: Some(" ~/.ssh/id ".to_owned()),
    };

    let tunnel = input.into_tunnel_config();

    assert_eq!(tunnel.name, "db");
    assert_eq!(tunnel.description, None);
    assert_eq!(tunnel.tags, vec!["dev".to_owned()]);
    assert_eq!(tunnel.local_host.as_deref(), Some("127.0.0.1"));
    assert_eq!(tunnel.identity_file.as_deref(), Some("~/.ssh/id"));
    assert!(tunnel.enabled);
}

#[test]
fn quit_flow_decisions() {
    assert_eq!(
        quit_request_decision(QuitConfirmationState::Idle),
        (QuitConfirmationState::Prompting, QuitRequestDecision::Inspect)
    );
    assert_eq!(
        quit_request_decision(QuitConfirmationState::Prompting),
        (QuitConfirmationState::Prompting, QuitRequestDecision::Prevent)
    );
    assert_eq!(
        quit_request_decision(QuitConfirmationState::Proceeding),
        (QuitConfirmationState::Proceeding, QuitRequestDecision::Allow)
    );
    let none = QuitTunnelTargets { running: Vec::new(), stale: Vec::new() };
    let some = QuitTunnelTargets {
        running: vec![QuitTunnelTarget {
            id: "db".to_owned(),
            runtime_scope: RuntimeScope::Global,
            state_path: "s.toml".to_owned(),
            process_state: ProcessState::Running,
        }],
        stale: Vec::new(),
    };
    assert_eq!(quit_plan(&none, QuitRunningTunnelsAction::Prompt), QuitPlan::QuitNow);
    assert_eq!(quit_plan(&some, QuitRunningTunnelsAction::AutoStop), QuitPlan::StopRunningThenQuit);
    assert_eq!(quit_plan(&some, QuitRunningTunnelsAction::Prompt), QuitPlan::AskUser);
}
