use fwd_deck::config::{
    ConfigSource, ConfigSourceKind, EffectiveConfig, LoadedConfigFile, LoadedConfigOverrideFile, ResolvedTimeoutConfig,
    ResolvedTunnelConfig, TimeoutConfig, TunnelConfig, TunnelConfigOverride,
};
use fwd_deck::config::load_effective_config;
use fwd_deck::edit::{override_file_for_missing_path, ConfigEditError};
use fwd_deck::lsof::{lsof_output_is_readable, LocalPortProcess, LocalPortProcesses};
use fwd_deck::selection::find_tunnel_id_conflict_for_update;
use fwd_deck::state::{TunnelState, TunnelStateFile};
use fwd_deck::tunnel::{
    check_tunnel_not_running, plan_start_batch, readiness_action, record_started_tunnels, tunnel_statuses_from_state_file,
    ProcessState, ReadinessAction, RuntimeStatusProbe, StartedTunnel, TunnelRuntimeError,
};

fn tunnel(name: &str, local_port: u16) -> TunnelConfig {
    TunnelConfig {
        name: name.to_owned(),
        enabled: true,
        description: None,
        tags: Vec::new(),
        local_host: None,
        local_port,
        remote_host: "db.internal".to_owned(),
        remote_port: 5432,
        ssh_user: "user".to_owned(),
        ssh_host: "bastion.example.com".to_owned(),
        ssh_port: None,
        identity_file: None,
        timeouts: TimeoutConfig::default(),
    }
}

fn local_source() -> ConfigSource {
    ConfigSource::new(ConfigSourceKind::Local, "/work/fwd-deck.toml".to_owned())
}

fn state(name: &str, local_port: u16, pid: u32) -> TunnelState {
    let resolved = ResolvedTunnelConfig::new(local_source(), tunnel(name, local_port));
    TunnelState::from_resolved_tunnel(&resolved, "/work/fwd-deck.toml", pid, 1_700_000_000)
}

fn listening(pid: u32, local_port: u16) -> LocalPortProcesses {
    LocalPortProcesses::new(vec![LocalPortProcess {
        command: "ssh".to_owned(),
        pid,
        endpoint: Some(format!("127.0.0.1:{local_port} (LISTEN)")),
    }])
}

#[test]
fn readiness_action_fails_on_exit_before_anything_else() {
    assert_eq!(readiness_action(true, true, 0, 1_000), ReadinessAction::EarlyExit);
}

#[test]
fn readiness_action_is_ready_when_listening_or_waited_out() {
    assert_eq!(readiness_action(false, true, 0, 1_000), ReadinessAction::Ready);
    assert_eq!(readiness_action(false, false, 1_000, 1_000), ReadinessAction::Ready);
}

#[test]
fn readiness_action_waits_probe_interval_or_rest_of_wait() {
    assert_eq!(readiness_action(false, false, 0, 1_000), ReadinessAction::Wait(25));
    assert_eq!(readiness_action(false, false, 990, 1_000), ReadinessAction::Wait(10));
}

#[test]
fn check_tunnel_not_running_refuses_running_tunnel() {
    let mut file = TunnelStateFile::new();
    let s = state("db", 15432, 1234);
    let runtime_id = s.runtime_id.clone();
    file.upsert(s);
    let probe = RuntimeStatusProbe::new(vec![1234], listening(1234, 15432));

    let result = check_tunnel_not_running(&file, &probe, &runtime_id);

    assert_eq!(
        result,
        Err(TunnelRuntimeError::AlreadyRunning { runtime_id, name: "db".to_owned(), pid: 1234 })
    );
}

#[test]
fn check_tunnel_not_running_accepts_stale_or_unknown_tunnel() {
    let mut file = TunnelStateFile::new();
    let s = state("db", 15432, 1234);
    let runtime_id = s.runtime_id.clone();
    file.upsert(s);
    let not_listening = RuntimeStatusProbe::new(vec![1234], LocalPortProcesses::default());
    let gone = RuntimeStatusProbe::new(Vec::new(), listening(1234, 15432));

    assert_eq!(check_tunnel_not_running(&file, &not_listening, &runtime_id), Ok(()));
    assert_eq!(check_tunnel_not_running(&file, &gone, &runtime_id), Ok(()));
    assert_eq!(check_tunnel_not_running(&file, &not_listening, "local:/work/fwd-deck.toml:api"), Ok(()));
}

#[test]
fn record_started_tunnels_adds_and_replaces_states() {
    let mut file = TunnelStateFile::new();
    record_started_tunnels(
        &mut file,
        &vec![StartedTunnel { state: state("db", 15432, 1) }, StartedTunnel { state: state("api", 18080, 2) }],
    );
    assert_eq!(file.tunnels.len(), 2);

    let restarted = state("db", 15432, 3);
    let runtime_id = restarted.runtime_id.clone();
    record_started_tunnels(&mut file, &vec![StartedTunnel { state: restarted }]);

    assert_eq!(file.tunnels.len(), 2);
    assert_eq!(file.get(&runtime_id).map(|s| s.pid), Some(3));
}

#[test]
fn tunnel_statuses_from_state_file_keeps_order_and_probes_each() {
    let mut file = TunnelStateFile::new();
    file.upsert(state("db", 15432, 1));
    file.upsert(state("api", 18080, 2));
    let probe = RuntimeStatusProbe::new(vec![1, 2], listening(1, 15432));

    let statuses = tunnel_statuses_from_state_file(file, &probe);

    assert_eq!(statuses.len(), 2);
    assert_eq!(statuses[0].state.name, "db");
    assert_eq!(statuses[0].process_state, ProcessState::Running);
    assert_eq!(statuses[1].state.name, "api");
    assert_eq!(statuses[1].process_state, ProcessState::Stale);
}

#[test]
fn lsof_output_is_readable_rejects_non_ascii_field_letters() {
    assert!(lsof_output_is_readable("p1234\ncssh\nn127.0.0.1:15432 (LISTEN)\n"));
    assert!(lsof_output_is_readable(""));
    assert!(!lsof_output_is_readable("p1234\nécssh\n"));
}

#[test]
fn load_effective_config_applies_override_and_keeps_disabled_out_of_run_list() {
    let mut disabled = tunnel("old", 19000);
    disabled.enabled = false;
    let file = LoadedConfigFile::new(local_source(), vec![tunnel("db", 15432), disabled]);
    let mut port_override = TunnelConfigOverride::new("db".to_owned());
    port_override.local_port = Some(25432);
    let overrides = LoadedConfigOverrideFile::new(
        ConfigSource::new(ConfigSourceKind::Local, "/work/fwd-deck.local.toml".to_owned()),
        vec![port_override],
    );

    let config = load_effective_config(vec![file], Some(overrides));

    assert_eq!(config.configured_tunnels.len(), 2);
    assert_eq!(config.tunnels.len(), 1);
    assert_eq!(config.tunnels[0].tunnel.name, "db");
    assert_eq!(config.tunnels[0].tunnel.local_port, 25432);
}

#[test]
fn find_tunnel_id_conflict_for_update_ignores_the_tunnel_itself() {
    let source = local_source();
    let config = EffectiveConfig::new(
        vec![LoadedConfigFile::new(source.clone(), vec![tunnel("db", 15432), tunnel("api", 18080)])],
        vec![
            ResolvedTunnelConfig::new(source.clone(), tunnel("db", 15432)),
            ResolvedTunnelConfig::new(source, tunnel("api", 18080)),
        ],
    );

    let conflict = find_tunnel_id_conflict_for_update(&config, ConfigSourceKind::Local, "db", "api");
    assert_eq!(conflict.map(|t| t.tunnel.name.as_str()), Some("api"));
    assert!(find_tunnel_id_conflict_for_update(&config, ConfigSourceKind::Local, "db", "db").is_none());
    assert!(find_tunnel_id_conflict_for_update(&config, ConfigSourceKind::Global, "db", "api").is_none());
}

#[test]
fn override_file_for_missing_path_creates_only_when_allowed() {
    let created = override_file_for_missing_path(local_source(), true).expect("may be created");
    assert!(created.tunnels.is_empty());
    assert_eq!(created.source, local_source());

    assert_eq!(
        override_file_for_missing_path(local_source(), false),
        Err(ConfigEditError::Missing { path: "/work/fwd-deck.toml".to_owned() })
    );
}

#[test]
fn start_batch_reports_running_tunnels_as_started_and_starts_the_rest() {
    let mut file = TunnelStateFile::new();
    let running = state("db", 15432, 1234);
    let stale = state("cache", 16379, 4321);
    let ids = vec![
        running.runtime_id.clone(),
        "local:/work/fwd-deck.toml:api".to_owned(),
        stale.runtime_id.clone(),
    ];
    file.upsert(running);
    file.upsert(stale);
    let probe = RuntimeStatusProbe::new(vec![1234], listening(1234, 15432));

    let batch = plan_start_batch(&file, &probe, &ids);

    assert_eq!(batch.to_start, vec![1, 2]);
    assert_eq!(batch.already_running, vec!["Tunnel is already running: db (pid: 1234)".to_owned()]);
}

#[test]
fn load_effective_config_resolves_each_timeout_by_precedence() {
    let mut global = LoadedConfigFile::new(
        ConfigSource::new(ConfigSourceKind::Global, "/home/u/.config/fwd-deck/config.toml".to_owned()),
        vec![tunnel("shared", 17000)],
    );
    global.timeouts.connect_timeout_seconds = Some(20);
    global.timeouts.server_alive_interval_seconds = Some(45);
    let mut own = tunnel("db", 15432);
    own.timeouts.server_alive_count_max = Some(5);
    own.timeouts.start_grace_milliseconds = Some(400);
    let mut local = LoadedConfigFile::new(local_source(), vec![own]);
    local.timeouts.server_alive_interval_seconds = Some(40);
    let mut grace_override = TunnelConfigOverride::new("db".to_owned());
    grace_override.timeouts.start_grace_milliseconds = Some(500);
    let overrides = LoadedConfigOverrideFile::new(
        ConfigSource::new(ConfigSourceKind::Local, "/work/fwd-deck.override.toml".to_owned()),
        vec![grace_override],
    );

    let config = load_effective_config(vec![global, local], Some(overrides));

    assert_eq!(
        config.configured_tunnels[1].timeouts,
        ResolvedTimeoutConfig {
            connect_timeout_seconds: 20,
            server_alive_interval_seconds: 40,
            server_alive_count_max: 5,
            start_grace_milliseconds: 500,
        }
    );
    assert_eq!(
        config.configured_tunnels[0].timeouts,
        ResolvedTimeoutConfig {
            connect_timeout_seconds: 20,
            server_alive_interval_seconds: 40,
            server_alive_count_max: 3,
            start_grace_milliseconds: 300,
        }
    );
}
