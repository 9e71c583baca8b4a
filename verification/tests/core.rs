use std::collections::HashSet;

use fwd_deck::config::{
    ConfigSource, ConfigSourceKind, ResolvedTimeoutConfig, ResolvedTunnelConfig, TimeoutConfig, TunnelConfig,
    DEFAULT_LOCAL_HOST,
};
use fwd_deck::lsof::{
    group_local_port_processes_by_port, local_endpoint_unavailable_message, parse_lsof_processes, LocalPortProcess,
    LocalPortProcesses,
};
use fwd_deck::paths::format_path_for_display_with_home;
use fwd_deck::ssh_import::{parse_ssh_args, parse_ssh_command, SshImportError};
use fwd_deck::state::{runtime_id_for_resolved_tunnel, TunnelState, TunnelStateFile};
use fwd_deck::tunnel::{
    build_ssh_command_args, lsof_pid_list, plan_tunnel_stop_in_batch, process_state_from_probe,
    remove_tunnel_states_by_runtime_id_counts, start_grace_period, startup_readiness_wait_period, ProcessState,
    RuntimeStatusProbe, TunnelRuntimeError, STARTUP_LISTEN_CONFIRMATION_MILLISECONDS,
};

const HOME: &str = "/Users/example";

fn resolved_tunnel() -> ResolvedTunnelConfig {
    resolved_tunnel_with_local_port(15432)
}

fn resolved_tunnel_with_local_port(local_port: u16) -> ResolvedTunnelConfig {
    ResolvedTunnelConfig::new(
        ConfigSource::new(ConfigSourceKind::Local, "fwd-deck.toml".to_owned()),
        TunnelConfig {
            name: "db".to_owned(),
            enabled: true,
            description: None,
            tags: Vec::new(),
            local_host: Some("127.0.0.1".to_owned()),
            local_port,
            remote_host: "db.internal".to_owned(),
            remote_port: 5432,
            ssh_user: "user".to_owned(),
            ssh_host: "bastion.example.com".to_owned(),
            ssh_port: None,
            identity_file: Some("~/.ssh/id_ed25519".to_owned()),
            timeouts: TimeoutConfig::default(),
        },
    )
}

fn tunnel_state_with_source(name: &str, source_kind: ConfigSourceKind, source_path: &str, pid: u32) -> TunnelState {
    let resolved = ResolvedTunnelConfig::new(
        ConfigSource::new(source_kind, source_path.to_owned()),
        TunnelConfig {
            name: name.to_owned(),
            enabled: true,
            description: None,
            tags: Vec::new(),
            local_host: None,
            local_port: 15432,
            remote_host: "127.0.0.1".to_owned(),
            remote_port: 5432,
            ssh_user: "user".to_owned(),
            ssh_host: "bastion.example.com".to_owned(),
            ssh_port: None,
            identity_file: None,
            timeouts: TimeoutConfig::default(),
        },
    );

    TunnelState::from_resolved_tunnel(&resolved, source_path, pid, 1_700_000_000)
}

fn tunnel_state(name: &str, pid: u32) -> TunnelState {
    tunnel_state_with_source(name, ConfigSourceKind::Local, "fwd-deck.toml", pid)
}

// path display

#[test]
fn format_path_for_display_with_home_shortens_home_itself() {
    let result = format_path_for_display_with_home(HOME, HOME);

    assert_eq!(result, "~");
}

#[test]
fn format_path_for_display_with_home_shortens_home_child() {
    let result = format_path_for_display_with_home("/Users/example/projects/fwd-deck", HOME);

    assert_eq!(result, "~/projects/fwd-deck");
}

#[test]
fn format_path_for_display_with_home_keeps_sibling_path() {
    let result = format_path_for_display_with_home("/Users/example-work/fwd-deck", HOME);

    assert_eq!(result, "/Users/example-work/fwd-deck");
}

#[test]
fn format_path_for_display_with_home_keeps_relative_path() {
    let result = format_path_for_display_with_home("fwd-deck.toml", HOME);

    assert_eq!(result, "fwd-deck.toml");
}

#[test]
fn format_path_for_display_with_home_keeps_path_when_home_is_empty() {
    let result = format_path_for_display_with_home("/Users/example/projects/fwd-deck", "");

    assert_eq!(result, "/Users/example/projects/fwd-deck");
}

// ssh import

#[test]
fn parse_sample_ssh_command_extracts_multiple_forwards() {
    let import = parse_ssh_command(
        "ssh -v -N -L localhost:45432:imc-prod.example.com:5432 -L localhost:45433:imc-dev.example.com:5432 -o ConnectTimeout=15 -o ServerAliveInterval=30 -o ServerAliveCountMax=3 -o TCPKeepAlive=yes -i /Users/example/.ssh/key.pem -p 22 ec2-user@54.199.2.184",
    )
    .expect("parse ssh command");

    assert_eq!(import.forwards.len(), 2);
    assert_eq!(import.forwards[0].local_host, "localhost");
    assert_eq!(import.forwards[0].local_port, 45432);
    assert_eq!(import.forwards[0].remote_host, "imc-prod.example.com");
    assert_eq!(import.forwards[0].remote_port, 5432);
    assert_eq!(import.forwards[1].local_port, 45433);
    assert_eq!(import.ssh_user, "ec2-user");
    assert_eq!(import.ssh_host, "54.199.2.184");
    assert_eq!(import.ssh_port, Some(22));
    assert_eq!(import.identity_file.as_deref(), Some("/Users/example/.ssh/key.pem"));
    assert_eq!(import.timeouts.connect_timeout_seconds, Some(15));
    assert_eq!(import.timeouts.server_alive_interval_seconds, Some(30));
    assert_eq!(import.timeouts.server_alive_count_max, Some(3));
    assert!(import.warnings.iter().any(|warning| {
        warning.option == "-o TCPKeepAlive" && warning.message.contains("設定ファイルへ保存されません")
    }));
}

#[test]
fn parse_local_forward_without_bind_address_uses_default_host() {
    let import = parse_ssh_command("ssh -L 45432:db.example.com:5432 -l ec2-user bastion").expect("parse ssh command");

    assert_eq!(import.forwards[0].local_host, DEFAULT_LOCAL_HOST);
    assert_eq!(import.forwards[0].local_port, 45432);
    assert_eq!(import.forwards[0].remote_host, "db.example.com");
    assert_eq!(import.forwards[0].remote_port, 5432);
    assert_eq!(import.ssh_user, "ec2-user");
    assert_eq!(import.ssh_host, "bastion");
}

#[test]
fn parse_ssh_args_accepts_args_without_command_name() {
    let args = ["-L", "15432:db.example.com:5432", "user@bastion"].into_iter().map(str::to_owned).collect::<Vec<_>>();

    let import = parse_ssh_args(&args).expect("parse ssh args");

    assert_eq!(import.forwards[0].local_port, 15432);
    assert_eq!(import.ssh_user, "user");
    assert_eq!(import.ssh_host, "bastion");
}

#[test]
fn parse_ssh_args_gives_same_result_with_or_without_command_name() {
    let without = ["-L", "15432:db.example.com:5432", "user@bastion"].into_iter().map(str::to_owned).collect::<Vec<_>>();
    let with = ["ssh", "-L", "15432:db.example.com:5432", "user@bastion"]
        .into_iter()
        .map(str::to_owned)
        .collect::<Vec<_>>();

    assert_eq!(parse_ssh_args(&without), parse_ssh_args(&with));
}

#[test]
fn parse_ssh_command_rejects_invalid_local_forward() {
    let result = parse_ssh_command("ssh -L localhost:notaport:db.example.com:5432 user@bastion");

    assert_eq!(result, Err(SshImportError::InvalidPort { field: "local_port", value: "notaport".to_owned() }));
}

#[test]
fn parse_ssh_command_rejects_missing_ssh_user() {
    let result = parse_ssh_command("ssh -L 15432:db.example.com:5432 bastion");

    assert_eq!(result, Err(SshImportError::MissingSshUser));
}

#[test]
fn parse_ssh_command_rejects_missing_forward() {
    let result = parse_ssh_command("ssh -N user@bastion");

    assert_eq!(result, Err(SshImportError::MissingLocalForward));
}

#[test]
fn parse_ssh_command_rejects_unsupported_forward_options() {
    let result = parse_ssh_command("ssh -R 15432:db.example.com:5432 user@bastion");

    assert_eq!(result, Err(SshImportError::UnsupportedForwardOption { option: "-R".to_owned() }));
}

#[test]
fn parse_ssh_command_rejects_empty_and_unbalanced_input() {
    assert_eq!(parse_ssh_command("   "), Err(SshImportError::EmptyCommand));
    assert_eq!(parse_ssh_command("ssh -L 'unterminated"), Err(SshImportError::InvalidShellSyntax));
}

#[test]
fn parse_ssh_command_reads_quoted_words() {
    let import = parse_ssh_command("ssh -L 15432:db.example.com:5432 -i '/tmp/key file' user@bastion")
        .expect("parse ssh command");

    assert_eq!(import.identity_file.as_deref(), Some("/tmp/key file"));
}

#[test]
fn parse_ssh_command_reports_missing_option_value() {
    let result = parse_ssh_command("ssh user@bastion -L");

    assert_eq!(result, Err(SshImportError::MissingOptionValue { option: "-L".to_owned() }));
}

// state

#[test]
fn upsert_replaces_existing_tunnel_state() {
    let mut state = TunnelStateFile::new();
    state.upsert(tunnel_state("db", 1000));
    state.upsert(tunnel_state("db", 2000));

    assert_eq!(state.tunnels.len(), 1);
    assert_eq!(state.tunnels[0].pid, 2000);
}

#[test]
fn upsert_keeps_same_name_with_different_sources() {
    let mut state = TunnelStateFile::new();
    state.upsert(tunnel_state_with_source("db", ConfigSourceKind::Global, "global.toml", 1000));
    state.upsert(tunnel_state_with_source("db", ConfigSourceKind::Local, "fwd-deck.toml", 2000));

    assert_eq!(state.tunnels.len(), 2);
    assert_eq!(state.tunnels[0].name, "db");
    assert_eq!(state.tunnels[1].name, "db");
    assert_ne!(state.tunnels[0].runtime_id, state.tunnels[1].runtime_id);
}

#[test]
fn upsert_then_get_and_remove() {
    let mut state = TunnelStateFile::new();
    let s = tunnel_state("db", 1000);
    let id = s.runtime_id.clone();
    state.upsert(s);

    assert_eq!(state.get(&id).map(|s| s.pid), Some(1000));
    assert_eq!(state.remove(&id).map(|s| s.pid), Some(1000));
    assert!(state.get(&id).is_none());
    assert_eq!(id, "local:fwd-deck.toml:db");
}

// tunnel

#[test]
fn build_ssh_args_uses_tunnel_configuration() {
    let resolved = resolved_tunnel();

    let args = build_ssh_command_args(&resolved, Some(HOME));

    assert!(args.contains(&"-N".to_owned()));
    assert!(args.contains(&"-L".to_owned()));
    assert!(args.contains(&"127.0.0.1:15432:db.internal:5432".to_owned()));
    assert!(args.contains(&"ConnectTimeout=15".to_owned()));
    assert!(args.contains(&"user@bastion.example.com".to_owned()));
}

#[test]
fn build_ssh_args_uses_timeout_settings() {
    let mut resolved = resolved_tunnel();
    resolved.timeouts = ResolvedTimeoutConfig {
        connect_timeout_seconds: 5,
        server_alive_interval_seconds: 10,
        server_alive_count_max: 2,
        start_grace_milliseconds: 50,
    };

    let args = build_ssh_command_args(&resolved, Some(HOME));

    assert!(args.contains(&"ConnectTimeout=5".to_owned()));
    assert!(args.contains(&"ServerAliveInterval=10".to_owned()));
    assert!(args.contains(&"ServerAliveCountMax=2".to_owned()));
}

#[test]
fn build_ssh_args_expands_home_in_identity_file() {
    let resolved = resolved_tunnel();

    let args = build_ssh_command_args(&resolved, Some(HOME));

    assert!(args.iter().any(|arg| arg.ends_with("/.ssh/id_ed25519")));
    assert!(args.contains(&"/Users/example/.ssh/id_ed25519".to_owned()));
}

#[test]
fn build_ssh_args_keeps_identity_file_without_home() {
    let resolved = resolved_tunnel();

    let args = build_ssh_command_args(&resolved, None);

    assert!(args.contains(&"~/.ssh/id_ed25519".to_owned()));
}

#[test]
fn start_grace_period_uses_timeout_settings() {
    let timeouts = ResolvedTimeoutConfig {
        connect_timeout_seconds: 5,
        server_alive_interval_seconds: 10,
        server_alive_count_max: 2,
        start_grace_milliseconds: 50,
    };

    let duration = start_grace_period(timeouts);

    assert_eq!(duration, 50);
}

#[test]
fn startup_readiness_wait_period_has_listen_confirmation_floor() {
    let short_grace = ResolvedTimeoutConfig { start_grace_milliseconds: 50, ..ResolvedTimeoutConfig::default() };
    let long_grace = ResolvedTimeoutConfig { start_grace_milliseconds: 1_500, ..ResolvedTimeoutConfig::default() };

    assert_eq!(startup_readiness_wait_period(short_grace), STARTUP_LISTEN_CONFIRMATION_MILLISECONDS);
    assert_eq!(startup_readiness_wait_period(long_grace), 1_500);
}

#[test]
fn process_state_from_probe_returns_running_for_listening_pid() {
    let pid = 1234;
    let processes = LocalPortProcesses::new(vec![LocalPortProcess {
        command: "ssh".to_owned(),
        pid,
        endpoint: Some("127.0.0.1:15432 (LISTEN)".to_owned()),
    }]);

    let state = process_state_from_probe(pid, true, &processes);

    assert_eq!(state, ProcessState::Running);
}

#[test]
fn process_state_from_probe_returns_stale_for_non_listening_pid() {
    let processes = LocalPortProcesses::new(vec![LocalPortProcess {
        command: "postgres".to_owned(),
        pid: 5678,
        endpoint: Some("127.0.0.1:15432 (LISTEN)".to_owned()),
    }]);

    let state = process_state_from_probe(1234, true, &processes);

    assert_eq!(state, ProcessState::Stale);
}

#[test]
fn process_state_from_probe_returns_stale_for_missing_pid() {
    let processes = LocalPortProcesses::new(vec![LocalPortProcess {
        command: "ssh".to_owned(),
        pid: 1234,
        endpoint: Some("127.0.0.1:15432 (LISTEN)".to_owned()),
    }]);

    let state = process_state_from_probe(1234, false, &processes);

    assert_eq!(state, ProcessState::Stale);
}

#[test]
fn process_state_from_probe_returns_stale_for_empty_listen_probe() {
    let processes = LocalPortProcesses::default();

    let state = process_state_from_probe(1234, true, &processes);

    assert_eq!(state, ProcessState::Stale);
}

#[test]
fn parse_lsof_processes_reads_field_output() {
    let output = "\
p1234
cssh
n127.0.0.1:15432 (LISTEN)
p5678
cpostgres
n*:15432 (LISTEN)
";

    let processes = parse_lsof_processes(output);

    assert_eq!(
        processes,
        LocalPortProcesses::new(vec![
            LocalPortProcess {
                command: "ssh".to_owned(),
                pid: 1234,
                endpoint: Some("127.0.0.1:15432 (LISTEN)".to_owned()),
            },
            LocalPortProcess {
                command: "postgres".to_owned(),
                pid: 5678,
                endpoint: Some("*:15432 (LISTEN)".to_owned()),
            },
        ])
    );
}

#[test]
fn parse_lsof_processes_reads_multiple_endpoints_for_same_process() {
    let output = "\
p1234
cssh
n127.0.0.1:15432 (LISTEN)
n127.0.0.1:25432 (LISTEN)
";

    let processes = parse_lsof_processes(output);

    assert_eq!(
        processes,
        LocalPortProcesses::new(vec![
            LocalPortProcess {
                command: "ssh".to_owned(),
                pid: 1234,
                endpoint: Some("127.0.0.1:15432 (LISTEN)".to_owned()),
            },
            LocalPortProcess {
                command: "ssh".to_owned(),
                pid: 1234,
                endpoint: Some("127.0.0.1:25432 (LISTEN)".to_owned()),
            },
        ])
    );
}

#[test]
fn group_local_port_processes_by_port_extracts_requested_ports() {
    let processes = LocalPortProcesses::new(vec![
        LocalPortProcess {
            command: "ssh".to_owned(),
            pid: 1234,
            endpoint: Some("TCP 127.0.0.1:15432 (LISTEN)".to_owned()),
        },
        LocalPortProcess {
            command: "postgres".to_owned(),
            pid: 5678,
            endpoint: Some("*:5432 (LISTEN)".to_owned()),
        },
    ]);
    let ports = HashSet::from([15432]);

    let grouped = group_local_port_processes_by_port(processes, &ports);

    assert_eq!(
        grouped.get(&15432),
        Some(&LocalPortProcesses::new(vec![LocalPortProcess {
            command: "ssh".to_owned(),
            pid: 1234,
            endpoint: Some("TCP 127.0.0.1:15432 (LISTEN)".to_owned()),
        }]))
    );
    assert!(!grouped.contains_key(&5432));
}

#[test]
fn lsof_pid_list_sorts_pids() {
    let pids = vec![42, 7, 100];

    let pid_list = lsof_pid_list(&pids);

    assert_eq!(pid_list, "7,42,100");
}

#[test]
fn local_endpoint_error_displays_listening_processes() {
    let processes = LocalPortProcesses::new(vec![LocalPortProcess {
        command: "postgres".to_owned(),
        pid: 5678,
        endpoint: Some("127.0.0.1:15432 (LISTEN)".to_owned()),
    }]);

    let message =
        local_endpoint_unavailable_message("db", "127.0.0.1", 15432, "address already in use", &processes);

    assert!(message.contains("Local endpoint is not available: db (127.0.0.1:15432)"));
    assert!(message.contains("listening process: postgres (pid: 5678, endpoint: 127.0.0.1:15432 (LISTEN))"));
}

#[test]
fn empty_local_port_processes_display_is_empty() {
    let processes = LocalPortProcesses::default();

    assert_eq!(processes.to_display_string(), "");
}

#[test]
fn runtime_errors_display_their_message() {
    let running = TunnelRuntimeError::AlreadyRunning {
        runtime_id: "local:fwd-deck.toml:db".to_owned(),
        name: "db".to_owned(),
        pid: 42,
    };
    let untracked = TunnelRuntimeError::NotTracked { runtime_id: "missing".to_owned() };

    assert_eq!(running.to_display_string(), "Tunnel is already running: db (pid: 42)");
    assert_eq!(untracked.to_display_string(), "Tunnel is not tracked: missing");
}

#[test]
fn stop_tunnels_removes_stale_tunnels_and_reports_progress() {
    let db = resolved_tunnel();
    let cache = ResolvedTunnelConfig::new(
        ConfigSource::new(ConfigSourceKind::Local, "fwd-deck.toml".to_owned()),
        TunnelConfig { name: "cache".to_owned(), local_port: 25432, ..resolved_tunnel().tunnel },
    );
    let mut state = TunnelStateFile::new();
    state.upsert(TunnelState::from_resolved_tunnel(&db, "fwd-deck.toml", u32::MAX, 1_700_000_000));
    state.upsert(TunnelState::from_resolved_tunnel(&cache, "fwd-deck.toml", u32::MAX, 1_700_000_000));
    let probe = RuntimeStatusProbe::new(Vec::new(), LocalPortProcesses::default());
    let runtime_ids = vec![
        runtime_id_for_resolved_tunnel(&db, "fwd-deck.toml"),
        "missing".to_owned(),
        runtime_id_for_resolved_tunnel(&cache, "fwd-deck.toml"),
    ];

    let mut stopped_ids: Vec<String> = Vec::new();
    let mut results = Vec::new();
    for runtime_id in &runtime_ids {
        let result = plan_tunnel_stop_in_batch(&state, &probe, &stopped_ids, runtime_id);
        if result.is_ok() {
            stopped_ids.push(runtime_id.clone());
        }
        results.push(result);
    }
    remove_tunnel_states_by_runtime_id_counts(&mut state, &stopped_ids);

    assert!(matches!(
        &results[0],
        Ok(stopped) if stopped.state.name == "db" && stopped.previous_state == ProcessState::Stale
    ));
    assert!(matches!(
        &results[1],
        Err(TunnelRuntimeError::NotTracked { runtime_id }) if runtime_id == "missing"
    ));
    assert!(matches!(
        &results[2],
        Ok(stopped) if stopped.state.name == "cache" && stopped.previous_state == ProcessState::Stale
    ));
    assert!(state.tunnels.is_empty());
}

#[test]
fn stop_tunnels_reports_duplicate_runtime_id_as_not_tracked_after_first_stop() {
    let db = resolved_tunnel();
    let mut state = TunnelStateFile::new();
    state.upsert(TunnelState::from_resolved_tunnel(&db, "fwd-deck.toml", u32::MAX, 1_700_000_000));
    let probe = RuntimeStatusProbe::new(Vec::new(), LocalPortProcesses::default());
    let runtime_id = runtime_id_for_resolved_tunnel(&db, "fwd-deck.toml");
    let runtime_ids = vec![runtime_id.clone(), runtime_id.clone()];

    let mut stopped_ids: Vec<String> = Vec::new();
    let mut results = Vec::new();
    for id in &runtime_ids {
        let result = plan_tunnel_stop_in_batch(&state, &probe, &stopped_ids, id);
        if result.is_ok() {
            stopped_ids.push(id.clone());
        }
        results.push(result);
    }
    remove_tunnel_states_by_runtime_id_counts(&mut state, &stopped_ids);

    assert!(matches!(
        &results[0],
        Ok(stopped) if stopped.state.name == "db" && stopped.previous_state == ProcessState::Stale
    ));
    assert!(matches!(
        &results[1],
        Err(TunnelRuntimeError::NotTracked { runtime_id: duplicate }) if duplicate == &runtime_id
    ));
    assert!(state.tunnels.is_empty());
}
