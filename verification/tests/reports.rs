use fwd_deck::answers::{
    edited_local_host_answer, edited_tags_answer, name_taken_message, new_local_host_answer, optional_answer,
    optional_port_answer, port_answer, port_taken_message, required_answer, AnswerError,
};
use fwd_deck::config::{
    ConfigPaths, ConfigSource, ConfigSourceKind, EffectiveConfig, LoadedConfigFile, ResolvedTimeoutConfig,
    ResolvedTunnelConfig, TimeoutConfig, TunnelConfig,
};
use fwd_deck::doctor::{
    doctor_checks, doctor_command_check, doctor_config_presence_check, doctor_failed, doctor_identity_file_check,
    doctor_identity_file_targets, doctor_local_endpoint_check, doctor_report_line, doctor_state_check,
    doctor_validation_check, CommandProbe, DoctorCheck, DoctorCheckStatus,
};
use fwd_deck::report::{
    list_header_line, show_unknown_name_message, start_dry_run_lines, started_tunnel_message, status_header_line, stop_dry_run_lines,
    stopped_tunnel_message, timeout_detail_lines, tunnel_detail_lines, unknown_name_lines, untracked_name_lines,
    validation_error_lines, validation_failed, validation_verdict, validation_warning_lines, PrintedLine,
    ValidationVerdict,
};
use fwd_deck::state::TunnelState;
use fwd_deck::table::{ListColumnWidths, StatusColumnWidths};
use fwd_deck::tunnel::{ProcessState, StartedTunnel, StoppedTunnel, TunnelRuntimeStatus};
use fwd_deck::validate::{validate_config, ValidationError, ValidationReport, ValidationWarning};

const HOME: &str = "/Users/example";

fn tunnel(name: &str, local_port: u16) -> TunnelConfig {
    TunnelConfig {
        name: name.to_owned(),
        enabled: true,
        description: None,
        tags: Vec::new(),
        local_host: None,
        local_port,
        remote_host: "db.internal".to_owned(),
        remote_port: 5432,
        ssh_user: "user".to_owned(),
        ssh_host: "bastion.example.com".to_owned(),
        ssh_port: None,
        identity_file: None,
        timeouts: TimeoutConfig::default(),
    }
}

fn source() -> ConfigSource {
    ConfigSource::new(ConfigSourceKind::Local, "/Users/example/work/fwd-deck.toml".to_owned())
}

fn dev_db() -> ResolvedTunnelConfig {
    let mut t = tunnel("dev-db", 15432);
    t.description = Some("Development database".to_owned());
    t.tags = vec!["dev".to_owned(), "project-a".to_owned()];
    t.ssh_port = Some(22);
    t.identity_file = Some("~/.ssh/id_ed25519".to_owned());
    ResolvedTunnelConfig::new_with_timeouts(
        source(),
        t,
        ResolvedTimeoutConfig { connect_timeout_seconds: 10, ..ResolvedTimeoutConfig::default() },
    )
}

fn config_of(tunnels: Vec<TunnelConfig>) -> EffectiveConfig {
    let resolved = tunnels.iter().map(|t| ResolvedTunnelConfig::new(source(), t.clone())).collect();
    EffectiveConfig::new(vec![LoadedConfigFile::new(source(), tunnels)], resolved)
}

fn state(name: &str, pid: u32) -> TunnelState {
    let resolved = ResolvedTunnelConfig::new(source(), tunnel(name, 15432));
    TunnelState::from_resolved_tunnel(&resolved, "/Users/example/work/fwd-deck.toml", pid, 1_700_000_000)
}

#[test]
fn show_displays_tunnel_details() {
    let lines = tunnel_detail_lines(&dev_db(), HOME, "/Users/example/work/fwd-deck.toml");

    assert_eq!(lines[0], "ID: dev-db");
    assert_eq!(lines[1], "Description: Development database");
    assert_eq!(lines[2], "Tags: dev,project-a");
    assert_eq!(lines[3], "Local: 127.0.0.1:15432");
    assert_eq!(lines[4], "Remote: db.internal:5432");
    assert_eq!(lines[5], "SSH: user@bastion.example.com:22");
    assert_eq!(lines[6], "Identity file: ~/.ssh/id_ed25519");
    assert_eq!(lines[7], "Source: local (~/work/fwd-deck.toml)");
    assert!(lines[8].starts_with("Runtime ID: "));
    assert_eq!(lines[9], "Timeouts:");
    assert_eq!(lines[10], "  Connect timeout: 10s");
    assert_eq!(lines.len(), 14);
}

#[test]
fn timeout_details_show_units() {
    let lines = timeout_detail_lines(ResolvedTimeoutConfig {
        connect_timeout_seconds: 15,
        server_alive_interval_seconds: 30,
        server_alive_count_max: 3,
        start_grace_milliseconds: 300,
    });

    assert_eq!(
        lines,
        vec![
            "Timeouts:",
            "  Connect timeout: 15s",
            "  Server alive interval: 30s",
            "  Server alive count max: 3",
            "  Start grace: 300ms",
        ]
    );
}

#[test]
fn validation_lines_name_file_tunnel_and_message() {
    let report = ValidationReport {
        errors: vec![ValidationError::new(
            source(),
            Some("db".to_owned()),
            "local_port 15432 duplicates dev-db".to_owned(),
        )],
        warnings: vec![ValidationWarning::new(source(), None, "something to look at".to_owned())],
    };

    assert_eq!(
        validation_error_lines(&report, HOME),
        vec!["Configuration has errors.", "- [local] db (~/work/fwd-deck.toml) local_port 15432 duplicates dev-db"]
    );
    assert_eq!(
        validation_warning_lines(&report, HOME),
        vec!["Configuration has warnings.", "- [local] - (~/work/fwd-deck.toml) something to look at"]
    );
    assert!(validation_warning_lines(&ValidationReport::valid(), HOME).is_empty());
}

#[test]
fn validation_verdicts() {
    let invalid = ValidationReport {
        errors: vec![ValidationError::new(source(), None, "bad".to_owned())],
        warnings: Vec::new(),
    };
    let warned = ValidationReport {
        errors: Vec::new(),
        warnings: vec![ValidationWarning::new(source(), None, "hmm".to_owned())],
    };

    assert_eq!(validation_verdict(false, &invalid), ValidationVerdict::NoConfiguration);
    assert_eq!(validation_verdict(true, &invalid), ValidationVerdict::Invalid);
    assert_eq!(validation_verdict(true, &warned), ValidationVerdict::ValidWithWarnings);
    assert_eq!(validation_verdict(true, &ValidationReport::valid()), ValidationVerdict::Valid);
    assert!(validation_failed(ValidationVerdict::Invalid));
    assert!(validation_failed(ValidationVerdict::NoConfiguration));
    assert!(!validation_failed(ValidationVerdict::ValidWithWarnings));
}

#[test]
fn started_and_stopped_messages() {
    let started = StartedTunnel { state: state("db", 4242) };
    assert_eq!(started_tunnel_message(&started), "Started tunnel: db (pid: 4242, local: 127.0.0.1:15432)");

    let running = StoppedTunnel { state: state("db", 4242), previous_state: ProcessState::Running };
    let stale = StoppedTunnel { state: state("db", 4242), previous_state: ProcessState::Stale };
    assert_eq!(stopped_tunnel_message(&running), "Stopped tunnel: db (pid: 4242)");
    assert_eq!(stopped_tunnel_message(&stale), "Removed stale tunnel state: db (pid: 4242)");
}

#[test]
fn unknown_and_untracked_names_are_reported_in_order() {
    let config = config_of(vec![tunnel("db", 15432)]);
    let names = vec!["x".to_owned(), "db".to_owned(), "y".to_owned()];
    assert_eq!(unknown_name_lines(&config, &names, None), vec!["Unknown tunnel name: x", "Unknown tunnel name: y"]);

    let statuses = vec![TunnelRuntimeStatus { state: state("db", 1), process_state: ProcessState::Running }];
    assert_eq!(
        untracked_name_lines(&statuses, &names, None),
        vec!["Tunnel is not tracked: x", "Tunnel is not tracked: y"]
    );
}

#[test]
fn start_dry_run_prints_plan_without_writing_state() {
    let resolved = dev_db();
    let lines = start_dry_run_lines(&[&resolved], "/Users/example/state.toml", Some(HOME));

    assert_eq!(lines[0], "Dry run: no ssh process will be started and state file will not be written.");
    assert_eq!(lines[1], "State file: ~/state.toml");
    assert_eq!(lines[2], "Would start tunnel: dev-db");
    assert_eq!(lines[3], "  Local: 127.0.0.1:15432");
    assert_eq!(lines[4], "  Remote: db.internal:5432");
    assert_eq!(lines[5], "  SSH: user@bastion.example.com:22");
    assert!(lines[6].starts_with("  Command: ssh "));
    assert!(lines[6].contains("/Users/example/.ssh/id_ed25519"));
    assert_eq!(lines.len(), 7);
}

#[test]
fn stop_dry_run_reports_each_runtime_id() {
    let running = TunnelRuntimeStatus { state: state("db", 7), process_state: ProcessState::Running };
    let stale = TunnelRuntimeStatus { state: state("api", 8), process_state: ProcessState::Stale };
    let ids = vec![running.state.runtime_id.clone(), "missing".to_owned(), stale.state.runtime_id.clone()];

    let (lines, failed) = stop_dry_run_lines(&[running, stale], &ids, "/tmp/state.toml", None);

    assert!(failed);
    assert_eq!(
        lines,
        vec![
            PrintedLine::Out("Dry run: no process will be stopped and state file will not be modified.".to_owned()),
            PrintedLine::Out("State file: /tmp/state.toml".to_owned()),
            PrintedLine::Out("Would stop tunnel: db (pid: 7)".to_owned()),
            PrintedLine::Out("Would remove state entry: db".to_owned()),
            PrintedLine::Error("Tunnel is not tracked: missing".to_owned()),
            PrintedLine::Out("Would remove stale tunnel state: api (pid: 8)".to_owned()),
        ]
    );
}

#[test]
fn table_headers_pad_columns() {
    let list = list_header_line(ListColumnWidths { id: 6, local: 5, remote: 6, ssh: 3, tags: 4 });
    assert_eq!(list, "NAME   LOCAL REMOTE SSH TAGS SOURCE");

    let status = status_header_line(StatusColumnWidths { id: 4, local: 7, remote: 6, pid: 3, state: 5 });
    assert_eq!(status, "NAME LOCAL   REMOTE PID STATE SOURCE STARTED");
}

#[test]
fn doctor_fails_when_configuration_is_missing() {
    let empty = EffectiveConfig::new(Vec::new(), Vec::new());
    let paths = ConfigPaths::new(None, "/Users/example/work/fwd-deck.toml".to_owned());

    let check = doctor_config_presence_check(&empty, &paths, HOME);

    assert_eq!(check.status, DoctorCheckStatus::Error);
    assert_eq!(doctor_report_line(&check), "[ERROR] Configuration files: no configuration files were found (global: -, local: ~/work/fwd-deck.toml)");
    assert!(doctor_failed(&[check]));
}

#[test]
fn doctor_counts_loaded_files_and_validation() {
    let config = config_of(vec![tunnel("db", 15432)]);
    let paths = ConfigPaths::new(None, "fwd-deck.toml".to_owned());

    assert_eq!(
        doctor_config_presence_check(&config, &paths, HOME),
        DoctorCheck::passed("Configuration files".to_owned(), "loaded 1 file(s)".to_owned())
    );
    assert_eq!(doctor_validation_check(&config).message, "valid");

    let duplicated = config_of(vec![tunnel("db", 15432), tunnel("db", 15433)]);
    let check = doctor_validation_check(&duplicated);
    assert_eq!(check.status, DoctorCheckStatus::Error);
    assert_eq!(check.message, format!("{} error(s)", validate_config(&duplicated).errors.len()));
}

#[test]
fn doctor_state_and_command_checks() {
    assert_eq!(
        doctor_report_line(&doctor_state_check(None, None, "/Users/example/state.toml", HOME)),
        "[OK] State file: readable and writable: ~/state.toml"
    );
    assert_eq!(
        doctor_state_check(Some("cannot read".to_owned()), None, "/s", HOME).message,
        "cannot read"
    );
    assert_eq!(doctor_report_line(&doctor_command_check("ssh", CommandProbe::Ran)), "[OK] ssh command: available");
    assert_eq!(
        doctor_report_line(&doctor_command_check("lsof", CommandProbe::NotFound)),
        "[WARN] lsof command: not found; port process details may be limited"
    );
    assert_eq!(doctor_report_line(&doctor_command_check("ssh", CommandProbe::NotFound)), "[ERROR] ssh command: not found");
    assert_eq!(
        doctor_command_check("ssh", CommandProbe::Failed("permission denied".to_owned())).message,
        "permission denied"
    );
}

#[test]
fn doctor_identity_and_endpoint_checks() {
    let mut with_key = tunnel("db", 15432);
    with_key.identity_file = Some("~/.ssh/id".to_owned());
    let config = config_of(vec![with_key.clone(), tunnel("api", 18080)]);

    let targets = doctor_identity_file_targets(&config, Some(HOME));
    assert_eq!(targets.len(), 1);
    assert_eq!(targets[0].name, "Identity file (db)");
    assert_eq!(targets[0].path, "/Users/example/.ssh/id");
    assert_eq!(doctor_identity_file_check(&targets[0], true, HOME).message, "~/.ssh/id");
    assert_eq!(doctor_identity_file_check(&targets[0], false, HOME).message, "not found: ~/.ssh/id");

    assert_eq!(
        doctor_report_line(&doctor_local_endpoint_check(&with_key, None)),
        "[OK] Local endpoint (db): 127.0.0.1:15432 is available"
    );
    assert_eq!(
        doctor_report_line(&doctor_local_endpoint_check(&with_key, Some("in use".to_owned()))),
        "[WARN] Local endpoint (db): 127.0.0.1:15432 is not available: in use"
    );

    let paths = ConfigPaths::new(None, "fwd-deck.toml".to_owned());
    let checks = doctor_checks(
        &config,
        &paths,
        Some(HOME),
        doctor_state_check(None, None, "/s", HOME),
        CommandProbe::Ran,
        CommandProbe::NotFound,
        &[false],
        &[None, Some("in use".to_owned())],
    );
    let names: Vec<&str> = checks.iter().map(|c| c.name.as_str()).collect();
    assert_eq!(
        names,
        vec![
            "Configuration files",
            "Configuration validation",
            "State file",
            "ssh command",
            "lsof command",
            "Identity file (db)",
            "Local endpoint (db)",
            "Local endpoint (api)",
        ]
    );
    assert!(doctor_failed(&checks));
}

#[test]
fn required_answers_fall_back_to_current_value() {
    assert_eq!(required_answer("  db  ", None), Ok("db".to_owned()));
    assert_eq!(required_answer("   ", None), Err(AnswerError::Empty));
    assert_eq!(required_answer("", Some(" api ")), Ok("api".to_owned()));
    assert_eq!(required_answer("", Some("  ")), Err(AnswerError::Empty));
    assert_eq!(AnswerError::Empty.to_display_string(), "Value cannot be empty.");
}

#[test]
fn optional_answers_keep_current_value_when_blank() {
    assert_eq!(optional_answer("  note ", None), Some("note".to_owned()));
    assert_eq!(optional_answer("  ", None), None);
    assert_eq!(optional_answer("", Some("old")), Some("old".to_owned()));
}

#[test]
fn local_host_answers_refuse_whitespace() {
    assert_eq!(new_local_host_answer(""), Ok("127.0.0.1".to_owned()));
    assert_eq!(new_local_host_answer(" 0.0.0.0 "), Ok("0.0.0.0".to_owned()));
    assert_eq!(new_local_host_answer("local host"), Err(AnswerError::LocalHostWhitespace));

    let unset = tunnel("db", 15432);
    assert_eq!(edited_local_host_answer("", &unset), Ok(None));
    assert_eq!(edited_local_host_answer("0.0.0.0", &unset), Ok(Some("0.0.0.0".to_owned())));
    let mut set = tunnel("db", 15432);
    set.local_host = Some("127.0.0.1".to_owned());
    assert_eq!(edited_local_host_answer("", &set), Ok(Some("127.0.0.1".to_owned())));
    assert_eq!(AnswerError::LocalHostWhitespace.to_display_string(), "Local host cannot contain whitespace.");
}

#[test]
fn port_answers_take_numbers_from_one_to_65535() {
    assert_eq!(port_answer(" 8080 ", None), Ok(8080));
    assert_eq!(port_answer("", Some(22)), Ok(22));
    assert_eq!(port_answer("", None), Err(AnswerError::InvalidPort));
    assert_eq!(port_answer("0", None), Err(AnswerError::InvalidPort));
    assert_eq!(port_answer("65536", None), Err(AnswerError::InvalidPort));
    assert_eq!(port_answer("+443", None), Ok(443));
    assert_eq!(optional_port_answer("", Some(2222)), Ok(Some(2222)));
    assert_eq!(optional_port_answer("", None), Ok(None));
    assert_eq!(optional_port_answer("abc", None), Err(AnswerError::InvalidPort));
    assert_eq!(AnswerError::InvalidPort.to_display_string(), "Port must be a number between 1 and 65535.");
}

#[test]
fn tag_answers_keep_current_tags_when_blank() {
    let current = vec!["dev".to_owned()];
    assert_eq!(edited_tags_answer("  ", &current), Ok(current.clone()));
    assert_eq!(edited_tags_answer("Prod, db", &current), Ok(vec!["prod".to_owned(), "db".to_owned()]));
    assert!(edited_tags_answer("bad tag!", &current).is_err());
}

#[test]
fn conflict_messages_name_the_other_tunnel() {
    let other = ResolvedTunnelConfig::new(source(), tunnel("db", 15432));

    assert_eq!(name_taken_message(&other, HOME), "Tunnel name is already used: db (local: ~/work/fwd-deck.toml)");
    assert_eq!(port_taken_message(&other), "Local port is already used by tunnel: db (127.0.0.1:15432)");
}

#[test]
fn show_reports_an_unknown_tunnel_by_id() {
    assert_eq!(show_unknown_name_message("missing"), "No tunnel matched ID: missing.");
}
