use fwd_deck::commands::{
    plan_recover, plan_start, plan_stop, plan_watch, recovery_step_line, start_refusal_message, stop_refusal_message,
    watch_config_missing_message, watch_recovery_steps, RecoverPlan, RecoverRefusal, RecoveryStep, StartPlan,
    StartRefusal, StopPlan, StopRefusal, WatchRefusal, WatchStep,
};
use fwd_deck::report::{start_dry_run_lines, PrintedLine};
use fwd_deck::validate::ValidationReport;
use fwd_deck::config::{
    ConfigSource, ConfigSourceKind, EffectiveConfig, LoadedConfigFile, ResolvedTunnelConfig, TimeoutConfig,
    TunnelConfig,
};
use fwd_deck::state::{tunnel_runtime_id, TunnelState};
use fwd_deck::tunnel::{ProcessState, TunnelRuntimeStatus};

fn tunnel(id: &str, local_port: u16, tags: &[&str]) -> TunnelConfig {
    TunnelConfig {
        name: id.to_owned(),
        enabled: true,
        description: None,
        tags: tags.iter().map(|t| (*t).to_owned()).collect(),
        local_host: None,
        local_port,
        remote_host: "db.internal".to_owned(),
        remote_port: 5432,
        ssh_user: "user".to_owned(),
        ssh_host: "bastion.example.com".to_owned(),
        ssh_port: None,
        identity_file: None,
        timeouts: TimeoutConfig::default(),
    }
}

fn config(tunnels: Vec<TunnelConfig>) -> EffectiveConfig {
    let source = ConfigSource::new(ConfigSourceKind::Local, "fwd-deck.toml".to_owned());
    let resolved = tunnels.iter().cloned().map(|t| ResolvedTunnelConfig::new(source.clone(), t)).collect::<Vec<_>>();
    EffectiveConfig::new(vec![LoadedConfigFile::new(source, tunnels)], resolved)
}

fn sample() -> EffectiveConfig {
    config(vec![
        tunnel("prod-cache", 16379, &["prod"]),
        tunnel("dev-db", 15432, &["dev", "project-a"]),
    ])
}

fn names(values: &[&str]) -> Vec<String> {
    values.iter().map(|v| (*v).to_owned()).collect()
}

fn selected_ids(plan: &StartPlan<'_>) -> Vec<String> {
    match plan {
        StartPlan::Selected(tunnels) => tunnels.iter().map(|t| t.tunnel.name.clone()).collect(),
        StartPlan::Prompt => panic!("a selection was expected"),
    }
}

fn status(name: &str, process_state: ProcessState) -> TunnelRuntimeStatus {
    TunnelRuntimeStatus {
        state: TunnelState {
            runtime_id: tunnel_runtime_id(ConfigSourceKind::Local, "fwd-deck.toml", name),
            name: name.to_owned(),
            pid: 4242,
            local_host: "127.0.0.1".to_owned(),
            local_port: 15432,
            remote_host: "db.internal".to_owned(),
            remote_port: 5432,
            ssh_user: "user".to_owned(),
            ssh_host: "bastion.example.com".to_owned(),
            ssh_port: None,
            source_kind: ConfigSourceKind::Local,
            source_path: "fwd-deck.toml".to_owned(),
            started_at_unix_seconds: 1_700_000_000,
        },
        process_state,
    }
}

fn paths(config: &EffectiveConfig) -> Vec<String> {
    config.tunnels.iter().map(|t| t.source.path.clone()).collect()
}

#[test]
fn start_fails_when_id_and_tag_are_combined() {
    let config = sample();

    let result = plan_start(&config, &names(&["dev-db"]), &names(&["dev"]), false, 4, None);

    assert_eq!(result, Err(StartRefusal::NamesWithTags));
    let message = start_refusal_message(&StartRefusal::NamesWithTags).unwrap();
    assert!(message.contains("Cannot combine tunnel IDs with --tag."));
}

#[test]
fn start_refuses_all_with_names_and_zero_parallelism() {
    let config = sample();

    assert_eq!(plan_start(&config, &names(&["dev-db"]), &[], true, 4, None), Err(StartRefusal::AllWithSelection));
    assert_eq!(plan_start(&config, &[], &[], true, 0, None), Err(StartRefusal::ZeroParallelism));
}

#[test]
fn start_refuses_without_configuration() {
    let empty = EffectiveConfig::new(Vec::new(), Vec::new());

    assert_eq!(plan_start(&empty, &[], &[], true, 4, None), Err(StartRefusal::NoConfiguration));
}

#[test]
fn start_refuses_invalid_configuration() {
    let config = config(vec![tunnel("db", 15432, &[]), tunnel("db", 16379, &[])]);

    assert!(matches!(
        plan_start(&config, &[], &[], true, 4, None),
        Err(StartRefusal::InvalidConfiguration { report }) if !report.errors.is_empty()
    ));
}

#[test]
fn start_all_dry_run_sorts_tunnels_by_id() {
    let config = sample();

    let plan = plan_start(&config, &[], &[], true, 4, None).expect("plan");

    assert_eq!(selected_ids(&plan), vec!["dev-db", "prod-cache"]);
    let StartPlan::Selected(tunnels) = plan else { panic!("expected selected tunnels") };
    let lines = start_dry_run_lines(&tunnels, "/tmp/state.toml", None);
    let started = lines.iter().filter(|l| l.starts_with("Would start tunnel: ")).cloned().collect::<Vec<_>>();
    assert_eq!(started, vec!["Would start tunnel: dev-db".to_owned(), "Would start tunnel: prod-cache".to_owned()]);
    assert_eq!(lines[0], "Dry run: no ssh process will be started and state file will not be written.");
}

#[test]
fn start_all_respects_scope() {
    let config = sample();

    let plan = plan_start(&config, &[], &[], true, 4, Some(ConfigSourceKind::Global)).expect("plan");

    assert!(selected_ids(&plan).is_empty());
}

#[test]
fn start_by_tag_selects_tagged_tunnels() {
    let config = sample();

    let plan = plan_start(&config, &[], &names(&[" Dev "]), false, 4, None).expect("plan");

    assert_eq!(selected_ids(&plan), vec!["dev-db"]);
}

#[test]
fn start_by_tag_reports_no_match_and_invalid_tags() {
    let config = sample();

    assert_eq!(
        plan_start(&config, &[], &names(&["staging"]), false, 4, None),
        Err(StartRefusal::NoTagMatch { tags: names(&["staging"]) })
    );
    assert!(matches!(
        plan_start(&config, &[], &names(&["bad tag"]), false, 4, None),
        Err(StartRefusal::InvalidTag { .. })
    ));
}

#[test]
fn start_by_names_keeps_their_order_and_refuses_unknown_names() {
    let config = sample();

    let plan = plan_start(&config, &names(&["prod-cache", "dev-db"]), &[], false, 4, None).expect("plan");
    assert_eq!(selected_ids(&plan), vec!["prod-cache", "dev-db"]);

    assert_eq!(
        plan_start(&config, &names(&["missing"]), &[], false, 4, None),
        Err(StartRefusal::UnknownNames)
    );
    assert_eq!(plan_start(&config, &[], &[], false, 4, None), Ok(StartPlan::Prompt));
}

#[test]
fn stop_plans_follow_the_request() {
    let statuses = vec![status("prod-cache", ProcessState::Running), status("dev-db", ProcessState::Stale)];
    let id = |name: &str| tunnel_runtime_id(ConfigSourceKind::Local, "fwd-deck.toml", name);

    assert_eq!(plan_stop(&statuses, &names(&["dev-db"]), true, None), Err(StopRefusal::AllWithNames));
    assert_eq!(plan_stop(&[], &[], false, None), Ok(StopPlan::NothingTracked));
    assert_eq!(plan_stop(&statuses, &[], true, None), Ok(StopPlan::Selected(vec![id("dev-db"), id("prod-cache")])));
    assert_eq!(plan_stop(&statuses, &[], true, Some(ConfigSourceKind::Global)), Ok(StopPlan::Selected(Vec::new())));
    assert_eq!(plan_stop(&statuses, &[], false, None), Ok(StopPlan::Prompt));
    assert_eq!(plan_stop(&statuses, &names(&["prod-cache"]), false, None), Ok(StopPlan::Selected(vec![id("prod-cache")])));
    assert_eq!(plan_stop(&statuses, &names(&["missing"]), false, None), Err(StopRefusal::UntrackedNames));
}

#[test]
fn recover_restarts_stale_tunnels_only() {
    let config = sample();
    let paths = paths(&config);
    let statuses = vec![status("prod-cache", ProcessState::Running), status("dev-db", ProcessState::Stale)];

    let plan = plan_recover(&config, &paths, &statuses, &[], None).expect("plan");

    let RecoverPlan::Steps(steps) = plan else {
        panic!("steps were expected");
    };
    assert_eq!(steps.len(), 1);
    assert!(matches!(steps[0], RecoveryStep::Start(t) if t.tunnel.name == "dev-db"));
}

#[test]
fn recover_by_name_reports_each_case() {
    let config = sample();
    let paths = paths(&config);
    let statuses = vec![status("prod-cache", ProcessState::Running)];

    let plan = plan_recover(&config, &paths, &statuses, &names(&["prod-cache", "dev-db"]), None).expect("plan");

    let RecoverPlan::Steps(steps) = plan else {
        panic!("steps were expected");
    };
    assert_eq!(steps[0], RecoveryStep::AlreadyRunning { name: "prod-cache".to_owned(), pid: 4242 });
    assert_eq!(
        steps[1],
        RecoveryStep::NotTracked { runtime_id: tunnel_runtime_id(ConfigSourceKind::Local, "fwd-deck.toml", "dev-db") }
    );
}

#[test]
fn recover_reports_tracked_tunnel_that_is_no_longer_configured() {
    let config = config(vec![tunnel("dev-db", 15432, &[])]);
    let paths = paths(&config);
    let statuses = vec![status("old-db", ProcessState::Stale)];

    let plan = plan_recover(&config, &paths, &statuses, &[], None).expect("plan");

    assert_eq!(
        plan,
        RecoverPlan::Steps(vec![RecoveryStep::ConfigMissing {
            name: "old-db".to_owned(),
            runtime_id: tunnel_runtime_id(ConfigSourceKind::Local, "fwd-deck.toml", "old-db"),
        }])
    );
}

#[test]
fn recover_has_nothing_to_do_without_tracked_or_stale_tunnels() {
    let config = sample();
    let paths = paths(&config);

    assert_eq!(plan_recover(&config, &paths, &[], &[], None), Ok(RecoverPlan::NothingTracked));
    assert_eq!(
        plan_recover(&config, &paths, &[status("dev-db", ProcessState::Running)], &[], None),
        Ok(RecoverPlan::NothingStale)
    );
    assert_eq!(
        plan_recover(&config, &paths, &[status("dev-db", ProcessState::Running)], &names(&["x"]), None),
        Err(RecoverRefusal::UnknownNames)
    );
}

#[test]
fn watch_checks_interval_and_names() {
    let config = sample();
    let paths = paths(&config);

    assert_eq!(plan_watch(&config, &paths, &[], None, 0), Err(WatchRefusal::ZeroInterval));
    assert_eq!(plan_watch(&config, &paths, &[], None, 5), Ok(Vec::new()));
    assert_eq!(
        plan_watch(&config, &paths, &names(&["dev-db"]), None, 5),
        Ok(vec![tunnel_runtime_id(ConfigSourceKind::Local, "fwd-deck.toml", "dev-db")])
    );
    assert_eq!(plan_watch(&config, &paths, &names(&["missing"]), None, 5), Err(WatchRefusal::UnknownNames));
}

#[test]
fn start_refusal_messages() {
    assert_eq!(
        start_refusal_message(&StartRefusal::NamesWithTags),
        Some("Cannot combine tunnel IDs with --tag.".to_owned())
    );
    assert_eq!(
        start_refusal_message(&StartRefusal::AllWithSelection),
        Some("Cannot combine --all with tunnel NAMEs or --tag.".to_owned())
    );
    assert_eq!(
        start_refusal_message(&StartRefusal::ZeroParallelism),
        Some("Parallelism must be greater than or equal to 1.".to_owned())
    );
    assert_eq!(
        start_refusal_message(&StartRefusal::NoConfiguration),
        Some("No configuration files were found.".to_owned())
    );
    assert_eq!(
        start_refusal_message(&StartRefusal::NoTagMatch { tags: names(&["dev", "db"]) }),
        Some("No tunnels matched tags: dev, db.".to_owned())
    );
    assert_eq!(
        start_refusal_message(&StartRefusal::InvalidTag { message: "bad".to_owned() }),
        Some("bad".to_owned())
    );
    assert_eq!(start_refusal_message(&StartRefusal::UnknownNames), None);
    assert_eq!(
        start_refusal_message(&StartRefusal::InvalidConfiguration { report: ValidationReport::valid() }),
        None
    );
}

#[test]
fn recovery_step_lines() {
    let config = sample();
    assert_eq!(
        recovery_step_line(&RecoveryStep::NotTracked { runtime_id: "x".to_owned() }),
        Some(PrintedLine::Error("Tunnel is not tracked: x".to_owned()))
    );
    assert_eq!(
        recovery_step_line(&RecoveryStep::AlreadyRunning { name: "db".to_owned(), pid: 42 }),
        Some(PrintedLine::Out("Tunnel is already running: db (pid: 42)".to_owned()))
    );
    assert_eq!(
        recovery_step_line(&RecoveryStep::ConfigMissing { name: "db".to_owned(), runtime_id: "r".to_owned() }),
        Some(PrintedLine::Error("Configured tunnel not found for stale state: db (r)".to_owned()))
    );
    assert_eq!(recovery_step_line(&RecoveryStep::Start(&config.tunnels[0])), None);
}

#[test]
fn watch_restarts_configured_stale_tunnels() {
    let config = sample();
    let dev = status("dev-db", ProcessState::Stale).state.runtime_id;
    let stale = vec![dev, "local:gone.toml:old".to_owned()];

    let steps = watch_recovery_steps(&config, &paths(&config), &stale);

    assert_eq!(steps.len(), 2);
    assert!(matches!(steps[0], WatchStep::Start(t) if t.tunnel.name == "dev-db"));
    assert_eq!(steps[1], WatchStep::ConfigMissing { runtime_id: "local:gone.toml:old".to_owned() });
    assert_eq!(
        watch_config_missing_message("local:gone.toml:old"),
        "Configured tunnel not found for stale state: local:gone.toml:old"
    );
}

#[test]
fn stop_refusal_messages() {
    assert_eq!(
        stop_refusal_message(&StopRefusal::AllWithNames),
        Some("Cannot combine --all with tunnel NAMEs.".to_owned())
    );
    assert_eq!(stop_refusal_message(&StopRefusal::UntrackedNames), None);
}
