//! The lines that the commands print: tunnel details, validation issues,
//! what was started and stopped, and what a dry run would do.

use vstd::prelude::*;

use crate::commands::{last_status_position, last_status_with_id};
use crate::config::{
    kind_label, spec_effective_local_host, ConfigSource, ConfigSourceKind, EffectiveConfig, ResolvedModel,
    ResolvedTimeoutConfig, ResolvedTunnelConfig,
};
use crate::display::{
    endpoint_text, format_local_endpoint, format_optional_value, format_remote_endpoint, format_ssh_command,
    format_ssh_endpoint, format_tag_list, pad_display_width, pad_display_width_with_visible_width, spec_pad,
    spec_ssh_command, spec_ssh_endpoint, spec_tag_list, text_width,
};
use crate::paths::{format_path_for_display_with_home, spec_display_path};
use crate::selection::{find_status_by_name, find_tunnel_by_name, spec_name_lookup, spec_status_lookup, status_states};
use crate::state::{runtime_id_for_resolved_tunnel, spec_runtime_id, StateModel};
use crate::table::{ListColumnWidths, ListRow, StatusColumnWidths, StatusRow};
use crate::tunnel::{build_ssh_command_args, spec_ssh_args, ProcessState, StartedTunnel, StoppedTunnel, TunnelRuntimeStatus};
use crate::validate::{IssueModel, ValidationReport};
use crate::text::{concat_str, decimal, decimal_string, trim};

verus! {

/// `label` followed by `value`.
pub open spec fn labelled(label: Seq<char>, value: Seq<char>) -> Seq<char> {
    label + value
}

/// An optional value for display: the value, or `-` when absent or blank.
pub open spec fn optional_text(value: Option<Seq<char>>) -> Seq<char> {
    match value {
        Some(v) => if trim(v).len() > 0 {
            v
        } else {
            "-"@
        },
        None => "-"@,
    }
}

/// An optional string for display, as [`optional_text`] says.
fn optional_string(value: &Option<String>) -> (r: String)
    ensures
        r@ == optional_text(value.deep_view()),
{
    match value {
        Some(v) => String::from_str(format_optional_value(Some(v.as_str()))),
        None => String::from_str(format_optional_value(None)),
    }
}

/// Adds copies of `more` at the end of `lines`.
pub fn append_lines(lines: &mut Vec<String>, more: &Vec<String>)
    ensures
        final(lines).deep_view() == old(lines).deep_view() + more.deep_view(),
{
    let ghost head = lines.deep_view();
    let mut i: usize = 0;
    while i < more.len()
        invariant
            i <= more@.len(),
            lines@.len() == head.len() + i,
            forall|j: int| 0 <= j < head.len() ==> (#[trigger] lines@[j])@ == head[j],
            forall|j: int| 0 <= j < i ==> (#[trigger] lines@[head.len() + j])@ == more@[j]@,
        decreases more@.len() - i,
    {
        lines.push(more[i].clone());
        i += 1;
    }
    assert forall|k: int| 0 <= k < lines@.len() implies (#[trigger] lines.deep_view()[k]) == (head
        + more.deep_view())[k] by {
        if k >= head.len() {
            assert(lines@[head.len() + (k - head.len())]@ == more@[k - head.len()]@);
        }
    }
    assert(lines.deep_view() =~= head + more.deep_view());
}

/// The lines that show resolved timeouts.
pub open spec fn spec_timeout_lines(t: ResolvedTimeoutConfig) -> Seq<Seq<char>> {
    seq![
        "Timeouts:"@,
        "  Connect timeout: "@ + decimal(t.connect_timeout_seconds as nat) + "s"@,
        "  Server alive interval: "@ + decimal(t.server_alive_interval_seconds as nat) + "s"@,
        "  Server alive count max: "@ + decimal(t.server_alive_count_max as nat),
        "  Start grace: "@ + decimal(t.start_grace_milliseconds as nat) + "ms"@,
    ]
}

/// `prefix`, the number `n`, then `suffix`.
fn number_line(prefix: &str, n: u64, suffix: &str) -> (r: String)
    ensures
        r@ == prefix@ + decimal(n as nat) + suffix@,
{
    let a = concat_str(prefix, decimal_string(n).as_str());
    concat_str(a.as_str(), suffix)
}

/// The lines that show resolved timeouts.
pub fn timeout_detail_lines(timeouts: ResolvedTimeoutConfig) -> (r: Vec<String>)
    ensures
        r.deep_view() == spec_timeout_lines(timeouts),
{
    let mut r: Vec<String> = Vec::new();
    r.push(String::from_str("Timeouts:"));
    r.push(number_line("  Connect timeout: ", timeouts.connect_timeout_seconds as u64, "s"));
    r.push(number_line("  Server alive interval: ", timeouts.server_alive_interval_seconds as u64, "s"));
    r.push(number_line("  Server alive count max: ", timeouts.server_alive_count_max as u64, ""));
    r.push(number_line("  Start grace: ", timeouts.start_grace_milliseconds, "ms"));
    proof {
        reveal_strlit("");
    }
    assert(r.deep_view() =~= spec_timeout_lines(timeouts));
    r
}

/// The lines of `show`: the tunnel's settings, where it comes from (the
/// path shown with `home` shortened to `~`), its runtime ID and its
/// timeouts.
pub open spec fn spec_detail_lines(r: ResolvedModel, home: Seq<char>, normalized_source_path: Seq<char>) -> Seq<
    Seq<char>,
> {
    let t = r.tunnel;
    seq![
        "ID: "@ + t.name,
        "Description: "@ + optional_text(t.description),
        "Tags: "@ + spec_tag_list(t.tags),
        "Local: "@ + endpoint_text(spec_effective_local_host(t), t.local_port),
        "Remote: "@ + endpoint_text(t.remote_host, t.remote_port),
        "SSH: "@ + spec_ssh_endpoint(t),
        "Identity file: "@ + optional_text(t.identity_file),
        "Source: "@ + kind_label(r.source.kind) + " ("@ + spec_display_path(r.source.path, home) + ")"@,
        "Runtime ID: "@ + spec_runtime_id(r.source.kind, normalized_source_path, t.name),
    ] + spec_timeout_lines(r.timeouts)
}

/// The lines of `show` for a tunnel.
pub fn tunnel_detail_lines(resolved: &ResolvedTunnelConfig, home: &str, normalized_source_path: &str) -> (r: Vec<
    String,
>)
    ensures
        r.deep_view() == spec_detail_lines(resolved@, home@, normalized_source_path@),
{
    let t = &resolved.tunnel;
    let mut r: Vec<String> = Vec::new();
    r.push(concat_str("ID: ", t.name.as_str()));
    r.push(concat_str("Description: ", optional_string(&t.description).as_str()));
    r.push(concat_str("Tags: ", format_tag_list(t.tags.as_slice()).as_str()));
    r.push(concat_str("Local: ", format_local_endpoint(t).as_str()));
    r.push(concat_str("Remote: ", format_remote_endpoint(t).as_str()));
    r.push(concat_str("SSH: ", format_ssh_endpoint(t).as_str()));
    r.push(concat_str("Identity file: ", optional_string(&t.identity_file).as_str()));
    let a = concat_str("Source: ", resolved.source.kind.label().as_str());
    let b = concat_str(a.as_str(), " (");
    let c = concat_str(b.as_str(), format_path_for_display_with_home(resolved.source.path.as_str(), home).as_str());
    r.push(concat_str(c.as_str(), ")"));
    r.push(concat_str("Runtime ID: ", runtime_id_for_resolved_tunnel(resolved, normalized_source_path).as_str()));
    let ghost head = r.deep_view();
    let tl = timeout_detail_lines(resolved.timeouts);
    append_lines(&mut r, &tl);
    assert(head =~= spec_detail_lines(resolved@, home@, normalized_source_path@).subrange(0, 9));
    assert(r.deep_view() =~= spec_detail_lines(resolved@, home@, normalized_source_path@));
    r
}

// ---------------------------------------------------------------------
// Validation
// ---------------------------------------------------------------------

/// One validation issue: `- [kind] name (path) message`, with `-` for a
/// file-wide issue and the path shown with `home` shortened to `~`.
pub open spec fn spec_issue_line(i: IssueModel, home: Seq<char>) -> Seq<char> {
    "- ["@ + kind_label(i.source.kind) + "] "@ + match i.tunnel_name {
        Some(n) => n,
        None => "-"@,
    } + " ("@ + spec_display_path(i.source.path, home) + ") "@ + i.message
}

/// One validation issue as a line.
fn issue_line(source: &ConfigSource, tunnel_name: &Option<String>, message: &str, home: &str) -> (r: String)
    ensures
        r@ == spec_issue_line(IssueModel { source: source@, tunnel_name: tunnel_name.deep_view(), message: message@ }, home@),
{
    let a = concat_str("- [", source.kind.label().as_str());
    let b = concat_str(a.as_str(), "] ");
    let c = match tunnel_name {
        Some(n) => concat_str(b.as_str(), n.as_str()),
        None => concat_str(b.as_str(), "-"),
    };
    let d = concat_str(c.as_str(), " (");
    let e = concat_str(d.as_str(), format_path_for_display_with_home(source.path.as_str(), home).as_str());
    let f = concat_str(e.as_str(), ") ");
    concat_str(f.as_str(), message)
}

/// The lines that report the errors: a title, then one line per error.
pub open spec fn spec_error_lines(errors: Seq<IssueModel>, home: Seq<char>) -> Seq<Seq<char>> {
    seq!["Configuration has errors."@] + errors.map_values(|i: IssueModel| spec_issue_line(i, home))
}

/// The lines that report the warnings: none without warnings, else a
/// title, then one line per warning.
pub open spec fn spec_warning_lines(warnings: Seq<IssueModel>, home: Seq<char>) -> Seq<Seq<char>> {
    if warnings.len() == 0 {
        seq![]
    } else {
        seq!["Configuration has warnings."@] + warnings.map_values(|i: IssueModel| spec_issue_line(i, home))
    }
}

/// The lines that report the errors of a validation.
pub fn validation_error_lines(report: &ValidationReport, home: &str) -> (r: Vec<String>)
    ensures
        r.deep_view() == spec_error_lines(report.errors.deep_view(), home@),
{
    let ghost ev = report.errors.deep_view();
    let mut r: Vec<String> = Vec::new();
    r.push(String::from_str("Configuration has errors."));
    let mut i: usize = 0;
    while i < report.errors.len()
        invariant
            ev == report.errors.deep_view(),
            i <= ev.len(),
            r@.len() == i + 1,
            r@[0]@ == "Configuration has errors."@,
            forall|j: int| 0 <= j < i ==> (#[trigger] r@[j + 1])@ == spec_issue_line(ev[j], home@),
        decreases ev.len() - i,
    {
        let e = &report.errors[i];
        assert(ev[i as int] == e@);
        r.push(issue_line(&e.source, &e.tunnel_name, e.message.as_str(), home));
        i += 1;
    }
    assert forall|k: int| 0 <= k < r@.len() implies (#[trigger] r.deep_view()[k]) == spec_error_lines(ev, home@)[k] by {
        if k > 0 {
            assert(r@[(k - 1) + 1]@ == spec_issue_line(ev[k - 1], home@));
        }
    }
    assert(r.deep_view() =~= spec_error_lines(ev, home@));
    r
}

/// The lines that report the warnings of a validation.
pub fn validation_warning_lines(report: &ValidationReport, home: &str) -> (r: Vec<String>)
    ensures
        r.deep_view() == spec_warning_lines(report.warnings.deep_view(), home@),
{
    let ghost wv = report.warnings.deep_view();
    let mut r: Vec<String> = Vec::new();
    if report.warnings.len() == 0 {
        assert(r.deep_view() =~= spec_warning_lines(wv, home@));
        return r;
    }
    r.push(String::from_str("Configuration has warnings."));
    let mut i: usize = 0;
    while i < report.warnings.len()
        invariant
            wv == report.warnings.deep_view(),
            i <= wv.len(),
            r@.len() == i + 1,
            r@[0]@ == "Configuration has warnings."@,
            forall|j: int| 0 <= j < i ==> (#[trigger] r@[j + 1])@ == spec_issue_line(wv[j], home@),
        decreases wv.len() - i,
    {
        let w = &report.warnings[i];
        assert(wv[i as int] == w@);
        r.push(issue_line(&w.source, &w.tunnel_name, w.message.as_str(), home));
        i += 1;
    }
    assert forall|k: int| 0 <= k < r@.len() implies (#[trigger] r.deep_view()[k]) == spec_warning_lines(wv, home@)[k] by {
        if k > 0 {
            assert(r@[(k - 1) + 1]@ == spec_issue_line(wv[k - 1], home@));
        }
    }
    assert(r.deep_view() =~= spec_warning_lines(wv, home@));
    r
}

/// What `validate` concludes.
#[derive(Debug, Clone, Copy, PartialEq, Eq, Structural)]
pub enum ValidationVerdict {
    /// No configuration file was found: a failure.
    NoConfiguration,
    /// Neither errors nor warnings.
    Valid,
    /// Warnings only.
    ValidWithWarnings,
    /// At least one error: a failure.
    Invalid,
}

/// What `validate` concludes: without any configuration file nothing is
/// checked; errors make the configuration invalid; warnings alone leave it
/// valid.
pub open spec fn spec_validation_verdict(has_sources: bool, errors: nat, warnings: nat) -> ValidationVerdict {
    if !has_sources {
        ValidationVerdict::NoConfiguration
    } else if errors > 0 {
        ValidationVerdict::Invalid
    } else if warnings > 0 {
        ValidationVerdict::ValidWithWarnings
    } else {
        ValidationVerdict::Valid
    }
}

/// What `validate` concludes from whether configuration files were found
/// and the validation report.
pub fn validation_verdict(has_sources: bool, report: &ValidationReport) -> (r: ValidationVerdict)
    ensures
        r == spec_validation_verdict(has_sources, report.errors@.len(), report.warnings@.len()),
{
    if !has_sources {
        ValidationVerdict::NoConfiguration
    } else if !report.is_valid() {
        ValidationVerdict::Invalid
    } else if report.has_warnings() {
        ValidationVerdict::ValidWithWarnings
    } else {
        ValidationVerdict::Valid
    }
}

/// Whether a verdict makes `validate` fail.
pub fn validation_failed(verdict: ValidationVerdict) -> (r: bool)
    ensures
        r == (verdict == ValidationVerdict::NoConfiguration || verdict == ValidationVerdict::Invalid),
{
    match verdict {
        ValidationVerdict::NoConfiguration | ValidationVerdict::Invalid => true,
        ValidationVerdict::Valid | ValidationVerdict::ValidWithWarnings => false,
    }
}

// ---------------------------------------------------------------------
// Started and stopped tunnels
// ---------------------------------------------------------------------

/// The line for a started tunnel.
pub open spec fn spec_started_message(s: StateModel) -> Seq<char> {
    "Started tunnel: "@ + s.name + " (pid: "@ + decimal(s.pid as nat) + ", local: "@ + s.local_host + ":"@ + decimal(
        s.local_port as nat,
    ) + ")"@
}

/// The line for a started tunnel: its name, pid and local endpoint.
pub fn started_tunnel_message(started: &StartedTunnel) -> (r: String)
    ensures
        r@ == spec_started_message(started.state@),
{
    let s = &started.state;
    let a = concat_str("Started tunnel: ", s.name.as_str());
    let b = number_line(concat_str(a.as_str(), " (pid: ").as_str(), s.pid as u64, ", local: ");
    let c = concat_str(b.as_str(), s.local_host.as_str());
    number_line(concat_str(c.as_str(), ":").as_str(), s.local_port as u64, ")")
}

/// The line for a stopped tunnel.
pub open spec fn spec_stopped_message(s: StateModel, previous: ProcessState) -> Seq<char> {
    match previous {
        ProcessState::Running => "Stopped tunnel: "@ + s.name + " (pid: "@ + decimal(s.pid as nat) + ")"@,
        ProcessState::Stale => "Removed stale tunnel state: "@ + s.name + " (pid: "@ + decimal(s.pid as nat) + ")"@,
    }
}

/// The line for a stopped tunnel: stopped when it ran, else its stale
/// state removed.
pub fn stopped_tunnel_message(stopped: &StoppedTunnel) -> (r: String)
    ensures
        r@ == spec_stopped_message(stopped.state@, stopped.previous_state),
{
    let s = &stopped.state;
    let head = match stopped.previous_state {
        ProcessState::Running => concat_str("Stopped tunnel: ", s.name.as_str()),
        ProcessState::Stale => concat_str("Removed stale tunnel state: ", s.name.as_str()),
    };
    number_line(concat_str(head.as_str(), " (pid: ").as_str(), s.pid as u64, ")")
}

/// The message of `show` when no configured tunnel in scope has `name`.
pub fn show_unknown_name_message(name: &str) -> (r: String)
    ensures
        r@ == "No tunnel matched ID: "@ + name@ + "."@,
{
    let a = concat_str("No tunnel matched ID: ", name);
    concat_str(a.as_str(), ".")
}

/// One line per name that means no configured tunnel, in order.
pub open spec fn spec_unknown_name_lines(ts: Seq<ResolvedModel>, names: Seq<Seq<char>>, scope: Option<ConfigSourceKind>) -> Seq<
    Seq<char>,
>
    decreases names.len(),
{
    if names.len() == 0 {
        seq![]
    } else {
        let rest = spec_unknown_name_lines(ts, names.drop_last(), scope);
        if spec_name_lookup(ts, names.last(), scope) is None {
            rest.push("Unknown tunnel name: "@ + names.last())
        } else {
            rest
        }
    }
}

/// The lines that report the names that mean no configured tunnel.
pub fn unknown_name_lines(config: &EffectiveConfig, names: &[String], scope: Option<ConfigSourceKind>) -> (r: Vec<
    String,
>)
    ensures
        r.deep_view() == spec_unknown_name_lines(config@.tunnels, names.deep_view(), scope),
{
    let ghost nv = names.deep_view();
    let mut r: Vec<String> = Vec::new();
    let mut i: usize = 0;
    while i < names.len()
        invariant
            nv == names.deep_view(),
            i <= nv.len(),
            r.deep_view() == spec_unknown_name_lines(config@.tunnels, nv.subrange(0, i as int), scope),
        decreases nv.len() - i,
    {
        assert(nv.subrange(0, i + 1).drop_last() =~= nv.subrange(0, i as int));
        assert(nv[i as int] == names@[i as int]@);
        if find_tunnel_by_name(config, names[i].as_str(), scope).is_none() {
            let ghost before = r.deep_view();
            let line = concat_str("Unknown tunnel name: ", names[i].as_str());
            r.push(line);
            assert(r.deep_view() =~= before.push(line@));
        }
        i += 1;
    }
    assert(nv.subrange(0, i as int) =~= nv);
    r
}

/// One line per name that means no tracked tunnel, in order.
pub open spec fn spec_untracked_name_lines(
    ss: Seq<StateModel>,
    names: Seq<Seq<char>>,
    scope: Option<ConfigSourceKind>,
) -> Seq<Seq<char>>
    decreases names.len(),
{
    if names.len() == 0 {
        seq![]
    } else {
        let rest = spec_untracked_name_lines(ss, names.drop_last(), scope);
        if spec_status_lookup(ss, names.last(), scope) is None {
            rest.push("Tunnel is not tracked: "@ + names.last())
        } else {
            rest
        }
    }
}

/// The lines that report the names that mean no tracked tunnel.
pub fn untracked_name_lines(statuses: &[TunnelRuntimeStatus], names: &[String], scope: Option<ConfigSourceKind>) -> (r: Vec<
    String,
>)
    ensures
        r.deep_view() == spec_untracked_name_lines(status_states(statuses@), names.deep_view(), scope),
{
    let ghost nv = names.deep_view();
    let mut r: Vec<String> = Vec::new();
    let mut i: usize = 0;
    while i < names.len()
        invariant
            nv == names.deep_view(),
            i <= nv.len(),
            r.deep_view() == spec_untracked_name_lines(status_states(statuses@), nv.subrange(0, i as int), scope),
        decreases nv.len() - i,
    {
        assert(nv.subrange(0, i + 1).drop_last() =~= nv.subrange(0, i as int));
        assert(nv[i as int] == names@[i as int]@);
        if find_status_by_name(statuses, names[i].as_str(), scope).is_none() {
            let ghost before = r.deep_view();
            let line = concat_str("Tunnel is not tracked: ", names[i].as_str());
            r.push(line);
            assert(r.deep_view() =~= before.push(line@));
        }
        i += 1;
    }
    assert(nv.subrange(0, i as int) =~= nv);
    r
}

// ---------------------------------------------------------------------
// Dry runs
// ---------------------------------------------------------------------

/// The home directory by which paths are shown: none when unknown.
pub open spec fn display_home(home: Option<Seq<char>>) -> Seq<char> {
    match home {
        Some(h) => h,
        None => seq![],
    }
}

/// The home directory by which paths are shown.
pub fn display_home_str<'a>(home: Option<&'a str>) -> (r: &'a str)
    ensures
        r@ == display_home(match home {
            Some(h) => Some(h@),
            None => None,
        }),
{
    match home {
        Some(h) => h,
        None => {
            proof {
                reveal_strlit("");
            }
            ""
        },
    }
}

/// The mathematical value of an optional `&str`.
pub open spec fn opt_str_view(home: Option<&str>) -> Option<Seq<char>> {
    match home {
        Some(h) => Some(h@),
        None => None,
    }
}

/// What a dry run of `start` shows for one tunnel: its endpoints and the
/// `ssh` command that would run.
pub open spec fn spec_start_dry_run_tunnel_lines(r: ResolvedModel, home: Option<Seq<char>>) -> Seq<Seq<char>> {
    let t = r.tunnel;
    seq![
        "Would start tunnel: "@ + t.name,
        "  Local: "@ + endpoint_text(spec_effective_local_host(t), t.local_port),
        "  Remote: "@ + endpoint_text(t.remote_host, t.remote_port),
        "  SSH: "@ + spec_ssh_endpoint(t),
        "  Command: "@ + spec_ssh_command(spec_ssh_args(r, home)),
    ]
}

/// What a dry run of `start` shows: that nothing is done, the state file,
/// then each tunnel in turn.
pub open spec fn spec_start_dry_run_lines(ts: Seq<ResolvedModel>, state_path: Seq<char>, home: Option<Seq<char>>) -> Seq<
    Seq<char>,
>
    decreases ts.len(),
{
    if ts.len() == 0 {
        seq![
            "Dry run: no ssh process will be started and state file will not be written."@,
            "State file: "@ + spec_display_path(state_path, display_home(home)),
        ]
    } else {
        spec_start_dry_run_lines(ts.drop_last(), state_path, home) + spec_start_dry_run_tunnel_lines(ts.last(), home)
    }
}

/// What a dry run of `start` shows for these tunnels and this state file;
/// `home` expands `~/` in identity files and shortens paths shown.
pub fn start_dry_run_lines(tunnels: &[&ResolvedTunnelConfig], state_path: &str, home: Option<&str>) -> (r: Vec<String>)
    ensures
        r.deep_view() == spec_start_dry_run_lines(
            tunnels@.map_values(|t: &ResolvedTunnelConfig| t@),
            state_path@,
            opt_str_view(home),
        ),
{
    let ghost tv = tunnels@.map_values(|t: &ResolvedTunnelConfig| t@);
    let ghost hv = opt_str_view(home);
    let mut r: Vec<String> = Vec::new();
    r.push(String::from_str("Dry run: no ssh process will be started and state file will not be written."));
    r.push(concat_str(
        "State file: ",
        format_path_for_display_with_home(state_path, display_home_str(home)).as_str(),
    ));
    assert(r.deep_view() =~= spec_start_dry_run_lines(tv.subrange(0, 0), state_path@, hv));
    let mut i: usize = 0;
    while i < tunnels.len()
        invariant
            tv == tunnels@.map_values(|t: &ResolvedTunnelConfig| t@),
            hv == opt_str_view(home),
            i <= tv.len(),
            r.deep_view() == spec_start_dry_run_lines(tv.subrange(0, i as int), state_path@, hv),
        decreases tv.len() - i,
    {
        let resolved = tunnels[i];
        assert(tv[i as int] == resolved@);
        assert(tv.subrange(0, i + 1).drop_last() =~= tv.subrange(0, i as int));
        let t = &resolved.tunnel;
        let mut lines: Vec<String> = Vec::new();
        lines.push(concat_str("Would start tunnel: ", t.name.as_str()));
        lines.push(concat_str("  Local: ", format_local_endpoint(t).as_str()));
        lines.push(concat_str("  Remote: ", format_remote_endpoint(t).as_str()));
        lines.push(concat_str("  SSH: ", format_ssh_endpoint(t).as_str()));
        let args = build_ssh_command_args(resolved, home);
        lines.push(concat_str("  Command: ", format_ssh_command(args.as_slice()).as_str()));
        assert(lines.deep_view() =~= spec_start_dry_run_tunnel_lines(resolved@, hv));
        append_lines(&mut r, &lines);
        i += 1;
    }
    assert(tv.subrange(0, i as int) =~= tv);
    r
}

/// A printed line: on standard output, or on standard error for a
/// failure.
#[derive(Debug, PartialEq, Eq)]
pub enum PrintedLine {
    Out(String),
    Error(String),
}

/// The mathematical value of a [`PrintedLine`].
pub ghost enum PrintedModel {
    Out(Seq<char>),
    Error(Seq<char>),
}

impl View for PrintedLine {
    type V = PrintedModel;

    open spec fn view(&self) -> PrintedModel {
        match self {
            PrintedLine::Out(s) => PrintedModel::Out(s@),
            PrintedLine::Error(s) => PrintedModel::Error(s@),
        }
    }
}

/// What a dry run of `stop` shows for one runtime ID, by the last status
/// recorded under it: that it is not tracked (a failure), that the
/// running tunnel would be stopped and its entry removed, or that its
/// stale state would be removed.
pub open spec fn spec_stop_dry_run_id_lines(statuses: Seq<TunnelRuntimeStatus>, runtime_id: Seq<char>) -> Seq<PrintedModel> {
    match last_status_with_id(statuses, runtime_id, statuses.len() as int) {
        None => seq![PrintedModel::Error("Tunnel is not tracked: "@ + runtime_id)],
        Some(i) => {
            let s = statuses[i].state@;
            match statuses[i].process_state {
                ProcessState::Running => seq![
                    PrintedModel::Out("Would stop tunnel: "@ + s.name + " (pid: "@ + decimal(s.pid as nat) + ")"@),
                    PrintedModel::Out("Would remove state entry: "@ + s.name),
                ],
                ProcessState::Stale => seq![
                    PrintedModel::Out(
                        "Would remove stale tunnel state: "@ + s.name + " (pid: "@ + decimal(s.pid as nat) + ")"@,
                    ),
                ],
            }
        },
    }
}

/// What a dry run of `stop` shows: that nothing is done, the state file,
/// then each runtime ID in turn.
pub open spec fn spec_stop_dry_run_lines(
    statuses: Seq<TunnelRuntimeStatus>,
    ids: Seq<Seq<char>>,
    state_path: Seq<char>,
    home: Option<Seq<char>>,
) -> Seq<PrintedModel>
    decreases ids.len(),
{
    if ids.len() == 0 {
        seq![
            PrintedModel::Out("Dry run: no process will be stopped and state file will not be modified."@),
            PrintedModel::Out("State file: "@ + spec_display_path(state_path, display_home(home))),
        ]
    } else {
        spec_stop_dry_run_lines(statuses, ids.drop_last(), state_path, home) + spec_stop_dry_run_id_lines(
            statuses,
            ids.last(),
        )
    }
}

/// The mathematical value of printed lines.
pub open spec fn printed(lines: Seq<PrintedLine>) -> Seq<PrintedModel> {
    lines.map_values(|l: PrintedLine| l@)
}

/// What a dry run of `stop` shows for these runtime IDs, with whether one
/// is not tracked (which makes the command fail).
pub fn stop_dry_run_lines(statuses: &[TunnelRuntimeStatus], runtime_ids: &[String], state_path: &str, home: Option<&str>) -> (r: (
    Vec<PrintedLine>,
    bool,
))
    ensures
        printed(r.0@) == spec_stop_dry_run_lines(statuses@, runtime_ids.deep_view(), state_path@, opt_str_view(home)),
        r.1 == exists|i: int|
            0 <= i < runtime_ids@.len() && last_status_with_id(
                statuses@,
                #[trigger] runtime_ids@[i]@,
                statuses@.len() as int,
            ) is None,
{
    let ghost iv = runtime_ids.deep_view();
    let ghost hv = opt_str_view(home);
    let mut r: Vec<PrintedLine> = Vec::new();
    r.push(PrintedLine::Out(String::from_str("Dry run: no process will be stopped and state file will not be modified.")));
    r.push(PrintedLine::Out(concat_str(
        "State file: ",
        format_path_for_display_with_home(state_path, display_home_str(home)).as_str(),
    )));
    assert(printed(r@) =~= spec_stop_dry_run_lines(statuses@, iv.subrange(0, 0), state_path@, hv));
    let mut failed = false;
    let mut i: usize = 0;
    while i < runtime_ids.len()
        invariant
            iv == runtime_ids.deep_view(),
            hv == opt_str_view(home),
            i <= iv.len(),
            printed(r@) == spec_stop_dry_run_lines(statuses@, iv.subrange(0, i as int), state_path@, hv),
            failed == exists|j: int|
                0 <= j < i && last_status_with_id(statuses@, #[trigger] runtime_ids@[j]@, statuses@.len() as int)
                    is None,
        decreases iv.len() - i,
    {
        let id = runtime_ids[i].as_str();
        assert(iv[i as int] == id@);
        assert(iv.subrange(0, i + 1).drop_last() =~= iv.subrange(0, i as int));
        let ghost before = printed(r@);
        match last_status_position(statuses, id) {
            None => {
                failed = true;
                r.push(PrintedLine::Error(concat_str("Tunnel is not tracked: ", id)));
            },
            Some(k) => {
                let st = &statuses[k];
                let s = &st.state;
                match st.process_state {
                    ProcessState::Running => {
                        let a = concat_str("Would stop tunnel: ", s.name.as_str());
                        r.push(PrintedLine::Out(number_line(concat_str(a.as_str(), " (pid: ").as_str(), s.pid as u64, ")")));
                        r.push(PrintedLine::Out(concat_str("Would remove state entry: ", s.name.as_str())));
                    },
                    ProcessState::Stale => {
                        let a = concat_str("Would remove stale tunnel state: ", s.name.as_str());
                        r.push(PrintedLine::Out(number_line(concat_str(a.as_str(), " (pid: ").as_str(), s.pid as u64, ")")));
                    },
                }
            },
        }
        assert(printed(r@) =~= before + spec_stop_dry_run_id_lines(statuses@, id@));
        i += 1;
    }
    assert(iv.subrange(0, i as int) =~= iv);
    (r, failed)
}

// ---------------------------------------------------------------------
// Tables
// ---------------------------------------------------------------------

/// A heading padded to its column.
pub open spec fn heading(title: Seq<char>, width: usize) -> Seq<char> {
    spec_pad(title, text_width(title), width)
}

/// The heading line of `list`.
pub open spec fn spec_list_header(w: ListColumnWidths) -> Seq<char> {
    heading("NAME"@, w.id) + " "@ + heading("LOCAL"@, w.local) + " "@ + heading("REMOTE"@, w.remote) + " "@ + heading(
        "SSH"@,
        w.ssh,
    ) + " "@ + heading("TAGS"@, w.tags) + " SOURCE"@
}

/// `a`, a space, then `b`.
fn spaced(a: &str, b: &str) -> (r: String)
    ensures
        r@ == a@ + " "@ + b@,
{
    let x = concat_str(a, " ");
    concat_str(x.as_str(), b)
}

/// The heading line of `list`.
pub fn list_header_line(widths: ListColumnWidths) -> (r: String)
    ensures
        r@ == spec_list_header(widths),
{
    let a = spaced(pad_display_width("NAME", widths.id).as_str(), pad_display_width("LOCAL", widths.local).as_str());
    let b = spaced(a.as_str(), pad_display_width("REMOTE", widths.remote).as_str());
    let c = spaced(b.as_str(), pad_display_width("SSH", widths.ssh).as_str());
    let d = spaced(c.as_str(), pad_display_width("TAGS", widths.tags).as_str());
    concat_str(d.as_str(), " SOURCE")
}

/// One line of `list`: each cell padded to its column by its display
/// width, then the source kind.
pub open spec fn spec_list_row_line(row: ListRow, w: ListColumnWidths) -> Seq<char> {
    spec_pad(row.id@, row.id_width, w.id) + " "@ + spec_pad(row.local@, row.local_width, w.local) + " "@ + spec_pad(
        row.remote@,
        row.remote_width,
        w.remote,
    ) + " "@ + spec_pad(row.ssh@, row.ssh_width, w.ssh) + " "@ + spec_pad(row.tags@, row.tags_width, w.tags) + " "@
        + kind_label(row.source)
}

/// One line of `list`.
pub fn list_row_line(row: &ListRow, widths: ListColumnWidths) -> (r: String)
    ensures
        r@ == spec_list_row_line(*row, widths),
{
    let a = spaced(
        pad_display_width_with_visible_width(row.id.as_str(), row.id_width, widths.id).as_str(),
        pad_display_width_with_visible_width(row.local.as_str(), row.local_width, widths.local).as_str(),
    );
    let b = spaced(
        a.as_str(),
        pad_display_width_with_visible_width(row.remote.as_str(), row.remote_width, widths.remote).as_str(),
    );
    let c = spaced(b.as_str(), pad_display_width_with_visible_width(row.ssh.as_str(), row.ssh_width, widths.ssh).as_str());
    let d = spaced(
        c.as_str(),
        pad_display_width_with_visible_width(row.tags.as_str(), row.tags_width, widths.tags).as_str(),
    );
    spaced(d.as_str(), row.source.label().as_str())
}

/// The heading line of `status`.
pub open spec fn spec_status_header(w: StatusColumnWidths) -> Seq<char> {
    heading("NAME"@, w.id) + " "@ + heading("LOCAL"@, w.local) + " "@ + heading("REMOTE"@, w.remote) + " "@ + heading(
        "PID"@,
        w.pid,
    ) + " "@ + heading("STATE"@, w.state) + " SOURCE STARTED"@
}

/// The heading line of `status`.
pub fn status_header_line(widths: StatusColumnWidths) -> (r: String)
    ensures
        r@ == spec_status_header(widths),
{
    let a = spaced(pad_display_width("NAME", widths.id).as_str(), pad_display_width("LOCAL", widths.local).as_str());
    let b = spaced(a.as_str(), pad_display_width("REMOTE", widths.remote).as_str());
    let c = spaced(b.as_str(), pad_display_width("PID", widths.pid).as_str());
    let d = spaced(c.as_str(), pad_display_width("STATE", widths.state).as_str());
    concat_str(d.as_str(), " SOURCE STARTED")
}

/// One line of `status`: each cell padded to its column by its display
/// width, then the source kind and when the tunnel started.
pub open spec fn spec_status_row_line(row: StatusRow, w: StatusColumnWidths) -> Seq<char> {
    spec_pad(row.id@, row.id_width, w.id) + " "@ + spec_pad(row.local@, row.local_width, w.local) + " "@ + spec_pad(
        row.remote@,
        row.remote_width,
        w.remote,
    ) + " "@ + spec_pad(row.pid@, row.pid_width, w.pid) + " "@ + spec_pad(
        row.process_state@,
        row.process_state_width,
        w.state,
    ) + " "@ + kind_label(row.source) + " "@ + row.started@
}

/// One line of `status`.
pub fn status_row_line(row: &StatusRow, widths: StatusColumnWidths) -> (r: String)
    ensures
        r@ == spec_status_row_line(*row, widths),
{
    let a = spaced(
        pad_display_width_with_visible_width(row.id.as_str(), row.id_width, widths.id).as_str(),
        pad_display_width_with_visible_width(row.local.as_str(), row.local_width, widths.local).as_str(),
    );
    let b = spaced(
        a.as_str(),
        pad_display_width_with_visible_width(row.remote.as_str(), row.remote_width, widths.remote).as_str(),
    );
    let c = spaced(b.as_str(), pad_display_width_with_visible_width(row.pid.as_str(), row.pid_width, widths.pid).as_str());
    let d = spaced(
        c.as_str(),
        pad_display_width_with_visible_width(row.process_state.as_str(), row.process_state_width, widths.state).as_str(),
    );
    let e = spaced(d.as_str(), row.source.label().as_str());
    spaced(e.as_str(), row.started.as_str())
}

} // verus!
