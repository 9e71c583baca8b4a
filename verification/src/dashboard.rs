//! What the desktop app's dashboard shows: the files in use, the
//! validation result, the configured tunnels (each with its tracked state,
//! where there is one) and the tracked tunnels, both ordered by name.

use vstd::prelude::*;

use crate::config::{
    kind_label, spec_effective_local_host, ConfigSource, EffectiveConfig, ResolvedModel, ResolvedTimeoutConfig,
    ResolvedTunnelConfig,
};
use crate::display::{
    endpoint_text, format_local_endpoint, format_remote_endpoint, format_ssh_endpoint, format_status_local_endpoint,
    format_status_remote_endpoint, spec_ssh_endpoint,
};
use crate::order::is_stable_name_order;
use crate::runtime_paths::RuntimePaths;
use crate::selection::{ref_names, resolved_names, sorted_tunnels_by_id};
use crate::state::{StateModel, TunnelState};
use crate::strings::{clone_opt_string, clone_strings};
use crate::text::{concat_str, decimal, decimal_string, str_eq};
use crate::tunnel::ProcessState;
use crate::validate::{IssueModel, ValidationReport};
use crate::workspace::{runtime_scope_for_source, runtime_status_key, scope_label, spec_scope_for_source, RuntimeScope, ScopedRuntimeStatus};

verus! {

// ---------------------------------------------------------------------
// Paths
// ---------------------------------------------------------------------

/// The files in use, as the dashboard shows them; an absent one is empty.
#[derive(Debug, PartialEq, Eq)]
pub struct PathView {
    pub workspace_path: String,
    pub workspace_history: Vec<String>,
    pub local_config_path: String,
    pub global_config_path: String,
    pub use_global: bool,
    pub global_state_path: String,
    pub workspace_state_path: String,
    pub hide_dock_icon_when_window_hidden: bool,
    pub auto_stop_tunnels_on_quit: bool,
}

/// An optional text, empty when absent.
pub open spec fn or_empty(s: Option<Seq<char>>) -> Seq<char> {
    match s {
        Some(v) => v,
        None => seq![],
    }
}

/// A copy of an optional string, empty when absent.
fn copy_or_empty(s: &Option<String>) -> (r: String)
    ensures
        r@ == or_empty(s.deep_view()),
{
    match s {
        Some(v) => v.clone(),
        None => {
            let r = String::new();
            assert(r@ =~= seq![]);
            r
        },
    }
}

/// `v` shows the files of `p`.
pub open spec fn is_path_view_of(v: PathView, p: RuntimePaths) -> bool {
    &&& v.workspace_path@ == or_empty(p.preferences@.active_workspace_path)
    &&& v.workspace_history.deep_view() == p.preferences@.workspace_history
    &&& v.local_config_path@ == or_empty(p.local_config_path.deep_view())
    &&& v.global_config_path@ == or_empty(p.global_config_display_path.deep_view())
    &&& v.use_global == p.preferences.use_global
    &&& v.global_state_path@ == p.global_state_path@
    &&& v.workspace_state_path@ == or_empty(p.workspace_state_path.deep_view())
    &&& v.hide_dock_icon_when_window_hidden == p.preferences.hide_dock_icon_when_window_hidden
    &&& v.auto_stop_tunnels_on_quit == p.preferences.auto_stop_tunnels_on_quit
}

/// The files in use, as the dashboard shows them.
pub fn path_view(paths: &RuntimePaths) -> (r: PathView)
    ensures
        is_path_view_of(r, *paths),
{
    PathView {
        workspace_path: copy_or_empty(&paths.preferences.active_workspace_path),
        workspace_history: clone_strings(&paths.preferences.workspace_history),
        local_config_path: copy_or_empty(&paths.local_config_path),
        global_config_path: copy_or_empty(&paths.global_config_display_path),
        use_global: paths.preferences.use_global,
        global_state_path: paths.global_state_path.clone(),
        workspace_state_path: copy_or_empty(&paths.workspace_state_path),
        hide_dock_icon_when_window_hidden: paths.preferences.hide_dock_icon_when_window_hidden,
        auto_stop_tunnels_on_quit: paths.preferences.auto_stop_tunnels_on_quit,
    }
}

// ---------------------------------------------------------------------
// Validation
// ---------------------------------------------------------------------

/// An issue of validation as the dashboard shows it.
#[derive(Debug, PartialEq, Eq)]
pub struct ValidationIssueView {
    pub source: String,
    pub path: String,
    pub tunnel_name: Option<String>,
    pub message: String,
}

/// `v` shows the issue `i`: the kind of its file, the file, the tunnel
/// and the message.
pub open spec fn is_issue_view_of(v: ValidationIssueView, i: IssueModel) -> bool {
    &&& v.source@ == kind_label(i.source.kind)
    &&& v.path@ == i.source.path
    &&& v.tunnel_name.deep_view() == i.tunnel_name
    &&& v.message@ == i.message
}

/// An issue as the dashboard shows it.
fn issue_view(source: &ConfigSource, tunnel_name: &Option<String>, message: &String) -> (r: ValidationIssueView)
    ensures
        is_issue_view_of(r, IssueModel { source: source@, tunnel_name: tunnel_name.deep_view(), message: message@ }),
{
    ValidationIssueView {
        source: source.kind.label(),
        path: source.path.clone(),
        tunnel_name: clone_opt_string(tunnel_name),
        message: message.clone(),
    }
}

/// A validation as the dashboard shows it.
#[derive(Debug, PartialEq, Eq)]
pub struct ValidationView {
    pub is_valid: bool,
    pub errors: Vec<ValidationIssueView>,
    pub warnings: Vec<ValidationIssueView>,
}

/// `v` shows a validation with these errors and warnings, in order.
pub open spec fn is_validation_view_of(v: ValidationView, errors: Seq<IssueModel>, warnings: Seq<IssueModel>) -> bool {
    &&& v.is_valid == (errors.len() == 0)
    &&& v.errors@.len() == errors.len()
    &&& forall|i: int| 0 <= i < errors.len() ==> is_issue_view_of(#[trigger] v.errors@[i], errors[i])
    &&& v.warnings@.len() == warnings.len()
    &&& forall|i: int| 0 <= i < warnings.len() ==> is_issue_view_of(#[trigger] v.warnings@[i], warnings[i])
}

/// A validation report as the dashboard shows it.
pub fn validation_view(report: &ValidationReport) -> (r: ValidationView)
    ensures
        is_validation_view_of(r, report.errors.deep_view(), report.warnings.deep_view()),
{
    let ghost ev = report.errors.deep_view();
    let ghost wv = report.warnings.deep_view();
    let mut errors: Vec<ValidationIssueView> = Vec::new();
    let mut i: usize = 0;
    while i < report.errors.len()
        invariant
            ev == report.errors.deep_view(),
            i <= ev.len(),
            errors@.len() == i,
            forall|j: int| 0 <= j < i ==> is_issue_view_of(#[trigger] errors@[j], ev[j]),
        decreases ev.len() - i,
    {
        let e = &report.errors[i];
        assert(ev[i as int] == e@);
        errors.push(issue_view(&e.source, &e.tunnel_name, &e.message));
        i += 1;
    }
    let mut warnings: Vec<ValidationIssueView> = Vec::new();
    let mut k: usize = 0;
    while k < report.warnings.len()
        invariant
            wv == report.warnings.deep_view(),
            k <= wv.len(),
            warnings@.len() == k,
            forall|j: int| 0 <= j < k ==> is_issue_view_of(#[trigger] warnings@[j], wv[j]),
        decreases wv.len() - k,
    {
        let w = &report.warnings[k];
        assert(wv[k as int] == w@);
        warnings.push(issue_view(&w.source, &w.tunnel_name, &w.message));
        k += 1;
    }
    ValidationView { is_valid: report.is_valid(), errors, warnings }
}

// ---------------------------------------------------------------------
// Tracked and configured tunnels
// ---------------------------------------------------------------------

/// A tracked state as the dashboard shows it.
#[derive(Debug, PartialEq, Eq)]
pub struct RuntimeStatusView {
    pub runtime_scope: RuntimeScope,
    pub runtime_key: String,
    pub pid: u32,
    pub state: String,
    pub source: String,
    pub source_path: String,
    pub started_at_unix_seconds: u64,
}

/// The label of a process state on the dashboard.
pub open spec fn state_word(p: ProcessState) -> Seq<char> {
    match p {
        ProcessState::Running => "running"@,
        ProcessState::Stale => "stale"@,
    }
}

/// `v` shows the tracked state `s`: its scope, its key (scope and name),
/// pid, state, source and start time.
pub open spec fn is_status_view_of(v: RuntimeStatusView, s: ScopedRuntimeStatus) -> bool {
    let st = s.status.state@;
    &&& v.runtime_scope == s.runtime_scope
    &&& v.runtime_key@ == scope_label(s.runtime_scope) + ":"@ + st.name
    &&& v.pid == st.pid
    &&& v.state@ == state_word(s.status.process_state)
    &&& v.source@ == kind_label(st.source_kind)
    &&& v.source_path@ == st.source_path
    &&& v.started_at_unix_seconds == st.started_at_unix_seconds
}

/// A tracked state as the dashboard shows it.
pub fn runtime_status_view(status: &ScopedRuntimeStatus) -> (r: RuntimeStatusView)
    ensures
        is_status_view_of(r, *status),
{
    let st = &status.status.state;
    let state = match status.status.process_state {
        ProcessState::Running => String::from_str("running"),
        ProcessState::Stale => String::from_str("stale"),
    };
    RuntimeStatusView {
        runtime_scope: status.runtime_scope,
        runtime_key: runtime_status_key(status.runtime_scope, st.name.as_str()),
        pid: st.pid,
        state,
        source: st.source_kind.label(),
        source_path: st.source_path.clone(),
        started_at_unix_seconds: st.started_at_unix_seconds,
    }
}

/// The SSH endpoint of a recorded tunnel: `user@host`, with `:port` when
/// set.
pub open spec fn spec_state_ssh_endpoint(s: StateModel) -> Seq<char> {
    let base = s.ssh_user + "@"@ + s.ssh_host;
    match s.ssh_port {
        Some(p) => base + ":"@ + decimal(p as nat),
        None => base,
    }
}

/// The SSH endpoint of a recorded tunnel.
pub fn format_state_ssh_endpoint(state: &TunnelState) -> (r: String)
    ensures
        r@ == spec_state_ssh_endpoint(state@),
{
    let a = concat_str(state.ssh_user.as_str(), "@");
    let base = concat_str(a.as_str(), state.ssh_host.as_str());
    match state.ssh_port {
        Some(p) => {
            let b = concat_str(base.as_str(), ":");
            concat_str(b.as_str(), decimal_string(p as u64).as_str())
        },
        None => base,
    }
}

/// A tracked tunnel as the dashboard shows it.
#[derive(Debug, PartialEq, Eq)]
pub struct TrackedTunnelView {
    pub name: String,
    pub runtime_scope: RuntimeScope,
    pub runtime_key: String,
    pub local: String,
    pub remote: String,
    pub ssh: String,
    pub status: RuntimeStatusView,
}

/// `v` shows the tracked tunnel `s`: its name, scope, key, endpoints and
/// state.
pub open spec fn is_tracked_view_of(v: TrackedTunnelView, s: ScopedRuntimeStatus) -> bool {
    let st = s.status.state@;
    &&& v.name@ == st.name
    &&& v.runtime_scope == s.runtime_scope
    &&& v.runtime_key@ == scope_label(s.runtime_scope) + ":"@ + st.name
    &&& v.local@ == endpoint_text(st.local_host, st.local_port)
    &&& v.remote@ == endpoint_text(st.remote_host, st.remote_port)
    &&& v.ssh@ == spec_state_ssh_endpoint(st)
    &&& is_status_view_of(v.status, s)
}

/// A tracked tunnel as the dashboard shows it.
pub fn tracked_tunnel_view(status: &ScopedRuntimeStatus) -> (r: TrackedTunnelView)
    ensures
        is_tracked_view_of(r, *status),
{
    let st = &status.status.state;
    TrackedTunnelView {
        name: st.name.clone(),
        runtime_scope: status.runtime_scope,
        runtime_key: runtime_status_key(status.runtime_scope, st.name.as_str()),
        local: format_status_local_endpoint(st),
        remote: format_status_remote_endpoint(st),
        ssh: format_state_ssh_endpoint(st),
        status: runtime_status_view(status),
    }
}

/// A configured tunnel as the dashboard shows it.
#[derive(Debug, PartialEq, Eq)]
pub struct TunnelView {
    pub name: String,
    pub description: Option<String>,
    pub tags: Vec<String>,
    pub local: String,
    pub remote: String,
    pub ssh: String,
    pub source: String,
    pub source_path: String,
    pub timeouts: ResolvedTimeoutConfig,
    pub status: Option<RuntimeStatusView>,
}

/// `v` shows the configured tunnel `r` with its tracked state, where
/// there is one.
pub open spec fn is_tunnel_view_of(v: TunnelView, r: ResolvedModel, status: Option<ScopedRuntimeStatus>) -> bool {
    let t = r.tunnel;
    &&& v.name@ == t.name
    &&& v.description.deep_view() == t.description
    &&& v.tags.deep_view() == t.tags
    &&& v.local@ == endpoint_text(spec_effective_local_host(t), t.local_port)
    &&& v.remote@ == endpoint_text(t.remote_host, t.remote_port)
    &&& v.ssh@ == spec_ssh_endpoint(t)
    &&& v.source@ == kind_label(r.source.kind)
    &&& v.source_path@ == r.source.path
    &&& v.timeouts == r.timeouts
    &&& match status {
        Some(s) => v.status matches Some(sv) && is_status_view_of(sv, s),
        None => v.status is None,
    }
}

/// A configured tunnel as the dashboard shows it, with its tracked state.
pub fn tunnel_view(resolved: &ResolvedTunnelConfig, status: Option<&ScopedRuntimeStatus>) -> (r: TunnelView)
    ensures
        is_tunnel_view_of(
            r,
            resolved@,
            match status {
                Some(s) => Some(*s),
                None => None,
            },
        ),
{
    let t = &resolved.tunnel;
    TunnelView {
        name: t.name.clone(),
        description: clone_opt_string(&t.description),
        tags: clone_strings(&t.tags),
        local: format_local_endpoint(t),
        remote: format_remote_endpoint(t),
        ssh: format_ssh_endpoint(t),
        source: resolved.source.kind.label(),
        source_path: resolved.source.path.clone(),
        timeouts: resolved.timeouts,
        status: match status {
            Some(s) => Some(runtime_status_view(s)),
            None => None,
        },
    }
}


// ---------------------------------------------------------------------
// The dashboard
// ---------------------------------------------------------------------

/// Whether a tracked tunnel is the one configured under `name` in a file
/// whose kind maps to `scope`.
pub open spec fn has_key(s: ScopedRuntimeStatus, scope: RuntimeScope, name: Seq<char>) -> bool {
    spec_scope_for_source(s.status.state.source_kind) == scope && s.status.state.name@ == name
}

/// The position of the last tracked tunnel with this key among the first
/// `n`.
pub open spec fn last_with_key(ss: Seq<ScopedRuntimeStatus>, scope: RuntimeScope, name: Seq<char>, n: int) -> Option<int>
    decreases n,
{
    if n <= 0 {
        None
    } else if has_key(ss[n - 1], scope, name) {
        Some(n - 1)
    } else {
        last_with_key(ss, scope, name, n - 1)
    }
}

/// The tracked state of a configured tunnel: the last tracked tunnel of
/// its name whose source kind is that of its file.
pub open spec fn status_for(ss: Seq<ScopedRuntimeStatus>, r: ResolvedModel) -> Option<ScopedRuntimeStatus> {
    match last_with_key(ss, spec_scope_for_source(r.source.kind), r.tunnel.name, ss.len() as int) {
        Some(j) => Some(ss[j]),
        None => None,
    }
}

/// The tracked state of a configured tunnel.
fn find_status_for<'a>(statuses: &'a [ScopedRuntimeStatus], resolved: &ResolvedTunnelConfig) -> (r: Option<&'a ScopedRuntimeStatus>)
    ensures
        match status_for(statuses@, resolved@) {
            Some(s) => r matches Some(x) && *x == s,
            None => r is None,
        },
{
    let scope = runtime_scope_for_source(resolved.source.kind);
    let name = resolved.tunnel.name.as_str();
    let mut found: Option<usize> = None;
    let mut i: usize = 0;
    while i < statuses.len()
        invariant
            i <= statuses@.len(),
            scope == spec_scope_for_source(resolved@.source.kind),
            name@ == resolved@.tunnel.name,
            match found {
                Some(j) => j < i && last_with_key(statuses@, scope, name@, i as int) == Some(j as int),
                None => last_with_key(statuses@, scope, name@, i as int) is None,
            },
        decreases statuses@.len() - i,
    {
        let s = &statuses[i];
        if runtime_scope_for_source(s.status.state.source_kind) == scope && str_eq(s.status.state.name.as_str(), name) {
            found = Some(i);
        }
        i += 1;
    }
    match found {
        Some(j) => Some(&statuses[j]),
        None => None,
    }
}

/// The tracked tunnels of one scope, in order.
pub open spec fn in_scope(ss: Seq<ScopedRuntimeStatus>, scope: RuntimeScope) -> Seq<ScopedRuntimeStatus>
    decreases ss.len(),
{
    if ss.len() == 0 {
        seq![]
    } else if ss.last().runtime_scope == scope {
        in_scope(ss.drop_last(), scope).push(ss.last())
    } else {
        in_scope(ss.drop_last(), scope)
    }
}

/// The tracked tunnels, those of the global scope first, each scope in
/// order: sorted by name after this, equal names come out ordered by
/// scope and then as they came.
pub open spec fn by_scope(ss: Seq<ScopedRuntimeStatus>) -> Seq<ScopedRuntimeStatus> {
    in_scope(ss, RuntimeScope::Global) + in_scope(ss, RuntimeScope::Workspace)
}

/// The names of tracked tunnels.
pub open spec fn scoped_names(ss: Seq<ScopedRuntimeStatus>) -> Seq<Seq<char>> {
    ss.map_values(|s: ScopedRuntimeStatus| s.status.state.name@)
}

/// Adds references to the tracked tunnels of one scope, in order.
fn push_scope<'a>(out: &mut Vec<&'a ScopedRuntimeStatus>, statuses: &'a [ScopedRuntimeStatus], scope: RuntimeScope)
    ensures
        final(out)@.map_values(|s: &ScopedRuntimeStatus| *s) == old(out)@.map_values(|s: &ScopedRuntimeStatus| *s)
            + in_scope(statuses@, scope),
{
    let ghost head = out@.map_values(|s: &ScopedRuntimeStatus| *s);
    let mut i: usize = 0;
    while i < statuses.len()
        invariant
            i <= statuses@.len(),
            out@.map_values(|s: &ScopedRuntimeStatus| *s) == head + in_scope(statuses@.subrange(0, i as int), scope),
        decreases statuses@.len() - i,
    {
        assert(statuses@.subrange(0, i + 1).drop_last() =~= statuses@.subrange(0, i as int));
        if statuses[i].runtime_scope == scope {
            let ghost before = out@.map_values(|s: &ScopedRuntimeStatus| *s);
            out.push(&statuses[i]);
            assert(out@.map_values(|s: &ScopedRuntimeStatus| *s) =~= before.push(statuses@[i as int]));
        }
        i += 1;
    }
    assert(statuses@.subrange(0, i as int) =~= statuses@);
}

/// The tracked tunnels ordered by name, then by scope (global first),
/// equal ones kept in their order.
fn sorted_tracked<'a>(statuses: &'a [ScopedRuntimeStatus]) -> (r: Vec<&'a ScopedRuntimeStatus>)
    ensures
        exists|idx: Seq<int>|
            #[trigger] is_stable_name_order(scoped_names(by_scope(statuses@)), idx) && r@.len() == idx.len()
                && forall|k: int| 0 <= k < idx.len() ==> *(#[trigger] r@[k]) == by_scope(statuses@)[idx[k]],
{
    let mut part: Vec<&'a ScopedRuntimeStatus> = Vec::new();
    push_scope(&mut part, statuses, RuntimeScope::Global);
    push_scope(&mut part, statuses, RuntimeScope::Workspace);
    let ghost pv = by_scope(statuses@);
    assert(part@.map_values(|s: &ScopedRuntimeStatus| *s) =~= pv);
    let ghost nv = scoped_names(pv);
    let mut names: Vec<String> = Vec::new();
    let mut i: usize = 0;
    while i < part.len()
        invariant
            i <= part@.len(),
            part@.map_values(|s: &ScopedRuntimeStatus| *s) == pv,
            nv == scoped_names(pv),
            names.deep_view() == nv.subrange(0, i as int),
        decreases part@.len() - i,
    {
        let ghost before = names.deep_view();
        assert(*part@[i as int] == pv[i as int]);
        names.push(part[i].status.state.name.clone());
        assert(names.deep_view() =~= before.push(nv[i as int]));
        i += 1;
        assert(names.deep_view() =~= nv.subrange(0, i as int));
    }
    assert(nv.subrange(0, i as int) =~= nv);
    let order = crate::order::stable_name_order(&names);
    let ghost idx = order@.map_values(|k: usize| k as int);
    let mut out: Vec<&'a ScopedRuntimeStatus> = Vec::new();
    let mut k: usize = 0;
    while k < order.len()
        invariant
            idx == order@.map_values(|k: usize| k as int),
            is_stable_name_order(nv, idx),
            part@.map_values(|s: &ScopedRuntimeStatus| *s) == pv,
            nv.len() == pv.len(),
            k <= order@.len(),
            out@.len() == k,
            forall|j: int| 0 <= j < k ==> *(#[trigger] out@[j]) == pv[idx[j]],
        decreases order@.len() - k,
    {
        assert(idx[k as int] == order@[k as int] as int);
        let p = part[order[k]];
        assert(*p == pv[idx[k as int]]);
        out.push(p);
        k += 1;
    }
    out
}

/// What the dashboard shows.
#[derive(Debug, PartialEq, Eq)]
pub struct DashboardState {
    pub paths: PathView,
    pub has_config: bool,
    pub validation: ValidationView,
    pub tunnels: Vec<TunnelView>,
    pub tracked_tunnels: Vec<TrackedTunnelView>,
}

/// What the dashboard shows: the files of `runtime_paths`; whether
/// configuration files were found; the validation report; every configured
/// tunnel with its tracked state (the last one under the same name from a
/// file of the same kind), ordered by name; and the tracked tunnels ordered
/// by name and then by scope. Equal keys keep their order.
pub fn build_dashboard_state(
    runtime_paths: &RuntimePaths,
    config: &EffectiveConfig,
    statuses: &[ScopedRuntimeStatus],
    validation: &ValidationReport,
) -> (r: DashboardState)
    ensures
        is_path_view_of(r.paths, *runtime_paths),
        r.has_config == (config@.sources.len() > 0 || config@.local_override is Some),
        is_validation_view_of(r.validation, validation.errors.deep_view(), validation.warnings.deep_view()),
        exists|idx: Seq<int>|
            #[trigger] is_stable_name_order(resolved_names(config@.tunnels), idx) && r.tunnels@.len() == idx.len()
                && forall|k: int|
                0 <= k < idx.len() ==> is_tunnel_view_of(
                    #[trigger] r.tunnels@[k],
                    config@.tunnels[idx[k]],
                    status_for(statuses@, config@.tunnels[idx[k]]),
                ),
        exists|idx: Seq<int>|
            #[trigger] is_stable_name_order(scoped_names(by_scope(statuses@)), idx) && r.tracked_tunnels@.len()
                == idx.len() && forall|k: int|
                0 <= k < idx.len() ==> is_tracked_view_of(#[trigger] r.tracked_tunnels@[k], by_scope(statuses@)[idx[k]]),
{
    let ghost cv = config@.tunnels;
    let mut refs: Vec<&ResolvedTunnelConfig> = Vec::new();
    let mut i: usize = 0;
    while i < config.tunnels.len()
        invariant
            cv == config@.tunnels,
            i <= cv.len(),
            refs@.len() == i,
            forall|j: int| 0 <= j < i ==> (#[trigger] refs@[j])@ == cv[j],
        decreases cv.len() - i,
    {
        refs.push(&config.tunnels[i]);
        i += 1;
    }
    assert(ref_names(refs@) =~= resolved_names(cv));
    let sorted = sorted_tunnels_by_id(&refs);
    let ghost tidx = choose|idx: Seq<int>|
        #[trigger] is_stable_name_order(ref_names(refs@), idx) && sorted@.len() == idx.len() && forall|k: int|
            0 <= k < idx.len() ==> (#[trigger] sorted@[k]) == refs@[idx[k]];
    let mut tunnels: Vec<TunnelView> = Vec::new();
    let mut k: usize = 0;
    while k < sorted.len()
        invariant
            cv == config@.tunnels,
            refs@.len() == cv.len(),
            forall|j: int| 0 <= j < cv.len() ==> (#[trigger] refs@[j])@ == cv[j],
            is_stable_name_order(ref_names(refs@), tidx),
            sorted@.len() == tidx.len(),
            forall|x: int| 0 <= x < tidx.len() ==> (#[trigger] sorted@[x]) == refs@[tidx[x]],
            k <= sorted@.len(),
            tunnels@.len() == k,
            forall|x: int|
                0 <= x < k ==> is_tunnel_view_of(
                    #[trigger] tunnels@[x],
                    cv[tidx[x]],
                    status_for(statuses@, cv[tidx[x]]),
                ),
        decreases sorted@.len() - k,
    {
        let t = sorted[k];
        assert(t == refs@[tidx[k as int]]);
        assert(0 <= tidx[k as int] < cv.len());
        assert(t@ == cv[tidx[k as int]]);
        let st = find_status_for(statuses, t);
        tunnels.push(tunnel_view(t, st));
        k += 1;
    }
    let tracked_refs = sorted_tracked(statuses);
    let ghost sidx = choose|idx: Seq<int>|
        #[trigger] is_stable_name_order(scoped_names(by_scope(statuses@)), idx) && tracked_refs@.len() == idx.len()
            && forall|k: int| 0 <= k < idx.len() ==> *(#[trigger] tracked_refs@[k]) == by_scope(statuses@)[idx[k]];
    let mut tracked_views: Vec<TrackedTunnelView> = Vec::new();
    let mut m: usize = 0;
    while m < tracked_refs.len()
        invariant
            is_stable_name_order(scoped_names(by_scope(statuses@)), sidx),
            tracked_refs@.len() == sidx.len(),
            forall|x: int| 0 <= x < sidx.len() ==> *(#[trigger] tracked_refs@[x]) == by_scope(statuses@)[sidx[x]],
            m <= tracked_refs@.len(),
            tracked_views@.len() == m,
            forall|x: int| 0 <= x < m ==> is_tracked_view_of(#[trigger] tracked_views@[x], by_scope(statuses@)[sidx[x]]),
        decreases tracked_refs@.len() - m,
    {
        assert(*tracked_refs@[m as int] == by_scope(statuses@)[sidx[m as int]]);
        tracked_views.push(tracked_tunnel_view(tracked_refs[m]));
        m += 1;
    }
    DashboardState {
        paths: path_view(runtime_paths),
        has_config: config.has_sources(),
        validation: validation_view(validation),
        tunnels,
        tracked_tunnels: tracked_views,
    }
}

} // verus!
