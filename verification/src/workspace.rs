//! The desktop app's decisions: its preferences and workspace history,
//! which state file a tunnel belongs to, the tray menu, and what is
//! checked before a tunnel is added.

use vstd::prelude::*;

use crate::config::{
    ConfigSourceKind, EffectiveConfig, ResolvedModel, ResolvedTunnelConfig, TunnelConfig, TunnelModel,
    spec_effective_local_host,
};
use crate::config::TimeoutConfig;
use crate::display::{endpoint_text, join_strings, joined};
use crate::validate::{spec_validation_errors, validate_config, IssueModel};
use crate::order::{is_stable_name_order, stable_name_order};
use crate::selection::{fits, first_fit};
use crate::tags::{spec_tag_is_valid, tag_is_valid};
use crate::text::{concat_str, decimal, decimal_string, is_blank, str_eq, trim, trim_str};
use crate::tunnel::{ProcessState, TunnelRuntimeStatus};
use crate::validate::{ValidationReport, contains_ws, has_ws};

verus! {

/// The version of the preferences file format.
pub const APP_PREFERENCES_VERSION: u32 = 3;

/// How many workspaces the history keeps.
pub const WORKSPACE_HISTORY_LIMIT: usize = 10;

/// The menu ID of the tray item that shows the current workspace.
pub const TRAY_MENU_CURRENT_WORKSPACE: &'static str = "tray-current-workspace";

/// The menu ID of the tray notice that no tunnel is configured.
pub const TRAY_MENU_NO_TUNNELS: &'static str = "tray-no-tunnels";

/// The menu ID of the tray notice that the configuration has errors.
pub const TRAY_MENU_INVALID_CONFIG: &'static str = "tray-invalid-config";

/// The prefix of the menu IDs of tunnel items in the tray.
pub const TRAY_TUNNEL_ITEM_PREFIX: &'static str = "tray-tunnel-";

/// The prefix of the menu IDs of workspace items in the tray.
pub const TRAY_WORKSPACE_ITEM_PREFIX: &'static str = "tray-workspace-";

// ---------------------------------------------------------------------
// Runtime scopes
// ---------------------------------------------------------------------

/// Which state file a tunnel's state lives in: the shared one, or the
/// current workspace's one.
#[derive(Debug, Clone, Copy, PartialEq, Eq, Structural)]
pub enum RuntimeScope {
    Global,
    Workspace,
}

/// The display label of a runtime scope.
pub open spec fn scope_label(scope: RuntimeScope) -> Seq<char> {
    match scope {
        RuntimeScope::Global => "global"@,
        RuntimeScope::Workspace => "workspace"@,
    }
}

impl RuntimeScope {
    /// The display label: `global` or `workspace`.
    pub fn label(&self) -> (r: &'static str)
        ensures
            r@ == scope_label(*self),
    {
        match self {
            RuntimeScope::Global => "global",
            RuntimeScope::Workspace => "workspace",
        }
    }
}

/// The runtime scope of tunnels from a file of this kind: global files
/// use the shared state, local files the workspace's.
pub open spec fn spec_scope_for_source(kind: ConfigSourceKind) -> RuntimeScope {
    match kind {
        ConfigSourceKind::Global => RuntimeScope::Global,
        ConfigSourceKind::Local => RuntimeScope::Workspace,
    }
}

/// The runtime scope of tunnels from a file of this kind.
pub fn runtime_scope_for_source(kind: ConfigSourceKind) -> (r: RuntimeScope)
    ensures
        r == spec_scope_for_source(kind),
{
    match kind {
        ConfigSourceKind::Global => RuntimeScope::Global,
        ConfigSourceKind::Local => RuntimeScope::Workspace,
    }
}

/// The key of a tracked tunnel: `scope:name`.
pub fn runtime_status_key(scope: RuntimeScope, id: &str) -> (r: String)
    ensures
        r@ == scope_label(scope) + ":"@ + id@,
{
    let a = concat_str(scope.label(), ":");
    concat_str(a.as_str(), id)
}

/// A tracked tunnel with the state file it was read from.
#[derive(Debug, PartialEq, Eq)]
pub struct ScopedRuntimeStatus {
    pub runtime_scope: RuntimeScope,
    pub status: TunnelRuntimeStatus,
}

/// The key by which a tracked tunnel is matched with a configured one:
/// the scope of its source kind, and its name.
pub fn runtime_status_lookup_key(status: &ScopedRuntimeStatus) -> (r: (RuntimeScope, &str))
    ensures
        r.0 == spec_scope_for_source(status.status.state.source_kind),
        r.1@ == status.status.state.name@,
{
    (runtime_scope_for_source(status.status.state.source_kind), status.status.state.name.as_str())
}

// ---------------------------------------------------------------------
// The tray
// ---------------------------------------------------------------------

/// The tray icon: active while some tracked tunnel runs.
#[derive(Debug, Clone, Copy, PartialEq, Eq, Structural)]
pub enum TrayIconKind {
    Idle,
    Active,
}

/// The tray icon for the tracked tunnels: active while one of them runs.
pub fn tray_icon_kind(statuses: &[ScopedRuntimeStatus]) -> (r: TrayIconKind)
    ensures
        r == if exists|i: int|
            0 <= i < statuses@.len() && (#[trigger] statuses@[i]).status.process_state == ProcessState::Running {
            TrayIconKind::Active
        } else {
            TrayIconKind::Idle
        },
{
    let mut i: usize = 0;
    while i < statuses.len()
        invariant
            i <= statuses@.len(),
            forall|j: int| 0 <= j < i ==> (#[trigger] statuses@[j]).status.process_state != ProcessState::Running,
        decreases statuses@.len() - i,
    {
        if statuses[i].status.process_state == ProcessState::Running {
            return TrayIconKind::Active;
        }
        i += 1;
    }
    TrayIconKind::Idle
}

/// Starting or stopping a tunnel from the tray.
#[derive(Debug, Clone, Copy, PartialEq, Eq, Structural)]
pub enum TrayTunnelOperation {
    Start,
    Stop,
}

/// What a tunnel item of the tray does.
#[derive(Debug, PartialEq, Eq)]
pub struct TrayTunnelAction {
    pub id: String,
    pub runtime_scope: Option<RuntimeScope>,
    pub operation: TrayTunnelOperation,
}

/// A tunnel item of the tray menu.
#[derive(Debug, PartialEq, Eq)]
pub struct TrayTunnelMenuItem {
    pub menu_id: String,
    pub label: String,
    pub checked: bool,
    pub enabled: bool,
    pub action: TrayTunnelAction,
}

/// The label of a tunnel in the tray: its name, marked `(stale)` when its
/// recorded process is gone.
pub open spec fn spec_tray_label(id: Seq<char>, is_stale: bool) -> Seq<char> {
    if is_stale {
        id + " (stale)"@
    } else {
        id
    }
}

/// The label of a tunnel in the tray.
pub fn tray_tunnel_label(id: &str, is_stale: bool) -> (r: String)
    ensures
        r@ == spec_tray_label(id@, is_stale),
{
    if is_stale {
        concat_str(id, " (stale)")
    } else {
        String::from_str(id)
    }
}

/// The tray item of the tunnel at position `index`, given its tracked
/// status (if any) and whether starting is allowed: a running tunnel is
/// checked and offers to stop (in its scope); any other offers to start,
/// enabled only when starting is allowed.
pub open spec fn spec_tray_item(
    index: nat,
    name: Seq<char>,
    status: Option<(RuntimeScope, ProcessState)>,
    can_start: bool,
) -> (Seq<char>, Seq<char>, bool, bool, Seq<char>, Option<RuntimeScope>, TrayTunnelOperation) {
    let running = status matches Some((_, p)) && p == ProcessState::Running;
    let stale = status matches Some((_, p)) && p == ProcessState::Stale;
    (
        TRAY_TUNNEL_ITEM_PREFIX@ + decimal(index),
        spec_tray_label(name, stale),
        running,
        running || can_start,
        name,
        if running {
            match status {
                Some((s, _)) => Some(s),
                None => None,
            }
        } else {
            None
        },
        if running {
            TrayTunnelOperation::Stop
        } else {
            TrayTunnelOperation::Start
        },
    )
}

/// The mathematical value of a tray item.
pub open spec fn tray_item_view(item: TrayTunnelMenuItem) -> (
    Seq<char>,
    Seq<char>,
    bool,
    bool,
    Seq<char>,
    Option<RuntimeScope>,
    TrayTunnelOperation,
) {
    (
        item.menu_id@,
        item.label@,
        item.checked,
        item.enabled,
        item.action.id@,
        item.action.runtime_scope,
        item.action.operation,
    )
}

/// The tray item of one configured tunnel.
pub fn tray_tunnel_menu_item(
    index: usize,
    resolved: &ResolvedTunnelConfig,
    status: Option<&ScopedRuntimeStatus>,
    can_start: bool,
) -> (r: TrayTunnelMenuItem)
    ensures
        tray_item_view(r) == spec_tray_item(
            index as nat,
            resolved@.tunnel.name,
            match status {
                Some(s) => Some((s.runtime_scope, s.status.process_state)),
                None => None,
            },
            can_start,
        ),
{
    let is_running = match status {
        Some(s) => s.status.process_state == ProcessState::Running,
        None => false,
    };
    let is_stale = match status {
        Some(s) => s.status.process_state == ProcessState::Stale,
        None => false,
    };
    let operation = if is_running {
        TrayTunnelOperation::Stop
    } else {
        TrayTunnelOperation::Start
    };
    let runtime_scope = if is_running {
        match status {
            Some(s) => Some(s.runtime_scope),
            None => None,
        }
    } else {
        None
    };
    TrayTunnelMenuItem {
        menu_id: concat_str(TRAY_TUNNEL_ITEM_PREFIX, decimal_string(index as u64).as_str()),
        label: tray_tunnel_label(resolved.tunnel.name.as_str(), is_stale),
        checked: is_running,
        enabled: is_running || can_start,
        action: TrayTunnelAction { id: resolved.tunnel.name.clone(), runtime_scope, operation },
    }
}

/// The position of the last tracked tunnel that matches a configured one
/// (same scope of source kind, same name).
pub open spec fn matching_status(statuses: Seq<ScopedRuntimeStatus>, scope: RuntimeScope, name: Seq<char>, n: int) -> Option<int>
    decreases n,
{
    if n <= 0 {
        None
    } else if spec_scope_for_source(statuses[n - 1].status.state.source_kind) == scope
        && statuses[n - 1].status.state.name@ == name {
        Some(n - 1)
    } else {
        matching_status(statuses, scope, name, n - 1)
    }
}

/// The last tracked tunnel that matches a configured one.
fn find_matching_status<'a>(statuses: &'a [ScopedRuntimeStatus], scope: RuntimeScope, name: &str) -> (r: Option<
    &'a ScopedRuntimeStatus,
>)
    ensures
        match matching_status(statuses@, scope, name@, statuses@.len() as int) {
            Some(i) => r matches Some(s) && *s == statuses@[i],
            None => r is None,
        },
{
    let mut k = statuses.len();
    while k > 0
        invariant
            k <= statuses@.len(),
            matching_status(statuses@, scope, name@, statuses@.len() as int) == matching_status(
                statuses@,
                scope,
                name@,
                k as int,
            ),
        decreases k,
    {
        let s = &statuses[k - 1];
        if runtime_scope_for_source(s.status.state.source_kind) == scope && str_eq(s.status.state.name.as_str(), name) {
            return Some(s);
        }
        k -= 1;
    }
    None
}

/// The scope and process state of the tracked tunnel that matches a
/// configured one (the last such), if any.
pub open spec fn status_of(statuses: Seq<ScopedRuntimeStatus>, r: ResolvedModel) -> Option<(RuntimeScope, ProcessState)> {
    match matching_status(statuses, spec_scope_for_source(r.source.kind), r.tunnel.name, statuses.len() as int) {
        Some(j) => Some((statuses[j].runtime_scope, statuses[j].status.process_state)),
        None => None,
    }
}

/// The tray labels of the configured tunnels, in their order.
pub open spec fn tray_labels(statuses: Seq<ScopedRuntimeStatus>, ts: Seq<ResolvedModel>) -> Seq<Seq<char>> {
    Seq::new(
        ts.len(),
        |i: int| spec_tray_label(ts[i].tunnel.name, status_of(statuses, ts[i]) matches Some((_, p)) && p == ProcessState::Stale),
    )
}

proof fn lemma_matching_status_bounds(statuses: Seq<ScopedRuntimeStatus>, scope: RuntimeScope, name: Seq<char>, n: int)
    requires
        n <= statuses.len(),
    ensures
        matching_status(statuses, scope, name, n) matches Some(j) ==> 0 <= j < n,
    decreases n,
{
    if n > 0 {
        lemma_matching_status_bounds(statuses, scope, name, n - 1);
    }
}

/// The status of the tracked tunnel that matches a configured one.
fn status_for<'a>(statuses: &'a [ScopedRuntimeStatus], resolved: &ResolvedTunnelConfig) -> (r: Option<&'a ScopedRuntimeStatus>)
    ensures
        match r {
            Some(s) => status_of(statuses@, resolved@) == Some((s.runtime_scope, s.status.process_state)),
            None => status_of(statuses@, resolved@) is None,
        },
{
    proof {
        lemma_matching_status_bounds(
            statuses@,
            spec_scope_for_source(resolved@.source.kind),
            resolved@.tunnel.name,
            statuses@.len() as int,
        );
    }
    let scope = runtime_scope_for_source(resolved.source.kind);
    find_matching_status(statuses, scope, resolved.tunnel.name.as_str())
}

/// One entry of the tray's tunnels submenu.
#[derive(Debug, Clone, Copy, PartialEq, Eq, Structural)]
pub enum TrayTunnelsEntry {
    /// The tunnel item at this position of the tunnel items.
    Item(usize),
    /// The disabled notice that no tunnel is configured.
    NoTunnels,
    /// A separator.
    Separator,
    /// The disabled notice that the configuration has errors.
    InvalidConfig,
}

/// The tunnels submenu: the tunnel items in order, or the notice that
/// there is none; then, for a configuration with errors, a separator and
/// the notice of it.
pub open spec fn spec_tray_tunnels_submenu(item_count: nat, config_valid: bool) -> Seq<TrayTunnelsEntry> {
    let items = if item_count == 0 {
        seq![TrayTunnelsEntry::NoTunnels]
    } else {
        Seq::new(item_count, |i: int| TrayTunnelsEntry::Item(i as usize))
    };
    if config_valid {
        items
    } else {
        items + seq![TrayTunnelsEntry::Separator, TrayTunnelsEntry::InvalidConfig]
    }
}

/// Lays out the tray's tunnels submenu for `item_count` tunnel items.
pub fn tray_tunnels_submenu(item_count: usize, config_valid: bool) -> (r: Vec<TrayTunnelsEntry>)
    ensures
        r@ == spec_tray_tunnels_submenu(item_count as nat, config_valid),
{
    let mut r: Vec<TrayTunnelsEntry> = Vec::new();
    if item_count == 0 {
        r.push(TrayTunnelsEntry::NoTunnels);
    } else {
        let mut i: usize = 0;
        while i < item_count
            invariant
                i <= item_count,
                r@ == Seq::new(i as nat, |j: int| TrayTunnelsEntry::Item(j as usize)),
            decreases item_count - i,
        {
            r.push(TrayTunnelsEntry::Item(i));
            i += 1;
            assert(r@ =~= Seq::new(i as nat, |j: int| TrayTunnelsEntry::Item(j as usize)));
        }
    }
    let ghost items = r@;
    if !config_valid {
        r.push(TrayTunnelsEntry::Separator);
        r.push(TrayTunnelsEntry::InvalidConfig);
        assert(r@ =~= items + seq![TrayTunnelsEntry::Separator, TrayTunnelsEntry::InvalidConfig]);
    }
    r
}

/// The menu ID and label of a notice of the tunnels submenu.
pub fn tray_tunnels_notice(entry: TrayTunnelsEntry) -> (r: Option<(String, String)>)
    ensures
        match entry {
            TrayTunnelsEntry::NoTunnels => r matches Some((id, label)) && id@ == TRAY_MENU_NO_TUNNELS@ && label@
                == "No tunnels configured"@,
            TrayTunnelsEntry::InvalidConfig => r matches Some((id, label)) && id@ == TRAY_MENU_INVALID_CONFIG@
                && label@ == "Config has errors"@,
            _ => r is None,
        },
{
    match entry {
        TrayTunnelsEntry::NoTunnels => Some(
            (String::from_str(TRAY_MENU_NO_TUNNELS), String::from_str("No tunnels configured")),
        ),
        TrayTunnelsEntry::InvalidConfig => Some(
            (String::from_str(TRAY_MENU_INVALID_CONFIG), String::from_str("Config has errors")),
        ),
        _ => None,
    }
}

/// The tray items of the configured tunnels, ordered by label (equal
/// labels kept in their order). Each takes the status of the last tracked
/// tunnel that matches it; starting is allowed only for a valid
/// configuration.
pub fn tray_tunnel_menu_items(
    config: &EffectiveConfig,
    statuses: &[ScopedRuntimeStatus],
    validation: &ValidationReport,
) -> (r: Vec<TrayTunnelMenuItem>)
    ensures
        exists|idx: Seq<int>|
            #[trigger] is_stable_name_order(tray_labels(statuses@, config@.tunnels), idx) && r@.len() == idx.len()
                && forall|k: int|
                0 <= k < idx.len() ==> tray_item_view(#[trigger] r@[k]) == spec_tray_item(
                    idx[k] as nat,
                    config@.tunnels[idx[k]].tunnel.name,
                    status_of(statuses@, config@.tunnels[idx[k]]),
                    validation.errors@.len() == 0,
                ),
{
    let can_start = validation.is_valid();
    let ghost tv = config@.tunnels;
    let ghost want = tray_labels(statuses@, tv);
    let mut labels: Vec<String> = Vec::new();
    let mut i: usize = 0;
    while i < config.tunnels.len()
        invariant
            tv == config@.tunnels,
            want == tray_labels(statuses@, tv),
            i <= tv.len(),
            labels.deep_view() == want.subrange(0, i as int),
        decreases tv.len() - i,
    {
        let resolved = &config.tunnels[i];
        assert(tv[i as int] == resolved@);
        let status = status_for(statuses, resolved);
        let is_stale = match status {
            Some(s) => s.status.process_state == ProcessState::Stale,
            None => false,
        };
        let ghost before = labels.deep_view();
        labels.push(tray_tunnel_label(resolved.tunnel.name.as_str(), is_stale));
        assert(labels.deep_view() =~= before.push(want[i as int]));
        i += 1;
        assert(labels.deep_view() =~= want.subrange(0, i as int));
    }
    assert(want.subrange(0, i as int) =~= want);
    let order = stable_name_order(&labels);
    let ghost idx = order@.map_values(|k: usize| k as int);
    let mut out: Vec<TrayTunnelMenuItem> = Vec::new();
    let mut k: usize = 0;
    while k < order.len()
        invariant
            tv == config@.tunnels,
            idx == order@.map_values(|k: usize| k as int),
            is_stable_name_order(want, idx),
            want.len() == tv.len(),
            can_start == (validation.errors@.len() == 0),
            k <= order@.len(),
            out@.len() == k,
            forall|j: int|
                0 <= j < k ==> tray_item_view(#[trigger] out@[j]) == spec_tray_item(
                    idx[j] as nat,
                    tv[idx[j]].tunnel.name,
                    status_of(statuses@, tv[idx[j]]),
                    can_start,
                ),
        decreases order@.len() - k,
    {
        let t = order[k];
        assert(idx[k as int] == t as int);
        let resolved = &config.tunnels[t];
        assert(tv[t as int] == resolved@);
        let status = status_for(statuses, resolved);
        out.push(tray_tunnel_menu_item(t, resolved, status, can_start));
        k += 1;
    }
    out
}

// ---------------------------------------------------------------------
// Preferences and workspaces
// ---------------------------------------------------------------------

/// The app's own settings.
#[derive(Debug, PartialEq, Eq)]
pub struct AppPreferences {
    pub version: u32,
    pub active_workspace_path: Option<String>,
    pub workspace_history: Vec<String>,
    pub use_global: bool,
    pub global_config_path: Option<String>,
    pub hide_dock_icon_when_window_hidden: bool,
    pub auto_stop_tunnels_on_quit: bool,
}

/// The mathematical value of [`AppPreferences`].
pub ghost struct PreferencesModel {
    pub version: u32,
    pub active_workspace_path: Option<Seq<char>>,
    pub workspace_history: Seq<Seq<char>>,
    pub use_global: bool,
    pub global_config_path: Option<Seq<char>>,
    pub hide_dock_icon_when_window_hidden: bool,
    pub auto_stop_tunnels_on_quit: bool,
}

impl View for AppPreferences {
    type V = PreferencesModel;

    open spec fn view(&self) -> PreferencesModel {
        PreferencesModel {
            version: self.version,
            active_workspace_path: self.active_workspace_path.deep_view(),
            workspace_history: self.workspace_history.deep_view(),
            use_global: self.use_global,
            global_config_path: self.global_config_path.deep_view(),
            hide_dock_icon_when_window_hidden: self.hide_dock_icon_when_window_hidden,
            auto_stop_tunnels_on_quit: self.auto_stop_tunnels_on_quit,
        }
    }
}

/// The settings before any choice: the current format, no workspace, the
/// global file used, the Dock icon kept, running tunnels asked about on
/// quit.
pub open spec fn default_preferences() -> PreferencesModel {
    PreferencesModel {
        version: APP_PREFERENCES_VERSION,
        active_workspace_path: None,
        workspace_history: seq![],
        use_global: true,
        global_config_path: None,
        hide_dock_icon_when_window_hidden: false,
        auto_stop_tunnels_on_quit: false,
    }
}

impl Default for AppPreferences {
    fn default() -> (r: Self)
        ensures
            r@ == default_preferences(),
    {
        let r = AppPreferences {
            version: APP_PREFERENCES_VERSION,
            active_workspace_path: None,
            workspace_history: Vec::new(),
            use_global: true,
            global_config_path: None,
            hide_dock_icon_when_window_hidden: false,
            auto_stop_tunnels_on_quit: false,
        };
        assert(r@.workspace_history =~= Seq::<Seq<char>>::empty());
        r
    }
}

/// What the settings screen asks to change; absent fields stay as they
/// are. A workspace path is given in its canonical form (a blank one
/// clears the workspace).
#[derive(Debug, PartialEq, Eq)]
pub struct WorkspaceSelection {
    pub workspace_path: Option<String>,
    pub global_config_path: Option<String>,
    pub use_global: Option<bool>,
    pub hide_dock_icon_when_window_hidden: Option<bool>,
    pub auto_stop_tunnels_on_quit: Option<bool>,
}

/// The test that keeps every path but `path`.
pub open spec fn other_than(path: Seq<char>) -> spec_fn(Seq<char>) -> bool {
    |p: Seq<char>| p != path
}

/// The history with `path` moved (or added) to the front, at most
/// [`WORKSPACE_HISTORY_LIMIT`] entries long.
pub open spec fn spec_remember(history: Seq<Seq<char>>, path: Seq<char>) -> Seq<Seq<char>> {
    let h = seq![path] + history.filter(other_than(path));
    if h.len() > WORKSPACE_HISTORY_LIMIT {
        h.subrange(0, WORKSPACE_HISTORY_LIMIT as int)
    } else {
        h
    }
}

/// Moves (or adds) `workspace_path` to the front of the history, keeping
/// at most [`WORKSPACE_HISTORY_LIMIT`] entries.
pub fn remember_workspace_path(preferences: &mut AppPreferences, workspace_path: String)
    ensures
        final(preferences)@ == (PreferencesModel {
            workspace_history: spec_remember(old(preferences)@.workspace_history, workspace_path@),
            ..old(preferences)@
        }),
{
    let ghost hv = preferences@.workspace_history;
    let ghost pv = workspace_path@;
    let ghost pred = other_than(pv);
    let mut kept: Vec<String> = Vec::new();
    kept.push(workspace_path.clone());
    assert(kept.deep_view() =~= seq![pv] + hv.subrange(0, 0).filter(pred)) by {
        reveal_with_fuel(Seq::<_>::filter, 1);
        assert(hv.subrange(0, 0) =~= Seq::<Seq<char>>::empty());
    }
    let mut i: usize = 0;
    while i < preferences.workspace_history.len()
        invariant
            hv == preferences.workspace_history.deep_view(),
            pv == workspace_path@,
            i <= hv.len(),
            pred == other_than(pv),
            kept.deep_view() == seq![pv] + hv.subrange(0, i as int).filter(pred),
        decreases hv.len() - i,
    {
        reveal_with_fuel(Seq::<_>::filter, 1);
        assert(hv[i as int] == preferences.workspace_history@[i as int]@);
        let ghost before = kept.deep_view();
        assert(hv.subrange(0, i + 1).drop_last() =~= hv.subrange(0, i as int));
        if !str_eq(preferences.workspace_history[i].as_str(), workspace_path.as_str()) {
            kept.push(preferences.workspace_history[i].clone());
            assert(kept.deep_view() =~= before.push(hv[i as int]));
        }
        i += 1;
    }
    assert(hv.subrange(0, i as int) =~= hv);
    if kept.len() > WORKSPACE_HISTORY_LIMIT {
        kept.truncate(WORKSPACE_HISTORY_LIMIT);
        assert(kept.deep_view() =~= (seq![pv] + hv.filter(pred)).subrange(0, WORKSPACE_HISTORY_LIMIT as int));
    }
    preferences.workspace_history = kept;
}

/// A path typed by the user: trimmed; absent when blank.
pub open spec fn spec_non_empty_path(path: Option<Seq<char>>) -> Option<Seq<char>> {
    match path {
        Some(p) => if trim(p).len() > 0 {
            Some(trim(p))
        } else {
            None
        },
        None => None,
    }
}

/// A path typed by the user: trimmed; absent when blank.
pub fn non_empty_path(path: Option<String>) -> (r: Option<String>)
    ensures
        r.deep_view() == spec_non_empty_path(path.deep_view()),
{
    match path {
        Some(p) => {
            let t = trim_str(p.as_str());
            if t.as_str().unicode_len() > 0 {
                Some(t)
            } else {
                None
            }
        },
        None => None,
    }
}

/// The settings after a selection: a new (non-blank) workspace becomes the
/// active one and moves to the front of the history; a blank one clears
/// it; the other given fields replace theirs.
pub open spec fn spec_apply_selection(
    p: PreferencesModel,
    workspace_path: Option<Seq<char>>,
    global_config_path: Option<Seq<char>>,
    use_global: Option<bool>,
    hide_dock: Option<bool>,
    auto_stop: Option<bool>,
) -> PreferencesModel {
    let p1 = match workspace_path {
        None => p,
        Some(w) => {
            let active = if trim(w).len() == 0 {
                None
            } else {
                Some(trim(w))
            };
            if active != p.active_workspace_path && active is Some {
                PreferencesModel {
                    active_workspace_path: active,
                    workspace_history: spec_remember(p.workspace_history, active.unwrap()),
                    ..p
                }
            } else {
                PreferencesModel { active_workspace_path: active, ..p }
            }
        },
    };
    PreferencesModel {
        use_global: match use_global {
            Some(u) => u,
            None => p1.use_global,
        },
        global_config_path: match global_config_path {
            Some(g) => spec_non_empty_path(Some(g)),
            None => p1.global_config_path,
        },
        hide_dock_icon_when_window_hidden: match hide_dock {
            Some(h) => h,
            None => p1.hide_dock_icon_when_window_hidden,
        },
        auto_stop_tunnels_on_quit: match auto_stop {
            Some(a) => a,
            None => p1.auto_stop_tunnels_on_quit,
        },
        ..p1
    }
}

/// Applies a selection from the settings screen to the settings.
pub fn apply_workspace_selection(preferences: &mut AppPreferences, selection: WorkspaceSelection)
    ensures
        final(preferences)@ == spec_apply_selection(
            old(preferences)@,
            selection.workspace_path.deep_view(),
            selection.global_config_path.deep_view(),
            selection.use_global,
            selection.hide_dock_icon_when_window_hidden,
            selection.auto_stop_tunnels_on_quit,
        ),
{
    match selection.workspace_path {
        Some(w) => {
            let t = trim_str(w.as_str());
            let previous = preferences.active_workspace_path.take();
            let active = if t.as_str().unicode_len() == 0 {
                None
            } else {
                Some(t)
            };
            let changed = match (&active, &previous) {
                (Some(a), Some(b)) => !str_eq(a.as_str(), b.as_str()),
                (None, None) => false,
                _ => true,
            };
            match active {
                Some(a) => {
                    preferences.active_workspace_path = Some(a.clone());
                    if changed {
                        remember_workspace_path(preferences, a);
                    }
                },
                None => {
                    preferences.active_workspace_path = None;
                },
            }
        },
        None => {},
    }
    match selection.use_global {
        Some(u) => {
            preferences.use_global = u;
        },
        None => {},
    }
    match selection.global_config_path {
        Some(g) => {
            preferences.global_config_path = non_empty_path(Some(g));
        },
        None => {},
    }
    match selection.hide_dock_icon_when_window_hidden {
        Some(h) => {
            preferences.hide_dock_icon_when_window_hidden = h;
        },
        None => {},
    }
    match selection.auto_stop_tunnels_on_quit {
        Some(a) => {
            preferences.auto_stop_tunnels_on_quit = a;
        },
        None => {},
    }
}

/// The history without repeats (the first of each kept), at most
/// [`WORKSPACE_HISTORY_LIMIT`] entries long.
pub open spec fn dedup_history(h: Seq<Seq<char>>) -> Seq<Seq<char>>
    decreases h.len(),
{
    if h.len() == 0 {
        h
    } else if dedup_history(h.drop_last()).contains(h.last()) {
        dedup_history(h.drop_last())
    } else {
        dedup_history(h.drop_last()).push(h.last())
    }
}

/// The settings as loaded, made usable: the current format, the active
/// workspace and history entries that still exist (given here in
/// canonical form), the history without repeats and at most
/// [`WORKSPACE_HISTORY_LIMIT`] long.
pub open spec fn spec_normalize_loaded(
    p: PreferencesModel,
    available_active: Option<Seq<char>>,
    available_history: Seq<Seq<char>>,
) -> PreferencesModel {
    let h = dedup_history(available_history);
    PreferencesModel {
        version: APP_PREFERENCES_VERSION,
        active_workspace_path: available_active,
        workspace_history: if h.len() > WORKSPACE_HISTORY_LIMIT {
            h.subrange(0, WORKSPACE_HISTORY_LIMIT as int)
        } else {
            h
        },
        ..p
    }
}

/// Makes loaded settings usable; the caller gives the active workspace
/// and the history entries that still exist, in canonical form.
pub fn normalize_loaded_preferences(
    preferences: &mut AppPreferences,
    available_active: Option<String>,
    available_history: Vec<String>,
)
    ensures
        final(preferences)@ == spec_normalize_loaded(
            old(preferences)@,
            available_active.deep_view(),
            available_history.deep_view(),
        ),
{
    let ghost av = available_history.deep_view();
    let mut h: Vec<String> = Vec::new();
    let mut i: usize = 0;
    while i < available_history.len()
        invariant
            av == available_history.deep_view(),
            i <= av.len(),
            h.deep_view() == dedup_history(av.subrange(0, i as int)),
        decreases av.len() - i,
    {
        assert(av[i as int] == available_history@[i as int]@);
        assert(av.subrange(0, i + 1).drop_last() =~= av.subrange(0, i as int));
        let ghost hv = h.deep_view();
        let mut seen = false;
        let mut k: usize = 0;
        while k < h.len()
            invariant
                hv == h.deep_view(),
                av == available_history.deep_view(),
                i < av.len(),
                k <= hv.len(),
                seen == exists|j: int| 0 <= j < k && hv[j] == av[i as int],
            decreases hv.len() - k,
        {
            assert(hv[k as int] == h@[k as int]@);
            if str_eq(h[k].as_str(), available_history[i].as_str()) {
                seen = true;
            }
            k += 1;
        }
        if !seen {
            h.push(available_history[i].clone());
            assert(h.deep_view() =~= hv.push(av[i as int]));
        } else {
            proof {
                let j = choose|j: int| 0 <= j < k && hv[j] == av[i as int];
                assert(hv.contains(av[i as int]));
            }
        }
        i += 1;
    }
    assert(av.subrange(0, i as int) =~= av);
    if h.len() > WORKSPACE_HISTORY_LIMIT {
        let ghost full = h.deep_view();
        h.truncate(WORKSPACE_HISTORY_LIMIT);
        assert(h.deep_view() =~= full.subrange(0, WORKSPACE_HISTORY_LIMIT as int));
    }
    preferences.version = APP_PREFERENCES_VERSION;
    preferences.active_workspace_path = available_active;
    preferences.workspace_history = h;
}

/// Drops a workspace from the history: refused when the path given is
/// blank; `canonical` is its canonical form where it still exists (else
/// nothing is dropped).
pub open spec fn spec_remove_history_entry(
    p: PreferencesModel,
    workspace_path: Seq<char>,
    canonical: Option<Seq<char>>,
) -> Result<PreferencesModel, Seq<char>> {
    if trim(workspace_path).len() == 0 {
        Err("削除対象のワークスペースパスが空です"@)
    } else {
        match canonical {
            Some(c) => Ok(
                PreferencesModel {
                    workspace_history: p.workspace_history.filter(other_than(c)),
                    ..p
                },
            ),
            None => Ok(p),
        }
    }
}

/// Drops a workspace from the history; `canonical` is the canonical form
/// of `workspace_path` where it still exists.
pub fn remove_workspace_history_entry_from_preferences(
    preferences: &mut AppPreferences,
    workspace_path: &str,
    canonical: Option<String>,
) -> (r: Result<(), String>)
    ensures
        match r {
            Ok(_) => spec_remove_history_entry(old(preferences)@, workspace_path@, canonical.deep_view())
                == Ok::<PreferencesModel, Seq<char>>(final(preferences)@),
            Err(e) => spec_remove_history_entry(old(preferences)@, workspace_path@, canonical.deep_view())
                == Err::<PreferencesModel, Seq<char>>(e@) && final(preferences)@ == old(preferences)@,
        },
{
    if is_blank(workspace_path) {
        return Err(String::from_str("削除対象のワークスペースパスが空です"));
    }
    let c = match canonical {
        None => {
            return Ok(());
        },
        Some(c) => c,
    };
    let ghost hv = preferences@.workspace_history;
    let ghost pred = other_than(c@);
    let mut kept: Vec<String> = Vec::new();
    let mut i: usize = 0;
    while i < preferences.workspace_history.len()
        invariant
            hv == preferences.workspace_history.deep_view(),
            i <= hv.len(),
            pred == other_than(c@),
            kept.deep_view() == hv.subrange(0, i as int).filter(pred),
        decreases hv.len() - i,
    {
        reveal_with_fuel(Seq::<_>::filter, 1);
        assert(hv[i as int] == preferences.workspace_history@[i as int]@);
        assert(hv.subrange(0, i + 1).drop_last() =~= hv.subrange(0, i as int));
        let ghost before = kept.deep_view();
        if !str_eq(preferences.workspace_history[i].as_str(), c.as_str()) {
            kept.push(preferences.workspace_history[i].clone());
            assert(kept.deep_view() =~= before.push(hv[i as int]));
        }
        i += 1;
    }
    assert(hv.subrange(0, i as int) =~= hv);
    preferences.workspace_history = kept;
    Ok(())
}

/// What a workspace item of the tray switches to.
#[derive(Debug, PartialEq, Eq)]
pub struct TrayWorkspaceAction {
    pub workspace_path: String,
}

/// A workspace item of the tray menu.
#[derive(Debug, PartialEq, Eq)]
pub struct TrayWorkspaceMenuItem {
    pub menu_id: String,
    pub label: String,
    pub checked: bool,
    pub enabled: bool,
    pub action: Option<TrayWorkspaceAction>,
}

/// The mathematical value of a workspace item.
pub open spec fn workspace_item_view(item: TrayWorkspaceMenuItem) -> (Seq<char>, Seq<char>, bool, bool, Option<Seq<char>>) {
    (
        item.menu_id@,
        item.label@,
        item.checked,
        item.enabled,
        match item.action {
            Some(a) => Some(a.workspace_path@),
            None => None,
        },
    )
}

/// The test that keeps every path but the active workspace.
pub open spec fn not_active(active: Option<Seq<char>>) -> spec_fn(Seq<char>) -> bool {
    |h: Seq<char>| Some(h) != active
}

/// The history entries other than the active workspace, in order.
pub open spec fn other_workspaces(p: PreferencesModel) -> Seq<Seq<char>> {
    p.workspace_history.filter(not_active(p.active_workspace_path))
}

/// The first workspace item: the current workspace, checked and not
/// selectable, or a note that none is chosen.
pub open spec fn current_workspace_item(active: Option<Seq<char>>) -> (Seq<char>, Seq<char>, bool, bool, Option<Seq<char>>) {
    match active {
        Some(w) => (TRAY_MENU_CURRENT_WORKSPACE@, "Current workspace: "@ + w, true, false, None),
        None => (TRAY_MENU_CURRENT_WORKSPACE@, "No workspace selected"@, false, false, None),
    }
}

/// The `k`-th other workspace item (from 0): it switches to `path`.
pub open spec fn other_workspace_item(k: int, path: Seq<char>) -> (Seq<char>, Seq<char>, bool, bool, Option<Seq<char>>) {
    (TRAY_WORKSPACE_ITEM_PREFIX@ + decimal(k as nat), path, false, true, Some(path))
}

/// The workspace items of the tray: first the current workspace, then each
/// other workspace of the history, numbered from 0, which switches to it.
pub open spec fn spec_workspace_items(p: PreferencesModel) -> Seq<(Seq<char>, Seq<char>, bool, bool, Option<Seq<char>>)> {
    let others = other_workspaces(p);
    seq![current_workspace_item(p.active_workspace_path)] + Seq::new(
        others.len(),
        |k: int| other_workspace_item(k, others[k]),
    )
}

/// The workspace items of the tray menu.
pub fn tray_workspace_menu_items(preferences: &AppPreferences) -> (r: Vec<TrayWorkspaceMenuItem>)
    ensures
        r@.len() == spec_workspace_items(preferences@).len(),
        forall|k: int| 0 <= k < r@.len() ==> #[trigger] workspace_item_view(r@[k]) == spec_workspace_items(preferences@)[k],
{
    let ghost pv = preferences@;
    let ghost pred = not_active(pv.active_workspace_path);
    let mut items: Vec<TrayWorkspaceMenuItem> = Vec::new();
    match &preferences.active_workspace_path {
        Some(w) => {
            items.push(
                TrayWorkspaceMenuItem {
                    menu_id: String::from_str(TRAY_MENU_CURRENT_WORKSPACE),
                    label: concat_str("Current workspace: ", w.as_str()),
                    checked: true,
                    enabled: false,
                    action: None,
                },
            );
        },
        None => {
            items.push(
                TrayWorkspaceMenuItem {
                    menu_id: String::from_str(TRAY_MENU_CURRENT_WORKSPACE),
                    label: String::from_str("No workspace selected"),
                    checked: false,
                    enabled: false,
                    action: None,
                },
            );
        },
    }
    let ghost hv = pv.workspace_history;
    let mut index: usize = 0;
    let mut i: usize = 0;
    while i < preferences.workspace_history.len()
        invariant
            pv == preferences@,
            hv == pv.workspace_history,
            pred == not_active(pv.active_workspace_path),
            i <= hv.len(),
            index as int == hv.subrange(0, i as int).filter(pred).len(),
            index <= i,
            items@.len() == index + 1,
            workspace_item_view(items@[0]) == current_workspace_item(pv.active_workspace_path),
            forall|k: int|
                0 <= k < index ==> #[trigger] workspace_item_view(items@[k + 1]) == other_workspace_item(
                    k,
                    hv.subrange(0, i as int).filter(pred)[k],
                ),
        decreases hv.len() - i,
    {
        reveal_with_fuel(Seq::<_>::filter, 1);
        let h = &preferences.workspace_history[i];
        assert(hv[i as int] == h@);
        assert(hv.subrange(0, i + 1).drop_last() =~= hv.subrange(0, i as int));
        let is_active = match &preferences.active_workspace_path {
            Some(a) => str_eq(a.as_str(), h.as_str()),
            None => false,
        };
        let ghost prev_f = hv.subrange(0, i as int).filter(pred);
        let ghost prev_items = items@;
        if !is_active {
            let item = TrayWorkspaceMenuItem {
                menu_id: concat_str(TRAY_WORKSPACE_ITEM_PREFIX, decimal_string(index as u64).as_str()),
                label: h.clone(),
                checked: false,
                enabled: true,
                action: Some(TrayWorkspaceAction { workspace_path: h.clone() }),
            };
            items.push(item);
            let ghost new_f = hv.subrange(0, i + 1).filter(pred);
            assert(new_f =~= prev_f.push(h@));
            assert forall|k: int| 0 <= k < index + 1 implies #[trigger] workspace_item_view(items@[k + 1])
                == other_workspace_item(k, new_f[k]) by {
                if k < index {
                    assert(items@[k + 1] == prev_items[k + 1]);
                }
            }
            index += 1;
        } else {
            assert(hv.subrange(0, i + 1).filter(pred) =~= prev_f);
        }
        i += 1;
    }
    assert(hv.subrange(0, i as int) =~= hv);
    let ghost want = spec_workspace_items(pv);
    assert forall|k: int| 0 <= k < items@.len() implies #[trigger] workspace_item_view(items@[k]) == want[k] by {
        if k > 0 {
            assert(workspace_item_view(items@[(k - 1) + 1]) == other_workspace_item(k - 1, hv.filter(pred)[k - 1]));
        }
    }
    items
}

// ---------------------------------------------------------------------
// Quitting
// ---------------------------------------------------------------------

/// What happens to running tunnels when the app quits.
#[derive(Debug, Clone, Copy, PartialEq, Eq, Structural)]
pub enum QuitRunningTunnelsAction {
    AutoStop,
    Prompt,
}

/// What happens to running tunnels when the app quits: stopped without
/// asking when the settings say so, else the user is asked.
pub fn quit_running_tunnels_action(preferences: &AppPreferences) -> (r: QuitRunningTunnelsAction)
    ensures
        r == if preferences.auto_stop_tunnels_on_quit {
            QuitRunningTunnelsAction::AutoStop
        } else {
            QuitRunningTunnelsAction::Prompt
        },
{
    if preferences.auto_stop_tunnels_on_quit {
        QuitRunningTunnelsAction::AutoStop
    } else {
        QuitRunningTunnelsAction::Prompt
    }
}

/// The question asked before quitting with running tunnels.
pub fn quit_confirmation_message() -> (r: &'static str)
    ensures
        r@ == "起動中のポートフォワーディングがあります。\n停止して終了しますか？"@,
{
    "起動中のポートフォワーディングがあります。\n停止して終了しますか？"
}

/// The label of the button that stops the tunnels and quits.
pub const QUIT_DIALOG_STOP_LABEL: &'static str = "停止して終了";

/// The label of the button that quits and leaves the tunnels running.
pub const QUIT_DIALOG_KEEP_LABEL: &'static str = "停止せず終了";

/// The label of the button that cancels quitting.
pub const QUIT_DIALOG_CANCEL_LABEL: &'static str = "キャンセル";

/// How the user answered a message dialog.
#[derive(Debug, PartialEq, Eq)]
pub enum DialogAnswer {
    Yes,
    No,
    /// The plain confirming button.
    Confirmed,
    Cancel,
    Custom(String),
}

/// What the user chose when asked about running tunnels on quit.
#[derive(Debug, Clone, Copy, PartialEq, Eq, Structural)]
pub enum QuitDialogAction {
    StopAndQuit,
    QuitOnly,
    Cancel,
}

/// The choice an answer means: `Yes` or the stop button stops and quits,
/// `No` or the keep button quits only, anything else cancels.
pub open spec fn spec_quit_dialog_action(answer: DialogAnswer) -> QuitDialogAction {
    match answer {
        DialogAnswer::Yes => QuitDialogAction::StopAndQuit,
        DialogAnswer::No => QuitDialogAction::QuitOnly,
        DialogAnswer::Custom(label) => if label@ == QUIT_DIALOG_STOP_LABEL@ {
            QuitDialogAction::StopAndQuit
        } else if label@ == QUIT_DIALOG_KEEP_LABEL@ {
            QuitDialogAction::QuitOnly
        } else {
            QuitDialogAction::Cancel
        },
        _ => QuitDialogAction::Cancel,
    }
}

/// The choice an answer of the quit dialog means.
pub fn quit_dialog_action(answer: &DialogAnswer) -> (r: QuitDialogAction)
    ensures
        r == spec_quit_dialog_action(*answer),
{
    match answer {
        DialogAnswer::Yes => QuitDialogAction::StopAndQuit,
        DialogAnswer::No => QuitDialogAction::QuitOnly,
        DialogAnswer::Custom(label) => {
            if str_eq(label.as_str(), QUIT_DIALOG_STOP_LABEL) {
                QuitDialogAction::StopAndQuit
            } else if str_eq(label.as_str(), QUIT_DIALOG_KEEP_LABEL) {
                QuitDialogAction::QuitOnly
            } else {
                QuitDialogAction::Cancel
            }
        },
        _ => QuitDialogAction::Cancel,
    }
}

/// A tracked tunnel to stop (or whose stale state to drop) on quit.
#[derive(Debug, PartialEq, Eq)]
pub struct QuitTunnelTarget {
    /// The runtime ID under which it is recorded.
    pub id: String,
    pub runtime_scope: RuntimeScope,
    pub state_path: String,
    pub process_state: ProcessState,
}

impl QuitTunnelTarget {
    /// The target as shown: its scope and runtime ID.
    pub fn display_id(&self) -> (r: String)
        ensures
            r@ == scope_label(self.runtime_scope) + ":"@ + self.id@,
    {
        runtime_status_key(self.runtime_scope, self.id.as_str())
    }
}

/// Why stopping a tunnel on quit failed: the target as shown and the
/// reason.
#[derive(Debug, PartialEq, Eq)]
pub struct QuitStopFailure {
    pub id: String,
    pub message: String,
}

/// The message when stopping a running tunnel on quit failed.
pub open spec fn spec_quit_stop_failure_message(id: Seq<char>, message: Seq<char>) -> Seq<char> {
    id + " の停止に失敗したため、終了を中止しました。\n\n"@ + message
}

/// The message when dropping a stale state on quit failed.
pub open spec fn spec_quit_stale_cleanup_failure_message(id: Seq<char>, message: Seq<char>) -> Seq<char> {
    id + " の stale 状態を削除できなかったため、終了を中止しました。\n\n"@ + message
}

/// The message when stopping a running tunnel on quit failed: quitting is
/// called off.
pub fn quit_stop_failure_message(failure: &QuitStopFailure) -> (r: String)
    ensures
        r@ == spec_quit_stop_failure_message(failure.id@, failure.message@),
{
    let a = concat_str(failure.id.as_str(), " の停止に失敗したため、終了を中止しました。\n\n");
    concat_str(a.as_str(), failure.message.as_str())
}

/// The message when dropping a stale state on quit failed: quitting is
/// called off.
pub fn quit_stale_cleanup_failure_message(failure: &QuitStopFailure) -> (r: String)
    ensures
        r@ == spec_quit_stale_cleanup_failure_message(failure.id@, failure.message@),
{
    let a = concat_str(failure.id.as_str(), " の stale 状態を削除できなかったため、終了を中止しました。\n\n");
    concat_str(a.as_str(), failure.message.as_str())
}

/// The tracked tunnels on quit: those that run, and the stale ones.
#[derive(Debug, PartialEq, Eq)]
pub struct QuitTunnelTargets {
    pub running: Vec<QuitTunnelTarget>,
    pub stale: Vec<QuitTunnelTarget>,
}

/// The mathematical value of a quit target.
pub open spec fn target_view(t: QuitTunnelTarget) -> (Seq<char>, RuntimeScope, Seq<char>, ProcessState) {
    (t.id@, t.runtime_scope, t.state_path@, t.process_state)
}

/// The state file of a runtime scope: the shared one, or the workspace's
/// (absent when no workspace is chosen).
pub open spec fn spec_state_path_for_scope(
    global_state_path: Seq<char>,
    workspace_state_path: Option<Seq<char>>,
    scope: RuntimeScope,
) -> Option<Seq<char>> {
    match scope {
        RuntimeScope::Global => Some(global_state_path),
        RuntimeScope::Workspace => workspace_state_path,
    }
}

/// The state file of a runtime scope; absent for the workspace scope when
/// no workspace is chosen.
pub fn state_path_for_runtime_scope<'a>(
    global_state_path: &'a str,
    workspace_state_path: Option<&'a str>,
    scope: RuntimeScope,
) -> (r: Option<&'a str>)
    ensures
        match r {
            Some(p) => spec_state_path_for_scope(global_state_path@, opt_view(workspace_state_path), scope) == Some(p@),
            None => spec_state_path_for_scope(global_state_path@, opt_view(workspace_state_path), scope) is None,
        },
{
    match scope {
        RuntimeScope::Global => Some(global_state_path),
        RuntimeScope::Workspace => workspace_state_path,
    }
}

/// The text of an optional borrowed text.
pub open spec fn opt_view(s: Option<&str>) -> Option<Seq<char>> {
    match s {
        Some(t) => Some(t@),
        None => None,
    }
}

/// The quit targets among the statuses in state `want`, in order.
pub open spec fn spec_quit_targets(
    ss: Seq<ScopedRuntimeStatus>,
    global_state_path: Seq<char>,
    workspace_state_path: Option<Seq<char>>,
    want: ProcessState,
) -> Seq<(Seq<char>, RuntimeScope, Seq<char>, ProcessState)>
    decreases ss.len(),
{
    if ss.len() == 0 {
        seq![]
    } else {
        let prev = spec_quit_targets(ss.drop_last(), global_state_path, workspace_state_path, want);
        let s = ss.last();
        if s.status.process_state == want {
            prev.push(
                (
                    s.status.state.runtime_id@,
                    s.runtime_scope,
                    spec_state_path_for_scope(global_state_path, workspace_state_path, s.runtime_scope)->Some_0,
                    want,
                ),
            )
        } else {
            prev
        }
    }
}

/// Whether some status lives in the workspace scope.
pub open spec fn has_workspace_status(ss: Seq<ScopedRuntimeStatus>) -> bool {
    exists|i: int| 0 <= i < ss.len() && (#[trigger] ss[i]).runtime_scope == RuntimeScope::Workspace
}

/// The tracked tunnels to deal with on quit, split into running and stale
/// ones, each with the state file of its scope; absent when a status of
/// the workspace scope has no state file because no workspace is chosen.
pub fn quit_tunnel_targets_from_statuses(
    statuses: &[ScopedRuntimeStatus],
    global_state_path: &str,
    workspace_state_path: Option<&str>,
) -> (r: Option<QuitTunnelTargets>)
    ensures
        r is None <==> (has_workspace_status(statuses@) && workspace_state_path is None),
        r matches Some(t) ==> {
            &&& t.running@.map_values(|x: QuitTunnelTarget| target_view(x)) == spec_quit_targets(
                statuses@,
                global_state_path@,
                opt_view(workspace_state_path),
                ProcessState::Running,
            )
            &&& t.stale@.map_values(|x: QuitTunnelTarget| target_view(x)) == spec_quit_targets(
                statuses@,
                global_state_path@,
                opt_view(workspace_state_path),
                ProcessState::Stale,
            )
        },
{
    let ghost g = global_state_path@;
    let ghost w = opt_view(workspace_state_path);
    let mut running: Vec<QuitTunnelTarget> = Vec::new();
    let mut stale: Vec<QuitTunnelTarget> = Vec::new();
    let mut i: usize = 0;
    while i < statuses.len()
        invariant
            i <= statuses@.len(),
            g == global_state_path@,
            w == opt_view(workspace_state_path),
            !(has_workspace_status(statuses@.subrange(0, i as int)) && w is None),
            running@.map_values(|x: QuitTunnelTarget| target_view(x)) == spec_quit_targets(
                statuses@.subrange(0, i as int),
                g,
                w,
                ProcessState::Running,
            ),
            stale@.map_values(|x: QuitTunnelTarget| target_view(x)) == spec_quit_targets(
                statuses@.subrange(0, i as int),
                g,
                w,
                ProcessState::Stale,
            ),
        decreases statuses@.len() - i,
    {
        let s = &statuses[i];
        let ghost sub = statuses@.subrange(0, i + 1);
        assert(sub.drop_last() =~= statuses@.subrange(0, i as int));
        assert(sub.last() == *s);
        let path = match state_path_for_runtime_scope(global_state_path, workspace_state_path, s.runtime_scope) {
            Some(p) => p,
            None => {
                assert(statuses@[i as int].runtime_scope == RuntimeScope::Workspace);
                return None;
            },
        };
        let target = QuitTunnelTarget {
            id: s.status.state.runtime_id.clone(),
            runtime_scope: s.runtime_scope,
            state_path: String::from_str(path),
            process_state: s.status.process_state,
        };
        let ghost tv = target_view(target);
        let ghost rv = running@.map_values(|x: QuitTunnelTarget| target_view(x));
        let ghost sv = stale@.map_values(|x: QuitTunnelTarget| target_view(x));
        match s.status.process_state {
            ProcessState::Running => {
                running.push(target);
                assert(running@.map_values(|x: QuitTunnelTarget| target_view(x)) =~= rv.push(tv));
            },
            ProcessState::Stale => {
                stale.push(target);
                assert(stale@.map_values(|x: QuitTunnelTarget| target_view(x)) =~= sv.push(tv));
            },
        }
        assert(!(has_workspace_status(sub) && w is None)) by {
            if has_workspace_status(sub) && w is None {
                let j = choose|j: int| 0 <= j < sub.len() && (#[trigger] sub[j]).runtime_scope == RuntimeScope::Workspace;
                if j < i {
                    assert(statuses@.subrange(0, i as int)[j] == sub[j]);
                }
            }
        }
        i += 1;
    }
    assert(statuses@.subrange(0, i as int) =~= statuses@);
    Some(QuitTunnelTargets { running, stale })
}

/// Where the app is in asking about running tunnels on quit.
#[derive(Debug, Clone, Copy, PartialEq, Eq, Structural)]
pub enum QuitConfirmationState {
    /// Nothing asked yet.
    Idle,
    /// The tunnels are being inspected or the user is being asked.
    Prompting,
    /// The user agreed (or nothing had to be asked): quitting goes ahead.
    Proceeding,
}

/// What to do with a request to quit.
#[derive(Debug, Clone, Copy, PartialEq, Eq, Structural)]
pub enum QuitRequestDecision {
    /// Let the app quit.
    Allow,
    /// Keep the app running (a question is already open).
    Prevent,
    /// Keep the app running and inspect the tracked tunnels first.
    Inspect,
}

/// The answer to a request to quit, and the state after it: quitting that
/// was agreed goes ahead, a request while asking is held back, and a first
/// request starts inspecting.
pub fn quit_request_decision(state: QuitConfirmationState) -> (r: (QuitConfirmationState, QuitRequestDecision))
    ensures
        r == match state {
            QuitConfirmationState::Proceeding => (QuitConfirmationState::Proceeding, QuitRequestDecision::Allow),
            QuitConfirmationState::Prompting => (QuitConfirmationState::Prompting, QuitRequestDecision::Prevent),
            QuitConfirmationState::Idle => (QuitConfirmationState::Prompting, QuitRequestDecision::Inspect),
        },
{
    match state {
        QuitConfirmationState::Proceeding => (QuitConfirmationState::Proceeding, QuitRequestDecision::Allow),
        QuitConfirmationState::Prompting => (QuitConfirmationState::Prompting, QuitRequestDecision::Prevent),
        QuitConfirmationState::Idle => (QuitConfirmationState::Prompting, QuitRequestDecision::Inspect),
    }
}

/// What to do once the stale states are dropped.
#[derive(Debug, Clone, Copy, PartialEq, Eq, Structural)]
pub enum QuitPlan {
    /// Nothing runs: quit now (and go back to idle).
    QuitNow,
    /// Stop the running tunnels, then quit.
    StopRunningThenQuit,
    /// Ask the user about the running tunnels.
    AskUser,
}

/// What to do on quit, given the tracked tunnels: with none running quit
/// at once; else stop them first when the settings say so, or ask.
pub fn quit_plan(targets: &QuitTunnelTargets, action: QuitRunningTunnelsAction) -> (r: QuitPlan)
    ensures
        r == if targets.running@.len() == 0 {
            QuitPlan::QuitNow
        } else if action == QuitRunningTunnelsAction::AutoStop {
            QuitPlan::StopRunningThenQuit
        } else {
            QuitPlan::AskUser
        },
{
    if targets.running.len() == 0 {
        QuitPlan::QuitNow
    } else {
        match action {
            QuitRunningTunnelsAction::AutoStop => QuitPlan::StopRunningThenQuit,
            QuitRunningTunnelsAction::Prompt => QuitPlan::AskUser,
        }
    }
}

// ---------------------------------------------------------------------
// Adding a tunnel
// ---------------------------------------------------------------------

/// `field は必須です`.
pub open spec fn msg_required(field: Seq<char>) -> Seq<char> {
    field + " は必須です"@
}

/// The first required field that is blank, as its message.
pub open spec fn required_field_error(t: TunnelModel) -> Option<Seq<char>> {
    if trim(t.name).len() == 0 {
        Some(msg_required("id"@))
    } else if trim(spec_effective_local_host(t)).len() == 0 {
        Some(msg_required("local_host"@))
    } else if trim(t.remote_host).len() == 0 {
        Some(msg_required("remote_host"@))
    } else if trim(t.ssh_user).len() == 0 {
        Some(msg_required("ssh_user"@))
    } else if trim(t.ssh_host).len() == 0 {
        Some(msg_required("ssh_host"@))
    } else {
        None
    }
}

/// The first tag that is not valid.
pub open spec fn first_invalid_tag(tags: Seq<Seq<char>>, n: int) -> Option<Seq<char>>
    decreases n,
{
    if n <= 0 {
        None
    } else {
        match first_invalid_tag(tags, n - 1) {
            Some(t) => Some(t),
            None => if !spec_tag_is_valid(tags[n - 1]) {
                Some(tags[n - 1])
            } else {
                None
            },
        }
    }
}

/// Checking a tunnel before the app adds it: required fields, a local
/// host without whitespace, valid tags, and a name and local port not yet
/// used by a configured tunnel; the first failure is its message.
pub open spec fn spec_validate_new_tunnel(ts: Seq<ResolvedModel>, t: TunnelModel) -> Result<(), Seq<char>> {
    match required_field_error(t) {
        Some(m) => Err(m),
        None => if has_ws(spec_effective_local_host(t)) {
            Err("local_host に空白文字は使用できません"@)
        } else {
            match first_invalid_tag(t.tags, t.tags.len() as int) {
                Some(tag) => Err("tag は小文字 ASCII、数字、'-'、'_'、'.'、'/' のみ使用できます: "@ + tag),
                None => match first_fit(ts, None, Some(t.name), None, None) {
                    Some(i) => Err(
                        "同じ ID のトンネルが既に存在します: "@ + ts[i].tunnel.name + " ("@ + ts[i].source.path
                            + ")"@,
                    ),
                    None => match first_fit(ts, None, None, None, Some(t.local_port)) {
                        Some(j) => Err(
                            "local_port は既存トンネルと重複しています: "@ + decimal(t.local_port as nat) + " ("@
                                + ts[j].tunnel.name + ")"@,
                        ),
                        None => Ok(()),
                    },
                },
            }
        },
    }
}

/// The messages of issues, in order.
pub open spec fn issue_messages(issues: Seq<IssueModel>) -> Seq<Seq<char>> {
    issues.map_values(|i: IssueModel| i.message)
}

/// Refuses a configuration with errors: the message lists their messages,
/// separated by `, `.
pub fn ensure_valid_config(config: &EffectiveConfig) -> (r: Result<(), String>)
    ensures
        match r {
            Ok(_) => spec_validation_errors(config@).len() == 0,
            Err(m) => spec_validation_errors(config@).len() > 0 && m@ == "設定にエラーがあります: "@ + joined(
                issue_messages(spec_validation_errors(config@)),
                ", "@,
            ),
        },
{
    let report = validate_config(config);
    if report.is_valid() {
        return Ok(());
    }
    let ghost ev = report.errors.deep_view();
    let mut messages: Vec<String> = Vec::new();
    let mut i: usize = 0;
    while i < report.errors.len()
        invariant
            ev == report.errors.deep_view(),
            i <= ev.len(),
            messages@.len() == i,
            forall|j: int| 0 <= j < i ==> (#[trigger] messages@[j])@ == ev[j].message,
        decreases ev.len() - i,
    {
        assert(ev[i as int] == report.errors@[i as int].deep_view());
        messages.push(report.errors[i].message.clone());
        i += 1;
    }
    assert(messages.deep_view() =~= issue_messages(ev));
    let text = join_strings(messages.as_slice(), ", ");
    proof {
        assert(messages@.map_values(|s: String| s@) =~= messages.deep_view());
    }
    Err(concat_str("設定にエラーがあります: ", text.as_str()))
}

/// A tunnel as typed in the app.
#[derive(Debug, PartialEq, Eq)]
pub struct TunnelInput {
    pub id: String,
    pub description: Option<String>,
    pub tags: Vec<String>,
    pub local_host: String,
    pub local_port: u16,
    pub remote_host: String,
    pub remote_port: u16,
    pub ssh_user: String,
    pub ssh_host: String,
    pub ssh_port: Option<u16>,
    pub identity_file: Option<String>,
}

/// An optional text trimmed, absent when blank.
pub open spec fn trimmed_optional(v: Option<Seq<char>>) -> Option<Seq<char>> {
    match v {
        Some(t) => if trim(t).len() == 0 {
            None
        } else {
            Some(trim(t))
        },
        None => None,
    }
}

/// An optional text trimmed, absent when blank.
fn trim_optional(v: &Option<String>) -> (r: Option<String>)
    ensures
        r.deep_view() == trimmed_optional(v.deep_view()),
{
    match v {
        Some(t) => {
            let x = trim_str(t.as_str());
            if x.as_str().unicode_len() == 0 {
                None
            } else {
                Some(x)
            }
        },
        None => None,
    }
}

impl TunnelInput {
    /// The tunnel typed: every text trimmed (a blank description or
    /// identity file left out), the local host given, no timeouts.
    pub fn into_tunnel_config(&self) -> (r: TunnelConfig)
        ensures
            r@.name == trim(self.id@),
            r@.enabled,
            r@.description == trimmed_optional(self.description.deep_view()),
            r@.tags.len() == self.tags@.len(),
            forall|k: int| 0 <= k < self.tags@.len() ==> #[trigger] r@.tags[k] == trim(self.tags@[k]@),
            r@.local_host == Some(trim(self.local_host@)),
            r@.local_port == self.local_port,
            r@.remote_host == trim(self.remote_host@),
            r@.remote_port == self.remote_port,
            r@.ssh_user == trim(self.ssh_user@),
            r@.ssh_host == trim(self.ssh_host@),
            r@.ssh_port == self.ssh_port,
            r@.identity_file == trimmed_optional(self.identity_file.deep_view()),
            r@.timeouts == crate::config::empty_timeouts(),
    {
        let mut tags: Vec<String> = Vec::new();
        let mut i: usize = 0;
        while i < self.tags.len()
            invariant
                i <= self.tags@.len(),
                tags@.len() == i,
                forall|k: int| 0 <= k < i ==> (#[trigger] tags@[k])@ == trim(self.tags@[k]@),
            decreases self.tags@.len() - i,
        {
            tags.push(trim_str(self.tags[i].as_str()));
            i += 1;
        }
        let r = TunnelConfig {
            name: trim_str(self.id.as_str()),
            enabled: true,
            description: trim_optional(&self.description),
            tags,
            local_host: Some(trim_str(self.local_host.as_str())),
            local_port: self.local_port,
            remote_host: trim_str(self.remote_host.as_str()),
            remote_port: self.remote_port,
            ssh_user: trim_str(self.ssh_user.as_str()),
            ssh_host: trim_str(self.ssh_host.as_str()),
            ssh_port: self.ssh_port,
            identity_file: trim_optional(&self.identity_file),
            timeouts: TimeoutConfig::default(),
        };
        r
    }
}

/// The first required field of a tunnel that is blank.
fn check_required_fields(tunnel: &TunnelConfig) -> (r: Option<String>)
    ensures
        r.deep_view() == required_field_error(tunnel@),
{
    if is_blank(tunnel.name.as_str()) {
        return Some(concat_str("id", " は必須です"));
    }
    if is_blank(tunnel.effective_local_host()) {
        return Some(concat_str("local_host", " は必須です"));
    }
    if is_blank(tunnel.remote_host.as_str()) {
        return Some(concat_str("remote_host", " は必須です"));
    }
    if is_blank(tunnel.ssh_user.as_str()) {
        return Some(concat_str("ssh_user", " は必須です"));
    }
    if is_blank(tunnel.ssh_host.as_str()) {
        return Some(concat_str("ssh_host", " は必須です"));
    }
    None
}

/// Checks a tunnel before the app adds it to the configuration; the
/// error is the message shown.
pub fn validate_new_tunnel(config: &EffectiveConfig, tunnel: &TunnelConfig) -> (r: Result<(), String>)
    ensures
        match r {
            Ok(_) => spec_validate_new_tunnel(config@.tunnels, tunnel@) == Ok::<(), Seq<char>>(()),
            Err(e) => spec_validate_new_tunnel(config@.tunnels, tunnel@) == Err::<(), Seq<char>>(e@),
        },
{
    match check_required_fields(tunnel) {
        Some(m) => {
            return Err(m);
        },
        None => {},
    }
    if contains_ws(tunnel.effective_local_host()) {
        return Err(String::from_str("local_host に空白文字は使用できません"));
    }
    let ghost tags = tunnel@.tags;
    let mut i: usize = 0;
    while i < tunnel.tags.len()
        invariant
            tags == tunnel@.tags,
            i <= tags.len(),
            first_invalid_tag(tags, i as int) is None,
            required_field_error(tunnel@) is None,
            !has_ws(spec_effective_local_host(tunnel@)),
        decreases tags.len() - i,
    {
        assert(tags[i as int] == tunnel.tags@[i as int]@);
        if !tag_is_valid(tunnel.tags[i].as_str()) {
            proof {
                lemma_first_invalid_tag_stays(tags, i + 1, tags.len() as int);
            }
            return Err(concat_str("tag は小文字 ASCII、数字、'-'、'_'、'.'、'/' のみ使用できます: ", tunnel.tags[i].as_str()));
        }
        i += 1;
    }
    match crate::selection::find_tunnel_id_conflict_any(config, tunnel.name.as_str()) {
        Some(existing) => {
            let a = concat_str("同じ ID のトンネルが既に存在します: ", existing.tunnel.name.as_str());
            let b = concat_str(a.as_str(), " (");
            let c = concat_str(b.as_str(), existing.source.path.as_str());
            return Err(concat_str(c.as_str(), ")"));
        },
        None => {},
    }
    match crate::selection::find_local_port_user(config, tunnel.local_port) {
        Some(existing) => {
            let a = concat_str("local_port は既存トンネルと重複しています: ", decimal_string(tunnel.local_port as u64).as_str());
            let b = concat_str(a.as_str(), " (");
            let c = concat_str(b.as_str(), existing.tunnel.name.as_str());
            Err(concat_str(c.as_str(), ")"))
        },
        None => Ok(()),
    }
}

proof fn lemma_first_invalid_tag_stays(tags: Seq<Seq<char>>, n: int, m: int)
    requires
        n <= m,
        first_invalid_tag(tags, n) is Some,
    ensures
        first_invalid_tag(tags, m) == first_invalid_tag(tags, n),
    decreases m - n,
{
    if m > n {
        lemma_first_invalid_tag_stays(tags, n, m - 1);
    }
}

// ---------------------------------------------------------------------
// Laws
// ---------------------------------------------------------------------

proof fn lemma_filter_no_duplicates(s: Seq<Seq<char>>, p: spec_fn(Seq<char>) -> bool)
    requires
        s.no_duplicates(),
    ensures
        s.filter(p).no_duplicates(),
        forall|x: Seq<char>| #[trigger] s.filter(p).contains(x) ==> s.contains(x) && p(x),
    decreases s.len(),
{
    reveal_with_fuel(Seq::<_>::filter, 1);
    if s.len() > 0 {
        let d = s.drop_last();
        assert(d.no_duplicates());
        lemma_filter_no_duplicates(d, p);
        let fd = d.filter(p);
        assert forall|x: Seq<char>| #[trigger] s.filter(p).contains(x) implies s.contains(x) && p(x) by {
            let k = choose|k: int| 0 <= k < s.filter(p).len() && s.filter(p)[k] == x;
            if p(s.last()) && k == fd.len() {
                assert(s[s.len() - 1] == x);
            } else {
                assert(fd[k] == x);
                assert(fd.contains(x));
                let m = choose|m: int| 0 <= m < d.len() && d[m] == x;
                assert(s[m] == x);
            }
        }
        if p(s.last()) {
            assert(!fd.contains(s.last())) by {
                if fd.contains(s.last()) {
                    let m = choose|m: int| 0 <= m < d.len() && d[m] == s.last();
                    assert(s[m] == s[s.len() - 1]);
                }
            }
        }
    }
}

/// Remembering a workspace puts it first, keeps every path at most once
/// (when the history did), keeps at most [`WORKSPACE_HISTORY_LIMIT`]
/// entries, and adds no path but the one remembered.
pub proof fn lemma_remember_history(history: Seq<Seq<char>>, path: Seq<char>)
    requires
        history.no_duplicates(),
    ensures
        spec_remember(history, path)[0] == path,
        spec_remember(history, path).len() <= WORKSPACE_HISTORY_LIMIT,
        spec_remember(history, path).no_duplicates(),
        forall|x: Seq<char>| #[trigger] spec_remember(history, path).contains(x) ==> x == path || history.contains(x),
{
    let rest = history.filter(other_than(path));
    lemma_filter_no_duplicates(history, other_than(path));
    let h = seq![path] + rest;
    assert forall|i: int, j: int| 0 <= i < h.len() && 0 <= j < h.len() && i != j implies h[i] != h[j] by {
        if i == 0 {
            assert(rest.contains(h[j]));
        } else if j == 0 {
            assert(rest.contains(h[i]));
        } else {
            assert(h[i] == rest[i - 1] && h[j] == rest[j - 1]);
        }
    }
    assert forall|x: Seq<char>| #[trigger] h.contains(x) implies x == path || history.contains(x) by {
        let k = choose|k: int| 0 <= k < h.len() && h[k] == x;
        if k > 0 {
            assert(rest[k - 1] == x);
            assert(rest.contains(x));
        }
    }
    if h.len() > WORKSPACE_HISTORY_LIMIT {
        let t = h.subrange(0, WORKSPACE_HISTORY_LIMIT as int);
        assert forall|x: Seq<char>| #[trigger] t.contains(x) implies x == path || history.contains(x) by {
            let k = choose|k: int| 0 <= k < t.len() && t[k] == x;
            assert(h[k] == x);
            assert(h.contains(x));
        }
    }
}

} // verus!
