//! Where the desktop app keeps its files: its preferences, the state file
//! of each workspace (under a key drawn from the workspace path), and the
//! configuration and state files that the preferences select. Which
//! tracked tunnels belong to the active workspace is decided here too,
//! from whether their source files are the workspace's configuration
//! file, which the caller finds out on disk.

use vstd::prelude::*;

use crate::config::{ConfigPaths, ConfigSourceKind};
use crate::paths::{default_local_config_path, join_path, join_path_text, LOCAL_CONFIG_FILE_NAME};
use crate::state::TunnelState;
use crate::strings::clone_opt_string;
use crate::text::{push_char, str_eq};
use crate::tunnel::{ProcessState, TunnelRuntimeStatus};
use crate::workspace::{
    apply_workspace_selection, normalize_loaded_preferences, spec_apply_selection, spec_normalize_loaded, AppPreferences,
    PreferencesModel, RuntimeScope, ScopedRuntimeStatus, WorkspaceSelection,
};
use vstd::utf8::encode_utf8;

verus! {

/// The file name of the app's preferences.
pub const APP_PREFERENCES_FILE_NAME: &'static str = "preferences.toml";

/// The directory, under the app's configuration directory, that holds the
/// workspaces' state files.
pub const WORKSPACE_STATES_DIR: &'static str = "workspace-states";

/// The file name of a state file.
pub const STATE_FILE_NAME: &'static str = "state.toml";

/// The directory, under the app's configuration directory, of the local
/// configuration used while no workspace is chosen.
pub const NO_WORKSPACE_DIR: &'static str = "no-workspace";

/// The offset basis of 64-bit FNV-1a.
pub const FNV_OFFSET_BASIS: u64 = 0xcbf2_9ce4_8422_2325;

/// The prime of 64-bit FNV-1a.
pub const FNV_PRIME: u64 = 0x0000_0100_0000_01b3;

/// The 64-bit FNV-1a hash of some bytes: from the offset basis, each byte
/// in turn is XORed in, then the hash is multiplied by the prime modulo
/// 2^64.
pub open spec fn fnv1a(bytes: Seq<u8>) -> u64
    decreases bytes.len(),
{
    if bytes.len() == 0 {
        FNV_OFFSET_BASIS
    } else {
        vstd::wrapping::u64_specs::wrapping_mul(fnv1a(bytes.drop_last()) ^ (bytes.last() as u64), FNV_PRIME)
    }
}

/// The lower-case hexadecimal digit for `d < 16`.
pub open spec fn hex_char(d: nat) -> char {
    if d < 10 {
        (('0' as u32) + d) as char
    } else {
        (('a' as u32) + (d - 10)) as char
    }
}

/// The last `count` hexadecimal digits of `n`, most significant first,
/// zero-padded.
pub open spec fn hex_digits(n: nat, count: nat) -> Seq<char>
    decreases count,
{
    if count == 0 {
        seq![]
    } else {
        hex_digits(n / 16, (count - 1) as nat).push(hex_char(n % 16))
    }
}

/// Whether a character is a lower-case hexadecimal digit.
pub open spec fn is_lower_hex_digit(c: char) -> bool {
    ('0' <= c && c <= '9') || ('a' <= c && c <= 'f')
}

/// A workspace key is always `count` lower-case hexadecimal digits,
/// whatever the hash: keys are stable in length and form.
pub proof fn lemma_hex_digits_form(n: nat, count: nat)
    ensures
        hex_digits(n, count).len() == count,
        forall|i: int| 0 <= i < count ==> is_lower_hex_digit(#[trigger] hex_digits(n, count)[i]),
    decreases count,
{
    if count > 0 {
        lemma_hex_digits_form(n / 16, (count - 1) as nat);
        let d = n % 16;
        assert(is_lower_hex_digit(hex_char(d)));
        assert forall|i: int| 0 <= i < count implies is_lower_hex_digit(#[trigger] hex_digits(n, count)[i]) by {
            if i < count - 1 {
                assert(hex_digits(n, count)[i] == hex_digits(n / 16, (count - 1) as nat)[i]);
            }
        }
    }
}

/// The lower-case hexadecimal digit of `d`.
fn hex_digit_char(d: u64) -> (c: char)
    requires
        d < 16,
    ensures
        c == hex_char(d as nat),
{
    let c = if d == 0 { '0' } else if d == 1 { '1' } else if d == 2 { '2' } else if d == 3 { '3' } else if d == 4 {
        '4'
    } else if d == 5 { '5' } else if d == 6 { '6' } else if d == 7 { '7' } else if d == 8 { '8' } else if d == 9 {
        '9'
    } else if d == 10 { 'a' } else if d == 11 { 'b' } else if d == 12 { 'c' } else if d == 13 { 'd' } else if d
        == 14 {
        'e'
    } else {
        'f'
    };
    assert(c == hex_char(d as nat));
    c
}

/// The last `count` hexadecimal digits of `n`, zero-padded.
fn hex_string(n: u64, count: usize) -> (r: String)
    ensures
        r@ == hex_digits(n as nat, count as nat),
    decreases count,
{
    if count == 0 {
        let r = String::new();
        assert(r@ =~= hex_digits(n as nat, 0));
        r
    } else {
        let mut r = hex_string(n / 16, count - 1);
        push_char(&mut r, hex_digit_char(n % 16));
        r
    }
}

/// The key of a workspace: the FNV-1a hash of its path's UTF-8 bytes, as
/// 16 lower-case hexadecimal digits.
pub fn workspace_key(workspace_path: &str) -> (r: String)
    ensures
        r@ == hex_digits(fnv1a(encode_utf8(workspace_path@)) as nat, 16),
{
    let bytes = workspace_path.as_bytes();
    let mut hash: u64 = FNV_OFFSET_BASIS;
    let mut i: usize = 0;
    while i < bytes.len()
        invariant
            i <= bytes@.len(),
            bytes@ == encode_utf8(workspace_path@),
            hash == fnv1a(bytes@.subrange(0, i as int)),
        decreases bytes@.len() - i,
    {
        assert(bytes@.subrange(0, i + 1).drop_last() =~= bytes@.subrange(0, i as int));
        hash = (hash ^ (bytes[i] as u64)).wrapping_mul(FNV_PRIME);
        i += 1;
    }
    assert(bytes@.subrange(0, i as int) =~= bytes@);
    hex_string(hash, 16)
}

/// The state file of a workspace, under the app's configuration directory.
pub open spec fn spec_workspace_state_path(app_config_dir: Seq<char>, workspace_path: Seq<char>, key: Seq<char>) -> Seq<
    char,
> {
    join_path(join_path(join_path(app_config_dir, WORKSPACE_STATES_DIR@), key), STATE_FILE_NAME@)
}

/// The state file of a workspace: `workspace-states/<key>/state.toml`
/// under the app's configuration directory, where the key is the
/// [`workspace_key`] of the workspace path.
pub fn workspace_state_file_path(app_config_dir: &str, workspace_path: &str) -> (r: String)
    ensures
        r@ == spec_workspace_state_path(
            app_config_dir@,
            workspace_path@,
            hex_digits(fnv1a(encode_utf8(workspace_path@)) as nat, 16),
        ),
{
    let dir = join_path_text(app_config_dir, WORKSPACE_STATES_DIR);
    let key = workspace_key(workspace_path);
    let keyed = join_path_text(dir.as_str(), key.as_str());
    join_path_text(keyed.as_str(), STATE_FILE_NAME)
}

/// The local configuration file used while no workspace is chosen:
/// `no-workspace/fwd-deck.toml` under the app's configuration directory.
pub fn no_workspace_local_config_path(app_config_dir: &str) -> (r: String)
    ensures
        r@ == join_path(join_path(app_config_dir@, NO_WORKSPACE_DIR@), LOCAL_CONFIG_FILE_NAME@),
{
    let dir = join_path_text(app_config_dir, NO_WORKSPACE_DIR);
    join_path_text(dir.as_str(), LOCAL_CONFIG_FILE_NAME)
}

/// The app's preferences file, in its configuration directory.
pub fn preferences_path_from_app_config_dir(app_config_dir: &str) -> (r: String)
    ensures
        r@ == join_path(app_config_dir@, APP_PREFERENCES_FILE_NAME@),
{
    join_path_text(app_config_dir, APP_PREFERENCES_FILE_NAME)
}

/// Why the app's files could not be worked out.
#[derive(Debug, Clone, Copy, PartialEq, Eq, Structural)]
pub enum RuntimePathError {
    /// The global file is used but no path for it is known.
    MissingGlobalConfigPath,
    /// No path for the shared state file is known.
    MissingStatePath,
    /// A workspace file was asked for while no workspace is chosen.
    MissingWorkspace,
}

/// The global configuration file the preferences select: none when the
/// global file is not used; else the one they name, or the default one;
/// refused when neither is known.
pub open spec fn spec_global_config_path(p: PreferencesModel, default_global: Option<Seq<char>>) -> Result<
    Option<Seq<char>>,
    RuntimePathError,
> {
    if !p.use_global {
        Ok(None)
    } else {
        match p.global_config_path {
            Some(g) => Ok(Some(g)),
            None => match default_global {
                Some(d) => Ok(Some(d)),
                None => Err(RuntimePathError::MissingGlobalConfigPath),
            },
        }
    }
}

/// The mathematical value of an optional `&str`.
pub open spec fn str_opt(s: Option<&str>) -> Option<Seq<char>> {
    match s {
        Some(t) => Some(t@),
        None => None,
    }
}

/// A copy of an optional `&str`.
fn own_opt(s: Option<&str>) -> (r: Option<String>)
    ensures
        r.deep_view() == str_opt(s),
{
    match s {
        Some(t) => Some(String::from_str(t)),
        None => None,
    }
}

/// The global configuration file the preferences select, given the
/// default one where it is known.
pub fn resolve_global_config_path(preferences: &AppPreferences, default_global: Option<&str>) -> (r: Result<
    Option<String>,
    RuntimePathError,
>)
    ensures
        match r {
            Ok(p) => spec_global_config_path(preferences@, str_opt(default_global)) == Ok::<
                Option<Seq<char>>,
                RuntimePathError,
            >(p.deep_view()),
            Err(e) => spec_global_config_path(preferences@, str_opt(default_global)) == Err::<
                Option<Seq<char>>,
                RuntimePathError,
            >(e),
        },
{
    if !preferences.use_global {
        return Ok(None);
    }
    match &preferences.global_config_path {
        Some(g) => Ok(Some(g.clone())),
        None => match default_global {
            Some(d) => Ok(Some(String::from_str(d))),
            None => Err(RuntimePathError::MissingGlobalConfigPath),
        },
    }
}

/// The files the app works with, as the preferences select them.
#[derive(Debug, PartialEq, Eq)]
pub struct RuntimePaths {
    pub preferences: AppPreferences,
    /// The configuration files to load.
    pub config_paths: ConfigPaths,
    /// The active workspace's configuration file, when one is chosen.
    pub local_config_path: Option<String>,
    /// The global configuration file to show, used or not.
    pub global_config_display_path: Option<String>,
    /// The shared state file.
    pub global_state_path: String,
    /// The active workspace's state file, when one is chosen.
    pub workspace_state_path: Option<String>,
}

/// What the files are, given the app's configuration directory, the
/// preferences, and the default global configuration and state files
/// where they are known: refused when the global file is used without a
/// known path, then when the state file has none. The local configuration
/// is the workspace's `fwd-deck.toml`, or the app's own while no workspace
/// is chosen.
pub open spec fn spec_runtime_paths_ok(
    r: RuntimePaths,
    app_config_dir: Seq<char>,
    p: PreferencesModel,
    default_global: Option<Seq<char>>,
    default_state: Seq<char>,
) -> bool {
    let local = match p.active_workspace_path {
        Some(w) => Some(join_path(w, LOCAL_CONFIG_FILE_NAME@)),
        None => None,
    };
    &&& r.preferences@ == p
    &&& spec_global_config_path(p, default_global) == Ok::<Option<Seq<char>>, RuntimePathError>(
        r.config_paths.global.deep_view(),
    )
    &&& r.config_paths.local@ == match local {
        Some(l) => l,
        None => join_path(join_path(app_config_dir, NO_WORKSPACE_DIR@), LOCAL_CONFIG_FILE_NAME@),
    }
    &&& r.config_paths.local_override@ == crate::paths::spec_local_override_path(r.config_paths.local@)
    &&& r.local_config_path.deep_view() == local
    &&& r.global_config_display_path.deep_view() == match p.global_config_path {
        Some(g) => Some(g),
        None => default_global,
    }
    &&& r.global_state_path@ == default_state
    &&& r.workspace_state_path.deep_view() == match p.active_workspace_path {
        Some(w) => Some(
            spec_workspace_state_path(app_config_dir, w, hex_digits(fnv1a(encode_utf8(w)) as nat, 16)),
        ),
        None => None,
    }
}

/// The files the app works with, given its configuration directory, the
/// preferences, and the default global configuration and state files
/// where they are known.
pub fn runtime_paths_from_preferences(
    app_config_dir: &str,
    preferences: AppPreferences,
    default_global: Option<&str>,
    default_state: Option<&str>,
) -> (r: Result<RuntimePaths, RuntimePathError>)
    ensures
        match r {
            Ok(paths) => default_state matches Some(s) && spec_runtime_paths_ok(
                paths,
                app_config_dir@,
                preferences@,
                str_opt(default_global),
                s@,
            ),
            Err(e) => match spec_global_config_path(preferences@, str_opt(default_global)) {
                Err(g) => e == g,
                Ok(_) => default_state is None && e == RuntimePathError::MissingStatePath,
            },
        },
{
    let global = match resolve_global_config_path(&preferences, default_global) {
        Ok(g) => g,
        Err(e) => return Err(e),
    };
    let global_config_display_path = match &preferences.global_config_path {
        Some(g) => Some(g.clone()),
        None => own_opt(default_global),
    };
    let local_config_path = match &preferences.active_workspace_path {
        Some(w) => Some(default_local_config_path(w.as_str())),
        None => None,
    };
    let config_local_path = match &local_config_path {
        Some(l) => l.clone(),
        None => no_workspace_local_config_path(app_config_dir),
    };
    let global_state_path = match default_state {
        Some(s) => String::from_str(s),
        None => return Err(RuntimePathError::MissingStatePath),
    };
    let workspace_state_path = match &preferences.active_workspace_path {
        Some(w) => Some(workspace_state_file_path(app_config_dir, w.as_str())),
        None => None,
    };
    Ok(RuntimePaths {
        preferences,
        config_paths: ConfigPaths::new(global, config_local_path),
        local_config_path,
        global_config_display_path,
        global_state_path,
        workspace_state_path,
    })
}

impl RuntimePaths {
    /// The configuration file of a scope: the global one (refused when it
    /// is not used) or the active workspace's (refused when none is
    /// chosen).
    pub fn config_path_for_scope(&self, kind: ConfigSourceKind) -> (r: Result<String, RuntimePathError>)
        ensures
            match kind {
                ConfigSourceKind::Global => match self.config_paths.global.deep_view() {
                    Some(g) => r matches Ok(p) && p@ == g,
                    None => r == Err::<String, RuntimePathError>(RuntimePathError::MissingGlobalConfigPath),
                },
                ConfigSourceKind::Local => match self.local_config_path.deep_view() {
                    Some(l) => r matches Ok(p) && p@ == l,
                    None => r == Err::<String, RuntimePathError>(RuntimePathError::MissingWorkspace),
                },
            },
    {
        match kind {
            ConfigSourceKind::Global => match &self.config_paths.global {
                Some(g) => Ok(g.clone()),
                None => Err(RuntimePathError::MissingGlobalConfigPath),
            },
            ConfigSourceKind::Local => match &self.local_config_path {
                Some(l) => Ok(l.clone()),
                None => Err(RuntimePathError::MissingWorkspace),
            },
        }
    }

    /// The state file of tunnels from a file of this kind: the shared one
    /// for global tunnels; the workspace's for local ones (refused when no
    /// workspace is chosen).
    pub fn state_path_for_source(&self, kind: ConfigSourceKind) -> (r: Result<&str, RuntimePathError>)
        ensures
            match kind {
                ConfigSourceKind::Global => r matches Ok(p) && p@ == self.global_state_path@,
                ConfigSourceKind::Local => match self.workspace_state_path.deep_view() {
                    Some(w) => r matches Ok(p) && p@ == w,
                    None => r == Err::<&str, RuntimePathError>(RuntimePathError::MissingWorkspace),
                },
            },
    {
        match kind {
            ConfigSourceKind::Global => Ok(self.global_state_path.as_str()),
            ConfigSourceKind::Local => match &self.workspace_state_path {
                Some(w) => Ok(w.as_str()),
                None => Err(RuntimePathError::MissingWorkspace),
            },
        }
    }
}

/// Whether switching workspaces changed the active workspace.
pub fn workspace_path_changed(previous: &AppPreferences, next: &AppPreferences) -> (r: bool)
    ensures
        r == (previous@.active_workspace_path != next@.active_workspace_path),
{
    match (&previous.active_workspace_path, &next.active_workspace_path) {
        (Some(a), Some(b)) => !str_eq(a.as_str(), b.as_str()),
        (None, None) => false,
        _ => true,
    }
}

// ---------------------------------------------------------------------
// Tracked tunnels of the active workspace
// ---------------------------------------------------------------------

/// The view of a tracked tunnel with its scope.
pub open spec fn scoped_view(scope: RuntimeScope, s: TunnelRuntimeStatus) -> (RuntimeScope, crate::state::StateModel, ProcessState) {
    (scope, s.state@, s.process_state)
}

/// The views of tracked tunnels with their scopes.
pub open spec fn scoped_views(ss: Seq<ScopedRuntimeStatus>) -> Seq<(RuntimeScope, crate::state::StateModel, ProcessState)> {
    ss.map_values(|s: ScopedRuntimeStatus| scoped_view(s.runtime_scope, s.status))
}

/// Whether a tunnel recorded in the shared state file is shown: a global
/// one always; a local one only when its source is the active workspace's
/// configuration file.
pub open spec fn spec_global_state_visible(s: TunnelRuntimeStatus, from_active_workspace: bool) -> bool {
    match s.state.source_kind {
        ConfigSourceKind::Global => true,
        ConfigSourceKind::Local => from_active_workspace,
    }
}

/// Whether a tunnel recorded in the shared state file is shown, given
/// whether its source is the active workspace's configuration file.
pub fn global_state_status_is_visible(status: &TunnelRuntimeStatus, from_active_workspace: bool) -> (r: bool)
    ensures
        r == spec_global_state_visible(*status, from_active_workspace),
{
    match status.state.source_kind {
        ConfigSourceKind::Global => true,
        ConfigSourceKind::Local => from_active_workspace,
    }
}

/// The tracked tunnels shown, in order: the visible ones of the shared
/// state file in the global scope, then the local ones of the workspace
/// state file in the workspace scope.
pub open spec fn spec_scoped_statuses(
    global: Seq<TunnelRuntimeStatus>,
    from_active_workspace: Seq<bool>,
    workspace: Seq<TunnelRuntimeStatus>,
) -> Seq<(RuntimeScope, crate::state::StateModel, ProcessState)> {
    kept_views(global, Seq::new(global.len(), |i: int| spec_global_state_visible(global[i], from_active_workspace[i])), RuntimeScope::Global)
        + kept_views(
        workspace,
        Seq::new(workspace.len(), |i: int| workspace[i].state.source_kind == ConfigSourceKind::Local),
        RuntimeScope::Workspace,
    )
}

/// The views, in `scope`, of the statuses that `keep` marks, in order.
pub open spec fn kept_views(ss: Seq<TunnelRuntimeStatus>, keep: Seq<bool>, scope: RuntimeScope) -> Seq<
    (RuntimeScope, crate::state::StateModel, ProcessState),
>
    decreases ss.len(),
{
    if ss.len() == 0 {
        seq![]
    } else {
        let rest = kept_views(ss.drop_last(), keep.drop_last(), scope);
        if keep.last() {
            rest.push(scoped_view(scope, ss.last()))
        } else {
            rest
        }
    }
}

/// Adds copies, in `scope`, of the statuses that `keep` marks.
fn push_kept(out: &mut Vec<ScopedRuntimeStatus>, statuses: &[TunnelRuntimeStatus], keep: Ghost<Seq<bool>>, scope: RuntimeScope, workspace_only: bool, from: &[bool])
    requires
        keep@.len() == statuses@.len(),
        !workspace_only ==> from@.len() == statuses@.len(),
        forall|i: int|
            0 <= i < statuses@.len() ==> #[trigger] keep@[i] == if workspace_only {
                statuses@[i].state.source_kind == ConfigSourceKind::Local
            } else {
                spec_global_state_visible(statuses@[i], from@[i])
            },
    ensures
        scoped_views(final(out)@) == scoped_views(old(out)@) + kept_views(statuses@, keep@, scope),
{
    let ghost head = scoped_views(out@);
    let mut i: usize = 0;
    while i < statuses.len()
        invariant
            i <= statuses@.len(),
            keep@.len() == statuses@.len(),
            !workspace_only ==> from@.len() == statuses@.len(),
            forall|k: int|
                0 <= k < statuses@.len() ==> #[trigger] keep@[k] == if workspace_only {
                    statuses@[k].state.source_kind == ConfigSourceKind::Local
                } else {
                    spec_global_state_visible(statuses@[k], from@[k])
                },
            scoped_views(out@) == head + kept_views(
                statuses@.subrange(0, i as int),
                keep@.subrange(0, i as int),
                scope,
            ),
        decreases statuses@.len() - i,
    {
        assert(statuses@.subrange(0, i + 1).drop_last() =~= statuses@.subrange(0, i as int));
        assert(keep@.subrange(0, i + 1).drop_last() =~= keep@.subrange(0, i as int));
        let s = &statuses[i];
        let kept = if workspace_only {
            s.state.source_kind == ConfigSourceKind::Local
        } else {
            global_state_status_is_visible(s, from[i])
        };
        assert(kept == keep@[i as int]);
        if kept {
            let ghost before = scoped_views(out@);
            out.push(ScopedRuntimeStatus {
                runtime_scope: scope,
                status: TunnelRuntimeStatus { state: s.state.clone(), process_state: s.process_state },
            });
            assert(scoped_views(out@) =~= before.push(scoped_view(scope, *s)));
        }
        i += 1;
    }
    assert(statuses@.subrange(0, i as int) =~= statuses@);
    assert(keep@.subrange(0, i as int) =~= keep@);
}

/// The tracked tunnels the app shows, from the statuses of the shared
/// state file (with whether the source of each is the active workspace's
/// configuration file) and those of the workspace state file, where there
/// is one.
pub fn scoped_runtime_statuses(
    global: &[TunnelRuntimeStatus],
    from_active_workspace: &[bool],
    workspace: Option<&[TunnelRuntimeStatus]>,
) -> (r: Vec<ScopedRuntimeStatus>)
    requires
        from_active_workspace@.len() == global@.len(),
    ensures
        scoped_views(r@) == spec_scoped_statuses(
            global@,
            from_active_workspace@,
            match workspace {
                Some(w) => w@,
                None => seq![],
            },
        ),
{
    let mut r: Vec<ScopedRuntimeStatus> = Vec::new();
    let ghost gk = Seq::new(global@.len(), |i: int| spec_global_state_visible(global@[i], from_active_workspace@[i]));
    push_kept(&mut r, global, Ghost(gk), RuntimeScope::Global, false, from_active_workspace);
    let ghost ws = match workspace {
        Some(w) => w@,
        None => Seq::<TunnelRuntimeStatus>::empty(),
    };
    let ghost wk = Seq::new(ws.len(), |i: int| ws[i].state.source_kind == ConfigSourceKind::Local);
    match workspace {
        Some(w) => {
            push_kept(&mut r, w, Ghost(wk), RuntimeScope::Workspace, true, from_active_workspace);
        },
        None => {
            assert(kept_views(ws, wk, RuntimeScope::Workspace) =~= seq![]);
        },
    }
    assert(scoped_views(r@) =~= spec_scoped_statuses(global@, from_active_workspace@, ws));
    r
}

// ---------------------------------------------------------------------
// Switching workspaces
// ---------------------------------------------------------------------

/// A tracked tunnel of the previous workspace, stopped before switching.
#[derive(Debug, PartialEq, Eq)]
pub struct WorkspaceSwitchStopTarget {
    /// The runtime ID under which it is recorded.
    pub id: String,
    pub runtime_scope: RuntimeScope,
    pub state_path: String,
}

impl WorkspaceSwitchStopTarget {
    /// The target as shown: its scope and runtime ID.
    pub fn display_id(&self) -> (r: String)
        ensures
            r@ == crate::workspace::scope_label(self.runtime_scope) + ":"@ + self.id@,
    {
        crate::workspace::runtime_status_key(self.runtime_scope, self.id.as_str())
    }
}

/// The mathematical value of a stop target.
pub open spec fn stop_target_view(t: WorkspaceSwitchStopTarget) -> (Seq<char>, RuntimeScope, Seq<char>) {
    (t.id@, t.runtime_scope, t.state_path@)
}

/// The tunnels of a state file to stop before switching: the local ones
/// whose source is the previous workspace's configuration file, in order.
pub open spec fn spec_switch_targets(
    ss: Seq<TunnelRuntimeStatus>,
    from_local_config: Seq<bool>,
    scope: RuntimeScope,
    state_path: Seq<char>,
) -> Seq<(Seq<char>, RuntimeScope, Seq<char>)>
    decreases ss.len(),
{
    if ss.len() == 0 {
        seq![]
    } else {
        let rest = spec_switch_targets(ss.drop_last(), from_local_config.drop_last(), scope, state_path);
        if ss.last().state.source_kind == ConfigSourceKind::Local && from_local_config.last() {
            rest.push((ss.last().state.runtime_id@, scope, state_path))
        } else {
            rest
        }
    }
}

/// The tunnels of a state file to stop before switching, given whether
/// the source of each is the previous workspace's configuration file.
pub fn workspace_switch_stop_targets_from_state(
    statuses: &[TunnelRuntimeStatus],
    from_local_config: &[bool],
    runtime_scope: RuntimeScope,
    state_path: &str,
) -> (r: Vec<WorkspaceSwitchStopTarget>)
    requires
        from_local_config@.len() == statuses@.len(),
    ensures
        r@.map_values(|t: WorkspaceSwitchStopTarget| stop_target_view(t)) == spec_switch_targets(
            statuses@,
            from_local_config@,
            runtime_scope,
            state_path@,
        ),
{
    let mut r: Vec<WorkspaceSwitchStopTarget> = Vec::new();
    let mut i: usize = 0;
    while i < statuses.len()
        invariant
            i <= statuses@.len(),
            from_local_config@.len() == statuses@.len(),
            r@.map_values(|t: WorkspaceSwitchStopTarget| stop_target_view(t)) == spec_switch_targets(
                statuses@.subrange(0, i as int),
                from_local_config@.subrange(0, i as int),
                runtime_scope,
                state_path@,
            ),
        decreases statuses@.len() - i,
    {
        assert(statuses@.subrange(0, i + 1).drop_last() =~= statuses@.subrange(0, i as int));
        assert(from_local_config@.subrange(0, i + 1).drop_last() =~= from_local_config@.subrange(0, i as int));
        let s = &statuses[i];
        if s.state.source_kind == ConfigSourceKind::Local && from_local_config[i] {
            let ghost before = r@.map_values(|t: WorkspaceSwitchStopTarget| stop_target_view(t));
            let t = WorkspaceSwitchStopTarget {
                id: s.state.runtime_id.clone(),
                runtime_scope,
                state_path: String::from_str(state_path),
            };
            r.push(t);
            assert(r@.map_values(|t: WorkspaceSwitchStopTarget| stop_target_view(t)) =~= before.push(
                (s.state.runtime_id@, runtime_scope, state_path@),
            ));
        }
        i += 1;
    }
    assert(statuses@.subrange(0, i as int) =~= statuses@);
    assert(from_local_config@.subrange(0, i as int) =~= from_local_config@);
    r
}

/// The tunnels to stop before leaving the workspace of `paths`: none
/// without a workspace; else those of the shared state file, then those
/// of the workspace state file, where there is one.
pub open spec fn spec_collect_switch_targets(
    paths: RuntimePaths,
    global: Seq<TunnelRuntimeStatus>,
    global_from_local: Seq<bool>,
    workspace: Seq<TunnelRuntimeStatus>,
    workspace_from_local: Seq<bool>,
) -> Seq<(Seq<char>, RuntimeScope, Seq<char>)> {
    if paths.local_config_path is None {
        seq![]
    } else {
        spec_switch_targets(global, global_from_local, RuntimeScope::Global, paths.global_state_path@) + match paths.workspace_state_path {
            Some(w) => spec_switch_targets(workspace, workspace_from_local, RuntimeScope::Workspace, w@),
            None => seq![],
        }
    }
}

/// The tunnels to stop before leaving the workspace of `paths`, from the
/// statuses of the shared and the workspace state file, each with whether
/// its source is the workspace's configuration file.
pub fn collect_workspace_switch_stop_targets(
    paths: &RuntimePaths,
    global: &[TunnelRuntimeStatus],
    global_from_local: &[bool],
    workspace: &[TunnelRuntimeStatus],
    workspace_from_local: &[bool],
) -> (r: Vec<WorkspaceSwitchStopTarget>)
    requires
        global_from_local@.len() == global@.len(),
        workspace_from_local@.len() == workspace@.len(),
    ensures
        r@.map_values(|t: WorkspaceSwitchStopTarget| stop_target_view(t)) == spec_collect_switch_targets(
            *paths,
            global@,
            global_from_local@,
            workspace@,
            workspace_from_local@,
        ),
{
    if paths.local_config_path.is_none() {
        let r: Vec<WorkspaceSwitchStopTarget> = Vec::new();
        assert(r@.map_values(|t: WorkspaceSwitchStopTarget| stop_target_view(t)) =~= seq![]);
        return r;
    }
    let mut r = workspace_switch_stop_targets_from_state(
        global,
        global_from_local,
        RuntimeScope::Global,
        paths.global_state_path.as_str(),
    );
    let ghost head = r@.map_values(|t: WorkspaceSwitchStopTarget| stop_target_view(t));
    match &paths.workspace_state_path {
        Some(w) => {
            let more = workspace_switch_stop_targets_from_state(
                workspace,
                workspace_from_local,
                RuntimeScope::Workspace,
                w.as_str(),
            );
            let ghost tail = more@.map_values(|t: WorkspaceSwitchStopTarget| stop_target_view(t));
            let mut more = more;
            r.append(&mut more);
            assert(r@.map_values(|t: WorkspaceSwitchStopTarget| stop_target_view(t)) =~= head + tail);
        },
        None => {
            assert(head + seq![] =~= head);
        },
    }
    r
}

/// A copy of the preferences.
pub fn copy_preferences(p: &AppPreferences) -> (r: AppPreferences)
    ensures
        r@ == p@,
{
    AppPreferences {
        version: p.version,
        active_workspace_path: clone_opt_string(&p.active_workspace_path),
        workspace_history: crate::strings::clone_strings(&p.workspace_history),
        use_global: p.use_global,
        global_config_path: clone_opt_string(&p.global_config_path),
        hide_dock_icon_when_window_hidden: p.hide_dock_icon_when_window_hidden,
        auto_stop_tunnels_on_quit: p.auto_stop_tunnels_on_quit,
    }
}

/// Whether two optional texts are equal.
fn same_opt_text(a: &Option<String>, b: &Option<String>) -> (r: bool)
    ensures
        r == (a.deep_view() == b.deep_view()),
{
    match (a, b) {
        (Some(x), Some(y)) => str_eq(x.as_str(), y.as_str()),
        (None, None) => true,
        _ => false,
    }
}

/// Whether two lists of texts are equal.
fn same_texts(a: &Vec<String>, b: &Vec<String>) -> (r: bool)
    ensures
        r == (a.deep_view() == b.deep_view()),
{
    if a.len() != b.len() {
        assert(a.deep_view().len() != b.deep_view().len());
        return false;
    }
    let mut i: usize = 0;
    while i < a.len()
        invariant
            a@.len() == b@.len(),
            i <= a@.len(),
            forall|j: int| 0 <= j < i ==> a@[j]@ == b@[j]@,
        decreases a@.len() - i,
    {
        if !str_eq(a[i].as_str(), b[i].as_str()) {
            assert(a.deep_view()[i as int] != b.deep_view()[i as int]);
            return false;
        }
        i += 1;
    }
    assert(a.deep_view() =~= b.deep_view());
    true
}

/// Whether the preferences changed, so that they are to be written back.
pub fn preferences_changed(original: &AppPreferences, next: &AppPreferences) -> (r: bool)
    ensures
        r == (original@ != next@),
{
    !(original.version == next.version && same_opt_text(&original.active_workspace_path, &next.active_workspace_path)
        && same_texts(&original.workspace_history, &next.workspace_history) && original.use_global == next.use_global
        && same_opt_text(&original.global_config_path, &next.global_config_path)
        && original.hide_dock_icon_when_window_hidden == next.hide_dock_icon_when_window_hidden
        && original.auto_stop_tunnels_on_quit == next.auto_stop_tunnels_on_quit)
}

/// What switching workspaces does to the preferences: the loaded ones,
/// normalized, are the previous ones; the selection applied to them gives
/// the next ones; the previous workspace's tunnels are stopped only when
/// the active workspace changes.
pub struct WorkspaceSwitchPlan {
    pub previous: AppPreferences,
    pub next: AppPreferences,
    pub stop_previous: bool,
}

/// Plans a workspace switch from the loaded preferences, which of their
/// workspace paths still exist (in canonical form), and the selection.
pub fn workspace_switch_plan(
    loaded: AppPreferences,
    available_active: Option<String>,
    available_history: Vec<String>,
    selection: WorkspaceSelection,
) -> (r: WorkspaceSwitchPlan)
    ensures
        r.previous@ == spec_normalize_loaded(loaded@, available_active.deep_view(), available_history.deep_view()),
        r.next@ == spec_apply_selection(
            r.previous@,
            selection.workspace_path.deep_view(),
            selection.global_config_path.deep_view(),
            selection.use_global,
            selection.hide_dock_icon_when_window_hidden,
            selection.auto_stop_tunnels_on_quit,
        ),
        r.stop_previous == (r.previous@.active_workspace_path != r.next@.active_workspace_path),
{
    let mut previous = loaded;
    normalize_loaded_preferences(&mut previous, available_active, available_history);
    let mut next = copy_preferences(&previous);
    apply_workspace_selection(&mut next, selection);
    let stop_previous = workspace_path_changed(&previous, &next);
    WorkspaceSwitchPlan { previous, next, stop_previous }
}

/// The state file of a tunnel to stop from the app: that of the scope it
/// was listed in; without one, that of the kind of the configured tunnel
/// of that name (the last such), refused when there is none.
pub fn stop_target_state_path(
    paths: &RuntimePaths,
    config: &crate::config::EffectiveConfig,
    target: &crate::operations::OperationTargetInput,
) -> (r: Result<String, StopTargetError>)
    ensures
        match target.runtime_scope {
            Some(RuntimeScope::Global) => r matches Ok(p) && p@ == paths.global_state_path@,
            Some(RuntimeScope::Workspace) => match paths.workspace_state_path.deep_view() {
                Some(w) => r matches Ok(p) && p@ == w,
                None => r == Err::<String, StopTargetError>(StopTargetError::MissingWorkspace),
            },
            None => match last_named(config@.tunnels, target.id@, config@.tunnels.len() as int) {
                None => r matches Err(StopTargetError::UnknownTunnel { id }) && id@ == target.id@,
                Some(i) => match config@.tunnels[i].source.kind {
                    ConfigSourceKind::Global => r matches Ok(p) && p@ == paths.global_state_path@,
                    ConfigSourceKind::Local => match paths.workspace_state_path.deep_view() {
                        Some(w) => r matches Ok(p) && p@ == w,
                        None => r == Err::<String, StopTargetError>(StopTargetError::MissingWorkspace),
                    },
                },
            },
        },
{
    let kind = match target.runtime_scope {
        Some(RuntimeScope::Global) => ConfigSourceKind::Global,
        Some(RuntimeScope::Workspace) => ConfigSourceKind::Local,
        None => {
            let mut found: Option<usize> = None;
            let mut i: usize = 0;
            while i < config.tunnels.len()
                invariant
                    i <= config@.tunnels.len(),
                    match found {
                        Some(j) => j < i && last_named(config@.tunnels, target.id@, i as int) == Some(j as int),
                        None => last_named(config@.tunnels, target.id@, i as int) is None,
                    },
                decreases config@.tunnels.len() - i,
            {
                assert(config.tunnels@[i as int]@ == config@.tunnels[i as int]);
                if str_eq(config.tunnels[i].tunnel.name.as_str(), target.id.as_str()) {
                    found = Some(i);
                }
                i += 1;
            }
            match found {
                Some(j) => {
                    assert(config.tunnels@[j as int]@ == config@.tunnels[j as int]);
                    config.tunnels[j].source.kind
                },
                None => return Err(StopTargetError::UnknownTunnel { id: target.id.clone() }),
            }
        },
    };
    match paths.state_path_for_source(kind) {
        Ok(p) => Ok(String::from_str(p)),
        Err(_) => Err(StopTargetError::MissingWorkspace),
    }
}

/// The position of the last configured tunnel called `name` among the
/// first `n`.
pub open spec fn last_named(ts: Seq<crate::config::ResolvedModel>, name: Seq<char>, n: int) -> Option<int>
    decreases n,
{
    if n <= 0 {
        None
    } else if ts[n - 1].tunnel.name == name {
        Some(n - 1)
    } else {
        last_named(ts, name, n - 1)
    }
}

/// Why the state file of a tunnel to stop is not known.
#[derive(Debug, PartialEq, Eq)]
pub enum StopTargetError {
    /// No tunnel of that name is configured.
    UnknownTunnel { id: String },
    /// The tunnel belongs to the workspace but none is chosen.
    MissingWorkspace,
}

/// The message of a [`RuntimePathError`].
pub open spec fn spec_runtime_path_error_text(e: RuntimePathError) -> Seq<char> {
    match e {
        RuntimePathError::MissingGlobalConfigPath => "HOME が未設定のため、グローバル設定ファイルの既定パスを解決できません"@,
        RuntimePathError::MissingStatePath => "HOME が未設定のため、状態ファイルの既定パスを解決できません"@,
        RuntimePathError::MissingWorkspace => "local 設定を操作するにはワークスペースを選択してください"@,
    }
}

impl RuntimePathError {
    /// The message of the error.
    pub fn to_display_string(&self) -> (r: String)
        ensures
            r@ == spec_runtime_path_error_text(*self),
    {
        match self {
            RuntimePathError::MissingGlobalConfigPath => String::from_str(
                "HOME が未設定のため、グローバル設定ファイルの既定パスを解決できません",
            ),
            RuntimePathError::MissingStatePath => String::from_str(
                "HOME が未設定のため、状態ファイルの既定パスを解決できません",
            ),
            RuntimePathError::MissingWorkspace => String::from_str(
                "local 設定を操作するにはワークスペースを選択してください",
            ),
        }
    }
}

impl StopTargetError {
    /// The message of the error.
    pub fn to_display_string(&self) -> (r: String)
        ensures
            r@ == match *self {
                StopTargetError::UnknownTunnel { id } => "入力が不正です: 未定義のトンネル ID です: "@ + id@,
                StopTargetError::MissingWorkspace => spec_runtime_path_error_text(RuntimePathError::MissingWorkspace),
            },
    {
        match self {
            StopTargetError::UnknownTunnel { id } => crate::text::concat_str(
                "入力が不正です: 未定義のトンネル ID です: ",
                id.as_str(),
            ),
            StopTargetError::MissingWorkspace => RuntimePathError::MissingWorkspace.to_display_string(),
        }
    }
}

/// The message when a tunnel of the previous workspace could not be
/// stopped: the switch is called off.
pub fn workspace_switch_stop_failure_message(target: &WorkspaceSwitchStopTarget, message: &str) -> (r: String)
    ensures
        r@ == "旧ワークスペースのポートフォワーディングを停止できませんでした: "@ + crate::workspace::scope_label(
            target.runtime_scope,
        ) + ":"@ + target.id@ + ": "@ + message@,
{
    let a = crate::text::concat_str("旧ワークスペースのポートフォワーディングを停止できませんでした: ", target.display_id().as_str());
    let b = crate::text::concat_str(a.as_str(), ": ");
    crate::text::concat_str(b.as_str(), message)
}

/// Switching workspaces stops only tunnels from local configuration
/// files: every stop target taken from a state file is a tracked tunnel
/// of that file whose source is local (so global tunnels keep running).
pub proof fn lemma_switch_targets_are_local(
    ss: Seq<TunnelRuntimeStatus>,
    from_local_config: Seq<bool>,
    scope: RuntimeScope,
    state_path: Seq<char>,
    k: int,
)
    requires
        0 <= k < spec_switch_targets(ss, from_local_config, scope, state_path).len(),
    ensures
        exists|i: int|
            0 <= i < ss.len() && (#[trigger] ss[i]).state.source_kind == ConfigSourceKind::Local
                && ss[i].state.runtime_id@ == spec_switch_targets(ss, from_local_config, scope, state_path)[k].0,
    decreases ss.len(),
{
    let rest = spec_switch_targets(ss.drop_last(), from_local_config.drop_last(), scope, state_path);
    if ss.last().state.source_kind == ConfigSourceKind::Local && from_local_config.last() {
        if k < rest.len() {
            lemma_switch_targets_are_local(ss.drop_last(), from_local_config.drop_last(), scope, state_path, k);
            let i = choose|i: int|
                0 <= i < ss.drop_last().len() && (#[trigger] ss.drop_last()[i]).state.source_kind
                    == ConfigSourceKind::Local && ss.drop_last()[i].state.runtime_id@ == rest[k].0;
            assert(ss[i] == ss.drop_last()[i]);
        } else {
            assert(ss[ss.len() - 1] == ss.last());
        }
    } else {
        lemma_switch_targets_are_local(ss.drop_last(), from_local_config.drop_last(), scope, state_path, k);
        let i = choose|i: int|
            0 <= i < ss.drop_last().len() && (#[trigger] ss.drop_last()[i]).state.source_kind == ConfigSourceKind::Local
                && ss.drop_last()[i].state.runtime_id@ == rest[k].0;
        assert(ss[i] == ss.drop_last()[i]);
    }
}

} // verus!
