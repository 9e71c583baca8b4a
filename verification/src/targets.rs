//! Which configuration file, and which tunnel in it, an edit by name is
//! about.

use vstd::prelude::*;

use crate::config::{ConfigPaths, ConfigSourceKind, LoadedConfigFile, TunnelConfig, TunnelModel};
use crate::edit::{find_name_index, index_of_name, spec_edit_error_text, ConfigEditError, EditErrorModel};
use crate::text::concat_str;

verus! {

/// The configuration file of a scope: the global one (absent when it is
/// not used) or the local one.
pub open spec fn spec_path_for_scope(global: Option<Seq<char>>, local: Seq<char>, scope: ConfigSourceKind) -> Option<
    Seq<char>,
> {
    match scope {
        ConfigSourceKind::Global => global,
        ConfigSourceKind::Local => Some(local),
    }
}

/// The configuration file of a scope; absent for the global scope when no
/// global file is used.
pub fn config_path_for_scope(paths: &ConfigPaths, scope: ConfigSourceKind) -> (r: Option<String>)
    ensures
        r.deep_view() == spec_path_for_scope(paths.global.deep_view(), paths.local@, scope),
{
    match scope {
        ConfigSourceKind::Global => match &paths.global {
            Some(g) => Some(g.clone()),
            None => None,
        },
        ConfigSourceKind::Local => Some(paths.local.clone()),
    }
}

/// A tunnel to edit and the file it is in.
#[derive(Debug, PartialEq, Eq)]
pub struct ConfigEditTarget {
    pub scope: ConfigSourceKind,
    pub path: String,
    pub tunnel: TunnelConfig,
}

/// The mathematical value of an edit target.
pub open spec fn target_view(t: ConfigEditTarget) -> (ConfigSourceKind, Seq<char>, TunnelModel) {
    (t.scope, t.path@, t.tunnel@)
}

/// The edit target for tunnel `id` in a file of `scope` at `path` (absent
/// when the file has no tunnel of that name: the first one otherwise).
pub open spec fn spec_target_in(
    file: Option<Seq<TunnelModel>>,
    scope: ConfigSourceKind,
    path: Seq<char>,
    id: Seq<char>,
) -> Option<(ConfigSourceKind, Seq<char>, TunnelModel)> {
    match file {
        None => None,
        Some(ts) => match index_of_name(ts, id) {
            Some(i) => Some((scope, path, ts[i])),
            None => None,
        },
    }
}

/// The tunnels of a loaded file, when it was loaded.
pub open spec fn file_tunnels(file: Option<&LoadedConfigFile>) -> Option<Seq<TunnelModel>> {
    match file {
        Some(f) => Some(f@.tunnels),
        None => None,
    }
}

/// The edit target for tunnel `id` in a loaded file.
fn target_in(file: Option<&LoadedConfigFile>, scope: ConfigSourceKind, path: &str, id: &str) -> (r: Option<
    ConfigEditTarget,
>)
    ensures
        match r {
            Some(t) => spec_target_in(file_tunnels(file), scope, path@, id@) == Some(target_view(t)),
            None => spec_target_in(file_tunnels(file), scope, path@, id@) is None,
        },
{
    match file {
        None => None,
        Some(f) => match find_name_index(&f.tunnels, id) {
            Some(i) => {
                assert(f@.tunnels[i as int] == f.tunnels@[i as int]@);
                Some(ConfigEditTarget { scope, path: String::from_str(path), tunnel: f.tunnels[i].clone() })
            },
            None => None,
        },
    }
}

/// The candidates for editing tunnel `id`, the global file's first, then
/// the local file's; `global` and `local` are the files as loaded (absent
/// when missing, or, for the global one, when it is not used).
pub open spec fn spec_targets_for_id(
    global_path: Option<Seq<char>>,
    global: Option<Seq<TunnelModel>>,
    local_path: Seq<char>,
    local: Option<Seq<TunnelModel>>,
    id: Seq<char>,
) -> Seq<(ConfigSourceKind, Seq<char>, TunnelModel)> {
    let g = match global_path {
        Some(p) => match spec_target_in(global, ConfigSourceKind::Global, p, id) {
            Some(t) => seq![t],
            None => seq![],
        },
        None => seq![],
    };
    let l = match spec_target_in(local, ConfigSourceKind::Local, local_path, id) {
        Some(t) => seq![t],
        None => seq![],
    };
    g + l
}

/// The candidates for editing tunnel `id`: in the global file (when it is
/// used), then in the local file.
pub fn config_edit_targets_for_id(
    paths: &ConfigPaths,
    global: Option<&LoadedConfigFile>,
    local: Option<&LoadedConfigFile>,
    id: &str,
) -> (r: Vec<ConfigEditTarget>)
    ensures
        r@.map_values(|t: ConfigEditTarget| target_view(t)) == spec_targets_for_id(
            paths.global.deep_view(),
            file_tunnels(global),
            paths.local@,
            file_tunnels(local),
            id@,
        ),
{
    let mut targets: Vec<ConfigEditTarget> = Vec::new();
    match &paths.global {
        Some(g) => match target_in(global, ConfigSourceKind::Global, g.as_str(), id) {
            Some(t) => {
                targets.push(t);
            },
            None => {},
        },
        None => {},
    }
    let ghost before = targets@.map_values(|t: ConfigEditTarget| target_view(t));
    match target_in(local, ConfigSourceKind::Local, paths.local.as_str(), id) {
        Some(t) => {
            targets.push(t);
            assert(targets@.map_values(|t: ConfigEditTarget| target_view(t)) =~= before.push(
                target_view(targets@[targets@.len() - 1]),
            ));
        },
        None => {},
    }
    assert(targets@.map_values(|t: ConfigEditTarget| target_view(t)) =~= spec_targets_for_id(
        paths.global.deep_view(),
        file_tunnels(global),
        paths.local@,
        file_tunnels(local),
        id@,
    ));
    targets
}

/// Why no edit target was found for a scope.
#[derive(Debug, PartialEq, Eq)]
pub enum EditTargetError {
    /// The global scope was asked for but no global file is used.
    MissingGlobalConfigPath,
    /// The file is missing, or has no tunnel of that name.
    Edit(ConfigEditError),
    /// Both files have a tunnel of that name and nobody can be asked.
    Ambiguous { id: String },
}

/// The mathematical value of an [`EditTargetError`]: what its message
/// says.
pub open spec fn spec_edit_target_error_text(e: EditTargetError, home: Seq<char>) -> Seq<char> {
    match e {
        EditTargetError::MissingGlobalConfigPath =>
            "Failed to resolve the default global configuration path because HOME is not set"@,
        EditTargetError::Edit(inner) => spec_edit_error_text(inner@, home),
        EditTargetError::Ambiguous { id } => "Tunnel name exists in multiple configuration files: "@ + id@
            + ". Specify --scope in non-interactive mode"@,
    }
}

impl EditTargetError {
    /// The message of the error, paths shown with `home` shortened to `~`.
    pub fn to_display_string(&self, home: &str) -> (r: String)
        ensures
            r@ == spec_edit_target_error_text(*self, home@),
    {
        match self {
            EditTargetError::MissingGlobalConfigPath => String::from_str(
                "Failed to resolve the default global configuration path because HOME is not set",
            ),
            EditTargetError::Edit(inner) => inner.to_display_string(home),
            EditTargetError::Ambiguous { id } => {
                let a = concat_str("Tunnel name exists in multiple configuration files: ", id.as_str());
                concat_str(a.as_str(), ". Specify --scope in non-interactive mode")
            },
        }
    }
}

/// The edit target for tunnel `id` in the file of `scope`: refused when the
/// global scope has no file, when the file is missing, and when it has no
/// tunnel of that name.
pub fn config_edit_target_for_scope(
    paths: &ConfigPaths,
    file: Option<&LoadedConfigFile>,
    id: &str,
    scope: ConfigSourceKind,
) -> (r: Result<ConfigEditTarget, EditTargetError>)
    ensures
        match spec_path_for_scope(paths.global.deep_view(), paths.local@, scope) {
            None => r == Err::<ConfigEditTarget, EditTargetError>(EditTargetError::MissingGlobalConfigPath),
            Some(p) => match file_tunnels(file) {
                None => r matches Err(EditTargetError::Edit(e)) && e@ == (EditErrorModel::Missing { path: p }),
                Some(ts) => match index_of_name(ts, id@) {
                    None => r matches Err(EditTargetError::Edit(e)) && e@ == (EditErrorModel::NotFound {
                        path: p,
                        name: id@,
                    }),
                    Some(i) => r matches Ok(t) && target_view(t) == (scope, p, ts[i]),
                },
            },
        },
{
    let path = match config_path_for_scope(paths, scope) {
        Some(p) => p,
        None => {
            return Err(EditTargetError::MissingGlobalConfigPath);
        },
    };
    if file.is_none() {
        return Err(EditTargetError::Edit(ConfigEditError::Missing { path }));
    }
    match target_in(file, scope, path.as_str(), id) {
        Some(t) => Ok(t),
        None => Err(EditTargetError::Edit(ConfigEditError::NotFound { path, name: String::from_str(id) })),
    }
}

/// How the tunnel to edit is chosen among the candidates.
#[derive(Debug, PartialEq, Eq)]
pub enum EditTargetChoice {
    /// This one.
    Chosen(ConfigEditTarget),
    /// Several candidates: the user picks one of these.
    Prompt(Vec<ConfigEditTarget>),
}

/// Chooses among the candidates for editing tunnel `id` (see
/// [`config_edit_targets_for_id`]): none is refused as not found in the
/// local file, one is chosen, several are offered to the user when one
/// can be asked (`interactive`) and refused as ambiguous otherwise.
pub fn choose_config_edit_target(
    paths: &ConfigPaths,
    targets: Vec<ConfigEditTarget>,
    id: &str,
    interactive: bool,
) -> (r: Result<EditTargetChoice, EditTargetError>)
    ensures
        targets@.len() == 0 ==> (r matches Err(EditTargetError::Edit(e)) && e@ == (EditErrorModel::NotFound {
            path: paths.local@,
            name: id@,
        })),
        targets@.len() == 1 ==> r == Ok::<EditTargetChoice, EditTargetError>(EditTargetChoice::Chosen(targets@[0])),
        targets@.len() > 1 && interactive ==> r == Ok::<EditTargetChoice, EditTargetError>(
            EditTargetChoice::Prompt(targets),
        ),
        targets@.len() > 1 && !interactive ==> (r matches Err(EditTargetError::Ambiguous { id: i }) && i@ == id@),
{
    let n = targets.len();
    if n == 0 {
        return Err(
            EditTargetError::Edit(ConfigEditError::NotFound { path: paths.local.clone(), name: String::from_str(id) }),
        );
    }
    if n == 1 {
        let mut targets = targets;
        let ghost first = targets@[0];
        let t = targets.remove(0);
        assert(t == first);
        return Ok(EditTargetChoice::Chosen(t));
    }
    if interactive {
        Ok(EditTargetChoice::Prompt(targets))
    } else {
        Err(EditTargetError::Ambiguous { id: String::from_str(id) })
    }
}

} // verus!
