//! Changes to the local override file, alone and together with the
//! configuration file whose tunnels it adjusts.

use vstd::prelude::*;

use crate::config::{
    ConfigSourceKind, LoadedConfigFile, LoadedConfigOverrideFile, LoadedFileModel, OverrideFileModel,
    OverrideModel, TunnelConfig, TunnelConfigOverride, TunnelModel, spec_has_overrides,
};
use crate::edit::{
    ConfigEditError, EditErrorModel, normalize_tunnel_override, remove_tunnel_from_config_file,
    spec_normalize_override, spec_remove_tunnel, spec_update_tunnel, update_tunnel_in_config_file,
    file_result,
};
use crate::text::str_eq;

verus! {

/// The index of the first override entry called `name`.
pub open spec fn override_index_of(os: Seq<OverrideModel>, name: Seq<char>) -> Option<int>
    decreases os.len(),
{
    if os.len() == 0 {
        None
    } else {
        match override_index_of(os.drop_last(), name) {
            Some(i) => Some(i),
            None => if os.last().name == name {
                Some(os.len() - 1)
            } else {
                None
            },
        }
    }
}

/// Whether an override entry other than `skip` is called `name`.
pub open spec fn override_name_taken(os: Seq<OverrideModel>, name: Seq<char>, skip: int) -> bool {
    exists|i: int| 0 <= i < os.len() && i != skip && (#[trigger] os[i]).name == name
}

/// The position of the one entry called `name`: none when there is no such
/// entry, refused when there are several.
pub open spec fn spec_unique_position(f: OverrideFileModel, name: Seq<char>) -> Result<Option<int>, EditErrorModel> {
    match override_index_of(f.tunnels, name) {
        None => Ok(None),
        Some(i) => if override_name_taken(f.tunnels, name, i) {
            Err(EditErrorModel::DuplicateName { path: f.source.path, name })
        } else {
            Ok(Some(i))
        },
    }
}

/// An override file after a change: absent once it holds no entry.
pub open spec fn kept_unless_empty(f: OverrideFileModel) -> Option<OverrideFileModel> {
    if f.tunnels.len() == 0 {
        None
    } else {
        Some(f)
    }
}

/// Setting the override of one tunnel: an entry with no setting removes
/// the tunnel's entry; otherwise it replaces it or is appended.
pub open spec fn spec_upsert_override(f: OverrideFileModel, o: OverrideModel) -> Result<Option<OverrideFileModel>, EditErrorModel> {
    let n = spec_normalize_override(o);
    match spec_unique_position(f, n.name) {
        Err(e) => Err(e),
        Ok(p) => {
            let entries = if spec_has_overrides(n) {
                match p {
                    Some(i) => f.tunnels.update(i, n),
                    None => f.tunnels.push(n),
                }
            } else {
                match p {
                    Some(i) => f.tunnels.remove(i),
                    None => f.tunnels,
                }
            };
            Ok(kept_unless_empty(OverrideFileModel { tunnels: entries, ..f }))
        },
    }
}

/// Removing the override of one tunnel, refused when it has none.
pub open spec fn spec_remove_override(f: OverrideFileModel, name: Seq<char>) -> Result<Option<OverrideFileModel>, EditErrorModel> {
    match spec_unique_position(f, name) {
        Err(e) => Err(e),
        Ok(None) => Err(EditErrorModel::NotFound { path: f.source.path, name }),
        Ok(Some(i)) => Ok(kept_unless_empty(OverrideFileModel { tunnels: f.tunnels.remove(i), ..f })),
    }
}

/// The mathematical value of an edit of an override file.
pub open spec fn override_result(r: Result<Option<LoadedConfigOverrideFile>, ConfigEditError>) -> Result<Option<OverrideFileModel>, EditErrorModel> {
    match r {
        Ok(Some(f)) => Ok(Some(f@)),
        Ok(None) => Ok(None),
        Err(e) => Err(e@),
    }
}

/// The position of the first override entry called `name`.
fn find_override_index(os: &Vec<TunnelConfigOverride>, name: &str) -> (r: Option<usize>)
    ensures
        match r {
            Some(i) => override_index_of(os.deep_view(), name@) == Some(i as int) && i < os@.len(),
            None => override_index_of(os.deep_view(), name@).is_none(),
        },
{
    let ghost ov = os.deep_view();
    let mut i: usize = 0;
    let mut found: Option<usize> = None;
    assert(os@.len() == 0 ==> ov.subrange(0, 0) =~= ov);
    while i < os.len()
        invariant_except_break
            found.is_none(),
        invariant
            i <= os@.len(),
            ov == os.deep_view(),
            override_index_of(ov.subrange(0, i as int), name@).is_none(),
            i == os@.len() ==> override_index_of(ov, name@).is_none(),
        ensures
            match found {
                Some(k) => override_index_of(ov, name@) == Some(k as int) && k < os@.len(),
                None => override_index_of(ov, name@).is_none(),
            },
        decreases os@.len() - i,
    {
        assert(ov.subrange(0, i + 1).drop_last() =~= ov.subrange(0, i as int));
        if str_eq(os[i].name.as_str(), name) {
            proof {
                lemma_override_index_prefix(ov, name@, i + 1);
            }
            found = Some(i);
            break;
        }
        i += 1;
        proof {
            if i == os@.len() {
                assert(ov.subrange(0, i as int) =~= ov);
            }
        }
    }
    found
}

proof fn lemma_override_index_prefix(os: Seq<OverrideModel>, name: Seq<char>, k: int)
    requires
        0 <= k <= os.len(),
        override_index_of(os.subrange(0, k), name) is Some,
    ensures
        override_index_of(os, name) == override_index_of(os.subrange(0, k), name),
    decreases os.len(),
{
    if k == os.len() {
        assert(os.subrange(0, k) =~= os);
    } else {
        assert(os.drop_last().subrange(0, k) =~= os.subrange(0, k));
        lemma_override_index_prefix(os.drop_last(), name, k);
    }
}

proof fn lemma_override_index_bounds(os: Seq<OverrideModel>, name: Seq<char>)
    ensures
        override_index_of(os, name) matches Some(i) ==> 0 <= i < os.len() && os[i].name == name,
        override_index_of(os, name) is None ==> !override_name_taken(os, name, -1),
    decreases os.len(),
{
    if os.len() > 0 {
        lemma_override_index_bounds(os.drop_last(), name);
        if override_index_of(os, name) is None {
            assert forall|i: int| 0 <= i < os.len() && i != -1 implies (#[trigger] os[i]).name != name by {
                if i < os.len() - 1 {
                    assert(os.drop_last()[i] == os[i]);
                }
            }
        }
    }
}

/// Whether an override entry other than `skip` is called `name`.
fn override_taken(os: &Vec<TunnelConfigOverride>, name: &str, skip: usize) -> (r: bool)
    ensures
        r == override_name_taken(os.deep_view(), name@, skip as int),
{
    let ghost ov = os.deep_view();
    let mut i: usize = 0;
    let mut taken = false;
    while i < os.len()
        invariant
            i <= os@.len(),
            ov == os.deep_view(),
            taken == exists|j: int| 0 <= j < i && j != skip && (#[trigger] ov[j]).name == name@,
        decreases os@.len() - i,
    {
        if i != skip && str_eq(os[i].name.as_str(), name) {
            assert(ov[i as int].name == name@);
            taken = true;
        }
        i += 1;
    }
    taken
}

/// The position of the one override entry called `name`: `None` when
/// there is none, [`ConfigEditError::DuplicateName`] when there are several.
pub fn unique_tunnel_override_position(file: &LoadedConfigOverrideFile, name: &str) -> (r: Result<Option<usize>, ConfigEditError>)
    ensures
        match r {
            Ok(Some(i)) => spec_unique_position(file@, name@) == Ok::<Option<int>, EditErrorModel>(Some(i as int))
                && i < file.tunnels@.len(),
            Ok(None) => spec_unique_position(file@, name@) == Ok::<Option<int>, EditErrorModel>(None),
            Err(e) => spec_unique_position(file@, name@) == Err::<Option<int>, EditErrorModel>(e@),
        },
{
    proof {
        lemma_override_index_bounds(file@.tunnels, name@);
    }
    match find_override_index(&file.tunnels, name) {
        None => Ok(None),
        Some(i) => {
            if override_taken(&file.tunnels, name, i) {
                Err(ConfigEditError::DuplicateName { path: file.source.path.clone(), name: String::from_str(name) })
            } else {
                Ok(Some(i))
            }
        },
    }
}

/// What becomes of an override file that is opened for editing.
pub open spec fn kept_or_removed_file(f: LoadedConfigOverrideFile) -> Option<LoadedConfigOverrideFile> {
    if f.tunnels@.len() == 0 {
        None
    } else {
        Some(f)
    }
}

/// Sets the override of one tunnel (tags in normal form): an entry with
/// no setting removes the tunnel's entry, otherwise it replaces it or is
/// appended. The result is `None` when the file is left with no entry (it
/// is then deleted).
pub fn upsert_tunnel_override_in_config_file(file: LoadedConfigOverrideFile, tunnel_override: TunnelConfigOverride) -> (r: Result<Option<LoadedConfigOverrideFile>, ConfigEditError>)
    ensures
        override_result(r) == spec_upsert_override(file@, tunnel_override@),
{
    let mut file = file;
    let o = normalize_tunnel_override(tunnel_override);
    let position = match unique_tunnel_override_position(&file, o.name.as_str()) {
        Err(e) => {
            return Err(e);
        },
        Ok(p) => p,
    };
    let ghost before = file@;
    let ghost ov = o@;
    if o.has_overrides() {
        match position {
            Some(i) => {
                file.tunnels.set(i, o);
                assert(file@.tunnels =~= before.tunnels.update(i as int, ov));
            },
            None => {
                file.tunnels.push(o);
                assert(file@.tunnels =~= before.tunnels.push(ov));
            },
        }
    } else {
        match position {
            Some(i) => {
                let _ = file.tunnels.remove(i);
                assert(file@.tunnels =~= before.tunnels.remove(i as int));
            },
            None => {},
        }
    }
    if file.tunnels.len() == 0 {
        Ok(None)
    } else {
        Ok(Some(file))
    }
}

/// Removes the override of one tunnel, refused when it has none. The
/// result is `None` when the file is left with no entry (it is then
/// deleted).
pub fn remove_tunnel_override_from_config_file(file: LoadedConfigOverrideFile, name: &str) -> (r: Result<Option<LoadedConfigOverrideFile>, ConfigEditError>)
    ensures
        override_result(r) == spec_remove_override(file@, name@),
{
    let mut file = file;
    let position = match unique_tunnel_override_position(&file, name) {
        Err(e) => {
            return Err(e);
        },
        Ok(None) => {
            return Err(ConfigEditError::NotFound { path: file.source.path, name: String::from_str(name) });
        },
        Ok(Some(p)) => p,
    };
    let ghost before = file@;
    let _ = file.tunnels.remove(position);
    assert(file@.tunnels =~= before.tunnels.remove(position as int));
    if file.tunnels.len() == 0 {
        Ok(None)
    } else {
        Ok(Some(file))
    }
}


/// What to do with the override file after a change of the configuration
/// file: leave it, delete it, or write the given contents.
#[derive(Debug, PartialEq, Eq)]
pub enum OverrideFileChange {
    Keep,
    Remove,
    Write(LoadedConfigOverrideFile),
}

/// The mathematical value of an [`OverrideFileChange`].
pub ghost enum ChangeModel {
    Keep,
    Remove,
    Write(OverrideFileModel),
}

impl View for OverrideFileChange {
    type V = ChangeModel;

    open spec fn view(&self) -> ChangeModel {
        match self {
            OverrideFileChange::Keep => ChangeModel::Keep,
            OverrideFileChange::Remove => ChangeModel::Remove,
            OverrideFileChange::Write(f) => ChangeModel::Write(f@),
        }
    }
}

/// Whether the override file permits renaming the entry `current` to
/// `next`: it must have at most one entry called `current`, and when it
/// has one, no other entry may be called `next`. A missing file permits it.
pub open spec fn spec_validate_override_rename(
    ov: Option<OverrideFileModel>,
    current: Seq<char>,
    next: Seq<char>,
) -> Result<(), EditErrorModel> {
    match ov {
        None => Ok(()),
        Some(f) => match spec_unique_position(f, current) {
            Err(e) => Err(e),
            Ok(None) => Ok(()),
            Ok(Some(p)) => if override_name_taken(f.tunnels, next, p) {
                Err(EditErrorModel::DuplicateName { path: f.source.path, name: next })
            } else {
                Ok(())
            },
        },
    }
}

/// Whether the override file permits removing the entry `name`: it must
/// not have several entries of that name. A missing file permits it.
pub open spec fn spec_validate_override_removal(ov: Option<OverrideFileModel>, name: Seq<char>) -> Result<(), EditErrorModel> {
    match ov {
        None => Ok(()),
        Some(f) => match spec_unique_position(f, name) {
            Err(e) => Err(e),
            Ok(_) => Ok(()),
        },
    }
}

/// Renaming the entry `current` to `next` where the file exists and has
/// such an entry.
pub open spec fn spec_rename_override_if_exists(
    ov: Option<OverrideFileModel>,
    current: Seq<char>,
    next: Seq<char>,
) -> Result<ChangeModel, EditErrorModel> {
    match ov {
        None => Ok(ChangeModel::Keep),
        Some(f) => match spec_unique_position(f, current) {
            Err(e) => Err(e),
            Ok(None) => Ok(ChangeModel::Keep),
            Ok(Some(p)) => if override_name_taken(f.tunnels, next, p) {
                Err(EditErrorModel::DuplicateName { path: f.source.path, name: next })
            } else {
                Ok(
                    ChangeModel::Write(
                        OverrideFileModel {
                            tunnels: f.tunnels.update(p, OverrideModel { name: next, ..f.tunnels[p] }),
                            ..f
                        },
                    ),
                )
            },
        },
    }
}

/// Removing the entry `name` where the file exists and has such an entry;
/// a file left with no entry is deleted.
pub open spec fn spec_remove_override_if_exists(ov: Option<OverrideFileModel>, name: Seq<char>) -> Result<ChangeModel, EditErrorModel> {
    match ov {
        None => Ok(ChangeModel::Keep),
        Some(f) => match spec_unique_position(f, name) {
            Err(e) => Err(e),
            Ok(None) => Ok(ChangeModel::Keep),
            Ok(Some(p)) => if f.tunnels.len() == 1 {
                Ok(ChangeModel::Remove)
            } else {
                Ok(ChangeModel::Write(OverrideFileModel { tunnels: f.tunnels.remove(p), ..f }))
            },
        },
    }
}

/// The mathematical value of a check.
pub open spec fn unit_result(r: Result<(), ConfigEditError>) -> Result<(), EditErrorModel> {
    match r {
        Ok(_) => Ok(()),
        Err(e) => Err(e@),
    }
}

/// The mathematical value of a change of the override file.
pub open spec fn change_result(r: Result<OverrideFileChange, ConfigEditError>) -> Result<ChangeModel, EditErrorModel> {
    match r {
        Ok(c) => Ok(c@),
        Err(e) => Err(e@),
    }
}

/// The mathematical view of an optional override file.
pub open spec fn opt_override(ov: Option<LoadedConfigOverrideFile>) -> Option<OverrideFileModel> {
    match ov {
        Some(f) => Some(f@),
        None => None,
    }
}

/// Checks, before a tunnel of the local file is renamed, that its
/// override entry (if any) can follow the new name. `None` stands for a
/// missing override file.
pub fn validate_tunnel_override_rename(
    override_file: Option<&LoadedConfigOverrideFile>,
    current_name: &str,
    next_name: &str,
) -> (r: Result<(), ConfigEditError>)
    ensures
        unit_result(r) == spec_validate_override_rename(
            match override_file {
                Some(f) => Some(f@),
                None => None,
            },
            current_name@,
            next_name@,
        ),
{
    match override_file {
        None => Ok(()),
        Some(file) => match unique_tunnel_override_position(file, current_name) {
            Err(e) => Err(e),
            Ok(None) => Ok(()),
            Ok(Some(p)) => {
                if override_taken(&file.tunnels, next_name, p) {
                    Err(ConfigEditError::DuplicateName { path: file.source.path.clone(), name: String::from_str(next_name) })
                } else {
                    Ok(())
                }
            },
        },
    }
}

/// Checks, before a tunnel of the local file is removed, that the override
/// file does not have several entries of its name. `None` stands for a
/// missing override file.
pub fn validate_tunnel_override_removal(override_file: Option<&LoadedConfigOverrideFile>, name: &str) -> (r: Result<(), ConfigEditError>)
    ensures
        unit_result(r) == spec_validate_override_removal(
            match override_file {
                Some(f) => Some(f@),
                None => None,
            },
            name@,
        ),
{
    match override_file {
        None => Ok(()),
        Some(file) => match unique_tunnel_override_position(file, name) {
            Err(e) => Err(e),
            Ok(_) => Ok(()),
        },
    }
}

/// Renames the override entry `current_name` to `next_name` when the
/// override file exists and has such an entry.
pub fn rename_tunnel_override_if_exists(
    override_file: Option<LoadedConfigOverrideFile>,
    current_name: &str,
    next_name: &str,
) -> (r: Result<OverrideFileChange, ConfigEditError>)
    ensures
        change_result(r) == spec_rename_override_if_exists(opt_override(override_file), current_name@, next_name@),
{
    let mut file = match override_file {
        None => {
            return Ok(OverrideFileChange::Keep);
        },
        Some(f) => f,
    };
    let position = match unique_tunnel_override_position(&file, current_name) {
        Err(e) => {
            return Err(e);
        },
        Ok(None) => {
            return Ok(OverrideFileChange::Keep);
        },
        Ok(Some(p)) => p,
    };
    if override_taken(&file.tunnels, next_name, position) {
        return Err(ConfigEditError::DuplicateName { path: file.source.path, name: String::from_str(next_name) });
    }
    let ghost before = file@;
    let mut entry = file.tunnels.remove(position);
    entry.name = String::from_str(next_name);
    let ghost ev = entry@;
    file.tunnels.insert(position, entry);
    assert(file@.tunnels =~= before.tunnels.update(position as int, ev));
    Ok(OverrideFileChange::Write(file))
}

/// Removes the override entry `name` when the override file exists and
/// has such an entry; a file left with no entry is deleted.
pub fn remove_tunnel_override_if_exists(override_file: Option<LoadedConfigOverrideFile>, name: &str) -> (r: Result<OverrideFileChange, ConfigEditError>)
    ensures
        change_result(r) == spec_remove_override_if_exists(opt_override(override_file), name@),
{
    let mut file = match override_file {
        None => {
            return Ok(OverrideFileChange::Keep);
        },
        Some(f) => f,
    };
    let position = match unique_tunnel_override_position(&file, name) {
        Err(e) => {
            return Err(e);
        },
        Ok(None) => {
            return Ok(OverrideFileChange::Keep);
        },
        Ok(Some(p)) => p,
    };
    let ghost before = file@;
    let _ = file.tunnels.remove(position);
    assert(file@.tunnels =~= before.tunnels.remove(position as int));
    if file.tunnels.len() == 0 {
        Ok(OverrideFileChange::Remove)
    } else {
        Ok(OverrideFileChange::Write(file))
    }
}

/// The mathematical value of a change of both files.
pub open spec fn pair_result(r: Result<(LoadedConfigFile, OverrideFileChange), ConfigEditError>) -> Result<(LoadedFileModel, ChangeModel), EditErrorModel> {
    match r {
        Ok((f, c)) => Ok((f@, c@)),
        Err(e) => Err(e@),
    }
}

/// The mathematical view of an optional configuration file.
pub open spec fn opt_config(c: Option<LoadedConfigFile>) -> Option<LoadedFileModel> {
    match c {
        Some(f) => Some(f@),
        None => None,
    }
}

/// Updating a tunnel and, when a tunnel of the local file is renamed, the
/// name of its override entry. The override file is checked first, then
/// the configuration file (which must exist) is changed.
pub open spec fn spec_update_with_override(
    config_path: Seq<char>,
    config: Option<LoadedFileModel>,
    ov: Option<OverrideFileModel>,
    kind: ConfigSourceKind,
    current: Seq<char>,
    tunnel: TunnelModel,
) -> Result<(LoadedFileModel, ChangeModel), EditErrorModel> {
    let renaming = kind == ConfigSourceKind::Local && current != tunnel.name;
    let checked = if renaming {
        spec_validate_override_rename(ov, current, tunnel.name)
    } else {
        Ok(())
    };
    match checked {
        Err(e) => Err(e),
        Ok(_) => match config {
            None => Err(EditErrorModel::Missing { path: config_path }),
            Some(c) => match spec_update_tunnel(c, current, tunnel) {
                Err(e) => Err(e),
                Ok(f) => if renaming {
                    match spec_rename_override_if_exists(ov, current, tunnel.name) {
                        Err(e) => Err(e),
                        Ok(ch) => Ok((f, ch)),
                    }
                } else {
                    Ok((f, ChangeModel::Keep))
                },
            },
        },
    }
}

/// Removing a tunnel and, for the local file, its override entry. The
/// override file is checked first, then the configuration file (which
/// must exist) is changed.
pub open spec fn spec_remove_with_override(
    config_path: Seq<char>,
    config: Option<LoadedFileModel>,
    ov: Option<OverrideFileModel>,
    kind: ConfigSourceKind,
    name: Seq<char>,
) -> Result<(LoadedFileModel, ChangeModel), EditErrorModel> {
    let local = kind == ConfigSourceKind::Local;
    let checked = if local {
        spec_validate_override_removal(ov, name)
    } else {
        Ok(())
    };
    match checked {
        Err(e) => Err(e),
        Ok(_) => match config {
            None => Err(EditErrorModel::Missing { path: config_path }),
            Some(c) => match spec_remove_tunnel(c, name) {
                Err(e) => Err(e),
                Ok(f) => if local {
                    match spec_remove_override_if_exists(ov, name) {
                        Err(e) => Err(e),
                        Ok(ch) => Ok((f, ch)),
                    }
                } else {
                    Ok((f, ChangeModel::Keep))
                },
            },
        },
    }
}

/// Updates the tunnel `current_name` of a configuration file and, when a
/// tunnel of the local file changes its name, renames its override entry
/// too. `config` and `override_file` are `None` where the file is missing;
/// `config_path` names the configuration file in the error for that case.
pub fn update_tunnel_and_override_name_in_config_files(
    config_path: &str,
    config: Option<LoadedConfigFile>,
    override_file: Option<LoadedConfigOverrideFile>,
    kind: ConfigSourceKind,
    current_name: &str,
    tunnel: TunnelConfig,
) -> (r: Result<(LoadedConfigFile, OverrideFileChange), ConfigEditError>)
    ensures
        pair_result(r) == spec_update_with_override(
            config_path@,
            opt_config(config),
            opt_override(override_file),
            kind,
            current_name@,
            tunnel@,
        ),
{
    let renaming = kind == ConfigSourceKind::Local && !str_eq(current_name, tunnel.name.as_str());
    if renaming {
        let checked = match &override_file {
            Some(f) => validate_tunnel_override_rename(Some(f), current_name, tunnel.name.as_str()),
            None => validate_tunnel_override_rename(None, current_name, tunnel.name.as_str()),
        };
        match checked {
            Err(e) => {
                return Err(e);
            },
            Ok(_) => {},
        }
    }
    let config = match config {
        None => {
            return Err(ConfigEditError::Missing { path: String::from_str(config_path) });
        },
        Some(c) => c,
    };
    let next_name = tunnel.name.clone();
    let file = match update_tunnel_in_config_file(config, current_name, tunnel) {
        Err(e) => {
            return Err(e);
        },
        Ok(f) => f,
    };
    if renaming {
        match rename_tunnel_override_if_exists(override_file, current_name, next_name.as_str()) {
            Err(e) => Err(e),
            Ok(change) => Ok((file, change)),
        }
    } else {
        Ok((file, OverrideFileChange::Keep))
    }
}

/// Removes the tunnel `name` from a configuration file and, for the local
/// file, its override entry too. `config` and `override_file` are `None`
/// where the file is missing; `config_path` names the configuration file
/// in the error for that case.
pub fn remove_tunnel_and_override_from_config_files(
    config_path: &str,
    config: Option<LoadedConfigFile>,
    override_file: Option<LoadedConfigOverrideFile>,
    kind: ConfigSourceKind,
    name: &str,
) -> (r: Result<(LoadedConfigFile, OverrideFileChange), ConfigEditError>)
    ensures
        pair_result(r) == spec_remove_with_override(
            config_path@,
            opt_config(config),
            opt_override(override_file),
            kind,
            name@,
        ),
{
    let local = kind == ConfigSourceKind::Local;
    if local {
        let checked = match &override_file {
            Some(f) => validate_tunnel_override_removal(Some(f), name),
            None => validate_tunnel_override_removal(None, name),
        };
        match checked {
            Err(e) => {
                return Err(e);
            },
            Ok(_) => {},
        }
    }
    let config = match config {
        None => {
            return Err(ConfigEditError::Missing { path: String::from_str(config_path) });
        },
        Some(c) => c,
    };
    let file = match remove_tunnel_from_config_file(config, name) {
        Err(e) => {
            return Err(e);
        },
        Ok(f) => f,
    };
    if local {
        match remove_tunnel_override_if_exists(override_file, name) {
            Err(e) => Err(e),
            Ok(change) => Ok((file, change)),
        }
    } else {
        Ok((file, OverrideFileChange::Keep))
    }
}


proof fn lemma_only_entry_is_found(os: Seq<OverrideModel>, name: Seq<char>, k: int)
    requires
        0 <= k < os.len(),
        os[k].name == name,
        !override_name_taken(os, name, k),
    ensures
        override_index_of(os, name) == Some(k),
    decreases os.len(),
{
    if k < os.len() - 1 {
        assert forall|i: int| 0 <= i < os.drop_last().len() && i != k implies (#[trigger] os.drop_last()[i]).name != name by {
            assert(os.drop_last()[i] == os[i]);
        }
        assert(os.drop_last()[k] == os[k]);
        lemma_only_entry_is_found(os.drop_last(), name, k);
    } else {
        assert forall|i: int| 0 <= i < os.drop_last().len() && i != -1 implies (#[trigger] os.drop_last()[i]).name != name by {
            assert(os.drop_last()[i] == os[i]);
        }
        lemma_no_entry_not_found(os.drop_last(), name);
    }
}

proof fn lemma_no_entry_not_found(os: Seq<OverrideModel>, name: Seq<char>)
    requires
        !override_name_taken(os, name, -1),
    ensures
        override_index_of(os, name) is None,
    decreases os.len(),
{
    if os.len() > 0 {
        assert forall|i: int| 0 <= i < os.drop_last().len() && i != -1 implies (#[trigger] os.drop_last()[i]).name != name by {
            assert(os.drop_last()[i] == os[i]);
        }
        lemma_no_entry_not_found(os.drop_last(), name);
        assert(os[os.len() - 1] == os.last());
    }
}

/// After an override with settings is stored, the file holds exactly one
/// entry of that name, and it is the stored override (tags in normal form).
pub proof fn lemma_upsert_then_lookup(file: OverrideFileModel, o: OverrideModel)
    requires
        spec_has_overrides(spec_normalize_override(o)),
        spec_upsert_override(file, o) is Ok,
    ensures
        spec_upsert_override(file, o)->Ok_0 matches Some(f) && exists|i: int|
            spec_unique_position(f, o.name) == Ok::<Option<int>, EditErrorModel>(Some(i))
            && f.tunnels[i] == spec_normalize_override(o),
{
    let n = spec_normalize_override(o);
    let os = file.tunnels;
    lemma_override_index_bounds(os, n.name);
    match spec_unique_position(file, n.name) {
        Ok(Some(i)) => {
            let nos = os.update(i, n);
            assert forall|j: int| 0 <= j < nos.len() && j != i implies (#[trigger] nos[j]).name != n.name by {
                assert(nos[j] == os[j]);
            }
            lemma_only_entry_is_found(nos, n.name, i);
            assert(nos.len() > 0);
        },
        Ok(None) => {
            let nos = os.push(n);
            let k = os.len() as int;
            assert forall|j: int| 0 <= j < nos.len() && j != k implies (#[trigger] nos[j]).name != n.name by {
                assert(nos[j] == os[j]);
            }
            lemma_only_entry_is_found(nos, n.name, k);
        },
        Err(_) => {},
    }
}

/// After the override of a tunnel is removed, the file (if any is left)
/// holds no entry of that name.
pub proof fn lemma_remove_then_lookup(file: OverrideFileModel, name: Seq<char>)
    requires
        spec_remove_override(file, name) is Ok,
    ensures
        spec_remove_override(file, name)->Ok_0 matches Some(f) ==> spec_unique_position(f, name)
            == Ok::<Option<int>, EditErrorModel>(None),
{
    let os = file.tunnels;
    lemma_override_index_bounds(os, name);
    if let Ok(Some(i)) = spec_unique_position(file, name) {
        let nos = os.remove(i);
        assert forall|j: int| 0 <= j < nos.len() && j != -1 implies (#[trigger] nos[j]).name != name by {
            if j < i {
                assert(nos[j] == os[j]);
            } else {
                assert(nos[j] == os[j + 1]);
            }
        }
        lemma_no_entry_not_found(nos, name);
    }
}

/// The entries of an override file for the tunnel called `m`, in order.
pub open spec fn entries_named(entries: Seq<OverrideModel>, m: Seq<char>) -> Seq<OverrideModel> {
    entries.filter(named(m))
}

/// Whether an override entry is for the tunnel called `m`.
pub open spec fn named(m: Seq<char>) -> spec_fn(OverrideModel) -> bool {
    |e: OverrideModel| e.name == m
}

proof fn lemma_entries_named_single(e: OverrideModel, m: Seq<char>)
    requires
        e.name != m,
    ensures
        entries_named(seq![e], m) == Seq::<OverrideModel>::empty(),
{
    let f = seq![e].filter(named(m));
    if f.len() > 0 {
        seq![e].lemma_filter_pred(named(m), 0);
        assert(f.contains(f[0]));
        seq![e].lemma_filter_contains_rev(named(m), f[0]);
        assert(f[0] == e);
    }
    assert(f =~= Seq::<OverrideModel>::empty());
}

proof fn lemma_entries_named_split(os: Seq<OverrideModel>, i: int, e: OverrideModel, m: Seq<char>)
    requires
        0 <= i < os.len(),
        os[i].name != m,
        e.name != m,
    ensures
        entries_named(os.update(i, e), m) == entries_named(os, m),
        entries_named(os.remove(i), m) == entries_named(os, m),
{
    let a = os.subrange(0, i);
    let b = os.subrange(i + 1, os.len() as int);
    Seq::filter_distributes_over_add(a + seq![os[i]], b, named(m));
    Seq::filter_distributes_over_add(a, seq![os[i]], named(m));
    Seq::filter_distributes_over_add(a + seq![e], b, named(m));
    Seq::filter_distributes_over_add(a, seq![e], named(m));
    Seq::filter_distributes_over_add(a, b, named(m));
    assert(os =~= a + seq![os[i]] + b);
    assert(os.update(i, e) =~= a + seq![e] + b);
    assert(os.remove(i) =~= a + b);
    lemma_entries_named_single(os[i], m);
    lemma_entries_named_single(e, m);
    assert(entries_named(a + seq![os[i]] + b, m) == entries_named(a, m) + entries_named(seq![os[i]], m) + entries_named(b, m));
    assert(entries_named(a + seq![e] + b, m) == entries_named(a, m) + entries_named(seq![e], m) + entries_named(b, m));
    assert(entries_named(a + b, m) == entries_named(a, m) + entries_named(b, m));
    assert(entries_named(a, m) + Seq::<OverrideModel>::empty() =~= entries_named(a, m));
}

/// Setting or clearing the override of one tunnel leaves the entries of
/// every other tunnel as they were, in order (a file left with no entry
/// is dropped).
pub proof fn lemma_upsert_keeps_other_entries(file: OverrideFileModel, o: OverrideModel, m: Seq<char>)
    requires
        spec_upsert_override(file, o) is Ok,
        m != spec_normalize_override(o).name,
    ensures
        ({
            let kept = match spec_upsert_override(file, o)->Ok_0 {
                Some(f) => f.tunnels,
                None => Seq::<OverrideModel>::empty(),
            };
            entries_named(kept, m) == entries_named(file.tunnels, m)
        }),
{
    let n = spec_normalize_override(o);
    let os = file.tunnels;
    lemma_override_index_bounds(os, n.name);
    let entries = match spec_unique_position(file, n.name)->Ok_0 {
        Some(i) => if spec_has_overrides(n) {
            os.update(i, n)
        } else {
            os.remove(i)
        },
        None => if spec_has_overrides(n) {
            os.push(n)
        } else {
            os
        },
    };
    match spec_unique_position(file, n.name)->Ok_0 {
        Some(i) => {
            lemma_entries_named_split(os, i, n, m);
        },
        None => {
            if spec_has_overrides(n) {
                assert(os.push(n) =~= os + seq![n]);
                Seq::filter_distributes_over_add(os, seq![n], named(m));
                lemma_entries_named_single(n, m);
                assert(entries_named(os + seq![n], m) == entries_named(os, m) + entries_named(seq![n], m));
                assert(entries_named(os, m) + Seq::<OverrideModel>::empty() =~= entries_named(os, m));
            }
        },
    }
    if entries.len() == 0 {
        assert(entries =~= Seq::<OverrideModel>::empty());
    }
}

/// When a tunnel's override entry follows a rename, the file afterwards
/// holds exactly one entry under the new name, with the old entry's
/// settings, and none under the old name.
pub proof fn lemma_rename_moves_entry(file: OverrideFileModel, current: Seq<char>, next: Seq<char>)
    requires
        current != next,
        spec_rename_override_if_exists(Some(file), current, next) matches Ok(ChangeModel::Write(_)),
    ensures
        spec_rename_override_if_exists(Some(file), current, next) matches Ok(ChangeModel::Write(f)) && exists|i: int|
            spec_unique_position(f, next) == Ok::<Option<int>, EditErrorModel>(Some(i))
            && f.tunnels[i] == (OverrideModel { name: next, ..file.tunnels[i] })
            && spec_unique_position(f, current) == Ok::<Option<int>, EditErrorModel>(None),
{
    let os = file.tunnels;
    lemma_override_index_bounds(os, current);
    let p = override_index_of(os, current)->Some_0;
    let nos = os.update(p, OverrideModel { name: next, ..os[p] });
    assert forall|j: int| 0 <= j < nos.len() && j != p implies (#[trigger] nos[j]).name != next by {
        assert(nos[j] == os[j]);
    }
    lemma_only_entry_is_found(nos, next, p);
    assert forall|j: int| 0 <= j < nos.len() && j != -1 implies (#[trigger] nos[j]).name != current by {
        if j != p {
            assert(nos[j] == os[j]);
        }
    }
    lemma_no_entry_not_found(nos, current);
    let f = OverrideFileModel { tunnels: nos, ..file };
    assert(spec_rename_override_if_exists(Some(file), current, next) == Ok::<ChangeModel, EditErrorModel>(ChangeModel::Write(f)));
    assert(spec_unique_position(f, next) == Ok::<Option<int>, EditErrorModel>(Some(p)));
    assert(f.tunnels[p] == (OverrideModel { name: next, ..file.tunnels[p] }));
    assert(spec_unique_position(f, current) == Ok::<Option<int>, EditErrorModel>(None));
}

} // verus!
