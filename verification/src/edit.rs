//! Changes to the contents of configuration files: adding, updating and
//! removing tunnels, and keeping the local override file in step.

use vstd::prelude::*;

use crate::config::{
    ConfigSource, LoadedConfigFile, LoadedConfigOverrideFile, LoadedFileModel, OverrideFileModel, OverrideModel, TimeoutConfig,
    TunnelConfig, TunnelConfigOverride, TunnelModel, spec_has_overrides,
    DEFAULT_CONNECT_TIMEOUT_SECONDS, DEFAULT_SERVER_ALIVE_COUNT_MAX,
    DEFAULT_SERVER_ALIVE_INTERVAL_SECONDS, DEFAULT_START_GRACE_MILLISECONDS,
};
use crate::tags::{normalize_tags, spec_normalize_tags};
use crate::paths::{format_path_for_display_with_home, spec_display_path};
use crate::text::{concat_str, decimal, decimal_string, str_eq};
use crate::validate::{last_port_before, last_port_index};

verus! {

/// Why a change to a configuration file was refused.
#[derive(Debug, PartialEq, Eq)]
pub enum ConfigEditError {
    /// The file does not exist and may not be created.
    Missing { path: String },
    /// Another tunnel of the file already has this name.
    DuplicateName { path: String, name: String },
    /// Another tunnel of the file already has this local port.
    DuplicateLocalPort { path: String, local_port: u16, existing_name: String },
    /// No tunnel of the file has this name.
    NotFound { path: String, name: String },
}

/// A tunnel with its tags in normal form.
pub open spec fn spec_normalize_tunnel(t: TunnelModel) -> TunnelModel {
    TunnelModel { tags: spec_normalize_tags(t.tags), ..t }
}

/// An override with its tags in normal form.
pub open spec fn spec_normalize_override(o: OverrideModel) -> OverrideModel {
    OverrideModel {
        tags: match o.tags {
            Some(t) => Some(spec_normalize_tags(t)),
            None => None,
        },
        ..o
    }
}

/// The tunnel with its tags in normal form.
pub fn normalize_tunnel(tunnel: TunnelConfig) -> (r: TunnelConfig)
    ensures
        r@ == spec_normalize_tunnel(tunnel@),
{
    let mut tunnel = tunnel;
    let tags = normalize_tags(tunnel.tags.as_slice());
    assert(tunnel.tags@.map_values(|t: String| t@) =~= tunnel.tags.deep_view());
    tunnel.tags = tags;
    tunnel
}

/// The override with its tags in normal form.
pub fn normalize_tunnel_override(tunnel_override: TunnelConfigOverride) -> (r: TunnelConfigOverride)
    ensures
        r@ == spec_normalize_override(tunnel_override@),
{
    let mut o = tunnel_override;
    match &o.tags {
        Some(t) => {
            let n = normalize_tags(t.as_slice());
            assert(t@.map_values(|s: String| s@) =~= t.deep_view());
            o.tags = Some(n);
        },
        None => {},
    }
    o
}

/// The tunnels with their tags in normal form, in order.
pub fn normalize_tunnels(tunnels: Vec<TunnelConfig>) -> (r: Vec<TunnelConfig>)
    ensures
        r.deep_view() == tunnels.deep_view().map_values(|t: TunnelModel| spec_normalize_tunnel(t)),
{
    let ghost src = tunnels.deep_view();
    let mut rest = tunnels;
    let mut out: Vec<TunnelConfig> = Vec::new();
    let mut i: usize = 0;
    let n = rest.len();
    while i < n
        invariant
            n == src.len(),
            i <= n,
            rest.deep_view() == src,
            out.deep_view() == src.subrange(0, i as int).map_values(|t: TunnelModel| spec_normalize_tunnel(t)),
        decreases n - i,
    {
        let t = rest[i].clone();
        let ghost prev = out.deep_view();
        let nt = normalize_tunnel(t);
        out.push(nt);
        assert(out.deep_view() =~= prev.push(spec_normalize_tunnel(src[i as int])));
        i += 1;
        assert(out.deep_view() =~= src.subrange(0, i as int).map_values(|t: TunnelModel| spec_normalize_tunnel(t)));
    }
    assert(src.subrange(0, i as int) =~= src);
    out
}

/// The overrides with their tags in normal form, in order.
pub fn normalize_tunnel_overrides(overrides: Vec<TunnelConfigOverride>) -> (r: Vec<TunnelConfigOverride>)
    ensures
        r.deep_view() == overrides.deep_view().map_values(|o: OverrideModel| spec_normalize_override(o)),
{
    let ghost src = overrides.deep_view();
    let mut out: Vec<TunnelConfigOverride> = Vec::new();
    let mut i: usize = 0;
    let n = overrides.len();
    while i < n
        invariant
            n == src.len(),
            i <= n,
            overrides.deep_view() == src,
            out.deep_view() == src.subrange(0, i as int).map_values(|o: OverrideModel| spec_normalize_override(o)),
        decreases n - i,
    {
        let o = overrides[i].clone();
        let ghost prev = out.deep_view();
        let no = normalize_tunnel_override(o);
        out.push(no);
        assert(out.deep_view() =~= prev.push(spec_normalize_override(src[i as int])));
        i += 1;
        assert(out.deep_view() =~= src.subrange(0, i as int).map_values(|o: OverrideModel| spec_normalize_override(o)));
    }
    assert(src.subrange(0, i as int) =~= src);
    out
}

/// The timeout settings written into a newly created file: the built-in values.
pub open spec fn spec_new_file_timeouts() -> TimeoutConfig {
    TimeoutConfig {
        connect_timeout_seconds: Some(DEFAULT_CONNECT_TIMEOUT_SECONDS),
        server_alive_interval_seconds: Some(DEFAULT_SERVER_ALIVE_INTERVAL_SECONDS),
        server_alive_count_max: Some(DEFAULT_SERVER_ALIVE_COUNT_MAX),
        start_grace_milliseconds: Some(DEFAULT_START_GRACE_MILLISECONDS),
    }
}

/// The timeout settings written into a newly created file.
pub fn default_timeout_config_for_new_file() -> (r: TimeoutConfig)
    ensures
        r == spec_new_file_timeouts(),
{
    TimeoutConfig {
        connect_timeout_seconds: Some(DEFAULT_CONNECT_TIMEOUT_SECONDS),
        server_alive_interval_seconds: Some(DEFAULT_SERVER_ALIVE_INTERVAL_SECONDS),
        server_alive_count_max: Some(DEFAULT_SERVER_ALIVE_COUNT_MAX),
        start_grace_milliseconds: Some(DEFAULT_START_GRACE_MILLISECONDS),
    }
}

/// The contents to edit for a file that does not exist yet: when it may
/// be created, an empty file with the built-in timeouts; otherwise
/// [`ConfigEditError::Missing`].
pub fn config_file_for_missing_path(source: ConfigSource, create_if_missing: bool) -> (r: Result<LoadedConfigFile, ConfigEditError>)
    ensures
        create_if_missing <==> r is Ok,
        r matches Ok(f) ==> f.source == source && f.timeouts == spec_new_file_timeouts() && f.tunnels@.len() == 0,
        r matches Err(e) ==> e == (ConfigEditError::Missing { path: source.path }),
{
    if create_if_missing {
        Ok(LoadedConfigFile::with_timeouts(source, default_timeout_config_for_new_file(), Vec::new()))
    } else {
        Err(ConfigEditError::Missing { path: source.path })
    }
}

/// The override contents to edit for a file that does not exist yet.
pub fn override_file_for_missing_path(source: ConfigSource, create_if_missing: bool) -> (r: Result<LoadedConfigOverrideFile, ConfigEditError>)
    ensures
        create_if_missing <==> r is Ok,
        r matches Ok(f) ==> f.source == source && f.tunnels@.len() == 0,
        r matches Err(e) ==> e == (ConfigEditError::Missing { path: source.path }),
{
    if create_if_missing {
        Ok(LoadedConfigOverrideFile::new(source, Vec::new()))
    } else {
        Err(ConfigEditError::Missing { path: source.path })
    }
}


/// The mathematical value of a [`ConfigEditError`].
pub ghost enum EditErrorModel {
    Missing { path: Seq<char> },
    DuplicateName { path: Seq<char>, name: Seq<char> },
    DuplicateLocalPort { path: Seq<char>, local_port: u16, existing_name: Seq<char> },
    NotFound { path: Seq<char>, name: Seq<char> },
}

impl View for ConfigEditError {
    type V = EditErrorModel;

    open spec fn view(&self) -> EditErrorModel {
        match self {
            ConfigEditError::Missing { path } => EditErrorModel::Missing { path: path@ },
            ConfigEditError::DuplicateName { path, name } => EditErrorModel::DuplicateName {
                path: path@,
                name: name@,
            },
            ConfigEditError::DuplicateLocalPort { path, local_port, existing_name } =>
                EditErrorModel::DuplicateLocalPort {
                path: path@,
                local_port: *local_port,
                existing_name: existing_name@,
            },
            ConfigEditError::NotFound { path, name } => EditErrorModel::NotFound {
                path: path@,
                name: name@,
            },
        }
    }
}

/// The mathematical value of an edit of a configuration file.
pub open spec fn file_result(r: Result<LoadedConfigFile, ConfigEditError>) -> Result<LoadedFileModel, EditErrorModel> {
    match r {
        Ok(f) => Ok(f@),
        Err(e) => Err(e@),
    }
}

/// The index of the first tunnel called `name`.
pub open spec fn index_of_name(ts: Seq<TunnelModel>, name: Seq<char>) -> Option<int>
    decreases ts.len(),
{
    if ts.len() == 0 {
        None
    } else {
        match index_of_name(ts.drop_last(), name) {
            Some(i) => Some(i),
            None => if ts.last().name == name {
                Some(ts.len() - 1)
            } else {
                None
            },
        }
    }
}

/// The index of the first tunnel other than `skip` with local port `port`.
pub open spec fn first_port_index(ts: Seq<TunnelModel>, port: u16, skip: int) -> Option<int>
    decreases ts.len(),
{
    if ts.len() == 0 {
        None
    } else {
        match first_port_index(ts.drop_last(), port, skip) {
            Some(i) => Some(i),
            None => if ts.last().local_port == port && ts.len() - 1 != skip {
                Some(ts.len() - 1)
            } else {
                None
            },
        }
    }
}

/// Whether a tunnel other than `skip` is called `name`.
pub open spec fn name_taken(ts: Seq<TunnelModel>, name: Seq<char>, skip: int) -> bool {
    exists|i: int| 0 <= i < ts.len() && i != skip && (#[trigger] ts[i]).name == name
}

/// Adding a tunnel to a file: refused when the (normalized) name or the
/// local port is already used in the file, else appended.
pub open spec fn spec_add_tunnel(file: LoadedFileModel, tunnel: TunnelModel) -> Result<LoadedFileModel, EditErrorModel> {
    let t = spec_normalize_tunnel(tunnel);
    if name_taken(file.tunnels, t.name, -1) {
        Err(EditErrorModel::DuplicateName { path: file.source.path, name: t.name })
    } else {
        match first_port_index(file.tunnels, t.local_port, -1) {
            Some(j) => Err(
                EditErrorModel::DuplicateLocalPort {
                    path: file.source.path,
                    local_port: t.local_port,
                    existing_name: file.tunnels[j].name,
                },
            ),
            None => Ok(LoadedFileModel { tunnels: file.tunnels.push(t), ..file }),
        }
    }
}

/// Removing the first tunnel called `name`, refused when there is none.
pub open spec fn spec_remove_tunnel(file: LoadedFileModel, name: Seq<char>) -> Result<LoadedFileModel, EditErrorModel> {
    match index_of_name(file.tunnels, name) {
        Some(i) => Ok(LoadedFileModel { tunnels: file.tunnels.remove(i), ..file }),
        None => Err(EditErrorModel::NotFound { path: file.source.path, name }),
    }
}

/// Replacing the first tunnel called `name` by `tunnel`: refused when
/// there is none, or when another tunnel has the new name or local port.
pub open spec fn spec_update_tunnel(file: LoadedFileModel, name: Seq<char>, tunnel: TunnelModel) -> Result<LoadedFileModel, EditErrorModel> {
    let t = spec_normalize_tunnel(tunnel);
    match index_of_name(file.tunnels, name) {
        None => Err(EditErrorModel::NotFound { path: file.source.path, name }),
        Some(p) => if name_taken(file.tunnels, t.name, p) {
            Err(EditErrorModel::DuplicateName { path: file.source.path, name: t.name })
        } else {
            match first_port_index(file.tunnels, t.local_port, p) {
                Some(j) => Err(
                    EditErrorModel::DuplicateLocalPort {
                        path: file.source.path,
                        local_port: t.local_port,
                        existing_name: file.tunnels[j].name,
                    },
                ),
                None => Ok(LoadedFileModel { tunnels: file.tunnels.update(p, t), ..file }),
            }
        },
    }
}


proof fn lemma_index_of_name_prefix(ts: Seq<TunnelModel>, name: Seq<char>, k: int)
    requires
        0 <= k <= ts.len(),
        index_of_name(ts.subrange(0, k), name) is Some,
    ensures
        index_of_name(ts, name) == index_of_name(ts.subrange(0, k), name),
    decreases ts.len(),
{
    if k == ts.len() {
        assert(ts.subrange(0, k) =~= ts);
    } else {
        assert(ts.drop_last().subrange(0, k) =~= ts.subrange(0, k));
        lemma_index_of_name_prefix(ts.drop_last(), name, k);
    }
}

proof fn lemma_first_port_prefix(ts: Seq<TunnelModel>, port: u16, skip: int, k: int)
    requires
        0 <= k <= ts.len(),
        first_port_index(ts.subrange(0, k), port, skip) is Some,
    ensures
        first_port_index(ts, port, skip) == first_port_index(ts.subrange(0, k), port, skip),
    decreases ts.len(),
{
    if k == ts.len() {
        assert(ts.subrange(0, k) =~= ts);
    } else {
        assert(ts.drop_last().subrange(0, k) =~= ts.subrange(0, k));
        lemma_first_port_prefix(ts.drop_last(), port, skip, k);
    }
}

proof fn lemma_index_of_name_bounds(ts: Seq<TunnelModel>, name: Seq<char>)
    ensures
        index_of_name(ts, name) matches Some(i) ==> 0 <= i < ts.len() && ts[i].name == name,
    decreases ts.len(),
{
    if ts.len() > 0 {
        lemma_index_of_name_bounds(ts.drop_last(), name);
    }
}

proof fn lemma_first_port_bounds(ts: Seq<TunnelModel>, port: u16, skip: int)
    ensures
        first_port_index(ts, port, skip) matches Some(i) ==> 0 <= i < ts.len() && ts[i].local_port == port
            && i != skip,
    decreases ts.len(),
{
    if ts.len() > 0 {
        lemma_first_port_bounds(ts.drop_last(), port, skip);
    }
}

/// The position of the first tunnel called `name`.
pub fn find_name_index(ts: &Vec<TunnelConfig>, name: &str) -> (r: Option<usize>)
    ensures
        match r {
            Some(i) => index_of_name(ts.deep_view(), name@) == Some(i as int) && i < ts@.len(),
            None => index_of_name(ts.deep_view(), name@).is_none(),
        },
{
    let ghost tv = ts.deep_view();
    let mut i: usize = 0;
    while i < ts.len()
        invariant
            i <= ts@.len(),
            tv == ts.deep_view(),
            index_of_name(tv.subrange(0, i as int), name@).is_none(),
        decreases ts@.len() - i,
    {
        assert(tv.subrange(0, i + 1).drop_last() =~= tv.subrange(0, i as int));
        if str_eq(ts[i].name.as_str(), name) {
            proof {
                lemma_index_of_name_prefix(tv, name@, i + 1);
            }
            return Some(i);
        }
        i += 1;
    }
    assert(tv.subrange(0, i as int) =~= tv);
    None
}

/// The integer form of an optional position; `-1` when absent.
pub open spec fn skip_index(skip: Option<usize>) -> int {
    match skip {
        Some(p) => p as int,
        None => -1,
    }
}

/// The position of the first tunnel other than `skip` with local port `port`.
pub fn find_port_index(ts: &Vec<TunnelConfig>, port: u16, skip: Option<usize>) -> (r: Option<usize>)
    ensures
        match r {
            Some(i) => first_port_index(ts.deep_view(), port, skip_index(skip)) == Some(i as int) && i
                < ts@.len(),
            None => first_port_index(ts.deep_view(), port, skip_index(skip)).is_none(),
        },
{
    let ghost tv = ts.deep_view();
    let mut i: usize = 0;
    while i < ts.len()
        invariant
            i <= ts@.len(),
            tv == ts.deep_view(),
            first_port_index(tv.subrange(0, i as int), port, skip_index(skip)).is_none(),
        decreases ts@.len() - i,
    {
        assert(tv.subrange(0, i + 1).drop_last() =~= tv.subrange(0, i as int));
        let skipped = match skip {
            Some(p) => p == i,
            None => false,
        };
        if ts[i].local_port == port && !skipped {
            proof {
                lemma_first_port_prefix(tv, port, skip_index(skip), i + 1);
            }
            return Some(i);
        }
        i += 1;
    }
    assert(tv.subrange(0, i as int) =~= tv);
    None
}

/// Whether a tunnel other than `skip` is called `name`.
pub fn is_name_taken(ts: &Vec<TunnelConfig>, name: &str, skip: Option<usize>) -> (r: bool)
    ensures
        r == name_taken(ts.deep_view(), name@, skip_index(skip)),
{
    let ghost tv = ts.deep_view();
    let mut i: usize = 0;
    while i < ts.len()
        invariant
            i <= ts@.len(),
            tv == ts.deep_view(),
            forall|j: int| 0 <= j < i && j != skip_index(skip) ==> (#[trigger] tv[j]).name != name@,
        decreases ts@.len() - i,
    {
        let skipped = match skip {
            Some(p) => p == i,
            None => false,
        };
        if !skipped && str_eq(ts[i].name.as_str(), name) {
            assert(tv[i as int].name == name@);
            return true;
        }
        i += 1;
    }
    false
}

/// Adds a tunnel (tags in normal form) at the end of a file, refused
/// when its name or its local port is already used in the file.
pub fn add_tunnel_to_config_file(file: LoadedConfigFile, tunnel: TunnelConfig) -> (r: Result<LoadedConfigFile, ConfigEditError>)
    ensures
        file_result(r) == spec_add_tunnel(file@, tunnel@),
{
    let mut file = file;
    let tunnel = normalize_tunnel(tunnel);
    if is_name_taken(&file.tunnels, tunnel.name.as_str(), None) {
        return Err(ConfigEditError::DuplicateName { path: file.source.path, name: tunnel.name });
    }
    match find_port_index(&file.tunnels, tunnel.local_port, None) {
        Some(j) => {
            let existing_name = file.tunnels[j].name.clone();
            return Err(
                ConfigEditError::DuplicateLocalPort {
                    path: file.source.path,
                    local_port: tunnel.local_port,
                    existing_name,
                },
            );
        },
        None => {},
    }
    let ghost before = file@;
    let ghost tv = tunnel@;
    file.tunnels.push(tunnel);
    assert(file@.tunnels =~= before.tunnels.push(tv));
    Ok(file)
}

/// Removes the first tunnel called `name`, refused when there is none.
pub fn remove_tunnel_from_config_file(file: LoadedConfigFile, name: &str) -> (r: Result<LoadedConfigFile, ConfigEditError>)
    ensures
        file_result(r) == spec_remove_tunnel(file@, name@),
{
    let mut file = file;
    match find_name_index(&file.tunnels, name) {
        None => Err(ConfigEditError::NotFound { path: file.source.path, name: String::from_str(name) }),
        Some(p) => {
            let ghost before = file@;
            let _ = file.tunnels.remove(p);
            assert(file@.tunnels =~= before.tunnels.remove(p as int));
            Ok(file)
        },
    }
}

/// Replaces the first tunnel called `name` by `tunnel` (tags in normal
/// form), refused when there is none or when another tunnel already has
/// the new name or local port.
pub fn update_tunnel_in_config_file(file: LoadedConfigFile, name: &str, tunnel: TunnelConfig) -> (r: Result<LoadedConfigFile, ConfigEditError>)
    ensures
        file_result(r) == spec_update_tunnel(file@, name@, tunnel@),
{
    let mut file = file;
    let tunnel = normalize_tunnel(tunnel);
    let position = match find_name_index(&file.tunnels, name) {
        None => {
            return Err(ConfigEditError::NotFound { path: file.source.path, name: String::from_str(name) });
        },
        Some(p) => p,
    };
    if is_name_taken(&file.tunnels, tunnel.name.as_str(), Some(position)) {
        return Err(ConfigEditError::DuplicateName { path: file.source.path, name: tunnel.name });
    }
    match find_port_index(&file.tunnels, tunnel.local_port, Some(position)) {
        Some(j) => {
            let existing_name = file.tunnels[j].name.clone();
            return Err(
                ConfigEditError::DuplicateLocalPort {
                    path: file.source.path,
                    local_port: tunnel.local_port,
                    existing_name,
                },
            );
        },
        None => {},
    }
    let ghost before = file@;
    let ghost tv = tunnel@;
    file.tunnels.set(position, tunnel);
    assert(file@.tunnels =~= before.tunnels.update(position as int, tv));
    Ok(file)
}


/// Who already owns `port` when a batch is added: the latest earlier
/// tunnel of the batch with that port, else the first tunnel of the file.
pub open spec fn batch_port_owner(file_ts: Seq<TunnelModel>, news: Seq<TunnelModel>, i: int, port: u16) -> Option<Seq<char>> {
    match last_port_before(news, i, port) {
        Some(k) => Some(news[k].name),
        None => match first_port_index(file_ts, port, -1) {
            Some(j) => Some(file_ts[j].name),
            None => None,
        },
    }
}

/// The first refusal among the first `n` tunnels of a batch, each checked
/// against the file and the batch tunnels before it.
pub open spec fn batch_error(path: Seq<char>, file_ts: Seq<TunnelModel>, news: Seq<TunnelModel>, n: int) -> Option<EditErrorModel>
    decreases n,
{
    if n <= 0 {
        None
    } else {
        match batch_error(path, file_ts, news, n - 1) {
            Some(e) => Some(e),
            None => {
                let t = news[n - 1];
                if name_taken(file_ts + news.subrange(0, n - 1), t.name, -1) {
                    Some(EditErrorModel::DuplicateName { path, name: t.name })
                } else {
                    match batch_port_owner(file_ts, news, n - 1, t.local_port) {
                        Some(o) => Some(
                            EditErrorModel::DuplicateLocalPort {
                                path,
                                local_port: t.local_port,
                                existing_name: o,
                            },
                        ),
                        None => None,
                    }
                }
            },
        }
    }
}

/// Adding several tunnels at once: all are appended (tags in normal form),
/// or the first one whose name or local port is taken is refused.
pub open spec fn spec_add_tunnels(file: LoadedFileModel, tunnels: Seq<TunnelModel>) -> Result<LoadedFileModel, EditErrorModel> {
    let news = tunnels.map_values(|t: TunnelModel| spec_normalize_tunnel(t));
    match batch_error(file.source.path, file.tunnels, news, news.len() as int) {
        Some(e) => Err(e),
        None => Ok(LoadedFileModel { tunnels: file.tunnels + news, ..file }),
    }
}

proof fn lemma_batch_error_stays(path: Seq<char>, file_ts: Seq<TunnelModel>, news: Seq<TunnelModel>, n: int, m: int)
    requires
        n <= m,
        batch_error(path, file_ts, news, n) is Some,
    ensures
        batch_error(path, file_ts, news, m) == batch_error(path, file_ts, news, n),
    decreases m - n,
{
    if m > n {
        lemma_batch_error_stays(path, file_ts, news, n, m - 1);
    }
}

/// Whether `name` is the name of a tunnel of the file or of one of the
/// first `i` tunnels of the batch.
fn batch_name_taken(file_ts: &Vec<TunnelConfig>, news: &Vec<TunnelConfig>, i: usize, name: &str) -> (r: bool)
    requires
        i <= news@.len(),
    ensures
        r == name_taken(file_ts.deep_view() + news.deep_view().subrange(0, i as int), name@, -1),
{
    let ghost fts = file_ts.deep_view();
    let ghost nv = news.deep_view();
    let ghost all = fts + nv.subrange(0, i as int);
    let mut taken = is_name_taken(file_ts, name, None);
    let mut k: usize = 0;
    while k < i
        invariant
            i <= news@.len(),
            nv == news.deep_view(),
            k <= i,
            taken == (name_taken(fts, name@, -1) || exists|m: int| 0 <= m < k && (#[trigger] nv[m]).name == name@),
        decreases i - k,
    {
        assert(nv[k as int] == news@[k as int]@);
        if str_eq(news[k].name.as_str(), name) {
            taken = true;
        }
        k += 1;
    }
    proof {
        if taken {
            if name_taken(fts, name@, -1) {
                let j = choose|j: int| 0 <= j < fts.len() && j != -1 && (#[trigger] fts[j]).name == name@;
                assert(all[j] == fts[j]);
            } else {
                let m = choose|m: int| 0 <= m < i && (#[trigger] nv[m]).name == name@;
                assert(all[fts.len() + m] == nv[m]);
            }
            assert(name_taken(all, name@, -1));
        } else {
            assert forall|j: int| 0 <= j < all.len() && j != -1 implies (#[trigger] all[j]).name != name@ by {
                if j < fts.len() {
                    assert(all[j] == fts[j]);
                } else {
                    assert(all[j] == nv[j - fts.len()]);
                }
            }
        }
    }
    taken
}

/// The refusal, if any, of the tunnel at position `i` of a batch, checked
/// against the file and the batch tunnels before it.
fn check_batch_entry(file: &LoadedConfigFile, news: &Vec<TunnelConfig>, i: usize) -> (r: Option<ConfigEditError>)
    requires
        i < news@.len(),
        batch_error(file@.source.path, file@.tunnels, news.deep_view(), i as int).is_none(),
    ensures
        match r {
            Some(e) => batch_error(file@.source.path, file@.tunnels, news.deep_view(), i + 1) == Some(e@),
            None => batch_error(file@.source.path, file@.tunnels, news.deep_view(), i + 1).is_none(),
        },
{
    let ghost nv = news.deep_view();
    assert(nv[i as int] == news@[i as int]@);
    let t = &news[i];
    if batch_name_taken(&file.tunnels, news, i, t.name.as_str()) {
        return Some(ConfigEditError::DuplicateName { path: file.source.path.clone(), name: t.name.clone() });
    }
    match last_port_index(news, i, t.local_port) {
        Some(k) => {
            assert(nv[k as int] == news@[k as int]@);
            return Some(
                ConfigEditError::DuplicateLocalPort {
                    path: file.source.path.clone(),
                    local_port: t.local_port,
                    existing_name: news[k].name.clone(),
                },
            );
        },
        None => {},
    }
    match find_port_index(&file.tunnels, t.local_port, None) {
        Some(j) => {
            assert(file@.tunnels[j as int] == file.tunnels@[j as int]@);
            Some(
                ConfigEditError::DuplicateLocalPort {
                    path: file.source.path.clone(),
                    local_port: t.local_port,
                    existing_name: file.tunnels[j].name.clone(),
                },
            )
        },
        None => None,
    }
}

/// Adds several tunnels (tags in normal form) at the end of a file, all
/// or none: the first tunnel whose name or local port is already used,
/// in the file or earlier in the batch, is refused.
#[verifier::rlimit(40)]
pub fn add_tunnels_to_config_file(file: LoadedConfigFile, tunnels: Vec<TunnelConfig>) -> (r: Result<LoadedConfigFile, ConfigEditError>)
    ensures
        file_result(r) == spec_add_tunnels(file@, tunnels.deep_view()),
{
    let ghost f0 = file@;
    let mut file = file;
    let ghost tin = tunnels.deep_view();
    let news = normalize_tunnels(tunnels);
    let ghost nv = news.deep_view();
    let mut i: usize = 0;
    let mut refused: Option<ConfigEditError> = None;
    while i < news.len()
        invariant_except_break
            refused.is_none(),
        invariant
            i <= news@.len(),
            nv == news.deep_view(),
            file@ == f0,
            batch_error(f0.source.path, f0.tunnels, nv, i as int).is_none(),
        ensures
            match refused {
                Some(e) => batch_error(f0.source.path, f0.tunnels, nv, nv.len() as int) == Some(e@),
                None => batch_error(f0.source.path, f0.tunnels, nv, nv.len() as int).is_none(),
            },
        decreases news@.len() - i,
    {
        match check_batch_entry(&file, &news, i) {
            Some(e) => {
                proof {
                    lemma_batch_error_stays(f0.source.path, f0.tunnels, nv, i + 1, nv.len() as int);
                }
                refused = Some(e);
                break;
            },
            None => {},
        }
        i += 1;
    }
    match refused {
        Some(e) => {
            return Err(e);
        },
        None => {},
    }
    let mut j: usize = 0;
    while j < news.len()
        invariant
            j <= news@.len(),
            nv == news.deep_view(),
            file@ == (LoadedFileModel { tunnels: f0.tunnels + nv.subrange(0, j as int), ..f0 }),
        decreases news@.len() - j,
    {
        let t = news[j].clone();
        let ghost prev = file.tunnels.deep_view();
        let ghost tv = t@;
        file.tunnels.push(t);
        assert(file.tunnels.deep_view() =~= prev.push(tv));
        j += 1;
        assert(file@.tunnels =~= f0.tunnels + nv.subrange(0, j as int));
    }
    assert(nv.subrange(0, j as int) =~= nv);
    assert(spec_add_tunnels(f0, tin) == Ok::<LoadedFileModel, EditErrorModel>(file@));
    Ok(file)
}


/// No two tunnels share a name.
pub open spec fn names_unique(ts: Seq<TunnelModel>) -> bool {
    forall|i: int, j: int| 0 <= i < j < ts.len() ==> (#[trigger] ts[i]).name != (#[trigger] ts[j]).name
}

/// No two tunnels share a local port.
pub open spec fn ports_unique(ts: Seq<TunnelModel>) -> bool {
    forall|i: int, j: int| 0 <= i < j < ts.len() ==> (#[trigger] ts[i]).local_port != (#[trigger] ts[j]).local_port
}

proof fn lemma_index_of_name_none(ts: Seq<TunnelModel>, name: Seq<char>)
    requires
        !name_taken(ts, name, -1),
    ensures
        index_of_name(ts, name) is None,
    decreases ts.len(),
{
    if ts.len() > 0 {
        assert forall|i: int| 0 <= i < ts.drop_last().len() && i != -1 implies (#[trigger] ts.drop_last()[i]).name != name by {
            assert(ts.drop_last()[i] == ts[i]);
        }
        lemma_index_of_name_none(ts.drop_last(), name);
        assert(ts[ts.len() - 1] == ts.last());
    }
}

proof fn lemma_first_port_none(ts: Seq<TunnelModel>, port: u16, skip: int, i: int)
    requires
        first_port_index(ts, port, skip) is None,
        0 <= i < ts.len(),
        i != skip,
    ensures
        ts[i].local_port != port,
    decreases ts.len(),
{
    if i < ts.len() - 1 {
        assert(ts.drop_last()[i] == ts[i]);
        lemma_first_port_none(ts.drop_last(), port, skip, i);
    }
}

/// Whether some tunnel of `ts` uses local port `port`.
pub open spec fn port_taken(ts: Seq<TunnelModel>, port: u16) -> bool {
    exists|i: int| 0 <= i < ts.len() && (#[trigger] ts[i]).local_port == port
}

/// Whether tunnel `i` of a batch clashes: its name or its local port is
/// used already by a tunnel of the file or by an earlier tunnel of the
/// batch.
pub open spec fn batch_entry_clashes(file_ts: Seq<TunnelModel>, news: Seq<TunnelModel>, i: int) -> bool {
    let before = file_ts + news.subrange(0, i);
    name_taken(before, news[i].name, -1) || port_taken(before, news[i].local_port)
}

proof fn lemma_last_port_before_some(ts: Seq<TunnelModel>, i: int, port: u16)
    requires
        0 <= i <= ts.len(),
    ensures
        last_port_before(ts, i, port) is Some <==> port_taken(ts.subrange(0, i), port),
    decreases i,
{
    if i > 0 {
        lemma_last_port_before_some(ts, i - 1, port);
        let a = ts.subrange(0, i - 1);
        let b = ts.subrange(0, i);
        if port_taken(a, port) {
            let j = choose|j: int| 0 <= j < a.len() && (#[trigger] a[j]).local_port == port;
            assert(b[j] == a[j]);
        }
        if port_taken(b, port) && ts[i - 1].local_port != port {
            let j = choose|j: int| 0 <= j < b.len() && (#[trigger] b[j]).local_port == port;
            assert(a[j] == b[j]);
        }
        if ts[i - 1].local_port == port {
            assert(b[i - 1] == ts[i - 1]);
        }
    }
}

proof fn lemma_first_port_some(ts: Seq<TunnelModel>, port: u16)
    ensures
        first_port_index(ts, port, -1) is Some <==> port_taken(ts, port),
{
    lemma_first_port_bounds(ts, port, -1);
    if port_taken(ts, port) && first_port_index(ts, port, -1) is None {
        let j = choose|j: int| 0 <= j < ts.len() && (#[trigger] ts[j]).local_port == port;
        lemma_first_port_none(ts, port, -1, j);
    }
}

proof fn lemma_port_taken_concat(a: Seq<TunnelModel>, b: Seq<TunnelModel>, port: u16)
    ensures
        port_taken(a + b, port) <==> port_taken(a, port) || port_taken(b, port),
{
    let c = a + b;
    if port_taken(c, port) {
        let j = choose|j: int| 0 <= j < c.len() && (#[trigger] c[j]).local_port == port;
        if j < a.len() {
            assert(a[j] == c[j]);
        } else {
            assert(b[j - a.len()] == c[j]);
        }
    }
    if port_taken(a, port) {
        let j = choose|j: int| 0 <= j < a.len() && (#[trigger] a[j]).local_port == port;
        assert(c[j] == a[j]);
    }
    if port_taken(b, port) {
        let j = choose|j: int| 0 <= j < b.len() && (#[trigger] b[j]).local_port == port;
        assert(c[a.len() + j] == b[j]);
    }
}

proof fn lemma_batch_error_none_iff(path: Seq<char>, file_ts: Seq<TunnelModel>, news: Seq<TunnelModel>, n: int)
    requires
        0 <= n <= news.len(),
    ensures
        batch_error(path, file_ts, news, n) is None <==> forall|i: int|
            0 <= i < n ==> !#[trigger] batch_entry_clashes(file_ts, news, i),
    decreases n,
{
    if n > 0 {
        lemma_batch_error_none_iff(path, file_ts, news, n - 1);
        let i = n - 1;
        let port = news[i].local_port;
        lemma_last_port_before_some(news, i, port);
        lemma_first_port_some(file_ts, port);
        lemma_port_taken_concat(file_ts, news.subrange(0, i), port);
        let before = file_ts + news.subrange(0, i);
        assert(batch_port_owner(file_ts, news, i, port) is Some <==> port_taken(before, port));
        if batch_error(path, file_ts, news, n - 1) is Some {
            assert(!(forall|j: int| 0 <= j < n ==> !#[trigger] batch_entry_clashes(file_ts, news, j)));
        } else {
            assert(batch_error(path, file_ts, news, n) is None <==> !batch_entry_clashes(file_ts, news, i));
            if !batch_entry_clashes(file_ts, news, i) {
                assert forall|j: int| 0 <= j < n implies !#[trigger] batch_entry_clashes(file_ts, news, j) by {
                    if j < n - 1 {
                        assert(!batch_entry_clashes(file_ts, news, j));
                    }
                }
            }
        }
    }
}

/// Adding a batch of tunnels is refused exactly when one of them, tags in
/// normal form, uses a name or a local port that a tunnel of the file or
/// an earlier tunnel of the batch uses already; otherwise the file ends
/// with the whole batch, in order.
pub proof fn lemma_add_tunnels_refused_iff_clash(file: LoadedFileModel, tunnels: Seq<TunnelModel>)
    ensures
        ({
            let news = tunnels.map_values(|t: TunnelModel| spec_normalize_tunnel(t));
            &&& spec_add_tunnels(file, tunnels) is Err <==> exists|i: int|
                0 <= i < news.len() && #[trigger] batch_entry_clashes(file.tunnels, news, i)
            &&& spec_add_tunnels(file, tunnels) matches Ok(f) ==> f.tunnels == file.tunnels + news
                && f.source == file.source
        }),
{
    let news = tunnels.map_values(|t: TunnelModel| spec_normalize_tunnel(t));
    lemma_batch_error_none_iff(file.source.path, file.tunnels, news, news.len() as int);
}

proof fn lemma_index_of_name_first(ts: Seq<TunnelModel>, name: Seq<char>, p: int)
    requires
        0 <= p < ts.len(),
        ts[p].name == name,
        forall|j: int| 0 <= j < p ==> (#[trigger] ts[j]).name != name,
    ensures
        index_of_name(ts, name) == Some(p),
    decreases ts.len(),
{
    lemma_index_of_name_bounds(ts, name);
    if p < ts.len() - 1 {
        let init = ts.drop_last();
        assert(init[p] == ts[p]);
        assert forall|j: int| 0 <= j < p implies (#[trigger] init[j]).name != name by {
            assert(init[j] == ts[j]);
        }
        lemma_index_of_name_first(init, name, p);
    } else {
        match index_of_name(ts.drop_last(), name) {
            Some(i) => {
                lemma_index_of_name_bounds(ts.drop_last(), name);
                assert(ts.drop_last()[i] == ts[i]);
            },
            None => {},
        }
    }
}

/// Updating the tunnel called `name` replaces that entry, and only a
/// different tunnel can stand in the way: when no other tunnel has the
/// new name or the new local port, the update succeeds and puts the
/// tunnel (tags in normal form) in the entry's place, the others kept
/// (in particular an update that keeps the name succeeds); a refusal for
/// the name or the local port names a tunnel other than the one updated.
pub proof fn lemma_update_replaces_entry(file: LoadedFileModel, name: Seq<char>, tunnel: TunnelModel, p: int)
    requires
        0 <= p < file.tunnels.len(),
        file.tunnels[p].name == name,
        forall|j: int| 0 <= j < p ==> (#[trigger] file.tunnels[j]).name != name,
    ensures
        (forall|j: int|
            0 <= j < file.tunnels.len() && j != p ==> (#[trigger] file.tunnels[j]).name != tunnel.name
                && file.tunnels[j].local_port != tunnel.local_port) ==> spec_update_tunnel(file, name, tunnel)
            == Ok::<LoadedFileModel, EditErrorModel>(
            LoadedFileModel { tunnels: file.tunnels.update(p, spec_normalize_tunnel(tunnel)), ..file },
        ),
        spec_update_tunnel(file, name, tunnel) matches Err(EditErrorModel::DuplicateName { name: n, .. }) ==> n
            == tunnel.name && exists|j: int|
            0 <= j < file.tunnels.len() && j != p && (#[trigger] file.tunnels[j]).name == tunnel.name,
        spec_update_tunnel(file, name, tunnel) matches Err(
            EditErrorModel::DuplicateLocalPort { local_port, existing_name, .. },
        ) ==> local_port == tunnel.local_port && exists|j: int|
            0 <= j < file.tunnels.len() && j != p && (#[trigger] file.tunnels[j]).local_port == tunnel.local_port
                && file.tunnels[j].name == existing_name,
{
    lemma_index_of_name_first(file.tunnels, name, p);
    lemma_first_port_bounds(file.tunnels, tunnel.local_port, p);
}

/// Adding a tunnel to a file: a tunnel of the file with the same name
/// (enabled or not) refuses it for the name; else a tunnel with the same
/// local port refuses it, naming the first such tunnel; else the tunnel
/// (tags in normal form) is appended and the others are kept.
pub proof fn lemma_add_tunnel_outcome(file: LoadedFileModel, tunnel: TunnelModel)
    ensures
        (exists|j: int| 0 <= j < file.tunnels.len() && (#[trigger] file.tunnels[j]).name == tunnel.name)
            ==> spec_add_tunnel(file, tunnel) == Err::<LoadedFileModel, EditErrorModel>(
            EditErrorModel::DuplicateName { path: file.source.path, name: tunnel.name },
        ),
        !(exists|j: int| 0 <= j < file.tunnels.len() && (#[trigger] file.tunnels[j]).name == tunnel.name)
            && (exists|j: int| 0 <= j < file.tunnels.len() && (#[trigger] file.tunnels[j]).local_port == tunnel.local_port)
            ==> (spec_add_tunnel(file, tunnel) matches Err(
            EditErrorModel::DuplicateLocalPort { path, local_port, existing_name },
        ) && path == file.source.path && local_port == tunnel.local_port && exists|j: int|
            0 <= j < file.tunnels.len() && (#[trigger] file.tunnels[j]).local_port == tunnel.local_port
                && file.tunnels[j].name == existing_name && forall|i: int|
                0 <= i < j ==> (#[trigger] file.tunnels[i]).local_port != tunnel.local_port),
        !(exists|j: int|
            0 <= j < file.tunnels.len() && ((#[trigger] file.tunnels[j]).name == tunnel.name
                || file.tunnels[j].local_port == tunnel.local_port)) ==> spec_add_tunnel(file, tunnel) == Ok::<
            LoadedFileModel,
            EditErrorModel,
        >(LoadedFileModel { tunnels: file.tunnels.push(spec_normalize_tunnel(tunnel)), ..file }),
{
    let ts = file.tunnels;
    let port = tunnel.local_port;
    lemma_first_port_bounds(ts, port, -1);
    match first_port_index(ts, port, -1) {
        Some(j) => {
            assert forall|i: int| 0 <= i < j implies (#[trigger] ts[i]).local_port != port by {
                if ts[i].local_port == port {
                    let pre = ts.subrange(0, i + 1);
                    assert(pre[i] == ts[i]);
                    lemma_first_port_some(pre, port);
                    lemma_first_port_bounds(pre, port, -1);
                    lemma_first_port_prefix(ts, port, -1, i + 1);
                }
            }
        },
        None => {
            if exists|j: int| 0 <= j < ts.len() && (#[trigger] ts[j]).local_port == port {
                let j = choose|j: int| 0 <= j < ts.len() && (#[trigger] ts[j]).local_port == port;
                lemma_first_port_none(ts, port, -1, j);
            }
        },
    }
}

proof fn lemma_index_of_name_is_first(ts: Seq<TunnelModel>, name: Seq<char>)
    ensures
        index_of_name(ts, name) matches Some(i) ==> 0 <= i < ts.len() && ts[i].name == name && forall|j: int|
            0 <= j < i ==> (#[trigger] ts[j]).name != name,
        index_of_name(ts, name) is None ==> forall|j: int| 0 <= j < ts.len() ==> (#[trigger] ts[j]).name != name,
    decreases ts.len(),
{
    if ts.len() > 0 {
        let init = ts.drop_last();
        lemma_index_of_name_is_first(init, name);
        assert forall|j: int| 0 <= j < init.len() implies (#[trigger] ts[j]).name == init[j].name by {}
    }
}

/// Removing the tunnel called `name` from a file drops the first tunnel
/// with that name, keeping the others in order; with no such tunnel it is
/// refused as not found.
pub proof fn lemma_remove_tunnel_outcome(file: LoadedFileModel, name: Seq<char>)
    ensures
        (exists|j: int| 0 <= j < file.tunnels.len() && (#[trigger] file.tunnels[j]).name == name) ==> exists|p: int|
            0 <= p < file.tunnels.len() && (#[trigger] file.tunnels[p]).name == name && (forall|i: int|
                0 <= i < p ==> (#[trigger] file.tunnels[i]).name != name) && spec_remove_tunnel(file, name) == Ok::<
                LoadedFileModel,
                EditErrorModel,
            >(LoadedFileModel { tunnels: file.tunnels.remove(p), ..file }),
        !(exists|j: int| 0 <= j < file.tunnels.len() && (#[trigger] file.tunnels[j]).name == name)
            ==> spec_remove_tunnel(file, name) == Err::<LoadedFileModel, EditErrorModel>(
            EditErrorModel::NotFound { path: file.source.path, name },
        ),
{
    lemma_index_of_name_is_first(file.tunnels, name);
    if let Some(p) = index_of_name(file.tunnels, name) {
        assert(file.tunnels[p].name == name);
    }
}

/// Removing a tunnel just added gives back the file as it was.
pub proof fn lemma_add_then_remove(file: LoadedFileModel, tunnel: TunnelModel)
    requires
        spec_add_tunnel(file, tunnel) is Ok,
    ensures
        spec_remove_tunnel(spec_add_tunnel(file, tunnel)->Ok_0, tunnel.name) == Ok::<LoadedFileModel, EditErrorModel>(file),
{
    let t = spec_normalize_tunnel(tunnel);
    let ts = file.tunnels;
    lemma_index_of_name_none(ts, t.name);
    assert(ts.push(t).drop_last() =~= ts);
    assert(index_of_name(ts.push(t), t.name) == Some(ts.len() as int));
    assert(ts.push(t).remove(ts.len() as int) =~= ts);
}

/// Adding a tunnel to a file whose names and local ports are all distinct
/// keeps them distinct.
pub proof fn lemma_add_keeps_names_and_ports_unique(file: LoadedFileModel, tunnel: TunnelModel)
    requires
        names_unique(file.tunnels),
        ports_unique(file.tunnels),
        spec_add_tunnel(file, tunnel) is Ok,
    ensures
        names_unique(spec_add_tunnel(file, tunnel)->Ok_0.tunnels),
        ports_unique(spec_add_tunnel(file, tunnel)->Ok_0.tunnels),
{
    let t = spec_normalize_tunnel(tunnel);
    let ts = file.tunnels;
    let nts = ts.push(t);
    assert(spec_add_tunnel(file, tunnel)->Ok_0.tunnels == nts);
    assert forall|i: int, j: int| 0 <= i < j < nts.len() implies (#[trigger] nts[i]).name != (#[trigger] nts[j]).name by {
        if j == ts.len() {
            assert(nts[i] == ts[i]);
            if ts[i].name == t.name {
                assert(name_taken(ts, t.name, -1));
            }
        } else {
            assert(nts[i] == ts[i]);
            assert(nts[j] == ts[j]);
        }
    }
    assert forall|i: int, j: int| 0 <= i < j < nts.len() implies (#[trigger] nts[i]).local_port != (#[trigger] nts[j]).local_port by {
        if j == ts.len() {
            assert(nts[i] == ts[i]);
            lemma_first_port_none(ts, t.local_port, -1, i);
        } else {
            assert(nts[i] == ts[i]);
            assert(nts[j] == ts[j]);
        }
    }
}

/// Updating a tunnel of a file whose names and local ports are all
/// distinct keeps them distinct.
pub proof fn lemma_update_keeps_names_and_ports_unique(file: LoadedFileModel, name: Seq<char>, tunnel: TunnelModel)
    requires
        names_unique(file.tunnels),
        ports_unique(file.tunnels),
        spec_update_tunnel(file, name, tunnel) is Ok,
    ensures
        names_unique(spec_update_tunnel(file, name, tunnel)->Ok_0.tunnels),
        ports_unique(spec_update_tunnel(file, name, tunnel)->Ok_0.tunnels),
{
    let t = spec_normalize_tunnel(tunnel);
    let ts = file.tunnels;
    let p = index_of_name(ts, name)->Some_0;
    lemma_index_of_name_bounds(ts, name);
    let nts = ts.update(p, t);
    assert(spec_update_tunnel(file, name, tunnel)->Ok_0.tunnels == nts);
    assert forall|i: int, j: int| 0 <= i < j < nts.len() implies (#[trigger] nts[i]).name != (#[trigger] nts[j]).name by {
        if j == p {
            if ts[i].name == t.name {
                assert(name_taken(ts, t.name, p));
            }
        } else if i == p {
            if ts[j].name == t.name {
                assert(name_taken(ts, t.name, p));
            }
        }
    }
    assert forall|i: int, j: int| 0 <= i < j < nts.len() implies (#[trigger] nts[i]).local_port != (#[trigger] nts[j]).local_port by {
        if j == p {
            lemma_first_port_none(ts, t.local_port, p, i);
        } else if i == p {
            lemma_first_port_none(ts, t.local_port, p, j);
        }
    }
}

/// The message of a refused change; paths are shown with the home
/// directory `home` shortened to `~`.
pub open spec fn spec_edit_error_text(e: EditErrorModel, home: Seq<char>) -> Seq<char> {
    match e {
        EditErrorModel::Missing { path } => "Configuration file was not found: "@ + spec_display_path(path, home),
        EditErrorModel::DuplicateName { path, name } => "Tunnel name already exists in configuration file: "@ + name
            + " ("@ + spec_display_path(path, home) + ")"@,
        EditErrorModel::DuplicateLocalPort { path, local_port, existing_name } =>
            "Local port already exists in configuration file: "@ + decimal(local_port as nat) + " ("@ + existing_name
            + ", "@ + spec_display_path(path, home) + ")"@,
        EditErrorModel::NotFound { path, name } => "Tunnel name was not found in configuration file: "@ + name + " ("@
            + spec_display_path(path, home) + ")"@,
    }
}

impl ConfigEditError {
    /// The message of the error, paths shown with `home` shortened to `~`.
    pub fn to_display_string(&self, home: &str) -> (r: String)
        ensures
            r@ == spec_edit_error_text(self@, home@),
    {
        match self {
            ConfigEditError::Missing { path } => concat_str(
                "Configuration file was not found: ",
                format_path_for_display_with_home(path.as_str(), home).as_str(),
            ),
            ConfigEditError::DuplicateName { path, name } => {
                let a = concat_str("Tunnel name already exists in configuration file: ", name.as_str());
                let b = concat_str(a.as_str(), " (");
                let c = concat_str(b.as_str(), format_path_for_display_with_home(path.as_str(), home).as_str());
                concat_str(c.as_str(), ")")
            },
            ConfigEditError::DuplicateLocalPort { path, local_port, existing_name } => {
                let a = concat_str(
                    "Local port already exists in configuration file: ",
                    decimal_string(*local_port as u64).as_str(),
                );
                let b = concat_str(a.as_str(), " (");
                let c = concat_str(b.as_str(), existing_name.as_str());
                let d = concat_str(c.as_str(), ", ");
                let e = concat_str(d.as_str(), format_path_for_display_with_home(path.as_str(), home).as_str());
                concat_str(e.as_str(), ")")
            },
            ConfigEditError::NotFound { path, name } => {
                let a = concat_str("Tunnel name was not found in configuration file: ", name.as_str());
                let b = concat_str(a.as_str(), " (");
                let c = concat_str(b.as_str(), format_path_for_display_with_home(path.as_str(), home).as_str());
                concat_str(c.as_str(), ")")
            },
        }
    }
}

} // verus!
