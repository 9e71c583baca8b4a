//! Choosing tunnels and recorded states: by name and scope, by tag and
//! query for the list, in order of name, and the stale ones to recover.

use vstd::prelude::*;

use crate::config::{ConfigSourceKind, EffectiveConfig, ResolvedModel, ResolvedTunnelConfig};
use crate::display::{spec_matches_query, tunnel_matches_list_query};
use crate::order::{is_stable_name_order, stable_name_order};
use crate::state::{StateModel, spec_runtime_id};
use crate::tags::{filter_tunnels_by_tags, has_all_tags, spec_normalize_tags};
use crate::text::str_eq;
use crate::tunnel::{ProcessState, TunnelRuntimeStatus};

verus! {

// ---------------------------------------------------------------------
// Finding a tunnel
// ---------------------------------------------------------------------

/// Whether a merged tunnel fits a search: from a file of kind `kind`
/// when given, called `name` when given, not called `other_than` when
/// given, and on local port `port` when given.
pub open spec fn fits(
    r: ResolvedModel,
    kind: Option<ConfigSourceKind>,
    name: Option<Seq<char>>,
    other_than: Option<Seq<char>>,
    port: Option<u16>,
) -> bool {
    &&& (kind matches Some(k) ==> r.source.kind == k)
    &&& (name matches Some(n) ==> r.tunnel.name == n)
    &&& (other_than matches Some(o) ==> r.tunnel.name != o)
    &&& (port matches Some(p) ==> r.tunnel.local_port == p)
}

/// The position of the first merged tunnel that fits a search.
pub open spec fn first_fit(
    ts: Seq<ResolvedModel>,
    kind: Option<ConfigSourceKind>,
    name: Option<Seq<char>>,
    other_than: Option<Seq<char>>,
    port: Option<u16>,
) -> Option<int>
    decreases ts.len(),
{
    if ts.len() == 0 {
        None
    } else {
        match first_fit(ts.drop_last(), kind, name, other_than, port) {
            Some(i) => Some(i),
            None => if fits(ts.last(), kind, name, other_than, port) {
                Some(ts.len() - 1)
            } else {
                None
            },
        }
    }
}

proof fn lemma_first_fit(
    ts: Seq<ResolvedModel>,
    kind: Option<ConfigSourceKind>,
    name: Option<Seq<char>>,
    other_than: Option<Seq<char>>,
    port: Option<u16>,
)
    ensures
        first_fit(ts, kind, name, other_than, port) matches Some(i) ==> 0 <= i < ts.len() && fits(
            ts[i],
            kind,
            name,
            other_than,
            port,
        ) && forall|j: int| 0 <= j < i ==> !fits(#[trigger] ts[j], kind, name, other_than, port),
        first_fit(ts, kind, name, other_than, port) is None ==> forall|j: int|
            0 <= j < ts.len() ==> !fits(#[trigger] ts[j], kind, name, other_than, port),
    decreases ts.len(),
{
    if ts.len() > 0 {
        lemma_first_fit(ts.drop_last(), kind, name, other_than, port);
        assert forall|j: int| 0 <= j < ts.len() - 1 implies #[trigger] ts[j] == ts.drop_last()[j] by {}
    }
}

proof fn lemma_first_fit_is(
    ts: Seq<ResolvedModel>,
    kind: Option<ConfigSourceKind>,
    name: Option<Seq<char>>,
    other_than: Option<Seq<char>>,
    port: Option<u16>,
    k: int,
)
    requires
        0 <= k < ts.len(),
        fits(ts[k], kind, name, other_than, port),
        forall|j: int| 0 <= j < k ==> !fits(#[trigger] ts[j], kind, name, other_than, port),
    ensures
        first_fit(ts, kind, name, other_than, port) == Some(k),
{
    lemma_first_fit(ts, kind, name, other_than, port);
    match first_fit(ts, kind, name, other_than, port) {
        Some(i) => {
            if i < k {
                assert(!fits(ts[i], kind, name, other_than, port));
            } else if i > k {
                assert(!fits(ts[k], kind, name, other_than, port));
            }
        },
        None => {
            assert(!fits(ts[k], kind, name, other_than, port));
        },
    }
}

/// The view of an optional text.
pub open spec fn opt_text(s: Option<&str>) -> Option<Seq<char>> {
    match s {
        Some(t) => Some(t@),
        None => None,
    }
}

/// The position of the first merged tunnel that fits a search.
fn find_fit(
    ts: &[ResolvedTunnelConfig],
    kind: Option<ConfigSourceKind>,
    name: Option<&str>,
    other_than: Option<&str>,
    port: Option<u16>,
) -> (r: Option<usize>)
    ensures
        match r {
            Some(k) => first_fit(ts@.map_values(|t: ResolvedTunnelConfig| t@), kind, opt_text(name), opt_text(other_than), port)
                == Some(k as int) && k < ts@.len(),
            None => first_fit(ts@.map_values(|t: ResolvedTunnelConfig| t@), kind, opt_text(name), opt_text(other_than), port) is None,
        },
{
    let ghost tv = ts@.map_values(|t: ResolvedTunnelConfig| t@);
    let ghost nv = opt_text(name);
    let ghost ov = opt_text(other_than);
    proof {
        lemma_first_fit(tv, kind, nv, ov, port);
    }
    let mut i: usize = 0;
    while i < ts.len()
        invariant
            tv == ts@.map_values(|t: ResolvedTunnelConfig| t@),
            nv == opt_text(name),
            ov == opt_text(other_than),
            i <= tv.len(),
            forall|j: int| 0 <= j < i ==> !fits(#[trigger] tv[j], kind, nv, ov, port),
        decreases tv.len() - i,
    {
        let t = &ts[i];
        assert(tv[i as int] == t@);
        let kind_ok = match kind {
            Some(k) => t.source.kind == k,
            None => true,
        };
        let name_ok = match name {
            Some(n) => str_eq(t.tunnel.name.as_str(), n),
            None => true,
        };
        let other_ok = match other_than {
            Some(o) => !str_eq(t.tunnel.name.as_str(), o),
            None => true,
        };
        let port_ok = match port {
            Some(p) => t.tunnel.local_port == p,
            None => true,
        };
        if kind_ok && name_ok && other_ok && port_ok {
            proof {
                lemma_first_fit_is(tv, kind, nv, ov, port, i as int);
            }
            return Some(i);
        }
        i += 1;
    }
    None
}

/// The first merged tunnel that fits a search, in `ts`.
pub open spec fn fit_result<'a>(
    r: Option<&'a ResolvedTunnelConfig>,
    ts: Seq<ResolvedModel>,
    kind: Option<ConfigSourceKind>,
    name: Option<Seq<char>>,
    other_than: Option<Seq<char>>,
    port: Option<u16>,
) -> bool {
    match first_fit(ts, kind, name, other_than, port) {
        Some(i) => r matches Some(x) && x@ == ts[i],
        None => r is None,
    }
}

/// The first tunnel of the given scope already called `tunnel_id`.
pub fn find_tunnel_id_conflict<'a>(config: &'a EffectiveConfig, scope: ConfigSourceKind, tunnel_id: &str) -> (r: Option<
    &'a ResolvedTunnelConfig,
>)
    ensures
        fit_result(r, config@.tunnels, Some(scope), Some(tunnel_id@), None, None),
{
    let ts = config.tunnels.as_slice();
    assert(ts@.map_values(|t: ResolvedTunnelConfig| t@) =~= config@.tunnels);
    match find_fit(ts, Some(scope), Some(tunnel_id), None, None) {
        Some(i) => Some(&ts[i]),
        None => None,
    }
}

/// The first tunnel of the given scope, other than the one being updated
/// (`current_id`), already called `tunnel_id`.
pub fn find_tunnel_id_conflict_for_update<'a>(
    config: &'a EffectiveConfig,
    scope: ConfigSourceKind,
    current_id: &str,
    tunnel_id: &str,
) -> (r: Option<&'a ResolvedTunnelConfig>)
    ensures
        fit_result(r, config@.tunnels, Some(scope), Some(tunnel_id@), Some(current_id@), None),
{
    let ts = config.tunnels.as_slice();
    assert(ts@.map_values(|t: ResolvedTunnelConfig| t@) =~= config@.tunnels);
    match find_fit(ts, Some(scope), Some(tunnel_id), Some(current_id), None) {
        Some(i) => Some(&ts[i]),
        None => None,
    }
}

/// The first tunnel of the given scope, other than `tunnel_id` itself,
/// already on `local_port`.
pub fn find_local_port_conflict<'a>(
    config: &'a EffectiveConfig,
    scope: ConfigSourceKind,
    tunnel_id: &str,
    local_port: u16,
) -> (r: Option<&'a ResolvedTunnelConfig>)
    ensures
        fit_result(r, config@.tunnels, Some(scope), None, Some(tunnel_id@), Some(local_port)),
{
    let ts = config.tunnels.as_slice();
    assert(ts@.map_values(|t: ResolvedTunnelConfig| t@) =~= config@.tunnels);
    match find_fit(ts, Some(scope), None, Some(tunnel_id), Some(local_port)) {
        Some(i) => Some(&ts[i]),
        None => None,
    }
}

/// The first tunnel, of any scope, called `name`.
pub fn find_tunnel_id_conflict_any<'a>(config: &'a EffectiveConfig, name: &str) -> (r: Option<&'a ResolvedTunnelConfig>)
    ensures
        fit_result(r, config@.tunnels, None, Some(name@), None, None),
{
    let ts = config.tunnels.as_slice();
    assert(ts@.map_values(|t: ResolvedTunnelConfig| t@) =~= config@.tunnels);
    match find_fit(ts, None, Some(name), None, None) {
        Some(i) => Some(&ts[i]),
        None => None,
    }
}

/// The first tunnel, of any scope, on `local_port`.
pub fn find_local_port_user<'a>(config: &'a EffectiveConfig, local_port: u16) -> (r: Option<&'a ResolvedTunnelConfig>)
    ensures
        fit_result(r, config@.tunnels, None, None, None, Some(local_port)),
{
    let ts = config.tunnels.as_slice();
    assert(ts@.map_values(|t: ResolvedTunnelConfig| t@) =~= config@.tunnels);
    match find_fit(ts, None, None, None, Some(local_port)) {
        Some(i) => Some(&ts[i]),
        None => None,
    }
}

/// The tunnel a bare name means: in the given scope; without one, the
/// local tunnel of that name, else the global one.
pub open spec fn spec_name_lookup(ts: Seq<ResolvedModel>, name: Seq<char>, scope: Option<ConfigSourceKind>) -> Option<int> {
    match scope {
        Some(k) => first_fit(ts, Some(k), Some(name), None, None),
        None => match first_fit(ts, Some(ConfigSourceKind::Local), Some(name), None, None) {
            Some(i) => Some(i),
            None => first_fit(ts, Some(ConfigSourceKind::Global), Some(name), None, None),
        },
    }
}

/// The tunnel a name means: in the given scope; without one, the local
/// tunnel of that name, else the global one.
pub fn find_tunnel_by_name<'a>(config: &'a EffectiveConfig, name: &str, scope: Option<ConfigSourceKind>) -> (r: Option<
    &'a ResolvedTunnelConfig,
>)
    ensures
        match spec_name_lookup(config@.tunnels, name@, scope) {
            Some(i) => r matches Some(x) && x@ == config@.tunnels[i],
            None => r is None,
        },
{
    let ts = config.tunnels.as_slice();
    assert(ts@.map_values(|t: ResolvedTunnelConfig| t@) =~= config@.tunnels);
    let found = match scope {
        Some(k) => find_fit(ts, Some(k), Some(name), None, None),
        None => match find_fit(ts, Some(ConfigSourceKind::Local), Some(name), None, None) {
            Some(i) => Some(i),
            None => find_fit(ts, Some(ConfigSourceKind::Global), Some(name), None, None),
        },
    };
    match found {
        Some(i) => Some(&ts[i]),
        None => None,
    }
}

/// The position of the tunnel a name means (see [`find_tunnel_by_name`]).
pub fn name_position(config: &EffectiveConfig, name: &str, scope: Option<ConfigSourceKind>) -> (r: Option<usize>)
    ensures
        match r {
            Some(i) => spec_name_lookup(config@.tunnels, name@, scope) == Some(i as int) && i < config@.tunnels.len(),
            None => spec_name_lookup(config@.tunnels, name@, scope) is None,
        },
{
    let ts = config.tunnels.as_slice();
    assert(ts@.map_values(|t: ResolvedTunnelConfig| t@) =~= config@.tunnels);
    match scope {
        Some(k) => find_fit(ts, Some(k), Some(name), None, None),
        None => match find_fit(ts, Some(ConfigSourceKind::Local), Some(name), None, None) {
            Some(i) => Some(i),
            None => find_fit(ts, Some(ConfigSourceKind::Global), Some(name), None, None),
        },
    }
}

/// The tunnels the names mean, in the order of the names; refused when a
/// name means none.
pub fn find_tunnels_by_names<'a>(config: &'a EffectiveConfig, names: &[String], scope: Option<ConfigSourceKind>) -> (r: Result<
    Vec<&'a ResolvedTunnelConfig>,
    (),
>)
    ensures
        match r {
            Ok(v) => v@.len() == names@.len() && forall|k: int|
                0 <= k < names@.len() ==> (spec_name_lookup(config@.tunnels, (#[trigger] names@[k])@, scope) matches Some(
                    i,
                ) && v@[k]@ == config@.tunnels[i]),
            Err(_) => exists|k: int|
                0 <= k < names@.len() && spec_name_lookup(config@.tunnels, (#[trigger] names@[k])@, scope) is None,
        },
{
    let mut out: Vec<&'a ResolvedTunnelConfig> = Vec::new();
    let mut k: usize = 0;
    while k < names.len()
        invariant
            k <= names@.len(),
            out@.len() == k,
            forall|j: int|
                0 <= j < k ==> (spec_name_lookup(config@.tunnels, (#[trigger] names@[j])@, scope) matches Some(i)
                    && out@[j]@ == config@.tunnels[i]),
        decreases names@.len() - k,
    {
        match find_tunnel_by_name(config, names[k].as_str(), scope) {
            Some(t) => {
                out.push(t);
            },
            None => {
                return Err(());
            },
        }
        k += 1;
    }
    Ok(out)
}

/// The position of the first tunnel whose runtime ID is `runtime_id`,
/// the normalized source path of each tunnel given at its position.
pub open spec fn runtime_id_position(ts: Seq<ResolvedModel>, paths: Seq<Seq<char>>, runtime_id: Seq<char>, n: int) -> Option<int>
    decreases n,
{
    if n <= 0 {
        None
    } else {
        match runtime_id_position(ts, paths, runtime_id, n - 1) {
            Some(i) => Some(i),
            None => if spec_runtime_id(ts[n - 1].source.kind, paths[n - 1], ts[n - 1].tunnel.name) == runtime_id {
                Some(n - 1)
            } else {
                None
            },
        }
    }
}

/// The first tunnel whose runtime ID is `runtime_id`; the normalized
/// source path of each tunnel is given at its position.
pub fn find_tunnel_by_runtime_id<'a>(
    config: &'a EffectiveConfig,
    normalized_source_paths: &Vec<String>,
    runtime_id: &str,
) -> (r: Option<&'a ResolvedTunnelConfig>)
    requires
        normalized_source_paths@.len() == config@.tunnels.len(),
    ensures
        match runtime_id_position(
            config@.tunnels,
            normalized_source_paths.deep_view(),
            runtime_id@,
            config@.tunnels.len() as int,
        ) {
            Some(i) => r matches Some(x) && x@ == config@.tunnels[i],
            None => r is None,
        },
{
    let ghost tv = config@.tunnels;
    let ghost pv = normalized_source_paths.deep_view();
    let mut i: usize = 0;
    while i < config.tunnels.len()
        invariant
            tv == config@.tunnels,
            pv == normalized_source_paths.deep_view(),
            pv.len() == tv.len(),
            i <= tv.len(),
            runtime_id_position(tv, pv, runtime_id@, i as int) is None,
        decreases tv.len() - i,
    {
        let t = &config.tunnels[i];
        assert(tv[i as int] == t@);
        assert(pv[i as int] == normalized_source_paths@[i as int]@);
        let id = crate::state::runtime_id_for_resolved_tunnel(t, normalized_source_paths[i].as_str());
        if str_eq(id.as_str(), runtime_id) {
            proof {
                lemma_runtime_id_position_stays(tv, pv, runtime_id@, i + 1, tv.len() as int);
            }
            return Some(t);
        }
        i += 1;
    }
    None
}

proof fn lemma_runtime_id_position_stays(ts: Seq<ResolvedModel>, paths: Seq<Seq<char>>, id: Seq<char>, n: int, m: int)
    requires
        n <= m,
        runtime_id_position(ts, paths, id, n) is Some,
    ensures
        runtime_id_position(ts, paths, id, m) == runtime_id_position(ts, paths, id, n),
    decreases m - n,
{
    if m > n {
        lemma_runtime_id_position_stays(ts, paths, id, n, m - 1);
    }
}

// ---------------------------------------------------------------------
// Finding a recorded state
// ---------------------------------------------------------------------

/// The position of the first status of a tunnel from a file of kind
/// `kind` called `name`.
pub open spec fn first_status(ss: Seq<StateModel>, kind: ConfigSourceKind, name: Seq<char>) -> Option<int>
    decreases ss.len(),
{
    if ss.len() == 0 {
        None
    } else {
        match first_status(ss.drop_last(), kind, name) {
            Some(i) => Some(i),
            None => if ss.last().source_kind == kind && ss.last().name == name {
                Some(ss.len() - 1)
            } else {
                None
            },
        }
    }
}

/// The states of a list of statuses.
pub open spec fn status_states(statuses: Seq<TunnelRuntimeStatus>) -> Seq<StateModel> {
    statuses.map_values(|s: TunnelRuntimeStatus| s.state@)
}

/// The status a bare name means: in the given scope; without one, the
/// local tunnel of that name, else the global one.
pub open spec fn spec_status_lookup(ss: Seq<StateModel>, name: Seq<char>, scope: Option<ConfigSourceKind>) -> Option<int> {
    match scope {
        Some(k) => first_status(ss, k, name),
        None => match first_status(ss, ConfigSourceKind::Local, name) {
            Some(i) => Some(i),
            None => first_status(ss, ConfigSourceKind::Global, name),
        },
    }
}

proof fn lemma_first_status(ss: Seq<StateModel>, kind: ConfigSourceKind, name: Seq<char>, k: int)
    requires
        0 <= k <= ss.len(),
        forall|j: int| 0 <= j < k ==> !((#[trigger] ss[j]).source_kind == kind && ss[j].name == name),
    ensures
        k < ss.len() && ss[k].source_kind == kind && ss[k].name == name ==> first_status(ss, kind, name) == Some(k),
        k == ss.len() ==> first_status(ss, kind, name) is None,
    decreases ss.len(),
{
    if ss.len() > 0 {
        if k < ss.len() {
            if k < ss.len() - 1 {
                assert forall|j: int| 0 <= j < k implies !((#[trigger] ss.drop_last()[j]).source_kind == kind
                    && ss.drop_last()[j].name == name) by {
                    assert(ss.drop_last()[j] == ss[j]);
                }
                assert(ss.drop_last()[k] == ss[k]);
                lemma_first_status(ss.drop_last(), kind, name, k);
            } else {
                assert forall|j: int| 0 <= j < k implies !((#[trigger] ss.drop_last()[j]).source_kind == kind
                    && ss.drop_last()[j].name == name) by {
                    assert(ss.drop_last()[j] == ss[j]);
                }
                lemma_first_status(ss.drop_last(), kind, name, k);
            }
        } else {
            assert forall|j: int| 0 <= j < k - 1 implies !((#[trigger] ss.drop_last()[j]).source_kind == kind
                && ss.drop_last()[j].name == name) by {
                assert(ss.drop_last()[j] == ss[j]);
            }
            lemma_first_status(ss.drop_last(), kind, name, k - 1);
        }
    }
}

/// The position of the first status of a tunnel from a file of kind
/// `kind` called `name`.
fn find_status(statuses: &[TunnelRuntimeStatus], kind: ConfigSourceKind, name: &str) -> (r: Option<usize>)
    ensures
        match first_status(status_states(statuses@), kind, name@) {
            Some(i) => r == Some(i as usize),
            None => r is None,
        },
{
    let ghost sv = status_states(statuses@);
    let mut i: usize = 0;
    while i < statuses.len()
        invariant
            sv == status_states(statuses@),
            i <= sv.len(),
            forall|j: int| 0 <= j < i ==> !((#[trigger] sv[j]).source_kind == kind && sv[j].name == name@),
        decreases sv.len() - i,
    {
        assert(sv[i as int] == statuses@[i as int].state@);
        if statuses[i].state.source_kind == kind && str_eq(statuses[i].state.name.as_str(), name) {
            proof {
                lemma_first_status(sv, kind, name@, i as int);
            }
            return Some(i);
        }
        i += 1;
    }
    proof {
        lemma_first_status(sv, kind, name@, i as int);
    }
    None
}

/// The status a name means: in the given scope; without one, the local
/// tunnel of that name, else the global one.
pub fn find_status_by_name<'a>(statuses: &'a [TunnelRuntimeStatus], name: &str, scope: Option<ConfigSourceKind>) -> (r: Option<
    &'a TunnelRuntimeStatus,
>)
    ensures
        match spec_status_lookup(status_states(statuses@), name@, scope) {
            Some(i) => r matches Some(x) && *x == statuses@[i],
            None => r is None,
        },
{
    let found = match scope {
        Some(k) => find_status(statuses, k, name),
        None => match find_status(statuses, ConfigSourceKind::Local, name) {
            Some(i) => Some(i),
            None => find_status(statuses, ConfigSourceKind::Global, name),
        },
    };
    match found {
        Some(i) => {
            proof {
                let sv = status_states(statuses@);
                lemma_status_lookup_bounds(sv, name@, scope);
            }
            Some(&statuses[i])
        },
        None => None,
    }
}

proof fn lemma_first_status_bounds(ss: Seq<StateModel>, kind: ConfigSourceKind, name: Seq<char>)
    ensures
        first_status(ss, kind, name) matches Some(i) ==> 0 <= i < ss.len(),
    decreases ss.len(),
{
    if ss.len() > 0 {
        lemma_first_status_bounds(ss.drop_last(), kind, name);
    }
}

proof fn lemma_status_lookup_bounds(ss: Seq<StateModel>, name: Seq<char>, scope: Option<ConfigSourceKind>)
    ensures
        spec_status_lookup(ss, name, scope) matches Some(i) ==> 0 <= i < ss.len(),
{
    lemma_first_status_bounds(ss, ConfigSourceKind::Local, name);
    lemma_first_status_bounds(ss, ConfigSourceKind::Global, name);
    if let Some(k) = scope {
        lemma_first_status_bounds(ss, k, name);
    }
}

/// The statuses the names mean, in the order of the names; refused when a
/// name means none.
pub fn find_statuses_by_names<'a>(statuses: &'a [TunnelRuntimeStatus], names: &[String], scope: Option<ConfigSourceKind>) -> (r: Result<
    Vec<&'a TunnelRuntimeStatus>,
    (),
>)
    ensures
        match r {
            Ok(v) => v@.len() == names@.len() && forall|k: int|
                0 <= k < names@.len() ==> (spec_status_lookup(status_states(statuses@), (#[trigger] names@[k])@, scope) matches Some(
                    i,
                ) && *v@[k] == statuses@[i]),
            Err(_) => exists|k: int|
                0 <= k < names@.len() && spec_status_lookup(status_states(statuses@), (#[trigger] names@[k])@, scope) is None,
        },
{
    let mut out: Vec<&'a TunnelRuntimeStatus> = Vec::new();
    let mut k: usize = 0;
    while k < names.len()
        invariant
            k <= names@.len(),
            out@.len() == k,
            forall|j: int|
                0 <= j < k ==> (spec_status_lookup(status_states(statuses@), (#[trigger] names@[j])@, scope) matches Some(
                    i,
                ) && *out@[j] == statuses@[i]),
        decreases names@.len() - k,
    {
        match find_status_by_name(statuses, names[k].as_str(), scope) {
            Some(s) => {
                out.push(s);
            },
            None => {
                return Err(());
            },
        }
        k += 1;
    }
    Ok(out)
}

// ---------------------------------------------------------------------
// Order by name
// ---------------------------------------------------------------------

/// The tunnel names of statuses.
pub open spec fn status_names(statuses: Seq<TunnelRuntimeStatus>) -> Seq<Seq<char>> {
    statuses.map_values(|s: TunnelRuntimeStatus| s.state.name@)
}

/// The names of merged tunnels held by reference.
pub open spec fn ref_names(tunnels: Seq<&ResolvedTunnelConfig>) -> Seq<Seq<char>> {
    tunnels.map_values(|t: &ResolvedTunnelConfig| t.tunnel.name@)
}

/// The statuses ordered by tunnel name, equal names kept in their order.
pub fn sorted_statuses_by_id(statuses: &[TunnelRuntimeStatus]) -> (r: Vec<&TunnelRuntimeStatus>)
    ensures
        exists|idx: Seq<int>|
            #[trigger] is_stable_name_order(status_names(statuses@), idx) && r@.len() == idx.len() && forall|k: int|
                0 <= k < idx.len() ==> *(#[trigger] r@[k]) == statuses@[idx[k]],
{
    let ghost nv = status_names(statuses@);
    let mut names: Vec<String> = Vec::new();
    let mut i: usize = 0;
    while i < statuses.len()
        invariant
            i <= statuses@.len(),
            names.deep_view() == nv.subrange(0, i as int),
            nv == status_names(statuses@),
        decreases statuses@.len() - i,
    {
        let ghost before = names.deep_view();
        names.push(statuses[i].state.name.clone());
        assert(names.deep_view() =~= before.push(nv[i as int]));
        i += 1;
        assert(names.deep_view() =~= nv.subrange(0, i as int));
    }
    assert(nv.subrange(0, i as int) =~= nv);
    let order = stable_name_order(&names);
    let ghost idx = order@.map_values(|k: usize| k as int);
    let mut out: Vec<&TunnelRuntimeStatus> = Vec::new();
    let mut k: usize = 0;
    while k < order.len()
        invariant
            idx == order@.map_values(|k: usize| k as int),
            is_stable_name_order(nv, idx),
            nv.len() == statuses@.len(),
            k <= order@.len(),
            out@.len() == k,
            forall|j: int| 0 <= j < k ==> *(#[trigger] out@[j]) == statuses@[idx[j]],
        decreases order@.len() - k,
    {
        assert(idx[k as int] == order@[k as int] as int);
        out.push(&statuses[order[k]]);
        k += 1;
    }
    out
}

/// The merged tunnels ordered by name, equal names kept in their order.
pub fn sorted_tunnels_by_id<'a>(tunnels: &Vec<&'a ResolvedTunnelConfig>) -> (r: Vec<&'a ResolvedTunnelConfig>)
    ensures
        exists|idx: Seq<int>|
            #[trigger] is_stable_name_order(ref_names(tunnels@), idx) && r@.len() == idx.len() && forall|k: int|
                0 <= k < idx.len() ==> (#[trigger] r@[k]) == tunnels@[idx[k]],
{
    let ghost nv = ref_names(tunnels@);
    let mut names: Vec<String> = Vec::new();
    let mut i: usize = 0;
    while i < tunnels.len()
        invariant
            i <= tunnels@.len(),
            names.deep_view() == nv.subrange(0, i as int),
            nv == ref_names(tunnels@),
        decreases tunnels@.len() - i,
    {
        let ghost before = names.deep_view();
        names.push(tunnels[i].tunnel.name.clone());
        assert(names.deep_view() =~= before.push(nv[i as int]));
        i += 1;
        assert(names.deep_view() =~= nv.subrange(0, i as int));
    }
    assert(nv.subrange(0, i as int) =~= nv);
    let order = stable_name_order(&names);
    let ghost idx = order@.map_values(|k: usize| k as int);
    let mut out: Vec<&'a ResolvedTunnelConfig> = Vec::new();
    let mut k: usize = 0;
    while k < order.len()
        invariant
            idx == order@.map_values(|k: usize| k as int),
            is_stable_name_order(nv, idx),
            nv.len() == tunnels@.len(),
            k <= order@.len(),
            out@.len() == k,
            forall|j: int| 0 <= j < k ==> (#[trigger] out@[j]) == tunnels@[idx[j]],
        decreases order@.len() - k,
    {
        assert(idx[k as int] == order@[k as int] as int);
        out.push(tunnels[order[k]]);
        k += 1;
    }
    out
}

// ---------------------------------------------------------------------
// Choosing tunnels for the list
// ---------------------------------------------------------------------

/// Whether a merged tunnel has every one of the tags (compared in normal
/// form).
pub open spec fn has_tags(t: ResolvedModel, tags: Seq<Seq<char>>) -> bool {
    has_all_tags(t.tunnel, spec_normalize_tags(tags))
}

/// The merged tunnels that have every one of the tags, in order.
pub open spec fn tagged(ts: Seq<ResolvedModel>, tags: Seq<Seq<char>>) -> Seq<ResolvedModel> {
    ts.filter(|t: ResolvedModel| has_tags(t, tags))
}

/// The names of merged tunnels.
pub open spec fn resolved_names(ts: Seq<ResolvedModel>) -> Seq<Seq<char>> {
    ts.map_values(|t: ResolvedModel| t.tunnel.name)
}

/// Whether `sorted` holds the tunnels of `ts` ordered by name, equal
/// names kept in their order.
pub open spec fn sorted_by_name(ts: Seq<ResolvedModel>, sorted: Seq<ResolvedModel>) -> bool {
    exists|idx: Seq<int>|
        #[trigger] is_stable_name_order(resolved_names(ts), idx) && sorted.len() == idx.len() && forall|k: int|
            0 <= k < idx.len() ==> #[trigger] sorted[k] == ts[idx[k]]
}

/// The merged tunnels that have every one of `tags`, ordered by name
/// (equal names kept in their order).
pub fn select_tunnels_for_tags<'a>(config: &'a EffectiveConfig, tags: &[String]) -> (r: Vec<&'a ResolvedTunnelConfig>)
    ensures
        sorted_by_name(tagged(config@.tunnels, tags.deep_view()), r@.map_values(|t: &ResolvedTunnelConfig| t@)),
{
    let ts = config.tunnels.as_slice();
    let ghost tv = ts@.map_values(|t: ResolvedTunnelConfig| t@);
    assert(tv =~= config@.tunnels);
    let ghost tagsv = tags.deep_view();
    assert(tags@.map_values(|s: String| s@) =~= tagsv);
    let chosen = filter_tunnels_by_tags(ts, tags);
    let ghost cv = chosen@.map_values(|t: &ResolvedTunnelConfig| t@);
    assert(cv =~= chosen.deep_view());
    let sorted = sorted_tunnels_by_id(&chosen);
    proof {
        let pred1 = |t: ResolvedModel| has_all_tags(t.tunnel, spec_normalize_tags(tags@.map_values(|s: String| s@)));
        let pred2 = |t: ResolvedModel| has_tags(t, tagsv);
        assert(pred1 =~= pred2);
        let names1 = ref_names(chosen@);
        assert(names1 =~= resolved_names(cv));
        let idx = choose|idx: Seq<int>|
            is_stable_name_order(names1, idx) && sorted@.len() == idx.len() && forall|k: int|
                0 <= k < idx.len() ==> (#[trigger] sorted@[k]) == chosen@[idx[k]];
        let sv = sorted@.map_values(|t: &ResolvedTunnelConfig| t@);
        assert forall|k: int| 0 <= k < idx.len() implies #[trigger] sv[k] == cv[idx[k]] by {
            assert(sorted@[k] == chosen@[idx[k]]);
        }
        assert(sorted_by_name(cv, sv));
        assert(cv == tagged(config@.tunnels, tagsv));
    }
    sorted
}

/// The test that keeps the tunnels from a file of kind `k`.
pub open spec fn of_kind<'a>(k: ConfigSourceKind) -> spec_fn(&'a ResolvedTunnelConfig) -> bool {
    |t: &'a ResolvedTunnelConfig| t.source.kind == k
}

/// The tunnels from a file of kind `scope` when one is given, in order.
pub open spec fn in_scope<'a>(tunnels: Seq<&'a ResolvedTunnelConfig>, scope: Option<ConfigSourceKind>) -> Seq<
    &'a ResolvedTunnelConfig,
> {
    match scope {
        Some(k) => tunnels.filter(of_kind(k)),
        None => tunnels,
    }
}

/// The merged tunnels from a file of kind `scope` when one is given, in
/// order.
pub fn select_tunnels_for_scope<'a>(tunnels: Vec<&'a ResolvedTunnelConfig>, scope: Option<ConfigSourceKind>) -> (r: Vec<
    &'a ResolvedTunnelConfig,
>)
    ensures
        r@ == in_scope(tunnels@, scope),
{
    let k = match scope {
        None => {
            return tunnels;
        },
        Some(k) => k,
    };
    let ghost pred = of_kind(k);
    let mut out: Vec<&'a ResolvedTunnelConfig> = Vec::new();
    let mut i: usize = 0;
    while i < tunnels.len()
        invariant
            i <= tunnels@.len(),
            pred == of_kind(k),
            out@ == tunnels@.subrange(0, i as int).filter(pred),
        decreases tunnels@.len() - i,
    {
        reveal_with_fuel(Seq::<_>::filter, 1);
        if tunnels[i].source.kind == k {
            out.push(tunnels[i]);
        }
        i += 1;
        assert(tunnels@.subrange(0, i as int).drop_last() =~= tunnels@.subrange(0, i - 1));
    }
    assert(tunnels@.subrange(0, i as int) =~= tunnels@);
    out
}

/// The tunnels of the list: those with every one of `tags`, ordered by
/// name, then those matching `query` when one is given.
pub fn select_tunnels_for_list<'a>(config: &'a EffectiveConfig, tags: &[String], query: Option<&str>) -> (r: Vec<
    &'a ResolvedTunnelConfig,
>)
    ensures
        exists|sorted: Seq<ResolvedModel>|
            #[trigger] sorted_by_name(tagged(config@.tunnels, tags.deep_view()), sorted) && r@.map_values(
                |t: &ResolvedTunnelConfig| t@,
            ) == match query {
                Some(q) => sorted.filter(|t: ResolvedModel| spec_matches_query(t.tunnel, q@)),
                None => sorted,
            },
{
    let base = select_tunnels_for_tags(config, tags);
    let ghost bv = base@.map_values(|t: &ResolvedTunnelConfig| t@);
    let q = match query {
        None => {
            return base;
        },
        Some(q) => q,
    };
    let ghost pred = |t: ResolvedModel| spec_matches_query(t.tunnel, q@);
    let mut out: Vec<&'a ResolvedTunnelConfig> = Vec::new();
    let mut i: usize = 0;
    while i < base.len()
        invariant
            i <= base@.len(),
            bv == base@.map_values(|t: &ResolvedTunnelConfig| t@),
            pred == (|t: ResolvedModel| spec_matches_query(t.tunnel, q@)),
            out@.map_values(|t: &ResolvedTunnelConfig| t@) == bv.subrange(0, i as int).filter(pred),
        decreases base@.len() - i,
    {
        reveal_with_fuel(Seq::<_>::filter, 1);
        let ghost prev = out@.map_values(|t: &ResolvedTunnelConfig| t@);
        if tunnel_matches_list_query(&base[i].tunnel, q) {
            out.push(base[i]);
            assert(out@.map_values(|t: &ResolvedTunnelConfig| t@) =~= prev.push(bv[i as int]));
        } else {
            assert(out@.map_values(|t: &ResolvedTunnelConfig| t@) =~= prev);
        }
        i += 1;
        assert(bv.subrange(0, i as int).drop_last() =~= bv.subrange(0, i - 1));
    }
    assert(bv.subrange(0, i as int) =~= bv);
    assert(sorted_by_name(tagged(config@.tunnels, tags.deep_view()), bv));
    out
}

// ---------------------------------------------------------------------
// Stale tunnels
// ---------------------------------------------------------------------

/// Whether a status is in the given scope (any when none is given).
pub open spec fn spec_in_scope(s: TunnelRuntimeStatus, scope: Option<ConfigSourceKind>) -> bool {
    scope matches Some(k) ==> s.state.source_kind == k
}

/// Whether a status is in the given scope (any when none is given).
pub fn status_matches_scope(status: &TunnelRuntimeStatus, scope: Option<ConfigSourceKind>) -> (r: bool)
    ensures
        r == spec_in_scope(*status, scope),
{
    match scope {
        Some(k) => status.state.source_kind == k,
        None => true,
    }
}

/// Whether a status is stale, in scope, and (when runtime IDs are asked
/// for) among them.
pub open spec fn is_watched_stale(s: TunnelRuntimeStatus, requested: Seq<Seq<char>>, scope: Option<ConfigSourceKind>) -> bool {
    &&& s.process_state == ProcessState::Stale
    &&& spec_in_scope(s, scope)
    &&& (requested.len() > 0 ==> requested.contains(s.state.runtime_id@))
}

/// The runtime IDs of the stale tunnels in scope that are among
/// `runtime_ids` (all of them when `runtime_ids` is empty), in order.
pub fn watched_stale_runtime_ids(
    statuses: &[TunnelRuntimeStatus],
    runtime_ids: &[String],
    scope: Option<ConfigSourceKind>,
) -> (r: Vec<String>)
    ensures
        r.deep_view() == statuses@.filter(|s: TunnelRuntimeStatus| is_watched_stale(s, runtime_ids.deep_view(), scope)).map_values(
            |s: TunnelRuntimeStatus| s.state.runtime_id@,
        ),
{
    let ghost req = runtime_ids.deep_view();
    let ghost pred = |s: TunnelRuntimeStatus| is_watched_stale(s, req, scope);
    let ghost f = |s: TunnelRuntimeStatus| s.state.runtime_id@;
    let mut out: Vec<String> = Vec::new();
    let mut i: usize = 0;
    while i < statuses.len()
        invariant
            i <= statuses@.len(),
            req == runtime_ids.deep_view(),
            pred == (|s: TunnelRuntimeStatus| is_watched_stale(s, req, scope)),
            f == (|s: TunnelRuntimeStatus| s.state.runtime_id@),
            out.deep_view() == statuses@.subrange(0, i as int).filter(pred).map_values(f),
        decreases statuses@.len() - i,
    {
        reveal_with_fuel(Seq::<_>::filter, 1);
        let s = &statuses[i];
        let mut requested = runtime_ids.len() == 0;
        let mut k: usize = 0;
        while k < runtime_ids.len()
            invariant
                k <= runtime_ids@.len(),
                req == runtime_ids.deep_view(),
                requested == (req.len() == 0 || exists|j: int| 0 <= j < k && req[j] == s.state.runtime_id@),
            decreases runtime_ids@.len() - k,
        {
            assert(req[k as int] == runtime_ids@[k as int]@);
            if str_eq(runtime_ids[k].as_str(), s.state.runtime_id.as_str()) {
                requested = true;
            }
            k += 1;
        }
        proof {
            if requested && req.len() > 0 {
                let j = choose|j: int| 0 <= j < k && req[j] == s.state.runtime_id@;
                assert(req.contains(s.state.runtime_id@));
            }
        }
        let ghost prev = out.deep_view();
        let ghost sub = statuses@.subrange(0, i + 1);
        assert(sub.drop_last() =~= statuses@.subrange(0, i as int));
        if s.process_state == ProcessState::Stale && status_matches_scope(s, scope) && requested {
            out.push(s.state.runtime_id.clone());
            assert(out.deep_view() =~= prev.push(f(*s)));
            assert(sub.filter(pred) =~= sub.drop_last().filter(pred).push(sub.last()));
        } else {
            assert(sub.filter(pred) =~= sub.drop_last().filter(pred));
        }
        i += 1;
    }
    assert(statuses@.subrange(0, i as int) =~= statuses@);
    out
}

/// The runtime IDs of the stale tunnels in scope, in order.
pub fn stale_runtime_ids(statuses: &[TunnelRuntimeStatus], scope: Option<ConfigSourceKind>) -> (r: Vec<String>)
    ensures
        r.deep_view() == statuses@.filter(|s: TunnelRuntimeStatus| is_watched_stale(s, seq![], scope)).map_values(
            |s: TunnelRuntimeStatus| s.state.runtime_id@,
        ),
{
    let none: Vec<String> = Vec::new();
    let sl = none.as_slice();
    assert(sl.deep_view() =~= Seq::<Seq<char>>::empty());
    watched_stale_runtime_ids(statuses, sl, scope)
}

/// Without a scope a name means its first local tunnel when there is one,
/// else its first global one; whatever it means has that name and comes
/// from a file of the scope asked for.
pub proof fn lemma_unscoped_name_prefers_local(ts: Seq<ResolvedModel>, name: Seq<char>, scope: Option<ConfigSourceKind>)
    ensures
        scope is None && first_fit(ts, Some(ConfigSourceKind::Local), Some(name), None, None) is Some ==> spec_name_lookup(
            ts,
            name,
            scope,
        ) == first_fit(ts, Some(ConfigSourceKind::Local), Some(name), None, None),
        scope is None && first_fit(ts, Some(ConfigSourceKind::Local), Some(name), None, None) is None ==> spec_name_lookup(
            ts,
            name,
            scope,
        ) == first_fit(ts, Some(ConfigSourceKind::Global), Some(name), None, None),
        spec_name_lookup(ts, name, scope) matches Some(i) ==> 0 <= i < ts.len() && ts[i].tunnel.name == name && (
        scope matches Some(k) ==> ts[i].source.kind == k),
{
    lemma_first_fit(ts, Some(ConfigSourceKind::Local), Some(name), None, None);
    lemma_first_fit(ts, Some(ConfigSourceKind::Global), Some(name), None, None);
    if let Some(k) = scope {
        lemma_first_fit(ts, Some(k), Some(name), None, None);
    }
}

proof fn lemma_first_status_is_first(ss: Seq<StateModel>, kind: ConfigSourceKind, name: Seq<char>)
    ensures
        first_status(ss, kind, name) matches Some(i) ==> 0 <= i < ss.len() && ss[i].source_kind == kind
            && ss[i].name == name && forall|j: int|
            0 <= j < i ==> !((#[trigger] ss[j]).source_kind == kind && ss[j].name == name),
        first_status(ss, kind, name) is None ==> forall|j: int|
            0 <= j < ss.len() ==> !((#[trigger] ss[j]).source_kind == kind && ss[j].name == name),
    decreases ss.len(),
{
    if ss.len() > 0 {
        let init = ss.drop_last();
        lemma_first_status_is_first(init, kind, name);
        assert forall|j: int| 0 <= j < init.len() implies !((#[trigger] ss[j]).source_kind == kind && ss[j].name
            == name) || first_status(init, kind, name) is Some by {
            assert(init[j] == ss[j]);
        }
        if let Some(i) = first_status(init, kind, name) {
            assert(init[i] == ss[i]);
            assert forall|j: int| 0 <= j < i implies !((#[trigger] ss[j]).source_kind == kind && ss[j].name == name) by {
                assert(init[j] == ss[j]);
            }
        }
    }
}

/// Which tracked tunnel a bare name means, as `stop` and `recover` use it.
/// Without a scope a tunnel of the local file wins: when a tracked tunnel
/// from the local file has the name, the name means the first such one,
/// whatever tracked tunnels from the global file share it; otherwise it
/// means the first global one with the name, and nothing when none has
/// it. With a scope, only tunnels from that scope's file count.
pub proof fn lemma_status_name_prefers_local(ss: Seq<StateModel>, name: Seq<char>, scope: Option<ConfigSourceKind>)
    ensures
        spec_status_lookup(ss, name, scope) matches Some(i) ==> 0 <= i < ss.len() && ss[i].name == name && (
        scope matches Some(k) ==> ss[i].source_kind == k),
        scope is None && (exists|j: int|
            0 <= j < ss.len() && (#[trigger] ss[j]).source_kind == ConfigSourceKind::Local && ss[j].name == name)
            ==> (spec_status_lookup(ss, name, scope) matches Some(i) && ss[i].source_kind == ConfigSourceKind::Local
            && forall|j: int|
            0 <= j < i ==> !((#[trigger] ss[j]).source_kind == ConfigSourceKind::Local && ss[j].name == name)),
        scope is None && !(exists|j: int|
            0 <= j < ss.len() && (#[trigger] ss[j]).source_kind == ConfigSourceKind::Local && ss[j].name == name)
            ==> match spec_status_lookup(ss, name, scope) {
            Some(i) => ss[i].source_kind == ConfigSourceKind::Global && forall|j: int|
                0 <= j < i ==> !((#[trigger] ss[j]).source_kind == ConfigSourceKind::Global && ss[j].name == name),
            None => forall|j: int| 0 <= j < ss.len() ==> (#[trigger] ss[j]).name != name,
        },
{
    lemma_first_status_is_first(ss, ConfigSourceKind::Local, name);
    lemma_first_status_is_first(ss, ConfigSourceKind::Global, name);
    if let Some(k) = scope {
        lemma_first_status_is_first(ss, k, name);
    }
    if scope is None && first_status(ss, ConfigSourceKind::Local, name) is None && first_status(
        ss,
        ConfigSourceKind::Global,
        name,
    ) is None {
        assert forall|j: int| 0 <= j < ss.len() implies (#[trigger] ss[j]).name != name by {
            match ss[j].source_kind {
                ConfigSourceKind::Local => {},
                ConfigSourceKind::Global => {},
            }
        }
    }
}

/// Which configured tunnel a bare name means (`show`, `start`, `config
/// edit`): without a scope a tunnel of the local file wins: when a local
/// tunnel has the name, the name means the first such one, whatever global
/// tunnels share it; otherwise the first global one with the name, and
/// nothing when none has it. With a scope, only that scope's tunnels count.
pub proof fn lemma_tunnel_name_prefers_local(ts: Seq<ResolvedModel>, name: Seq<char>, scope: Option<ConfigSourceKind>)
    ensures
        spec_name_lookup(ts, name, scope) matches Some(i) ==> 0 <= i < ts.len() && ts[i].tunnel.name == name && (
        scope matches Some(k) ==> ts[i].source.kind == k),
        scope is None && (exists|j: int|
            0 <= j < ts.len() && (#[trigger] ts[j]).source.kind == ConfigSourceKind::Local && ts[j].tunnel.name
                == name) ==> (spec_name_lookup(ts, name, scope) matches Some(i) && ts[i].source.kind
            == ConfigSourceKind::Local && forall|j: int|
            0 <= j < i ==> !((#[trigger] ts[j]).source.kind == ConfigSourceKind::Local && ts[j].tunnel.name == name)),
        scope is None && !(exists|j: int|
            0 <= j < ts.len() && (#[trigger] ts[j]).source.kind == ConfigSourceKind::Local && ts[j].tunnel.name
                == name) ==> match spec_name_lookup(ts, name, scope) {
            Some(i) => ts[i].source.kind == ConfigSourceKind::Global && forall|j: int|
                0 <= j < i ==> !((#[trigger] ts[j]).source.kind == ConfigSourceKind::Global && ts[j].tunnel.name
                    == name),
            None => forall|j: int| 0 <= j < ts.len() ==> (#[trigger] ts[j]).tunnel.name != name,
        },
{
    lemma_first_fit(ts, Some(ConfigSourceKind::Local), Some(name), None, None);
    lemma_first_fit(ts, Some(ConfigSourceKind::Global), Some(name), None, None);
    if let Some(k) = scope {
        lemma_first_fit(ts, Some(k), Some(name), None, None);
    }
    if scope is None {
        if exists|j: int|
            0 <= j < ts.len() && (#[trigger] ts[j]).source.kind == ConfigSourceKind::Local && ts[j].tunnel.name == name {
            let j = choose|j: int|
                0 <= j < ts.len() && (#[trigger] ts[j]).source.kind == ConfigSourceKind::Local && ts[j].tunnel.name
                    == name;
            assert(fits(ts[j], Some(ConfigSourceKind::Local), Some(name), None, None));
        }
        if let Some(i) = spec_name_lookup(ts, name, scope) {
            assert forall|j: int| 0 <= j < i implies !((#[trigger] ts[j]).source.kind == ConfigSourceKind::Local
                && ts[j].tunnel.name == name) by {
                assert(!fits(ts[j], Some(ConfigSourceKind::Local), Some(name), None, None) || first_fit(
                    ts,
                    Some(ConfigSourceKind::Local),
                    Some(name),
                    None,
                    None,
                ) is None);
            }
        }
        assert forall|j: int| 0 <= j < ts.len() && (#[trigger] ts[j]).tunnel.name == name implies fits(
            ts[j],
            Some(ts[j].source.kind),
            Some(name),
            None,
            None,
        ) by {}
        if spec_name_lookup(ts, name, scope) is None {
            assert forall|j: int| 0 <= j < ts.len() implies (#[trigger] ts[j]).tunnel.name != name by {
                if ts[j].tunnel.name == name {
                    match ts[j].source.kind {
                        ConfigSourceKind::Local => {
                            assert(fits(ts[j], Some(ConfigSourceKind::Local), Some(name), None, None));
                        },
                        ConfigSourceKind::Global => {
                            assert(fits(ts[j], Some(ConfigSourceKind::Global), Some(name), None, None));
                        },
                    }
                }
            }
        }
    }
}

} // verus!
