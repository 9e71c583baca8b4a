//! The runtime state of started tunnels: one entry per running tunnel,
//! keyed by a runtime ID made of the source kind, the source path and the
//! tunnel name.

use vstd::prelude::*;

use crate::config::{ConfigSourceKind, ResolvedTunnelConfig, kind_label, spec_effective_local_host, ResolvedModel};
use crate::text::{concat_str, str_eq};

verus! {

/// The runtime state of one started tunnel.
#[derive(Debug, PartialEq, Eq)]
pub struct TunnelState {
    pub runtime_id: String,
    pub name: String,
    pub pid: u32,
    pub local_host: String,
    pub local_port: u16,
    pub remote_host: String,
    pub remote_port: u16,
    pub ssh_user: String,
    pub ssh_host: String,
    pub ssh_port: Option<u16>,
    pub source_kind: ConfigSourceKind,
    pub source_path: String,
    pub started_at_unix_seconds: u64,
}

/// The mathematical value of a [`TunnelState`].
pub ghost struct StateModel {
    pub runtime_id: Seq<char>,
    pub name: Seq<char>,
    pub pid: u32,
    pub local_host: Seq<char>,
    pub local_port: u16,
    pub remote_host: Seq<char>,
    pub remote_port: u16,
    pub ssh_user: Seq<char>,
    pub ssh_host: Seq<char>,
    pub ssh_port: Option<u16>,
    pub source_kind: ConfigSourceKind,
    pub source_path: Seq<char>,
    pub started_at_unix_seconds: u64,
}

impl View for TunnelState {
    type V = StateModel;

    open spec fn view(&self) -> StateModel {
        StateModel {
            runtime_id: self.runtime_id@,
            name: self.name@,
            pid: self.pid,
            local_host: self.local_host@,
            local_port: self.local_port,
            remote_host: self.remote_host@,
            remote_port: self.remote_port,
            ssh_user: self.ssh_user@,
            ssh_host: self.ssh_host@,
            ssh_port: self.ssh_port,
            source_kind: self.source_kind,
            source_path: self.source_path@,
            started_at_unix_seconds: self.started_at_unix_seconds,
        }
    }
}

impl DeepView for TunnelState {
    type V = StateModel;

    open spec fn deep_view(&self) -> StateModel {
        self@
    }
}

impl Clone for TunnelState {
    fn clone(&self) -> (r: Self)
        ensures
            r@ == self@,
    {
        TunnelState {
            runtime_id: self.runtime_id.clone(),
            name: self.name.clone(),
            pid: self.pid,
            local_host: self.local_host.clone(),
            local_port: self.local_port,
            remote_host: self.remote_host.clone(),
            remote_port: self.remote_port,
            ssh_user: self.ssh_user.clone(),
            ssh_host: self.ssh_host.clone(),
            ssh_port: self.ssh_port,
            source_kind: self.source_kind,
            source_path: self.source_path.clone(),
            started_at_unix_seconds: self.started_at_unix_seconds,
        }
    }
}

/// The runtime ID of a tunnel: `kind:path:name`, where `path` is the
/// source path in its normalized form.
pub open spec fn spec_runtime_id(kind: ConfigSourceKind, normalized_source_path: Seq<char>, name: Seq<char>) -> Seq<char> {
    kind_label(kind) + ":"@ + normalized_source_path + ":"@ + name
}

/// The runtime ID of a tunnel: `kind:path:name`. The source path is given
/// in its normalized form (the canonical path where the file exists).
pub fn tunnel_runtime_id(kind: ConfigSourceKind, normalized_source_path: &str, name: &str) -> (r: String)
    ensures
        r@ == spec_runtime_id(kind, normalized_source_path@, name@),
{
    let label = kind.label();
    let a = concat_str(label.as_str(), ":");
    let b = concat_str(a.as_str(), normalized_source_path);
    let c = concat_str(b.as_str(), ":");
    concat_str(c.as_str(), name)
}

/// The runtime ID of a merged tunnel, its source path given in normalized
/// form.
pub fn runtime_id_for_resolved_tunnel(resolved: &ResolvedTunnelConfig, normalized_source_path: &str) -> (r: String)
    ensures
        r@ == spec_runtime_id(resolved@.source.kind, normalized_source_path@, resolved@.tunnel.name),
{
    tunnel_runtime_id(resolved.source.kind, normalized_source_path, resolved.tunnel.name.as_str())
}

/// The state recorded for a tunnel just started.
pub open spec fn spec_state_from_resolved(
    resolved: ResolvedModel,
    normalized_source_path: Seq<char>,
    pid: u32,
    started_at_unix_seconds: u64,
) -> StateModel {
    let t = resolved.tunnel;
    StateModel {
        runtime_id: spec_runtime_id(resolved.source.kind, normalized_source_path, t.name),
        name: t.name,
        pid,
        local_host: spec_effective_local_host(t),
        local_port: t.local_port,
        remote_host: t.remote_host,
        remote_port: t.remote_port,
        ssh_user: t.ssh_user,
        ssh_host: t.ssh_host,
        ssh_port: t.ssh_port,
        source_kind: resolved.source.kind,
        source_path: resolved.source.path,
        started_at_unix_seconds,
    }
}

impl TunnelState {
    /// The state recorded for a tunnel just started with process `pid`;
    /// its source path is given again in normalized form for the runtime ID.
    pub fn from_resolved_tunnel(
        resolved: &ResolvedTunnelConfig,
        normalized_source_path: &str,
        pid: u32,
        started_at_unix_seconds: u64,
    ) -> (r: Self)
        ensures
            r@ == spec_state_from_resolved(resolved@, normalized_source_path@, pid, started_at_unix_seconds),
    {
        let tunnel = &resolved.tunnel;
        TunnelState {
            runtime_id: runtime_id_for_resolved_tunnel(resolved, normalized_source_path),
            name: tunnel.name.clone(),
            pid,
            local_host: String::from_str(tunnel.effective_local_host()),
            local_port: tunnel.local_port,
            remote_host: tunnel.remote_host.clone(),
            remote_port: tunnel.remote_port,
            ssh_user: tunnel.ssh_user.clone(),
            ssh_host: tunnel.ssh_host.clone(),
            ssh_port: tunnel.ssh_port,
            source_kind: resolved.source.kind,
            source_path: resolved.source.path.clone(),
            started_at_unix_seconds,
        }
    }

    /// Fills in a missing runtime ID (older state files have none) from
    /// the source kind, the normalized source path and the name.
    pub fn normalize_runtime_id(&mut self, normalized_source_path: &str)
        ensures
            final(self)@ == if old(self)@.runtime_id.len() == 0 {
                StateModel {
                    runtime_id: spec_runtime_id(old(self)@.source_kind, normalized_source_path@, old(self)@.name),
                    ..old(self)@
                }
            } else {
                old(self)@
            },
    {
        if self.runtime_id.as_str().unicode_len() == 0 {
            self.runtime_id = tunnel_runtime_id(self.source_kind, normalized_source_path, self.name.as_str());
        }
    }
}

/// The runtime state file: the states of the started tunnels.
#[derive(Debug, PartialEq, Eq)]
pub struct TunnelStateFile {
    pub tunnels: Vec<TunnelState>,
}

impl View for TunnelStateFile {
    type V = Seq<StateModel>;

    open spec fn view(&self) -> Seq<StateModel> {
        self.tunnels.deep_view()
    }
}

impl Clone for TunnelStateFile {
    fn clone(&self) -> (r: Self)
        ensures
            r@ == self@,
    {
        let mut tunnels: Vec<TunnelState> = Vec::new();
        let mut i: usize = 0;
        while i < self.tunnels.len()
            invariant
                i <= self.tunnels@.len(),
                tunnels@.len() == i,
                forall|j: int| 0 <= j < i ==> (#[trigger] tunnels@[j])@ == self.tunnels@[j]@,
            decreases self.tunnels@.len() - i,
        {
            tunnels.push(self.tunnels[i].clone());
            i += 1;
        }
        let r = TunnelStateFile { tunnels };
        assert(r@ =~= self@);
        r
    }
}

impl Default for TunnelStateFile {
    fn default() -> (r: Self)
        ensures
            r@ == Seq::<StateModel>::empty(),
    {
        TunnelStateFile::new()
    }
}

/// The position of the first state with runtime ID `id`.
pub open spec fn state_index(ts: Seq<StateModel>, id: Seq<char>) -> Option<int>
    decreases ts.len(),
{
    if ts.len() == 0 {
        None
    } else {
        match state_index(ts.drop_last(), id) {
            Some(i) => Some(i),
            None => if ts.last().runtime_id == id {
                Some(ts.len() - 1)
            } else {
                None
            },
        }
    }
}

/// The states after recording `t`: it replaces the first state with its
/// runtime ID, or is appended.
pub open spec fn spec_upsert(ts: Seq<StateModel>, t: StateModel) -> Seq<StateModel> {
    match state_index(ts, t.runtime_id) {
        Some(i) => ts.update(i, t),
        None => ts.push(t),
    }
}

/// The states after dropping the first state with runtime ID `id`.
pub open spec fn spec_remove_state(ts: Seq<StateModel>, id: Seq<char>) -> Seq<StateModel> {
    match state_index(ts, id) {
        Some(i) => ts.remove(i),
        None => ts,
    }
}

/// No two states share a runtime ID.
pub open spec fn ids_unique(ts: Seq<StateModel>) -> bool {
    forall|i: int, j: int| 0 <= i < j < ts.len() ==> (#[trigger] ts[i]).runtime_id != (#[trigger] ts[j]).runtime_id
}

/// Where [`state_index`] finds a runtime ID, the state there is the
/// first one recorded under it; where it finds none, there is none.
pub proof fn lemma_state_index_bounds(ts: Seq<StateModel>, id: Seq<char>)
    ensures
        state_index(ts, id) matches Some(i) ==> 0 <= i < ts.len() && ts[i].runtime_id == id && forall|j: int|
            0 <= j < i ==> (#[trigger] ts[j]).runtime_id != id,
        state_index(ts, id) is None ==> forall|j: int| 0 <= j < ts.len() ==> (#[trigger] ts[j]).runtime_id != id,
    decreases ts.len(),
{
    if ts.len() > 0 {
        lemma_state_index_bounds(ts.drop_last(), id);
        assert forall|j: int| 0 <= j < ts.len() - 1 implies #[trigger] ts[j] == ts.drop_last()[j] by {}
    }
}

proof fn lemma_state_index_of(ts: Seq<StateModel>, id: Seq<char>, k: int)
    requires
        0 <= k < ts.len(),
        ts[k].runtime_id == id,
        forall|j: int| 0 <= j < k ==> (#[trigger] ts[j]).runtime_id != id,
    ensures
        state_index(ts, id) == Some(k),
{
    lemma_state_index_bounds(ts, id);
    match state_index(ts, id) {
        Some(i) => {
            if i < k {
                assert(ts[i].runtime_id != id);
            } else if i > k {
                assert(ts[k].runtime_id != id);
            }
        },
        None => {
            assert(ts[k].runtime_id != id);
        },
    }
}

/// The position of the first state with runtime ID `id`.
fn find_state(ts: &Vec<TunnelState>, id: &str) -> (r: Option<usize>)
    ensures
        match r {
            Some(i) => state_index(ts.deep_view(), id@) == Some(i as int) && i < ts@.len(),
            None => state_index(ts.deep_view(), id@) is None,
        },
{
    let ghost tv = ts.deep_view();
    proof {
        lemma_state_index_bounds(tv, id@);
    }
    let mut i: usize = 0;
    while i < ts.len()
        invariant
            tv == ts.deep_view(),
            i <= ts@.len(),
            forall|j: int| 0 <= j < i ==> (#[trigger] tv[j]).runtime_id != id@,
        decreases ts@.len() - i,
    {
        assert(tv[i as int] == ts@[i as int]@);
        if str_eq(ts[i].runtime_id.as_str(), id) {
            proof {
                lemma_state_index_of(tv, id@, i as int);
            }
            return Some(i);
        }
        i += 1;
    }
    proof {
        if let Some(k) = state_index(tv, id@) {
            assert(tv[k].runtime_id != id@);
        }
    }
    None
}

impl TunnelStateFile {
    /// An empty state file.
    pub fn new() -> (r: Self)
        ensures
            r@ == Seq::<StateModel>::empty(),
    {
        let r = TunnelStateFile { tunnels: Vec::new() };
        assert(r@ =~= Seq::<StateModel>::empty());
        r
    }

    /// Records `tunnel`: it replaces the state with the same runtime ID,
    /// or is appended.
    pub fn upsert(&mut self, tunnel: TunnelState)
        ensures
            final(self)@ == spec_upsert(old(self)@, tunnel@),
    {
        let ghost before = self@;
        let ghost tv = tunnel@;
        match find_state(&self.tunnels, tunnel.runtime_id.as_str()) {
            Some(i) => {
                self.tunnels.set(i, tunnel);
                assert(self@ =~= before.update(i as int, tv));
            },
            None => {
                self.tunnels.push(tunnel);
                assert(self@ =~= before.push(tv));
            },
        }
    }

    /// The state with runtime ID `runtime_id`.
    pub fn get(&self, runtime_id: &str) -> (r: Option<&TunnelState>)
        ensures
            match state_index(self@, runtime_id@) {
                Some(i) => r matches Some(s) && s@ == self@[i],
                None => r is None,
            },
    {
        match find_state(&self.tunnels, runtime_id) {
            Some(i) => {
                assert(self@[i as int] == self.tunnels@[i as int]@);
                Some(&self.tunnels[i])
            },
            None => None,
        }
    }

    /// Drops the state with runtime ID `runtime_id`, giving it back.
    pub fn remove(&mut self, runtime_id: &str) -> (r: Option<TunnelState>)
        ensures
            final(self)@ == spec_remove_state(old(self)@, runtime_id@),
            match state_index(old(self)@, runtime_id@) {
                Some(i) => r matches Some(s) && s@ == old(self)@[i],
                None => r is None,
            },
    {
        let ghost before = self@;
        match find_state(&self.tunnels, runtime_id) {
            Some(i) => {
                let s = self.tunnels.remove(i);
                assert(self@ =~= before.remove(i as int));
                Some(s)
            },
            None => None,
        }
    }

    /// Fills in the missing runtime IDs of older state files; the
    /// normalized source path of each state is given at its position.
    pub fn normalize(self, normalized_source_paths: &Vec<String>) -> (r: Self)
        requires
            normalized_source_paths@.len() == self@.len(),
        ensures
            r@.len() == self@.len(),
            forall|i: int|
                #![trigger r@[i]]
                0 <= i < self@.len() ==> r@[i] == if self@[i].runtime_id.len() == 0 {
                    StateModel {
                        runtime_id: spec_runtime_id(self@[i].source_kind, normalized_source_paths@[i]@, self@[i].name),
                        ..self@[i]
                    }
                } else {
                    self@[i]
                },
    {
        let ghost before = self@;
        let mut out: Vec<TunnelState> = Vec::new();
        let mut rest = self.tunnels;
        let mut i: usize = 0;
        let n = rest.len();
        while i < n
            invariant
                n == before.len(),
                rest.deep_view() == before,
                normalized_source_paths@.len() == n,
                i <= n,
                out@.len() == i,
                forall|j: int|
                    #![trigger out@[j]]
                    0 <= j < i ==> out@[j]@ == if before[j].runtime_id.len() == 0 {
                        StateModel {
                            runtime_id: spec_runtime_id(before[j].source_kind, normalized_source_paths@[j]@, before[j].name),
                            ..before[j]
                        }
                    } else {
                        before[j]
                    },
            decreases n - i,
        {
            let mut t = rest[i].clone();
            assert(before[i as int] == rest@[i as int]@);
            t.normalize_runtime_id(normalized_source_paths[i].as_str());
            out.push(t);
            i += 1;
        }
        TunnelStateFile { tunnels: out }
    }
}

/// After recording a state, looking up its runtime ID gives it back.
pub proof fn lemma_upsert_then_get(ts: Seq<StateModel>, t: StateModel)
    ensures
        state_index(spec_upsert(ts, t), t.runtime_id) matches Some(i) && spec_upsert(ts, t)[i] == t,
{
    lemma_state_index_bounds(ts, t.runtime_id);
    match state_index(ts, t.runtime_id) {
        Some(i) => {
            let u = ts.update(i, t);
            assert forall|j: int| 0 <= j < i implies (#[trigger] u[j]).runtime_id != t.runtime_id by {
                assert(u[j] == ts[j]);
            }
            lemma_state_index_of(u, t.runtime_id, i);
        },
        None => {
            let u = ts.push(t);
            assert forall|j: int| 0 <= j < ts.len() implies (#[trigger] u[j]).runtime_id != t.runtime_id by {
                assert(u[j] == ts[j]);
            }
            lemma_state_index_of(u, t.runtime_id, ts.len() as int);
        },
    }
}

/// Recording a state keeps the runtime IDs distinct, and adds an entry
/// only when its runtime ID was not there.
pub proof fn lemma_upsert_keeps_ids_unique(ts: Seq<StateModel>, t: StateModel)
    requires
        ids_unique(ts),
    ensures
        ids_unique(spec_upsert(ts, t)),
        spec_upsert(ts, t).len() == ts.len() + if state_index(ts, t.runtime_id) is Some { 0int } else { 1int },
{
    lemma_state_index_bounds(ts, t.runtime_id);
    let u = spec_upsert(ts, t);
    assert forall|i: int, j: int| 0 <= i < j < u.len() implies (#[trigger] u[i]).runtime_id != (#[trigger] u[j]).runtime_id by {
        match state_index(ts, t.runtime_id) {
            Some(k) => {
                if i != k && j != k {
                    assert(u[i] == ts[i] && u[j] == ts[j]);
                } else if i == k {
                    assert(u[j] == ts[j]);
                    assert(ts[k].runtime_id != ts[j].runtime_id);
                } else {
                    assert(u[i] == ts[i]);
                    assert(ts[i].runtime_id != ts[k].runtime_id);
                }
            },
            None => {
                assert(u[i] == ts[i]);
                if j < ts.len() {
                    assert(u[j] == ts[j]);
                }
            },
        }
    }
}

/// Where runtime IDs are distinct, after dropping a state its runtime ID
/// is no longer found, and the other states stay.
pub proof fn lemma_remove_then_get(ts: Seq<StateModel>, id: Seq<char>, other: Seq<char>)
    requires
        ids_unique(ts),
        other != id,
    ensures
        state_index(spec_remove_state(ts, id), id) is None,
        (state_index(ts, other) is Some) == (state_index(spec_remove_state(ts, id), other) is Some),
{
    lemma_state_index_bounds(ts, id);
    lemma_state_index_bounds(ts, other);
    let u = spec_remove_state(ts, id);
    lemma_state_index_bounds(u, id);
    lemma_state_index_bounds(u, other);
    if let Some(k) = state_index(ts, id) {
        assert forall|j: int| 0 <= j < u.len() implies (#[trigger] u[j]).runtime_id != id by {
            if j < k {
                assert(u[j] == ts[j]);
            } else {
                assert(u[j] == ts[j + 1]);
            }
        }
        if let Some(m) = state_index(ts, other) {
            if m < k {
                assert(u[m] == ts[m]);
            } else {
                assert(m != k);
                assert(u[m - 1] == ts[m]);
            }
        }
        if let Some(m) = state_index(u, other) {
            if m < k {
                assert(u[m] == ts[m]);
            } else {
                assert(u[m] == ts[m + 1]);
            }
        }
    }
}

/// Tunnels of the same name from different sources (another kind, or
/// another normalized path) get different runtime IDs, so their states
/// are kept apart.
pub proof fn lemma_runtime_id_separates_sources(
    kind_a: ConfigSourceKind,
    path_a: Seq<char>,
    kind_b: ConfigSourceKind,
    path_b: Seq<char>,
    name: Seq<char>,
)
    requires
        kind_a != kind_b || path_a != path_b,
    ensures
        spec_runtime_id(kind_a, path_a, name) != spec_runtime_id(kind_b, path_b, name),
{
    reveal_strlit("global");
    reveal_strlit("local");
    reveal_strlit(":");
    let a = spec_runtime_id(kind_a, path_a, name);
    let b = spec_runtime_id(kind_b, path_b, name);
    if a == b {
        if kind_a != kind_b {
            assert(a[0] != b[0]);
        } else {
            let la = kind_label(kind_a) + ":"@;
            let tail = ":"@ + name;
            assert(a =~= la + path_a + tail);
            assert(b =~= la + path_b + tail);
            assert(a.len() == b.len());
            assert(path_a.len() == path_b.len());
            assert forall|i: int| 0 <= i < path_a.len() implies path_a[i] == path_b[i] by {
                assert(a[la.len() + i] == path_a[i]);
                assert(b[la.len() + i] == path_b[i]);
            }
            assert(path_a =~= path_b);
        }
    }
}

} // verus!
