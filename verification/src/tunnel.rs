//! The decisions taken when tunnels are started, inspected and stopped:
//! the `ssh` arguments, whether a recorded tunnel still runs, which
//! requests are refused, and how the state file changes. Starting and
//! signalling processes and probing ports is left to the caller, which
//! hands the results in.

use vstd::prelude::*;

use crate::config::{ResolvedTimeoutConfig, ResolvedTunnelConfig, ResolvedModel, spec_effective_local_host};
use crate::lsof::{LocalPortProcesses, ProcessModel, spec_listen_endpoint_port, listen_endpoint_port};
use crate::paths::join_path;
use crate::state::{
    StateModel, TunnelState, TunnelStateFile, ids_unique, lemma_remove_then_get, spec_remove_state, state_index,
};
use crate::text::{chars_of, concat_str, decimal, decimal_string, has_prefix, starts_with_str, str_eq, string_of_range};

verus! {

/// How long startup waits at least for the local port to be listened on.
pub const STARTUP_LISTEN_CONFIRMATION_MILLISECONDS: u64 = 1_000;

/// How often startup checks on the new `ssh` process.
pub const STARTUP_PROBE_INTERVAL_MILLISECONDS: u64 = 25;

/// Whether a recorded tunnel still runs.
#[derive(Debug, Clone, Copy, PartialEq, Eq, Structural)]
pub enum ProcessState {
    Running,
    Stale,
}

/// A tunnel that was started.
#[derive(Debug, PartialEq, Eq)]
pub struct StartedTunnel {
    pub state: TunnelState,
}

impl Clone for StartedTunnel {
    fn clone(&self) -> (r: Self)
        ensures
            r.state@ == self.state@,
    {
        StartedTunnel { state: self.state.clone() }
    }
}

/// A tunnel that was stopped, with whether it still ran.
#[derive(Debug, PartialEq, Eq)]
pub struct StoppedTunnel {
    pub state: TunnelState,
    pub previous_state: ProcessState,
}

/// A recorded tunnel with whether it still runs.
#[derive(Debug, PartialEq, Eq)]
pub struct TunnelRuntimeStatus {
    pub state: TunnelState,
    pub process_state: ProcessState,
}

/// Why a request about a tunnel was refused.
#[derive(Debug, PartialEq, Eq)]
pub enum TunnelRuntimeError {
    /// The tunnel already runs.
    AlreadyRunning { runtime_id: String, name: String, pid: u32 },
    /// No state is recorded for the runtime ID.
    NotTracked { runtime_id: String },
}

/// The mathematical value of a [`TunnelRuntimeError`].
pub ghost enum RuntimeErrorModel {
    AlreadyRunning { runtime_id: Seq<char>, name: Seq<char>, pid: u32 },
    NotTracked { runtime_id: Seq<char> },
}

impl View for TunnelRuntimeError {
    type V = RuntimeErrorModel;

    open spec fn view(&self) -> RuntimeErrorModel {
        match self {
            TunnelRuntimeError::AlreadyRunning { runtime_id, name, pid } => RuntimeErrorModel::AlreadyRunning {
                runtime_id: runtime_id@,
                name: name@,
                pid: *pid,
            },
            TunnelRuntimeError::NotTracked { runtime_id } => RuntimeErrorModel::NotTracked { runtime_id: runtime_id@ },
        }
    }
}

/// The message of a refused request.
pub open spec fn spec_runtime_error_text(e: RuntimeErrorModel) -> Seq<char> {
    match e {
        RuntimeErrorModel::AlreadyRunning { runtime_id, name, pid } => "Tunnel is already running: "@ + name
            + " (pid: "@ + decimal(pid as nat) + ")"@,
        RuntimeErrorModel::NotTracked { runtime_id } => "Tunnel is not tracked: "@ + runtime_id,
    }
}

impl TunnelRuntimeError {
    /// The message of the error.
    pub fn to_display_string(&self) -> (r: String)
        ensures
            r@ == spec_runtime_error_text(self@),
    {
        match self {
            TunnelRuntimeError::AlreadyRunning { runtime_id, name, pid } => {
                let a = concat_str("Tunnel is already running: ", name.as_str());
                let b = concat_str(a.as_str(), " (pid: ");
                let c = concat_str(b.as_str(), decimal_string(*pid as u64).as_str());
                concat_str(c.as_str(), ")")
            },
            TunnelRuntimeError::NotTracked { runtime_id } => concat_str(
                "Tunnel is not tracked: ",
                runtime_id.as_str(),
            ),
        }
    }
}

// ---------------------------------------------------------------------
// Whether a tunnel runs
// ---------------------------------------------------------------------

/// Whether some listed process has this pid.
pub open spec fn lists_pid(ps: Seq<ProcessModel>, pid: u32) -> bool {
    exists|i: int| 0 <= i < ps.len() && (#[trigger] ps[i]).pid == pid
}

/// A tunnel runs when its process exists and listens on the tunnel's port.
pub open spec fn spec_process_state(pid_is_running: bool, listening: bool) -> ProcessState {
    if pid_is_running && listening {
        ProcessState::Running
    } else {
        ProcessState::Stale
    }
}

/// Whether the process `pid` runs and is among those listening on the
/// tunnel's port: `Running` when both hold, else `Stale`.
pub fn process_state_from_probe(pid: u32, pid_is_running: bool, local_port_processes: &LocalPortProcesses) -> (r: ProcessState)
    ensures
        r == spec_process_state(pid_is_running, lists_pid(local_port_processes@, pid)),
{
    if pid_is_running && local_port_processes.contains_pid(pid) {
        ProcessState::Running
    } else {
        ProcessState::Stale
    }
}

/// What was found out about the processes of recorded tunnels: which
/// pids run, and which processes listen on which local ports.
pub struct RuntimeStatusProbe {
    pub running_pids: Vec<u32>,
    pub listeners: LocalPortProcesses,
}

/// Whether a listed process with this pid listens on this local port.
pub open spec fn listens_on(ps: Seq<ProcessModel>, pid: u32, port: u16) -> bool {
    exists|i: int|
        0 <= i < ps.len() && (#[trigger] ps[i]).pid == pid && (ps[i].endpoint matches Some(e)
            && spec_listen_endpoint_port(e) == Some(port))
}

/// Whether a recorded tunnel runs, by what the probe found.
pub open spec fn spec_process_state_for(running_pids: Seq<u32>, listeners: Seq<ProcessModel>, s: StateModel) -> ProcessState {
    spec_process_state(running_pids.contains(s.pid), listens_on(listeners, s.pid, s.local_port))
}

impl RuntimeStatusProbe {
    /// What was found out: the running pids and the listening processes.
    pub fn new(running_pids: Vec<u32>, listeners: LocalPortProcesses) -> (r: Self)
        ensures
            r.running_pids@ == running_pids@,
            r.listeners@ == listeners@,
    {
        RuntimeStatusProbe { running_pids, listeners }
    }

    /// Whether a recorded tunnel runs: its pid runs and listens on its
    /// local port.
    pub fn process_state_for(&self, state: &TunnelState) -> (r: ProcessState)
        ensures
            r == spec_process_state_for(self.running_pids@, self.listeners@, state@),
    {
        let mut running = false;
        let mut i: usize = 0;
        while i < self.running_pids.len()
            invariant
                i <= self.running_pids@.len(),
                running == exists|j: int| 0 <= j < i && self.running_pids@[j] == state.pid,
            decreases self.running_pids@.len() - i,
        {
            if self.running_pids[i] == state.pid {
                running = true;
            }
            i += 1;
        }
        let ps = self.listeners.processes();
        let ghost lv = self.listeners@;
        let mut listening = false;
        let mut k: usize = 0;
        while k < ps.len()
            invariant
                ps.deep_view() == lv,
                k <= lv.len(),
                listening == exists|j: int|
                    0 <= j < k && (#[trigger] lv[j]).pid == state.pid && (lv[j].endpoint matches Some(e)
                        && spec_listen_endpoint_port(e) == Some(state.local_port)),
            decreases lv.len() - k,
        {
            assert(lv[k as int] == ps@[k as int]@);
            if ps[k].pid == state.pid {
                match &ps[k].endpoint {
                    Some(e) => {
                        if listen_endpoint_port(e.as_str()) == Some(state.local_port) {
                            listening = true;
                        }
                    },
                    None => {},
                }
            }
            k += 1;
        }
        proof {
            if running {
                let j = choose|j: int| 0 <= j < i && self.running_pids@[j] == state.pid;
                assert(self.running_pids@.contains(state.pid));
            }
        }
        if running && listening {
            ProcessState::Running
        } else {
            ProcessState::Stale
        }
    }
}

/// The statuses of the recorded tunnels, in their order.
pub open spec fn spec_statuses(running_pids: Seq<u32>, listeners: Seq<ProcessModel>, states: Seq<StateModel>) -> Seq<(StateModel, ProcessState)> {
    states.map_values(|s: StateModel| (s, spec_process_state_for(running_pids, listeners, s)))
}

/// The statuses of the recorded tunnels of a state file, in their order.
pub fn tunnel_statuses_from_state_file(state_file: TunnelStateFile, probe: &RuntimeStatusProbe) -> (r: Vec<TunnelRuntimeStatus>)
    ensures
        r@.len() == state_file@.len(),
        forall|i: int|
            0 <= i < r@.len() ==> (#[trigger] r@[i]).state@ == state_file@[i] && r@[i].process_state
                == spec_process_state_for(probe.running_pids@, probe.listeners@, state_file@[i]),
{
    let ghost sv = state_file@;
    let states = state_file.tunnels;
    let mut out: Vec<TunnelRuntimeStatus> = Vec::new();
    let mut i: usize = 0;
    while i < states.len()
        invariant
            states.deep_view() == sv,
            i <= sv.len(),
            out@.len() == i,
            forall|j: int|
                0 <= j < i ==> (#[trigger] out@[j]).state@ == sv[j] && out@[j].process_state
                    == spec_process_state_for(probe.running_pids@, probe.listeners@, sv[j]),
        decreases sv.len() - i,
    {
        assert(sv[i as int] == states@[i as int]@);
        let process_state = probe.process_state_for(&states[i]);
        out.push(TunnelRuntimeStatus { state: states[i].clone(), process_state });
        i += 1;
    }
    out
}

// ---------------------------------------------------------------------
// Starting and stopping
// ---------------------------------------------------------------------

/// Whether a tunnel may be started: refused when the state recorded under
/// its runtime ID says it runs.
pub open spec fn spec_start_check(
    running_pids: Seq<u32>,
    listeners: Seq<ProcessModel>,
    states: Seq<StateModel>,
    runtime_id: Seq<char>,
) -> Option<RuntimeErrorModel> {
    match state_index(states, runtime_id) {
        Some(i) => if spec_process_state_for(running_pids, listeners, states[i]) == ProcessState::Running {
            Some(
                RuntimeErrorModel::AlreadyRunning {
                    runtime_id: states[i].runtime_id,
                    name: states[i].name,
                    pid: states[i].pid,
                },
            )
        } else {
            None
        },
        None => None,
    }
}

/// The mathematical value of an optional refusal.
pub open spec fn refusal(r: Result<(), TunnelRuntimeError>) -> Option<RuntimeErrorModel> {
    match r {
        Ok(_) => None,
        Err(e) => Some(e@),
    }
}

/// Checks that the tunnel with this runtime ID does not already run.
pub fn check_tunnel_not_running(
    state_file: &TunnelStateFile,
    probe: &RuntimeStatusProbe,
    runtime_id: &str,
) -> (r: Result<(), TunnelRuntimeError>)
    ensures
        refusal(r) == spec_start_check(probe.running_pids@, probe.listeners@, state_file@, runtime_id@),
{
    match state_file.get(runtime_id) {
        Some(existing) => {
            if probe.process_state_for(existing) == ProcessState::Running {
                Err(
                    TunnelRuntimeError::AlreadyRunning {
                        runtime_id: existing.runtime_id.clone(),
                        name: existing.name.clone(),
                        pid: existing.pid,
                    },
                )
            } else {
                Ok(())
            }
        },
        None => Ok(()),
    }
}

/// How a `start` batch treats the tunnels it was asked for: a tunnel that
/// the state file shows running is reported with its PID and counts as a
/// success; every other one is to be started.
pub struct StartBatchPlan {
    /// The positions, in the batch, of the tunnels to start, in order.
    pub to_start: Vec<usize>,
    /// The message for each tunnel that already runs, in order.
    pub already_running: Vec<String>,
}

/// The positions to start and the messages of the already running
/// tunnels, for the runtime IDs `ids` of a batch.
pub open spec fn spec_start_batch(
    running_pids: Seq<u32>,
    listeners: Seq<ProcessModel>,
    states: Seq<StateModel>,
    ids: Seq<Seq<char>>,
) -> (Seq<usize>, Seq<Seq<char>>)
    decreases ids.len(),
{
    if ids.len() == 0 {
        (Seq::empty(), Seq::empty())
    } else {
        let (starts, messages) = spec_start_batch(running_pids, listeners, states, ids.drop_last());
        match spec_start_check(running_pids, listeners, states, ids.last()) {
            None => (starts.push((ids.len() - 1) as usize), messages),
            Some(e) => (starts, messages.push(spec_runtime_error_text(e))),
        }
    }
}

/// Splits a `start` batch, given by the runtime IDs of its tunnels, into
/// the tunnels to start and the already running ones, which are reported
/// rather than failed.
pub fn plan_start_batch(
    state_file: &TunnelStateFile,
    probe: &RuntimeStatusProbe,
    runtime_ids: &Vec<String>,
) -> (r: StartBatchPlan)
    ensures
        (r.to_start@, r.already_running.deep_view()) == spec_start_batch(
            probe.running_pids@,
            probe.listeners@,
            state_file@,
            runtime_ids.deep_view(),
        ),
{
    let ghost ids = runtime_ids.deep_view();
    let mut to_start: Vec<usize> = Vec::new();
    let mut already_running: Vec<String> = Vec::new();
    let mut i: usize = 0;
    while i < runtime_ids.len()
        invariant
            ids == runtime_ids.deep_view(),
            i <= ids.len(),
            (to_start@, already_running.deep_view()) == spec_start_batch(
                probe.running_pids@,
                probe.listeners@,
                state_file@,
                ids.subrange(0, i as int),
            ),
        decreases ids.len() - i,
    {
        let ghost next = ids.subrange(0, i as int + 1);
        assert(next.drop_last() =~= ids.subrange(0, i as int));
        assert(next.last() == runtime_ids@[i as int]@);
        match check_tunnel_not_running(state_file, probe, runtime_ids[i].as_str()) {
            Ok(()) => {
                to_start.push(i);
            },
            Err(e) => {
                let line = e.to_display_string();
                let ghost before = already_running.deep_view();
                already_running.push(line);
                assert(already_running.deep_view() =~= before.push(spec_runtime_error_text(e@)));
            },
        }
        i += 1;
    }
    assert(ids.subrange(0, ids.len() as int) =~= ids);
    StartBatchPlan { to_start, already_running }
}

/// The states after recording the started tunnels, in order.
pub open spec fn upsert_all(states: Seq<StateModel>, started: Seq<StateModel>) -> Seq<StateModel>
    decreases started.len(),
{
    if started.len() == 0 {
        states
    } else {
        crate::state::spec_upsert(upsert_all(states, started.drop_last()), started.last())
    }
}

/// Records the states of the started tunnels, in order.
pub fn record_started_tunnels(state_file: &mut TunnelStateFile, started: &Vec<StartedTunnel>)
    ensures
        final(state_file)@ == upsert_all(old(state_file)@, started@.map_values(|s: StartedTunnel| s.state@)),
{
    let ghost sv = started@.map_values(|s: StartedTunnel| s.state@);
    let mut i: usize = 0;
    while i < started.len()
        invariant
            sv == started@.map_values(|s: StartedTunnel| s.state@),
            i <= started@.len(),
            state_file@ == upsert_all(old(state_file)@, sv.subrange(0, i as int)),
        decreases started@.len() - i,
    {
        let s = started[i].state.clone();
        state_file.upsert(s);
        assert(sv.subrange(0, i + 1).drop_last() =~= sv.subrange(0, i as int));
        i += 1;
    }
    assert(sv.subrange(0, i as int) =~= sv);
}

/// The tunnel to stop for a runtime ID, with whether it still runs;
/// refused when nothing is recorded under it.
pub open spec fn spec_plan_stop(
    running_pids: Seq<u32>,
    listeners: Seq<ProcessModel>,
    states: Seq<StateModel>,
    runtime_id: Seq<char>,
) -> Result<(StateModel, ProcessState), RuntimeErrorModel> {
    match state_index(states, runtime_id) {
        Some(i) => Ok((states[i], spec_process_state_for(running_pids, listeners, states[i]))),
        None => Err(RuntimeErrorModel::NotTracked { runtime_id }),
    }
}

/// The mathematical value of a planned stop.
pub open spec fn stop_result(r: Result<StoppedTunnel, TunnelRuntimeError>) -> Result<(StateModel, ProcessState), RuntimeErrorModel> {
    match r {
        Ok(s) => Ok((s.state@, s.previous_state)),
        Err(e) => Err(e@),
    }
}

/// The tunnel to stop for a runtime ID, with whether it still runs (the
/// caller signals its process when it runs, then drops its state).
pub fn plan_tunnel_stop(
    state_file: &TunnelStateFile,
    probe: &RuntimeStatusProbe,
    runtime_id: &str,
) -> (r: Result<StoppedTunnel, TunnelRuntimeError>)
    ensures
        stop_result(r) == spec_plan_stop(probe.running_pids@, probe.listeners@, state_file@, runtime_id@),
{
    match state_file.get(runtime_id) {
        Some(state) => {
            let previous_state = probe.process_state_for(state);
            Ok(StoppedTunnel { state: state.clone(), previous_state })
        },
        None => Err(TunnelRuntimeError::NotTracked { runtime_id: String::from_str(runtime_id) }),
    }
}

/// The tunnel to stop for a runtime ID within a batch: refused when the
/// batch already stopped that runtime ID, else as for a single stop.
pub open spec fn spec_plan_stop_in_batch(
    running_pids: Seq<u32>,
    listeners: Seq<ProcessModel>,
    states: Seq<StateModel>,
    stopped: Seq<Seq<char>>,
    runtime_id: Seq<char>,
) -> Result<(StateModel, ProcessState), RuntimeErrorModel> {
    if stopped.contains(runtime_id) {
        Err(RuntimeErrorModel::NotTracked { runtime_id })
    } else {
        spec_plan_stop(running_pids, listeners, states, runtime_id)
    }
}

/// The tunnel to stop for a runtime ID within a batch, given the runtime
/// IDs the batch already stopped.
pub fn plan_tunnel_stop_in_batch(
    state_file: &TunnelStateFile,
    probe: &RuntimeStatusProbe,
    stopped_runtime_ids: &Vec<String>,
    runtime_id: &str,
) -> (r: Result<StoppedTunnel, TunnelRuntimeError>)
    ensures
        stop_result(r) == spec_plan_stop_in_batch(
            probe.running_pids@,
            probe.listeners@,
            state_file@,
            stopped_runtime_ids.deep_view(),
            runtime_id@,
        ),
{
    let ghost ids = stopped_runtime_ids.deep_view();
    let mut i: usize = 0;
    while i < stopped_runtime_ids.len()
        invariant
            ids == stopped_runtime_ids.deep_view(),
            i <= ids.len(),
            forall|j: int| 0 <= j < i ==> ids[j] != runtime_id@,
        decreases ids.len() - i,
    {
        assert(ids[i as int] == stopped_runtime_ids@[i as int]@);
        if str_eq(stopped_runtime_ids[i].as_str(), runtime_id) {
            assert(ids.contains(runtime_id@));
            return Err(TunnelRuntimeError::NotTracked { runtime_id: String::from_str(runtime_id) });
        }
        i += 1;
    }
    plan_tunnel_stop(state_file, probe, runtime_id)
}

/// The states after dropping, for each stopped runtime ID in turn, the
/// first state recorded under it.
pub open spec fn remove_all(states: Seq<StateModel>, ids: Seq<Seq<char>>) -> Seq<StateModel>
    decreases ids.len(),
{
    if ids.len() == 0 {
        states
    } else {
        spec_remove_state(remove_all(states, ids.drop_last()), ids.last())
    }
}

proof fn lemma_remove_keeps_ids_unique(ts: Seq<StateModel>, id: Seq<char>)
    requires
        ids_unique(ts),
    ensures
        ids_unique(spec_remove_state(ts, id)),
{
    if let Some(k) = state_index(ts, id) {
        crate::state::lemma_state_index_bounds(ts, id);
        let u = ts.remove(k);
        assert forall|a: int, b: int| 0 <= a < b < u.len() implies (#[trigger] u[a]).runtime_id
            != (#[trigger] u[b]).runtime_id by {
            let a2 = if a < k { a } else { a + 1 };
            let b2 = if b < k { b } else { b + 1 };
            assert(u[a] == ts[a2]);
            assert(u[b] == ts[b2]);
        }
    }
}

/// Within a stop batch a tunnel is stopped at most once. A runtime ID the
/// batch stopped already is refused as not tracked; any other tracked one
/// stops the first state recorded under it. Where no two states share a
/// runtime ID, dropping the states of the stopped runtime IDs leaves no
/// state under any of them, and no two states sharing a runtime ID.
pub proof fn lemma_stop_batch_stops_once(
    running_pids: Seq<u32>,
    listeners: Seq<ProcessModel>,
    states: Seq<StateModel>,
    stopped: Seq<Seq<char>>,
    runtime_id: Seq<char>,
)
    ensures
        stopped.contains(runtime_id) ==> spec_plan_stop_in_batch(running_pids, listeners, states, stopped, runtime_id)
            == Err::<(StateModel, ProcessState), RuntimeErrorModel>(RuntimeErrorModel::NotTracked { runtime_id }),
        !stopped.contains(runtime_id) ==> spec_plan_stop_in_batch(running_pids, listeners, states, stopped, runtime_id)
            == match state_index(states, runtime_id) {
            Some(i) => Ok((states[i], spec_process_state_for(running_pids, listeners, states[i]))),
            None => Err(RuntimeErrorModel::NotTracked { runtime_id }),
        },
        ids_unique(states) ==> ids_unique(remove_all(states, stopped)),
        ids_unique(states) && stopped.contains(runtime_id) ==> state_index(remove_all(states, stopped), runtime_id) is None,
    decreases stopped.len(),
{
    if stopped.len() > 0 && ids_unique(states) {
        let init = stopped.drop_last();
        let last = stopped.last();
        lemma_stop_batch_stops_once(running_pids, listeners, states, init, runtime_id);
        let u = remove_all(states, init);
        lemma_remove_keeps_ids_unique(u, last);
        if stopped.contains(runtime_id) {
            if last == runtime_id {
                assert(runtime_id.push('/').len() != runtime_id.len());
                lemma_remove_then_get(u, runtime_id, runtime_id.push('/'));
            } else {
                let j = choose|j: int| 0 <= j < stopped.len() && stopped[j] == runtime_id;
                assert(init[j] == runtime_id);
                lemma_remove_then_get(u, last, runtime_id);
            }
        }
    }
}

/// Drops, for each stopped runtime ID in turn, the first state recorded
/// under it.
pub fn remove_tunnel_states_by_runtime_id_counts(state_file: &mut TunnelStateFile, stopped_runtime_ids: &Vec<String>)
    ensures
        final(state_file)@ == remove_all(old(state_file)@, stopped_runtime_ids.deep_view()),
{
    let ghost ids = stopped_runtime_ids.deep_view();
    let mut i: usize = 0;
    while i < stopped_runtime_ids.len()
        invariant
            ids == stopped_runtime_ids.deep_view(),
            i <= ids.len(),
            state_file@ == remove_all(old(state_file)@, ids.subrange(0, i as int)),
        decreases ids.len() - i,
    {
        assert(ids[i as int] == stopped_runtime_ids@[i as int]@);
        let _ = state_file.remove(stopped_runtime_ids[i].as_str());
        assert(ids.subrange(0, i + 1).drop_last() =~= ids.subrange(0, i as int));
        i += 1;
    }
    assert(ids.subrange(0, i as int) =~= ids);
}

// ---------------------------------------------------------------------
// Startup timing
// ---------------------------------------------------------------------

/// How long to wait after starting `ssh` before checking that it still
/// runs, in milliseconds.
pub fn start_grace_period(timeouts: ResolvedTimeoutConfig) -> (r: u64)
    ensures
        r == timeouts.start_grace_milliseconds,
{
    timeouts.start_grace_milliseconds
}

/// How long startup waits at most for the local port to be listened on,
/// in milliseconds: the grace period, but at least
/// [`STARTUP_LISTEN_CONFIRMATION_MILLISECONDS`].
pub fn startup_readiness_wait_period(timeouts: ResolvedTimeoutConfig) -> (r: u64)
    ensures
        r == if timeouts.start_grace_milliseconds >= STARTUP_LISTEN_CONFIRMATION_MILLISECONDS {
            timeouts.start_grace_milliseconds
        } else {
            STARTUP_LISTEN_CONFIRMATION_MILLISECONDS
        },
{
    let grace = start_grace_period(timeouts);
    if grace >= STARTUP_LISTEN_CONFIRMATION_MILLISECONDS {
        grace
    } else {
        STARTUP_LISTEN_CONFIRMATION_MILLISECONDS
    }
}

/// What to do while waiting for a new tunnel.
#[derive(Debug, Clone, Copy, PartialEq, Eq, Structural)]
pub enum ReadinessAction {
    /// `ssh` exited: the start failed.
    EarlyExit,
    /// The tunnel is ready, or the wait is over.
    Ready,
    /// Check again after this many milliseconds.
    Wait(u64),
}

/// One check while waiting for a new tunnel: an exited `ssh` fails the
/// start; a listening port, or a wait that is over, ends it; otherwise
/// wait for the probe interval, or the rest of the wait if shorter.
pub open spec fn spec_readiness_action(exited: bool, listening: bool, elapsed_ms: u64, wait_ms: u64) -> ReadinessAction {
    if exited {
        ReadinessAction::EarlyExit
    } else if listening || elapsed_ms >= wait_ms {
        ReadinessAction::Ready
    } else if wait_ms - elapsed_ms < STARTUP_PROBE_INTERVAL_MILLISECONDS {
        ReadinessAction::Wait((wait_ms - elapsed_ms) as u64)
    } else {
        ReadinessAction::Wait(STARTUP_PROBE_INTERVAL_MILLISECONDS)
    }
}

/// One check while waiting for a new tunnel, given whether `ssh` exited,
/// whether the port is listened on by it, and the time since the start.
pub fn readiness_action(exited: bool, listening: bool, elapsed_ms: u64, wait_ms: u64) -> (r: ReadinessAction)
    ensures
        r == spec_readiness_action(exited, listening, elapsed_ms, wait_ms),
{
    if exited {
        ReadinessAction::EarlyExit
    } else if listening || elapsed_ms >= wait_ms {
        ReadinessAction::Ready
    } else if wait_ms - elapsed_ms < STARTUP_PROBE_INTERVAL_MILLISECONDS {
        ReadinessAction::Wait(wait_ms - elapsed_ms)
    } else {
        ReadinessAction::Wait(STARTUP_PROBE_INTERVAL_MILLISECONDS)
    }
}

// ---------------------------------------------------------------------
// The ssh command
// ---------------------------------------------------------------------

/// `path` with a leading `~/` replaced by the home directory, when there
/// is one.
pub open spec fn spec_expand_home(path: Seq<char>, home: Option<Seq<char>>) -> Seq<char> {
    if has_prefix(path, "~/"@) && home is Some {
        let rest = path.subrange(2, path.len() as int);
        if rest.len() > 0 && rest[0] == '/' {
            rest
        } else {
            join_path(home.unwrap(), rest)
        }
    } else {
        path
    }
}

/// `path` with a leading `~/` replaced by the home directory `home`, when
/// it is known.
pub fn expand_home_path_with_home(path: &str, home: Option<&str>) -> (r: String)
    ensures
        r@ == spec_expand_home(path@, match home {
            Some(h) => Some(h@),
            None => None,
        }),
{
    proof {
        reveal_strlit("~/");
    }
    if !starts_with_str(path, "~/") {
        return String::from_str(path);
    }
    let h = match home {
        None => {
            return String::from_str(path);
        },
        Some(h) => h,
    };
    let cs = chars_of(path);
    let rest = string_of_range(&cs, 2, cs.len());
    let rcs = chars_of(rest.as_str());
    if rcs.len() > 0 && rcs[0] == '/' {
        rest
    } else {
        crate::paths::join_path_text(h, rest.as_str())
    }
}

/// The `-L` value of a tunnel: `host:port:remote_host:remote_port`.
pub open spec fn spec_local_forward(t: crate::config::TunnelModel) -> Seq<char> {
    spec_effective_local_host(t) + ":"@ + decimal(t.local_port as nat) + ":"@ + t.remote_host + ":"@ + decimal(
        t.remote_port as nat,
    )
}

/// The arguments given to `ssh` for a tunnel: no remote command, the
/// local forward, failure on a forward that cannot be set up, the
/// timeouts, the port and identity file when set (a leading `~/` of the
/// identity file expanded with `home`), then `user@host`.
pub open spec fn spec_ssh_args(r: ResolvedModel, home: Option<Seq<char>>) -> Seq<Seq<char>> {
    let t = r.tunnel;
    seq![
        "-N"@,
        "-L"@,
        spec_local_forward(t),
        "-o"@,
        "ExitOnForwardFailure=yes"@,
        "-o"@,
        "ConnectTimeout="@ + decimal(r.timeouts.connect_timeout_seconds as nat),
        "-o"@,
        "ServerAliveInterval="@ + decimal(r.timeouts.server_alive_interval_seconds as nat),
        "-o"@,
        "ServerAliveCountMax="@ + decimal(r.timeouts.server_alive_count_max as nat),
    ] + match t.ssh_port {
        Some(p) => seq!["-p"@, decimal(p as nat)],
        None => seq![],
    } + match t.identity_file {
        Some(f) => seq!["-i"@, spec_expand_home(f, home)],
        None => seq![],
    } + seq![t.ssh_user + "@"@ + t.ssh_host]
}

proof fn lemma_decimal_nonempty(n: nat)
    ensures
        decimal(n).len() >= 1,
{
}

/// The `ssh` arguments carry the configured SSH port: with a port `p`,
/// `-p` is followed by `p` in decimal; without one there is no `-p`
/// option (a `-p` can then only be the value of `-i`, an identity file of
/// that name).
pub proof fn lemma_ssh_args_carry_port(r: ResolvedModel, home: Option<Seq<char>>)
    ensures
        ({
            let args = spec_ssh_args(r, home);
            &&& r.tunnel.ssh_port matches Some(p) ==> exists|i: int|
                0 <= i && i + 1 < args.len() && #[trigger] args[i] == "-p"@ && args[i + 1] == decimal(p as nat)
            &&& r.tunnel.ssh_port is None ==> forall|i: int|
                0 <= i < args.len() && #[trigger] args[i] == "-p"@ ==> i > 0 && args[i - 1] == "-i"@
        }),
{
    let t = r.tunnel;
    let args = spec_ssh_args(r, home);
    let fixed = seq![
        "-N"@,
        "-L"@,
        spec_local_forward(t),
        "-o"@,
        "ExitOnForwardFailure=yes"@,
        "-o"@,
        "ConnectTimeout="@ + decimal(r.timeouts.connect_timeout_seconds as nat),
        "-o"@,
        "ServerAliveInterval="@ + decimal(r.timeouts.server_alive_interval_seconds as nat),
        "-o"@,
        "ServerAliveCountMax="@ + decimal(r.timeouts.server_alive_count_max as nat),
    ];
    let port_part = match t.ssh_port {
        Some(p) => seq!["-p"@, decimal(p as nat)],
        None => Seq::<Seq<char>>::empty(),
    };
    let id_part = match t.identity_file {
        Some(f) => seq!["-i"@, spec_expand_home(f, home)],
        None => Seq::<Seq<char>>::empty(),
    };
    let dest = t.ssh_user + "@"@ + t.ssh_host;
    assert(args == fixed + port_part + id_part + seq![dest]);
    if let Some(p) = t.ssh_port {
        assert(args[11] == "-p"@);
        assert(args[11int + 1] == decimal(p as nat));
    } else {
        reveal_strlit("-p");
        reveal_strlit("-N");
        reveal_strlit("-L");
        reveal_strlit("-o");
        reveal_strlit("-i");
        reveal_strlit("@");
        reveal_strlit(":");
        reveal_strlit("ExitOnForwardFailure=yes");
        reveal_strlit("ConnectTimeout=");
        reveal_strlit("ServerAliveInterval=");
        reveal_strlit("ServerAliveCountMax=");
        lemma_decimal_nonempty(t.local_port as nat);
        lemma_decimal_nonempty(t.remote_port as nat);
        assert(spec_local_forward(t).len() >= 5);
        assert forall|i: int| 0 <= i < args.len() && #[trigger] args[i] == "-p"@ implies i > 0 && args[i - 1]
            == "-i"@ by {
            if i < 11 {
                assert(args[i] == fixed[i]);
                assert(fixed[i].len() != 2 || fixed[i][1] != 'p');
            } else if i < 11 + id_part.len() {
                if i == 11 {
                    assert(args[i] == "-i"@);
                    assert(args[i][1] != 'p');
                } else {
                    assert(args[i - 1] == "-i"@);
                }
            } else {
                assert(args[i] == dest);
                assert(dest[t.ssh_user.len() as int] == '@');
                if dest.len() == 2 {
                    assert(t.ssh_user.len() <= 1);
                }
            }
        }
    }
}

/// The `ssh` arguments run no remote command (`-N`), forward the local
/// endpoint to the remote one (`-L host:port:remote_host:remote_port`),
/// fail when the forward cannot be set up, pass the three timeouts, name
/// the identity file after `-i` when one is set (`~/` expanded with the
/// home directory), and end with the destination `user@host`.
pub proof fn lemma_ssh_args_shape(r: ResolvedModel, home: Option<Seq<char>>)
    ensures
        ({
            let t = r.tunnel;
            let args = spec_ssh_args(r, home);
            &&& args.len() >= 12
            &&& args[0] == "-N"@ && args[1] == "-L"@
            &&& args[2] == spec_effective_local_host(t) + ":"@ + decimal(t.local_port as nat) + ":"@ + t.remote_host
                + ":"@ + decimal(t.remote_port as nat)
            &&& args[3] == "-o"@ && args[4] == "ExitOnForwardFailure=yes"@
            &&& args[5] == "-o"@ && args[6] == "ConnectTimeout="@ + decimal(r.timeouts.connect_timeout_seconds as nat)
            &&& args[7] == "-o"@ && args[8] == "ServerAliveInterval="@ + decimal(
                r.timeouts.server_alive_interval_seconds as nat,
            )
            &&& args[9] == "-o"@ && args[10] == "ServerAliveCountMax="@ + decimal(
                r.timeouts.server_alive_count_max as nat,
            )
            &&& t.identity_file matches Some(f) ==> exists|i: int|
                0 <= i && i + 1 < args.len() && #[trigger] args[i] == "-i"@ && args[i + 1] == spec_expand_home(f, home)
            &&& args.last() == t.ssh_user + "@"@ + t.ssh_host
        }),
{
    let t = r.tunnel;
    let args = spec_ssh_args(r, home);
    let n: int = if t.ssh_port is Some { 13 } else { 11 };
    if let Some(f) = t.identity_file {
        assert(args[n] == "-i"@);
        assert(args[n + 1] == spec_expand_home(f, home));
    }
}

/// `key` followed by the decimal form of `n`.
fn keyed_number(key: &str, n: u64) -> (r: String)
    ensures
        r@ == key@ + decimal(n as nat),
{
    let d = decimal_string(n);
    concat_str(key, d.as_str())
}

/// The arguments given to `ssh` to run a tunnel; `home` is the home
/// directory used to expand an identity file written from `~/`.
pub fn build_ssh_command_args(resolved: &ResolvedTunnelConfig, home: Option<&str>) -> (r: Vec<String>)
    ensures
        r.deep_view() == spec_ssh_args(resolved@, match home {
            Some(h) => Some(h@),
            None => None,
        }),
{
    let tunnel = &resolved.tunnel;
    let timeouts = resolved.timeouts;
    let a = concat_str(tunnel.effective_local_host(), ":");
    let b = concat_str(a.as_str(), decimal_string(tunnel.local_port as u64).as_str());
    let c = concat_str(b.as_str(), ":");
    let d = concat_str(c.as_str(), tunnel.remote_host.as_str());
    let e = concat_str(d.as_str(), ":");
    let local_forward = concat_str(e.as_str(), decimal_string(tunnel.remote_port as u64).as_str());
    let mut args: Vec<String> = Vec::new();
    args.push(String::from_str("-N"));
    args.push(String::from_str("-L"));
    args.push(local_forward);
    args.push(String::from_str("-o"));
    args.push(String::from_str("ExitOnForwardFailure=yes"));
    args.push(String::from_str("-o"));
    args.push(keyed_number("ConnectTimeout=", timeouts.connect_timeout_seconds as u64));
    args.push(String::from_str("-o"));
    args.push(keyed_number("ServerAliveInterval=", timeouts.server_alive_interval_seconds as u64));
    args.push(String::from_str("-o"));
    args.push(keyed_number("ServerAliveCountMax=", timeouts.server_alive_count_max as u64));
    let ghost fixed = args.deep_view();
    match tunnel.ssh_port {
        Some(p) => {
            args.push(String::from_str("-p"));
            args.push(decimal_string(p as u64));
        },
        None => {},
    }
    let ghost with_port = args.deep_view();
    match &tunnel.identity_file {
        Some(f) => {
            args.push(String::from_str("-i"));
            args.push(expand_home_path_with_home(f.as_str(), home));
        },
        None => {},
    }
    let ghost with_identity = args.deep_view();
    let u = concat_str(tunnel.ssh_user.as_str(), "@");
    args.push(concat_str(u.as_str(), tunnel.ssh_host.as_str()));
    proof {
        let hv = match home {
            Some(h) => Some(h@),
            None => None,
        };
        let t = resolved@.tunnel;
        let port_part = match t.ssh_port {
            Some(p) => seq!["-p"@, decimal(p as nat)],
            None => Seq::<Seq<char>>::empty(),
        };
        let id_part = match t.identity_file {
            Some(f) => seq!["-i"@, spec_expand_home(f, hv)],
            None => Seq::<Seq<char>>::empty(),
        };
        assert(with_port =~= fixed + port_part);
        assert(with_identity =~= fixed + port_part + id_part);
        assert(args.deep_view() =~= spec_ssh_args(resolved@, hv));
    }
    args
}

// ---------------------------------------------------------------------
// The lsof command
// ---------------------------------------------------------------------

/// Whether the values are in strictly increasing order.
pub open spec fn strictly_increasing(v: Seq<u32>) -> bool {
    forall|i: int, j: int| 0 <= i < j < v.len() ==> v[i] < v[j]
}

/// The pids in increasing order, each once.
pub open spec fn sorted_pids(pids: Seq<u32>) -> Seq<u32> {
    choose|v: Seq<u32>| strictly_increasing(v) && v.to_set() == pids.to_set()
}

/// Decimal pids joined by `,`.
pub open spec fn pid_list_text(v: Seq<u32>) -> Seq<char>
    decreases v.len(),
{
    if v.len() == 0 {
        seq![]
    } else if v.len() == 1 {
        decimal(v[0] as nat)
    } else {
        pid_list_text(v.drop_last()) + ","@ + decimal(v.last() as nat)
    }
}

proof fn lemma_increasing_unique(a: Seq<u32>, b: Seq<u32>)
    requires
        strictly_increasing(a),
        strictly_increasing(b),
        a.to_set() == b.to_set(),
    ensures
        a == b,
    decreases a.len(),
{
    if a.len() == 0 {
        if b.len() > 0 {
            assert(b.to_set().contains(b[0]));
            assert(!a.to_set().contains(b[0]));
        }
    } else if b.len() == 0 {
        assert(a.to_set().contains(a[0]));
    } else {
        let x = a.last();
        let y = b.last();
        assert(a.to_set().contains(x));
        assert(b.to_set().contains(y));
        assert(b.to_set().contains(x));
        assert(a.to_set().contains(y));
        let i = choose|i: int| 0 <= i < b.len() && b[i] == x;
        let j = choose|j: int| 0 <= j < a.len() && a[j] == y;
        assert(x == y) by {
            if x < y {
                assert(a[j] <= x);
            } else if y < x {
                assert(b[i] <= y);
            }
        }
        let a2 = a.drop_last();
        let b2 = b.drop_last();
        assert(a2.to_set() =~= b2.to_set()) by {
            assert forall|z: u32| a2.to_set().contains(z) implies b2.to_set().contains(z) by {
                let k = choose|k: int| 0 <= k < a2.len() && a2[k] == z;
                assert(a[k] == z && z < x);
                assert(b.to_set().contains(z));
                let m = choose|m: int| 0 <= m < b.len() && b[m] == z;
                assert(m != b.len() - 1);
                assert(b2[m] == z);
            }
            assert forall|z: u32| b2.to_set().contains(z) implies a2.to_set().contains(z) by {
                let k = choose|k: int| 0 <= k < b2.len() && b2[k] == z;
                assert(b[k] == z && z < y);
                assert(a.to_set().contains(z));
                let m = choose|m: int| 0 <= m < a.len() && a[m] == z;
                assert(m != a.len() - 1);
                assert(a2[m] == z);
            }
        }
        lemma_increasing_unique(a2, b2);
        assert(a =~= a2.push(x));
        assert(b =~= b2.push(y));
    }
}

proof fn lemma_push_to_set(s: Seq<u32>, x: u32)
    ensures
        s.push(x).to_set() == s.to_set().insert(x),
{
    assert forall|z: u32| s.push(x).to_set().contains(z) implies s.to_set().insert(x).contains(z) by {
        let m = choose|m: int| 0 <= m < s.push(x).len() && s.push(x)[m] == z;
        if m < s.len() {
            assert(s[m] == z);
        }
    }
    assert forall|z: u32| s.to_set().insert(x).contains(z) implies s.push(x).to_set().contains(z) by {
        if z == x {
            assert(s.push(x)[s.len() as int] == x);
        } else {
            let m = choose|m: int| 0 <= m < s.len() && s[m] == z;
            assert(s.push(x)[m] == z);
        }
    }
    assert(s.push(x).to_set() =~= s.to_set().insert(x));
}

/// The pids in increasing order, each once.
fn sort_pids(pids: &Vec<u32>) -> (r: Vec<u32>)
    ensures
        strictly_increasing(r@),
        r@.to_set() == pids@.to_set(),
{
    let mut out: Vec<u32> = Vec::new();
    let mut i: usize = 0;
    while i < pids.len()
        invariant
            i <= pids@.len(),
            strictly_increasing(out@),
            out@.to_set() == pids@.subrange(0, i as int).to_set(),
        decreases pids@.len() - i,
    {
        let x = pids[i];
        let ghost before = out@;
        let mut k: usize = 0;
        while k < out.len() && out[k] < x
            invariant
                out@ == before,
                k <= out@.len(),
                forall|j: int| 0 <= j < k ==> out@[j] < x,
            decreases out@.len() - k,
        {
            k += 1;
        }
        if k < out.len() && out[k] == x {
            assert(pids@.subrange(0, i + 1) =~= pids@.subrange(0, i as int).push(x));
            proof { lemma_push_to_set(pids@.subrange(0, i as int), x); }
            assert(out@.to_set().contains(x));
            assert(out@.to_set().insert(x) =~= out@.to_set());
        } else {
            out.insert(k, x);
            assert(out@ =~= before.subrange(0, k as int).push(x) + before.subrange(k as int, before.len() as int));
            assert forall|a: int, b: int| 0 <= a < b < out@.len() implies out@[a] < out@[b] by {
                if b < k {
                } else if b == k {
                } else if a < k {
                    assert(out@[b] == before[b - 1]);
                    assert(before[b - 1] >= x) by {
                        if k < before.len() {
                            assert(before[k as int] > x);
                            if b - 1 > k {
                                assert(before[k as int] < before[b - 1]);
                            }
                        }
                    }
                } else if a == k {
                    assert(out@[b] == before[b - 1]);
                    assert(before[k as int] > x);
                    if b - 1 > k {
                        assert(before[k as int] < before[b - 1]);
                    }
                } else {
                    assert(out@[a] == before[a - 1]);
                    assert(out@[b] == before[b - 1]);
                }
            }
            assert(pids@.subrange(0, i + 1) =~= pids@.subrange(0, i as int).push(x));
            assert(out@.to_set() =~= before.to_set().insert(x)) by {
                assert forall|z: u32| out@.to_set().contains(z) implies before.to_set().insert(x).contains(z) by {
                    let m = choose|m: int| 0 <= m < out@.len() && out@[m] == z;
                    if m < k {
                        assert(before[m] == z);
                    } else if m > k {
                        assert(before[m - 1] == z);
                    }
                }
                assert forall|z: u32| before.to_set().insert(x).contains(z) implies out@.to_set().contains(z) by {
                    if z == x {
                        assert(out@[k as int] == x);
                    } else {
                        let m = choose|m: int| 0 <= m < before.len() && before[m] == z;
                        if m < k {
                            assert(out@[m] == z);
                        } else {
                            assert(out@[m + 1] == z);
                        }
                    }
                }
            }
            proof { lemma_push_to_set(pids@.subrange(0, i as int), x); }
        }
        i += 1;
    }
    assert(pids@.subrange(0, i as int) =~= pids@);
    out
}

/// The `-p` value of lsof: the pids in increasing order, each once,
/// joined by `,`.
pub fn lsof_pid_list(pids: &Vec<u32>) -> (r: String)
    ensures
        r@ == pid_list_text(sorted_pids(pids@)),
{
    let sorted = sort_pids(pids);
    proof {
        assert(strictly_increasing(sorted@) && sorted@.to_set() == pids@.to_set());
        let v = sorted_pids(pids@);
        assert(strictly_increasing(v) && v.to_set() == pids@.to_set());
        lemma_increasing_unique(sorted@, v);
    }
    let mut r = String::new();
    let mut i: usize = 0;
    while i < sorted.len()
        invariant
            i <= sorted@.len(),
            r@ == pid_list_text(sorted@.subrange(0, i as int)),
        decreases sorted@.len() - i,
    {
        let d = decimal_string(sorted[i] as u64);
        assert(sorted@.subrange(0, i + 1).drop_last() =~= sorted@.subrange(0, i as int));
        if i == 0 {
            r = d;
        } else {
            let a = concat_str(r.as_str(), ",");
            r = concat_str(a.as_str(), d.as_str());
        }
        i += 1;
    }
    assert(sorted@.subrange(0, i as int) =~= sorted@);
    r
}

} // verus!
