//! The desktop app's batch operations on tunnels: which state file each
//! target goes to, the outcome of each, and the summary shown for them.

use vstd::prelude::*;

use crate::config::{EffectiveConfig, ResolvedModel, ResolvedTunnelConfig};
use crate::text::{concat_str, decimal, decimal_string, str_eq};
use crate::tunnel::{
    spec_runtime_error_text, ProcessState, RuntimeErrorModel, StartedTunnel, StoppedTunnel, TunnelRuntimeError,
};
use crate::workspace::{
    opt_view, runtime_scope_for_source, scope_label, spec_scope_for_source, spec_state_path_for_scope,
    state_path_for_runtime_scope, RuntimeScope,
};

verus! {

/// The message for a workspace-scope state file when no workspace is
/// chosen.
pub const MISSING_WORKSPACE_MESSAGE: &'static str = "local 設定を操作するにはワークスペースを選択してください";

/// A tunnel the user asked to start or stop, with the scope of its state
/// when known.
#[derive(Debug, PartialEq, Eq)]
pub struct OperationTargetInput {
    pub id: String,
    pub runtime_scope: Option<RuntimeScope>,
}

/// A target that succeeded, with the message shown for it.
#[derive(Debug, PartialEq, Eq)]
pub struct OperationSuccessView {
    pub id: String,
    pub message: String,
}

/// A target that failed, with the message shown for it.
#[derive(Debug, PartialEq, Eq)]
pub struct OperationFailureView {
    pub id: String,
    pub message: String,
}

/// What came of one target.
#[derive(Debug, PartialEq, Eq)]
pub enum OperationOutcome {
    Succeeded(OperationSuccessView),
    Failed(OperationFailureView),
    Skipped,
}

/// What came of a batch: the targets that succeeded and those that failed.
#[derive(Debug, PartialEq, Eq)]
pub struct OperationReport {
    pub succeeded: Vec<OperationSuccessView>,
    pub failed: Vec<OperationFailureView>,
}

/// The mathematical value of an outcome: `Some((true, id, message))` for a
/// success, `Some((false, id, message))` for a failure, `None` when skipped.
pub open spec fn outcome_view(o: OperationOutcome) -> Option<(bool, Seq<char>, Seq<char>)> {
    match o {
        OperationOutcome::Succeeded(s) => Some((true, s.id@, s.message@)),
        OperationOutcome::Failed(f) => Some((false, f.id@, f.message@)),
        OperationOutcome::Skipped => None,
    }
}

/// How a target is named in a report: its name, with its scope in
/// brackets when known.
pub open spec fn spec_target_label(id: Seq<char>, scope: Option<RuntimeScope>) -> Seq<char> {
    match scope {
        Some(s) => id + " ("@ + scope_label(s) + ")"@,
        None => id,
    }
}

/// How a target is named in a report.
pub fn operation_target_label(target: &OperationTargetInput) -> (r: String)
    ensures
        r@ == spec_target_label(target.id@, target.runtime_scope),
{
    match target.runtime_scope {
        Some(scope) => {
            let a = concat_str(target.id.as_str(), " (");
            let b = concat_str(a.as_str(), scope.label());
            concat_str(b.as_str(), ")")
        },
        None => target.id.clone(),
    }
}

/// The message when no target was chosen.
pub open spec fn no_targets_message() -> Seq<char> {
    "入力が不正です: 操作対象のトンネルが選択されていません"@
}

/// Refuses a batch without targets.
pub fn ensure_operation_targets_selected(targets: &[OperationTargetInput]) -> (r: Result<(), String>)
    ensures
        match r {
            Ok(_) => targets@.len() > 0,
            Err(m) => targets@.len() == 0 && m@ == no_targets_message(),
        },
{
    if targets.len() == 0 {
        return Err(String::from_str("入力が不正です: 操作対象のトンネルが選択されていません"));
    }
    Ok(())
}

/// The failure outcome of a target.
pub fn operation_failure_outcome(target: &OperationTargetInput, message: String) -> (r: OperationOutcome)
    ensures
        outcome_view(r) == Some((false, spec_target_label(target.id@, target.runtime_scope), message@)),
{
    OperationOutcome::Failed(OperationFailureView { id: operation_target_label(target), message })
}

/// `NAME を開始しました (pid: PID)`.
pub open spec fn spec_start_message(name: Seq<char>, pid: u32) -> Seq<char> {
    name + " を開始しました (pid: "@ + decimal(pid as nat) + ")"@
}

/// `NAME はすでに開始済みです (pid: PID)`.
pub open spec fn spec_already_running_message(name: Seq<char>, pid: u32) -> Seq<char> {
    name + " はすでに開始済みです (pid: "@ + decimal(pid as nat) + ")"@
}

/// What is said of a stopped tunnel: stopped when it ran, its stale state
/// dropped when it did not.
pub open spec fn spec_stop_message(name: Seq<char>, pid: u32, previous: ProcessState) -> Seq<char> {
    match previous {
        ProcessState::Running => name + " を停止しました (pid: "@ + decimal(pid as nat) + ")"@,
        ProcessState::Stale => name + " の stale 状態を削除しました (pid: "@ + decimal(pid as nat) + ")"@,
    }
}

/// `NAME はすでに停止済みです`.
pub open spec fn spec_already_stopped_message(name: Seq<char>) -> Seq<char> {
    name + " はすでに停止済みです"@
}

/// `prefix` followed by a pid and `)`.
fn with_pid(prefix: String, pid: u32) -> (r: String)
    ensures
        r@ == prefix@ + decimal(pid as nat) + ")"@,
{
    let a = concat_str(prefix.as_str(), decimal_string(pid as u64).as_str());
    concat_str(a.as_str(), ")")
}

/// The message for a started tunnel.
pub fn start_success_message(started: &StartedTunnel) -> (r: String)
    ensures
        r@ == spec_start_message(started.state.name@, started.state.pid),
{
    with_pid(concat_str(started.state.name.as_str(), " を開始しました (pid: "), started.state.pid)
}

/// The message for a tunnel that already ran.
pub fn start_already_running_message(name: &str, pid: u32) -> (r: String)
    ensures
        r@ == spec_already_running_message(name@, pid),
{
    with_pid(concat_str(name, " はすでに開始済みです (pid: "), pid)
}

/// The message for a stopped tunnel.
pub fn stop_success_message(stopped: &StoppedTunnel) -> (r: String)
    ensures
        r@ == spec_stop_message(stopped.state.name@, stopped.state.pid, stopped.previous_state),
{
    match stopped.previous_state {
        ProcessState::Running => with_pid(
            concat_str(stopped.state.name.as_str(), " を停止しました (pid: "),
            stopped.state.pid,
        ),
        ProcessState::Stale => with_pid(
            concat_str(stopped.state.name.as_str(), " の stale 状態を削除しました (pid: "),
            stopped.state.pid,
        ),
    }
}

/// The message for a tunnel that was not tracked any more.
pub fn stop_already_stopped_message(name: &str) -> (r: String)
    ensures
        r@ == spec_already_stopped_message(name@),
{
    concat_str(name, " はすでに停止済みです")
}

/// What the app says of a start: a message for a started tunnel and for
/// one that already ran; any other refusal is an error with its message.
pub open spec fn spec_start_result(r: Result<StartedTunnel, TunnelRuntimeError>) -> Result<Seq<char>, Seq<char>> {
    match r {
        Ok(s) => Ok(spec_start_message(s.state.name@, s.state.pid)),
        Err(e) => match e@ {
            RuntimeErrorModel::AlreadyRunning { runtime_id, name, pid } => Ok(spec_already_running_message(name, pid)),
            other => Err(spec_runtime_error_text(other)),
        },
    }
}

/// What the app says of a start.
pub fn start_tunnel_result_for_app(result: &Result<StartedTunnel, TunnelRuntimeError>) -> (r: Result<String, String>)
    ensures
        match r {
            Ok(m) => spec_start_result(*result) == Ok::<Seq<char>, Seq<char>>(m@),
            Err(m) => spec_start_result(*result) == Err::<Seq<char>, Seq<char>>(m@),
        },
{
    match result {
        Ok(started) => Ok(start_success_message(started)),
        Err(TunnelRuntimeError::AlreadyRunning { runtime_id, name, pid }) => Ok(
            start_already_running_message(name.as_str(), *pid),
        ),
        Err(error) => Err(error.to_display_string()),
    }
}

/// What the app says of a stop: a message for a stopped tunnel and for one
/// no longer tracked; any other refusal is an error with its message.
pub open spec fn spec_stop_result(name: Seq<char>, r: Result<StoppedTunnel, TunnelRuntimeError>) -> Result<
    Seq<char>,
    Seq<char>,
> {
    match r {
        Ok(s) => Ok(spec_stop_message(s.state.name@, s.state.pid, s.previous_state)),
        Err(e) => match e@ {
            RuntimeErrorModel::NotTracked { runtime_id } => Ok(spec_already_stopped_message(runtime_id)),
            other => Err(spec_runtime_error_text(other)),
        },
    }
}

/// What the app says of a stop of tunnel `name`.
pub fn stop_tunnel_result_for_app(name: &str, result: &Result<StoppedTunnel, TunnelRuntimeError>) -> (r: Result<
    String,
    String,
>)
    ensures
        match r {
            Ok(m) => spec_stop_result(name@, *result) == Ok::<Seq<char>, Seq<char>>(m@),
            Err(m) => spec_stop_result(name@, *result) == Err::<Seq<char>, Seq<char>>(m@),
        },
{
    match result {
        Ok(stopped) => Ok(stop_success_message(stopped)),
        Err(TunnelRuntimeError::NotTracked { runtime_id }) => Ok(stop_already_stopped_message(runtime_id.as_str())),
        Err(error) => Err(error.to_display_string()),
    }
}

/// The outcome of a start for a target.
pub fn start_operation_result_outcome(target: &OperationTargetInput, result: &Result<StartedTunnel, TunnelRuntimeError>) -> (r:
    OperationOutcome)
    ensures
        outcome_view(r) == match spec_start_result(*result) {
            Ok(m) => Some((true, spec_target_label(target.id@, target.runtime_scope), m)),
            Err(m) => Some((false, spec_target_label(target.id@, target.runtime_scope), m)),
        },
{
    match start_tunnel_result_for_app(result) {
        Ok(message) => OperationOutcome::Succeeded(OperationSuccessView { id: operation_target_label(target), message }),
        Err(message) => operation_failure_outcome(target, message),
    }
}

/// The successes among the outcomes, in order.
pub open spec fn successes(os: Seq<Option<OperationOutcome>>) -> Seq<(Seq<char>, Seq<char>)>
    decreases os.len(),
{
    if os.len() == 0 {
        seq![]
    } else {
        let prev = successes(os.drop_last());
        match os.last() {
            Some(OperationOutcome::Succeeded(s)) => prev.push((s.id@, s.message@)),
            _ => prev,
        }
    }
}

/// The failures among the outcomes, in order.
pub open spec fn failures(os: Seq<Option<OperationOutcome>>) -> Seq<(Seq<char>, Seq<char>)>
    decreases os.len(),
{
    if os.len() == 0 {
        seq![]
    } else {
        let prev = failures(os.drop_last());
        match os.last() {
            Some(OperationOutcome::Failed(f)) => prev.push((f.id@, f.message@)),
            _ => prev,
        }
    }
}

/// The mathematical value of a list of successes.
pub open spec fn success_views(v: Seq<OperationSuccessView>) -> Seq<(Seq<char>, Seq<char>)> {
    v.map_values(|s: OperationSuccessView| (s.id@, s.message@))
}

/// The mathematical value of a list of failures.
pub open spec fn failure_views(v: Seq<OperationFailureView>) -> Seq<(Seq<char>, Seq<char>)> {
    v.map_values(|f: OperationFailureView| (f.id@, f.message@))
}

/// The report of a batch: its successes and its failures, each in order;
/// missing and skipped outcomes count as neither.
pub fn operation_report_from_outcomes(outcomes: Vec<Option<OperationOutcome>>) -> (r: OperationReport)
    ensures
        success_views(r.succeeded@) == successes(outcomes@),
        failure_views(r.failed@) == failures(outcomes@),
{
    let ghost ov = outcomes@;
    let total = outcomes.len();
    let mut succeeded: Vec<OperationSuccessView> = Vec::new();
    let mut failed: Vec<OperationFailureView> = Vec::new();
    let mut rest = outcomes;
    let mut taken: usize = 0;
    while rest.len() > 0
        invariant
            taken + rest@.len() == ov.len(),
            total == ov.len(),
            rest@ == ov.subrange(taken as int, ov.len() as int),
            success_views(succeeded@) == successes(ov.subrange(0, taken as int)),
            failure_views(failed@) == failures(ov.subrange(0, taken as int)),
        decreases rest@.len(),
    {
        let o = rest.remove(0);
        proof {
            assert(o == ov[taken as int]);
            assert(rest@ =~= ov.subrange(taken + 1, ov.len() as int));
            assert(ov.subrange(0, taken + 1).drop_last() =~= ov.subrange(0, taken as int));
        }
        let ghost sv = success_views(succeeded@);
        let ghost fv = failure_views(failed@);
        match o {
            Some(OperationOutcome::Succeeded(s)) => {
                let ghost x = (s.id@, s.message@);
                succeeded.push(s);
                assert(success_views(succeeded@) =~= sv.push(x));
            },
            Some(OperationOutcome::Failed(f)) => {
                let ghost x = (f.id@, f.message@);
                failed.push(f);
                assert(failure_views(failed@) =~= fv.push(x));
            },
            _ => {},
        }
        taken += 1;
    }
    assert(ov.subrange(0, taken as int) =~= ov);
    OperationReport { succeeded, failed }
}

/// The notice shown in the tray after a batch.
#[derive(Debug, PartialEq, Eq)]
pub struct TrayOperationResultEvent {
    pub kind: String,
    pub summary: String,
    pub detail: Option<String>,
}

/// The failures, one per line: `id: message`.
pub open spec fn failure_lines(fs: Seq<(Seq<char>, Seq<char>)>) -> Seq<char>
    decreases fs.len(),
{
    if fs.len() == 0 {
        seq![]
    } else if fs.len() == 1 {
        fs[0].0 + ": "@ + fs[0].1
    } else {
        failure_lines(fs.drop_last()) + "\n"@ + fs.last().0 + ": "@ + fs.last().1
    }
}

/// The tray notice for a report: none when nothing was done; `success`
/// with the count when all succeeded; else `info` (some succeeded) or
/// `error` (none did) with both counts and the failures, one per line.
pub open spec fn spec_tray_event(s: Seq<(Seq<char>, Seq<char>)>, f: Seq<(Seq<char>, Seq<char>)>) -> Option<
    (Seq<char>, Seq<char>, Option<Seq<char>>),
> {
    if s.len() == 0 && f.len() == 0 {
        None
    } else if f.len() == 0 {
        Some(("success"@, decimal(s.len()) + " 件の操作が完了しました"@, None))
    } else {
        Some(
            (
                if s.len() > 0 {
                    "info"@
                } else {
                    "error"@
                },
                decimal(s.len()) + " 件成功、"@ + decimal(f.len()) + " 件失敗しました"@,
                Some(failure_lines(f)),
            ),
        )
    }
}

/// The tray notice for a report.
pub fn tray_operation_event_from_report(report: &OperationReport) -> (r: Option<TrayOperationResultEvent>)
    ensures
        match r {
            Some(e) => spec_tray_event(success_views(report.succeeded@), failure_views(report.failed@)) == Some(
                (e.kind@, e.summary@, e.detail.deep_view()),
            ),
            None => spec_tray_event(success_views(report.succeeded@), failure_views(report.failed@)) is None,
        },
{
    let ns = report.succeeded.len();
    let nf = report.failed.len();
    if ns == 0 && nf == 0 {
        return None;
    }
    if nf == 0 {
        return Some(
            TrayOperationResultEvent {
                kind: String::from_str("success"),
                summary: concat_str(decimal_string(ns as u64).as_str(), " 件の操作が完了しました"),
                detail: None,
            },
        );
    }
    let kind = if ns > 0 {
        String::from_str("info")
    } else {
        String::from_str("error")
    };
    let a = concat_str(decimal_string(ns as u64).as_str(), " 件成功、");
    let b = concat_str(a.as_str(), decimal_string(nf as u64).as_str());
    let summary = concat_str(b.as_str(), " 件失敗しました");
    let ghost fv = failure_views(report.failed@);
    let mut detail = String::new();
    let mut i: usize = 0;
    while i < nf
        invariant
            nf == report.failed@.len(),
            fv == failure_views(report.failed@),
            i <= nf,
            detail@ == failure_lines(fv.subrange(0, i as int)),
        decreases nf - i,
    {
        let f = &report.failed[i];
        assert(fv[i as int] == (f.id@, f.message@));
        assert(fv.subrange(0, i + 1).drop_last() =~= fv.subrange(0, i as int));
        let a = concat_str(f.id.as_str(), ": ");
        let line = concat_str(a.as_str(), f.message.as_str());
        if i == 0 {
            detail = line;
        } else {
            let b = concat_str(detail.as_str(), "\n");
            detail = concat_str(b.as_str(), line.as_str());
        }
        i += 1;
    }
    assert(fv.subrange(0, nf as int) =~= fv);
    Some(TrayOperationResultEvent { kind, summary, detail: Some(detail) })
}

// ---------------------------------------------------------------------
// Starting from the app
// ---------------------------------------------------------------------

/// The position of the last configured tunnel called `id` among the first
/// `n`.
pub open spec fn last_with_name(ts: Seq<ResolvedModel>, id: Seq<char>, n: int) -> Option<int>
    decreases n,
{
    if n <= 0 {
        None
    } else if ts[n - 1].tunnel.name == id {
        Some(n - 1)
    } else {
        last_with_name(ts, id, n - 1)
    }
}

/// The message for a target whose name is not configured.
pub open spec fn unknown_target_message(id: Seq<char>) -> Seq<char> {
    "入力が不正です: 未定義のトンネル ID です: "@ + id
}

/// Where a start of target `id` goes: the configured tunnel of that name
/// (the last one) and the state file of its scope; refused when no tunnel
/// has that name or its scope has no state file.
pub open spec fn spec_resolve_start(
    ts: Seq<ResolvedModel>,
    global_state_path: Seq<char>,
    workspace_state_path: Option<Seq<char>>,
    id: Seq<char>,
) -> Result<(Seq<char>, int), Seq<char>> {
    match last_with_name(ts, id, ts.len() as int) {
        None => Err(unknown_target_message(id)),
        Some(i) => match spec_state_path_for_scope(
            global_state_path,
            workspace_state_path,
            spec_scope_for_source(ts[i].source.kind),
        ) {
            None => Err(MISSING_WORKSPACE_MESSAGE@),
            Some(p) => Ok((p, i)),
        },
    }
}

/// The positions, in order, of the first `m` targets whose start goes to
/// state file `path`.
pub open spec fn indices_with_path(
    ts: Seq<ResolvedModel>,
    g: Seq<char>,
    w: Option<Seq<char>>,
    targets: Seq<OperationTargetInput>,
    path: Seq<char>,
    m: int,
) -> Seq<int>
    decreases m,
{
    if m <= 0 {
        seq![]
    } else {
        let prev = indices_with_path(ts, g, w, targets, path, m - 1);
        match spec_resolve_start(ts, g, w, targets[m - 1].id@) {
            Ok((p, i)) => if p == path {
                prev.push(m - 1)
            } else {
                prev
            },
            Err(_) => prev,
        }
    }
}

/// The state files the first `m` targets go to, each once, in the order
/// first used.
pub open spec fn first_paths(
    ts: Seq<ResolvedModel>,
    g: Seq<char>,
    w: Option<Seq<char>>,
    targets: Seq<OperationTargetInput>,
    m: int,
) -> Seq<Seq<char>>
    decreases m,
{
    if m <= 0 {
        seq![]
    } else {
        let prev = first_paths(ts, g, w, targets, m - 1);
        match spec_resolve_start(ts, g, w, targets[m - 1].id@) {
            Ok((p, i)) => if prev.contains(p) {
                prev
            } else {
                prev.push(p)
            },
            Err(_) => prev,
        }
    }
}

/// A resolution whose state file is `p`.
pub open spec fn resolved_path_is(r: Option<(String, usize)>, p: Seq<char>) -> bool {
    r matches Some(x) && x.0@ == p
}

/// A resolution to state file `p` and tunnel position `q`.
pub open spec fn resolved_as(r: Option<(String, usize)>, p: Seq<char>, q: int) -> bool {
    r matches Some(x) && x.0@ == p && x.1 as int == q
}

/// A target to start: its position in the batch and its tunnel.
#[derive(Debug, PartialEq, Eq)]
pub struct StartOperationTarget<'a> {
    pub index: usize,
    pub tunnel: &'a ResolvedTunnelConfig,
}

/// The targets to start whose state goes to one state file.
#[derive(Debug, PartialEq, Eq)]
pub struct StartOperationGroup<'a> {
    pub state_path: String,
    pub targets: Vec<StartOperationTarget<'a>>,
}

/// A batch start: the groups to start, and the outcome of each target
/// already known (a failure), by position.
#[derive(Debug, PartialEq, Eq)]
pub struct StartOperationPlan<'a> {
    pub groups: Vec<StartOperationGroup<'a>>,
    pub outcomes: Vec<Option<OperationOutcome>>,
}

/// The last configured tunnel called `id`.
fn last_tunnel_with_name(config: &EffectiveConfig, id: &str) -> (r: Option<usize>)
    ensures
        match r {
            Some(i) => last_with_name(config@.tunnels, id@, config@.tunnels.len() as int) == Some(i as int) && i
                < config@.tunnels.len(),
            None => last_with_name(config@.tunnels, id@, config@.tunnels.len() as int) is None,
        },
{
    let mut i: usize = config.tunnels.len();
    while i > 0
        invariant
            i <= config@.tunnels.len(),
            last_with_name(config@.tunnels, id@, config@.tunnels.len() as int) == last_with_name(
                config@.tunnels,
                id@,
                i as int,
            ),
        decreases i,
    {
        assert(config@.tunnels[i - 1] == config.tunnels@[i - 1]@);
        if str_eq(config.tunnels[i - 1].tunnel.name.as_str(), id) {
            return Some(i - 1);
        }
        i -= 1;
    }
    None
}

/// Where the start of one target goes.
fn resolve_start_target(
    config: &EffectiveConfig,
    global_state_path: &str,
    workspace_state_path: Option<&str>,
    id: &str,
) -> (r: Result<(String, usize), String>)
    ensures
        match r {
            Ok((p, i)) => spec_resolve_start(config@.tunnels, global_state_path@, opt_view(workspace_state_path), id@)
                == Ok::<(Seq<char>, int), Seq<char>>((p@, i as int)) && i < config@.tunnels.len(),
            Err(m) => spec_resolve_start(config@.tunnels, global_state_path@, opt_view(workspace_state_path), id@)
                == Err::<(Seq<char>, int), Seq<char>>(m@),
        },
{
    let i = match last_tunnel_with_name(config, id) {
        Some(i) => i,
        None => {
            return Err(concat_str("入力が不正です: 未定義のトンネル ID です: ", id));
        },
    };
    assert(config@.tunnels[i as int] == config.tunnels@[i as int]@);
    let scope = runtime_scope_for_source(config.tunnels[i].source.kind);
    match state_path_for_runtime_scope(global_state_path, workspace_state_path, scope) {
        Some(p) => Ok((String::from_str(p), i)),
        None => Err(String::from_str(MISSING_WORKSPACE_MESSAGE)),
    }
}

/// Plans a batch start from the app: refused without targets; else each
/// target goes, by [`spec_resolve_start`], either to a failure outcome at
/// its position or to the group of its state file, where targets keep
/// their order; there is one group per state file used, and no other, in
/// the order the state files are first used.
pub fn plan_start_operations<'a>(
    targets: &[OperationTargetInput],
    config: &'a EffectiveConfig,
    global_state_path: &str,
    workspace_state_path: Option<&str>,
) -> (r: Result<StartOperationPlan<'a>, String>)
    ensures
        match r {
            Err(m) => targets@.len() == 0 && m@ == no_targets_message(),
            Ok(plan) => {
                let ts = config@.tunnels;
                let g = global_state_path@;
                let w = opt_view(workspace_state_path);
                &&& targets@.len() > 0
                &&& plan.outcomes@.len() == targets@.len()
                &&& forall|i: int|
                    0 <= i < targets@.len() ==> match spec_resolve_start(ts, g, w, (#[trigger] targets@[i]).id@) {
                        Err(m) => plan.outcomes@[i] matches Some(o) && outcome_view(o) == Some(
                            (false, spec_target_label(targets@[i].id@, targets@[i].runtime_scope), m),
                        ),
                        Ok(_) => plan.outcomes@[i] is None,
                    }
                &&& plan.groups@.map_values(|gr: StartOperationGroup<'a>| gr.state_path@) == first_paths(
                    ts,
                    g,
                    w,
                    targets@,
                    targets@.len() as int,
                )
                &&& forall|a: int, b: int|
                    0 <= a < b < plan.groups@.len() ==> (#[trigger] plan.groups@[a]).state_path@
                        != (#[trigger] plan.groups@[b]).state_path@
                &&& forall|k: int|
                    0 <= k < plan.groups@.len() ==> (#[trigger] plan.groups@[k]).targets@.map_values(
                        |t: StartOperationTarget<'a>| t.index as int,
                    ) == indices_with_path(ts, g, w, targets@, plan.groups@[k].state_path@, targets@.len() as int)
                &&& forall|k: int, j: int|
                    0 <= k < plan.groups@.len() && 0 <= j < plan.groups@[k].targets@.len() ==> {
                        let t = #[trigger] plan.groups@[k].targets@[j];
                        spec_resolve_start(ts, g, w, targets@[t.index as int].id@) matches Ok((p, i)) && t.tunnel@
                            == ts[i]
                    }
                &&& forall|i: int|
                    0 <= i < targets@.len() ==> (spec_resolve_start(ts, g, w, (#[trigger] targets@[i]).id@) matches Ok(
                        (p, q),
                    ) ==> exists|k: int| 0 <= k < plan.groups@.len() && (#[trigger] plan.groups@[k]).state_path@ == p)
            },
        },
{
    if targets.len() == 0 {
        return Err(String::from_str("入力が不正です: 操作対象のトンネルが選択されていません"));
    }
    let ghost ts = config@.tunnels;
    let ghost g = global_state_path@;
    let ghost w = opt_view(workspace_state_path);
    let n = targets.len();
    let mut outcomes: Vec<Option<OperationOutcome>> = Vec::new();
    let mut resolved: Vec<Option<(String, usize)>> = Vec::new();
    let mut i: usize = 0;
    while i < n
        invariant
            n == targets@.len(),
            i <= n,
            ts == config@.tunnels,
            g == global_state_path@,
            w == opt_view(workspace_state_path),
            outcomes@.len() == i,
            resolved@.len() == i,
            forall|j: int|
                0 <= j < i ==> match spec_resolve_start(ts, g, w, (#[trigger] targets@[j]).id@) {
                    Err(m) => outcomes@[j] matches Some(o) && outcome_view(o) == Some(
                        (false, spec_target_label(targets@[j].id@, targets@[j].runtime_scope), m),
                    ) && resolved@[j] is None,
                    Ok((p, q)) => outcomes@[j] is None && resolved_as(resolved@[j], p, q) && q < ts.len(),
                },
        decreases n - i,
    {
        match resolve_start_target(config, global_state_path, workspace_state_path, targets[i].id.as_str()) {
            Ok(x) => {
                outcomes.push(None);
                resolved.push(Some(x));
            },
            Err(m) => {
                outcomes.push(Some(operation_failure_outcome(&targets[i], m)));
                resolved.push(None);
            },
        }
        i += 1;
    }
    // One state file per group, in the order first used.
    let mut paths: Vec<String> = Vec::new();
    let mut k: usize = 0;
    while k < n
        invariant
            n == targets@.len(),
            k <= n,
            resolved@.len() == n,
            ts == config@.tunnels,
            g == global_state_path@,
            w == opt_view(workspace_state_path),
            forall|j: int|
                0 <= j < n ==> match spec_resolve_start(ts, g, w, (#[trigger] targets@[j]).id@) {
                    Err(m) => resolved@[j] is None,
                    Ok((pp, q)) => resolved_as(resolved@[j], pp, q) && q < ts.len(),
                },
            paths@.map_values(|s: String| s@) == first_paths(ts, g, w, targets@, k as int),
            forall|a: int, b: int| 0 <= a < b < paths@.len() ==> (#[trigger] paths@[a])@ != (#[trigger] paths@[b])@,
            forall|j: int|
                0 <= j < k ==> ((#[trigger] resolved@[j]) matches Some(x) ==> exists|q: int|
                    0 <= q < paths@.len() && (#[trigger] paths@[q])@ == x.0@),
            forall|q: int|
                0 <= q < paths@.len() ==> exists|j: int|
                    0 <= j < n && resolved_path_is(#[trigger] resolved@[j], (#[trigger] paths@[q])@),
        decreases n - k,
    {
        let ghost prev = paths@.map_values(|s: String| s@);
        let ghost rk = spec_resolve_start(ts, g, w, targets@[k as int].id@);
        assert(rk == spec_resolve_start(ts, g, w, targets@[k as int].id@));
        match &resolved[k] {
            Some(x) => {
                let mut seen = false;
                let mut q: usize = 0;
                while q < paths.len()
                    invariant
                        q <= paths@.len(),
                        seen == exists|u: int| 0 <= u < q && (#[trigger] paths@[u])@ == x.0@,
                    decreases paths@.len() - q,
                {
                    if str_eq(paths[q].as_str(), x.0.as_str()) {
                        seen = true;
                    }
                    q += 1;
                }
                proof {
                    if seen {
                        let u = choose|u: int| 0 <= u < paths@.len() && (#[trigger] paths@[u])@ == x.0@;
                        assert(prev[u] == x.0@);
                    } else {
                        assert forall|u: int| 0 <= u < prev.len() implies prev[u] != x.0@ by {
                            assert(prev[u] == paths@[u]@);
                        }
                    }
                    assert(seen == prev.contains(x.0@));
                }
                if !seen {
                    let ghost before = paths@;
                    paths.push(x.0.clone());
                    assert(paths@.map_values(|s: String| s@) =~= prev.push(x.0@));
                    assert forall|a: int, b: int| 0 <= a < b < paths@.len() implies (#[trigger] paths@[a])@
                        != (#[trigger] paths@[b])@ by {
                        if b == paths@.len() - 1 {
                            assert(paths@[a] == before[a]);
                        } else {
                            assert(paths@[a] == before[a] && paths@[b] == before[b]);
                        }
                    }
                    assert(paths@[paths@.len() - 1]@ == x.0@);
                    assert forall|j: int|
                        0 <= j < k + 1 implies ((#[trigger] resolved@[j]) matches Some(y) ==> exists|u: int|
                        0 <= u < paths@.len() && (#[trigger] paths@[u])@ == y.0@) by {
                        if j < k {
                            if let Some(y) = resolved@[j] {
                                let u = choose|u: int| 0 <= u < before.len() && (#[trigger] before[u])@ == y.0@;
                                assert(paths@[u] == before[u]);
                            }
                        } else {
                            assert(paths@[paths@.len() - 1]@ == x.0@);
                        }
                    }
                    assert forall|u: int| 0 <= u < paths@.len() implies exists|j: int|
                        0 <= j < n && resolved_path_is(#[trigger] resolved@[j], (#[trigger] paths@[u])@) by {
                        if u < before.len() {
                            assert(paths@[u] == before[u]);
                        } else {
                            assert(resolved_path_is(resolved@[k as int], paths@[u]@));
                        }
                    }
                }
            },
            None => {},
        }
        k += 1;
    }
    // The targets of each group, in order.
    let mut groups: Vec<StartOperationGroup<'a>> = Vec::new();
    let mut p: usize = 0;
    while p < paths.len()
        invariant
            n == targets@.len(),
            ts == config@.tunnels,
            g == global_state_path@,
            w == opt_view(workspace_state_path),
            resolved@.len() == n,
            p <= paths@.len(),
            groups@.len() == p,
            forall|j: int|
                0 <= j < n ==> match spec_resolve_start(ts, g, w, (#[trigger] targets@[j]).id@) {
                    Err(m) => resolved@[j] is None,
                    Ok((pp, q)) => resolved_as(resolved@[j], pp, q) && q < ts.len(),
                },
            forall|u: int| 0 <= u < p ==> (#[trigger] groups@[u]).state_path@ == paths@[u]@,
            forall|u: int|
                0 <= u < p ==> (#[trigger] groups@[u]).targets@.map_values(|t: StartOperationTarget<'a>| t.index as int)
                    == indices_with_path(ts, g, w, targets@, groups@[u].state_path@, n as int),
            forall|u: int, j: int|
                0 <= u < p && 0 <= j < groups@[u].targets@.len() ==> {
                    let t = #[trigger] groups@[u].targets@[j];
                    spec_resolve_start(ts, g, w, targets@[t.index as int].id@) matches Ok((pp, q)) && t.tunnel@ == ts[q]
                },
        decreases paths@.len() - p,
    {
        let path = &paths[p];
        let mut members: Vec<StartOperationTarget<'a>> = Vec::new();
        let mut j: usize = 0;
        while j < n
            invariant
                n == targets@.len(),
                ts == config@.tunnels,
                resolved@.len() == n,
                j <= n,
                forall|x: int|
                    0 <= x < n ==> match spec_resolve_start(ts, g, w, (#[trigger] targets@[x]).id@) {
                        Err(m) => resolved@[x] is None,
                        Ok((pp, q)) => resolved_as(resolved@[x], pp, q) && q < ts.len(),
                    },
                members@.map_values(|t: StartOperationTarget<'a>| t.index as int) == indices_with_path(
                    ts,
                    g,
                    w,
                    targets@,
                    path@,
                    j as int,
                ),
                forall|v: int|
                    0 <= v < members@.len() ==> {
                        let t = #[trigger] members@[v];
                        spec_resolve_start(ts, g, w, targets@[t.index as int].id@) matches Ok((pp, q)) && t.tunnel@
                            == ts[q]
                    },
            decreases n - j,
        {
            let ghost before = members@;
            let ghost r = spec_resolve_start(ts, g, w, targets@[j as int].id@);
            assert(r == spec_resolve_start(ts, g, w, targets@[j as int].id@));
            match &resolved[j] {
                Some(x) => {
                    if str_eq(x.0.as_str(), path.as_str()) {
                        assert(config@.tunnels[x.1 as int] == config.tunnels@[x.1 as int]@);
                        members.push(StartOperationTarget { index: j, tunnel: &config.tunnels[x.1] });
                        assert(members@.map_values(|t: StartOperationTarget<'a>| t.index as int) =~= before.map_values(
                            |t: StartOperationTarget<'a>| t.index as int,
                        ).push(j as int));
                        assert forall|v: int| 0 <= v < members@.len() implies {
                            let t = #[trigger] members@[v];
                            spec_resolve_start(ts, g, w, targets@[t.index as int].id@) matches Ok((pp, q)) && t.tunnel@
                                == ts[q]
                        } by {
                            if v < before.len() {
                                assert(members@[v] == before[v]);
                            }
                        }
                    }
                },
                None => {},
            }
            j += 1;
        }
        let ghost gv = groups@;
        groups.push(StartOperationGroup { state_path: path.clone(), targets: members });
        assert forall|u: int| 0 <= u < p + 1 implies (#[trigger] groups@[u]).state_path@ == paths@[u]@ by {
            if u < p {
                assert(groups@[u] == gv[u]);
            }
        }
        assert forall|u: int|
            0 <= u < p + 1 implies (#[trigger] groups@[u]).targets@.map_values(
            |t: StartOperationTarget<'a>| t.index as int,
        ) == indices_with_path(ts, g, w, targets@, groups@[u].state_path@, n as int) by {
            if u < p {
                assert(groups@[u] == gv[u]);
            }
        }
        assert forall|u: int, v: int| 0 <= u < p + 1 && 0 <= v < groups@[u].targets@.len() implies {
            let t = #[trigger] groups@[u].targets@[v];
            spec_resolve_start(ts, g, w, targets@[t.index as int].id@) matches Ok((pp, q)) && t.tunnel@ == ts[q]
        } by {
            if u < p {
                assert(groups@[u] == gv[u]);
            }
        }
        p += 1;
    }
    proof {
        assert(groups@.map_values(|gr: StartOperationGroup<'a>| gr.state_path@) =~= paths@.map_values(
            |s: String| s@,
        ));
        assert forall|a: int, b: int| 0 <= a < b < groups@.len() implies (#[trigger] groups@[a]).state_path@
            != (#[trigger] groups@[b]).state_path@ by {
            assert(groups@[a].state_path@ == paths@[a]@);
            assert(groups@[b].state_path@ == paths@[b]@);
        }
        assert forall|i: int|
            0 <= i < targets@.len() implies (spec_resolve_start(ts, g, w, (#[trigger] targets@[i]).id@) matches Ok(
            (pp, q),
        ) ==> exists|k: int| 0 <= k < groups@.len() && (#[trigger] groups@[k]).state_path@ == pp) by {
            if let Ok((pp, q)) = spec_resolve_start(ts, g, w, targets@[i].id@) {
                assert(resolved_path_is(resolved@[i], pp));
                let u = choose|u: int| 0 <= u < paths@.len() && (#[trigger] paths@[u])@ == pp;
                assert(groups@[u].state_path@ == pp);
            }
        }
    }
    Ok(StartOperationPlan { groups, outcomes })
}

} // verus!
