//! What the `start`, `stop`, `recover` and `watch` commands decide before
//! any process is touched: whether the request can be served, and which
//! tunnels it is about.

use vstd::prelude::*;

use crate::config::{ConfigSourceKind, EffectiveConfig, EffectiveModel, ResolvedModel, ResolvedTunnelConfig};
use crate::display::{join_strings, joined, normalize_cli_tags, spec_tag_inputs};
use crate::order::is_stable_name_order;
use crate::selection::{
    find_statuses_by_names, find_tunnel_by_runtime_id, find_tunnels_by_names, in_scope, is_watched_stale,
    name_position, runtime_id_position, stale_runtime_ids, ref_names, resolved_names, select_tunnels_for_scope,
    select_tunnels_for_tags, sorted_by_name, sorted_statuses_by_id, sorted_tunnels_by_id, spec_in_scope,
    spec_name_lookup, spec_status_lookup, status_matches_scope, status_names, status_states, tagged,
};
use crate::state::{runtime_id_for_resolved_tunnel, spec_runtime_id};
use crate::report::{PrintedLine, PrintedModel};
use crate::text::{concat_str, decimal, decimal_string, str_eq};
use crate::tunnel::{ProcessState, TunnelRuntimeStatus};
use crate::validate::{spec_validation_errors, validate_config, ValidationReport};

verus! {

/// The models of tunnels held by reference.
pub open spec fn views<'a>(ts: Seq<&'a ResolvedTunnelConfig>) -> Seq<ResolvedModel> {
    ts.map_values(|t: &'a ResolvedTunnelConfig| t@)
}

/// Whether a configuration file (or the local override) was loaded.
pub open spec fn has_configuration(c: EffectiveModel) -> bool {
    c.sources.len() > 0 || c.local_override is Some
}

// ---------------------------------------------------------------------
// start
// ---------------------------------------------------------------------

/// Why `start` refuses a request.
#[derive(Debug, PartialEq, Eq)]
pub enum StartRefusal {
    /// No configuration file was found.
    NoConfiguration,
    /// The configuration has errors; the report lists them.
    InvalidConfiguration { report: ValidationReport },
    /// `--all` was given with names or tags.
    AllWithSelection,
    /// Names were given with tags.
    NamesWithTags,
    /// The parallelism is 0.
    ZeroParallelism,
    /// A tag is not valid; the message says which.
    InvalidTag { message: String },
    /// No tunnel in scope has all the tags (given in normal form).
    NoTagMatch { tags: Vec<String> },
    /// Some name means no tunnel in scope.
    UnknownNames,
}

/// The tunnels `start` is about.
#[derive(Debug, PartialEq, Eq)]
pub enum StartPlan<'a> {
    /// These tunnels, in this order.
    Selected(Vec<&'a ResolvedTunnelConfig>),
    /// Neither names, tags nor `--all` were given: the user picks.
    Prompt,
}

/// The order of refusals of `start`: the first that applies, if any.
pub open spec fn start_refusal_kind(
    c: EffectiveModel,
    names: Seq<Seq<char>>,
    tags: Seq<Seq<char>>,
    all: bool,
    parallel: usize,
) -> Option<int> {
    if !has_configuration(c) {
        Some(0)
    } else if spec_validation_errors(c).len() > 0 {
        Some(1)
    } else if all && (names.len() > 0 || tags.len() > 0) {
        Some(2)
    } else if names.len() > 0 && tags.len() > 0 {
        Some(3)
    } else if parallel == 0 {
        Some(4)
    } else if spec_tag_inputs(tags) is Err {
        Some(5)
    } else {
        None
    }
}

/// `chosen` holds the tunnels of `ts` ordered by name (equal names kept in
/// their order), then those in scope.
pub open spec fn sorted_in_scope<'a>(
    ts: Seq<ResolvedModel>,
    chosen: Seq<&'a ResolvedTunnelConfig>,
    scope: Option<ConfigSourceKind>,
) -> bool {
    exists|sorted: Seq<&'a ResolvedTunnelConfig>|
        #[trigger] sorted_by_name(ts, views(sorted)) && chosen == in_scope(sorted, scope)
}

/// Whether every name means a tunnel in scope.
pub open spec fn all_names_known(ts: Seq<ResolvedModel>, names: Seq<Seq<char>>, scope: Option<ConfigSourceKind>) -> bool {
    forall|k: int| 0 <= k < names.len() ==> #[trigger] spec_name_lookup(ts, names[k], scope) is Some
}

/// `chosen` holds, for each name in turn, the tunnel it means in scope.
pub open spec fn named_tunnels<'a>(
    ts: Seq<ResolvedModel>,
    names: Seq<Seq<char>>,
    scope: Option<ConfigSourceKind>,
    chosen: Seq<&'a ResolvedTunnelConfig>,
) -> bool {
    chosen.len() == names.len() && forall|k: int|
        0 <= k < names.len() ==> (spec_name_lookup(ts, #[trigger] names[k], scope) matches Some(i) && chosen[k]@
            == ts[i])
}

/// The tunnels of the configuration, by reference, in order.
fn configured_refs<'a>(config: &'a EffectiveConfig) -> (r: Vec<&'a ResolvedTunnelConfig>)
    ensures
        views(r@) == config@.tunnels,
{
    let mut out: Vec<&'a ResolvedTunnelConfig> = Vec::new();
    let mut i: usize = 0;
    while i < config.tunnels.len()
        invariant
            i <= config.tunnels@.len(),
            out@.len() == i,
            forall|k: int| 0 <= k < i ==> (#[trigger] out@[k])@ == config@.tunnels[k],
        decreases config.tunnels@.len() - i,
    {
        out.push(&config.tunnels[i]);
        i += 1;
    }
    assert(views(out@) =~= config@.tunnels);
    out
}

/// A sort of references to tunnels gives, viewed, the sort of their
/// models.
proof fn lemma_sorted_views<'a>(ts: Seq<&'a ResolvedTunnelConfig>, sorted: Seq<&'a ResolvedTunnelConfig>)
    requires
        exists|idx: Seq<int>|
            #[trigger] is_stable_name_order(ref_names(ts), idx) && sorted.len() == idx.len() && forall|k: int|
                0 <= k < idx.len() ==> (#[trigger] sorted[k]) == ts[idx[k]],
    ensures
        sorted_by_name(views(ts), views(sorted)),
{
    let idx = choose|idx: Seq<int>|
        #[trigger] is_stable_name_order(ref_names(ts), idx) && sorted.len() == idx.len() && forall|k: int|
            0 <= k < idx.len() ==> (#[trigger] sorted[k]) == ts[idx[k]];
    assert(ref_names(ts) =~= resolved_names(views(ts)));
    assert forall|k: int| 0 <= k < idx.len() implies #[trigger] views(sorted)[k] == views(ts)[idx[k]] by {
        assert(sorted[k] == ts[idx[k]]);
    }
    assert(is_stable_name_order(resolved_names(views(ts)), idx));
}

/// Decides which tunnels `start` is about. It refuses, in this order:
/// without any configuration file, when the configuration has errors,
/// `--all` with names or tags, names with tags, a parallelism of 0, an
/// invalid tag, tags that no tunnel in scope has all of, and a name that
/// means no tunnel in scope. Else `--all` gives every tunnel in scope by
/// name, tags the tunnels in scope with all of them by name, names the
/// tunnels they mean in their order, and nothing at all asks the user.
pub fn plan_start<'a>(
    config: &'a EffectiveConfig,
    names: &[String],
    tags: &[String],
    all: bool,
    parallel: usize,
    scope: Option<ConfigSourceKind>,
) -> (r: Result<StartPlan<'a>, StartRefusal>)
    ensures
        start_refusal_kind(config@, names.deep_view(), tags.deep_view(), all, parallel) == Some(0int) <==> r
            == Err::<StartPlan<'a>, StartRefusal>(StartRefusal::NoConfiguration),
        start_refusal_kind(config@, names.deep_view(), tags.deep_view(), all, parallel) == Some(1int) <==> (r matches Err(
            StartRefusal::InvalidConfiguration { report },
        )),
        r matches Err(StartRefusal::InvalidConfiguration { report }) ==> report.errors.deep_view()
            == spec_validation_errors(config@),
        start_refusal_kind(config@, names.deep_view(), tags.deep_view(), all, parallel) == Some(2int) <==> r
            == Err::<StartPlan<'a>, StartRefusal>(StartRefusal::AllWithSelection),
        start_refusal_kind(config@, names.deep_view(), tags.deep_view(), all, parallel) == Some(3int) <==> r
            == Err::<StartPlan<'a>, StartRefusal>(StartRefusal::NamesWithTags),
        start_refusal_kind(config@, names.deep_view(), tags.deep_view(), all, parallel) == Some(4int) <==> r
            == Err::<StartPlan<'a>, StartRefusal>(StartRefusal::ZeroParallelism),
        start_refusal_kind(config@, names.deep_view(), tags.deep_view(), all, parallel) == Some(5int) <==> (r matches Err(
            StartRefusal::InvalidTag { message },
        ) && spec_tag_inputs(tags.deep_view()) == Err::<Seq<Seq<char>>, Seq<char>>(message@)),
        start_refusal_kind(config@, names.deep_view(), tags.deep_view(), all, parallel) is None ==> {
            let ntags = spec_tag_inputs(tags.deep_view())->Ok_0;
            let wanted = tagged(config@.tunnels, ntags);
            if all {
                r matches Ok(StartPlan::Selected(v)) && sorted_in_scope(config@.tunnels, v@, scope)
            } else if tags@.len() > 0 {
                match r {
                    Ok(StartPlan::Selected(v)) => v@.len() > 0 && sorted_in_scope(wanted, v@, scope),
                    Err(StartRefusal::NoTagMatch { tags: t }) => t.deep_view() == ntags && sorted_in_scope(
                        wanted,
                        Seq::empty(),
                        scope,
                    ),
                    _ => false,
                }
            } else if names@.len() == 0 {
                r == Ok::<StartPlan<'a>, StartRefusal>(StartPlan::Prompt)
            } else if all_names_known(config@.tunnels, names.deep_view(), scope) {
                r matches Ok(StartPlan::Selected(v)) && named_tunnels(config@.tunnels, names.deep_view(), scope, v@)
            } else {
                r == Err::<StartPlan<'a>, StartRefusal>(StartRefusal::UnknownNames)
            }
        },
{
    if !config.has_sources() {
        return Err(StartRefusal::NoConfiguration);
    }
    let report = validate_config(config);
    if !report.is_valid() {
        return Err(StartRefusal::InvalidConfiguration { report });
    }
    if all && (names.len() > 0 || tags.len() > 0) {
        return Err(StartRefusal::AllWithSelection);
    }
    if names.len() > 0 && tags.len() > 0 {
        return Err(StartRefusal::NamesWithTags);
    }
    if parallel == 0 {
        return Err(StartRefusal::ZeroParallelism);
    }
    let ntags = match normalize_cli_tags(tags) {
        Ok(t) => t,
        Err(message) => {
            return Err(StartRefusal::InvalidTag { message });
        },
    };
    if all {
        let refs = configured_refs(config);
        let sorted = sorted_tunnels_by_id(&refs);
        proof {
            lemma_sorted_views(refs@, sorted@);
        }
        let ghost sv = sorted@;
        let chosen = select_tunnels_for_scope(sorted, scope);
        assert(sorted_by_name(config@.tunnels, views(sv)) && chosen@ == in_scope(sv, scope));
        return Ok(StartPlan::Selected(chosen));
    }
    if tags.len() > 0 {
        let sorted = select_tunnels_for_tags(config, ntags.as_slice());
        let ghost sv = sorted@;
        assert(ntags@.map_values(|s: String| s@) =~= ntags.deep_view());
        assert(views(sv) =~= sv.map_values(|t: &ResolvedTunnelConfig| t@));
        let chosen = select_tunnels_for_scope(sorted, scope);
        assert(sorted_by_name(tagged(config@.tunnels, ntags.deep_view()), views(sv)) && chosen@ == in_scope(sv, scope));
        if chosen.len() == 0 {
            assert(chosen@ =~= Seq::<&ResolvedTunnelConfig>::empty());
            return Err(StartRefusal::NoTagMatch { tags: ntags });
        }
        return Ok(StartPlan::Selected(chosen));
    }
    if names.len() == 0 {
        return Ok(StartPlan::Prompt);
    }
    match find_tunnels_by_names(config, names, scope) {
        Ok(v) => {
            assert forall|k: int| 0 <= k < names@.len() implies #[trigger] names.deep_view()[k] == names@[k]@ by {}
            Ok(StartPlan::Selected(v))
        },
        Err(_) => {
            proof {
                let k = choose|k: int|
                    0 <= k < names@.len() && spec_name_lookup(config@.tunnels, (#[trigger] names@[k])@, scope) is None;
                assert(names.deep_view()[k] == names@[k]@);
            }
            Err(StartRefusal::UnknownNames)
        },
    }
}

// ---------------------------------------------------------------------
// stop
// ---------------------------------------------------------------------

/// Why `stop` refuses a request.
#[derive(Debug, PartialEq, Eq)]
pub enum StopRefusal {
    /// `--all` was given with names.
    AllWithNames,
    /// Some name means no tracked tunnel in scope.
    UntrackedNames,
}

/// The message of a refused `stop`; none where the untracked names are
/// reported one by one instead.
pub fn stop_refusal_message(refusal: &StopRefusal) -> (r: Option<String>)
    ensures
        r.deep_view() == match refusal {
            StopRefusal::AllWithNames => Some("Cannot combine --all with tunnel NAMEs."@),
            StopRefusal::UntrackedNames => None::<Seq<char>>,
        },
{
    match refusal {
        StopRefusal::AllWithNames => Some(String::from_str("Cannot combine --all with tunnel NAMEs.")),
        StopRefusal::UntrackedNames => None,
    }
}

/// The tunnels `stop` is about.
#[derive(Debug, PartialEq, Eq)]
pub enum StopPlan {
    /// No tunnel is tracked and none was named.
    NothingTracked,
    /// The tunnels with these runtime IDs, in this order.
    Selected(Vec<String>),
    /// Neither names nor `--all` were given: the user picks.
    Prompt,
}

/// Whether `sorted` holds the statuses ordered by tunnel name, equal
/// names kept in their order.
pub open spec fn statuses_sorted<'a>(statuses: Seq<TunnelRuntimeStatus>, sorted: Seq<&'a TunnelRuntimeStatus>) -> bool {
    exists|idx: Seq<int>|
        #[trigger] is_stable_name_order(status_names(statuses), idx) && sorted.len() == idx.len() && forall|k: int|
            0 <= k < idx.len() ==> *(#[trigger] sorted[k]) == statuses[idx[k]]
}

/// The runtime IDs of the statuses in scope, in order.
pub open spec fn ids_in_scope<'a>(ss: Seq<&'a TunnelRuntimeStatus>, scope: Option<ConfigSourceKind>) -> Seq<Seq<char>>
    decreases ss.len(),
{
    if ss.len() == 0 {
        seq![]
    } else if spec_in_scope(*ss.last(), scope) {
        ids_in_scope(ss.drop_last(), scope).push(ss.last().state.runtime_id@)
    } else {
        ids_in_scope(ss.drop_last(), scope)
    }
}

/// `ids` holds, for each name in turn, the runtime ID of the tracked
/// tunnel it means in scope.
pub open spec fn named_status_ids(
    statuses: Seq<TunnelRuntimeStatus>,
    names: Seq<Seq<char>>,
    scope: Option<ConfigSourceKind>,
    ids: Seq<Seq<char>>,
) -> bool {
    ids.len() == names.len() && forall|k: int|
        0 <= k < names.len() ==> (spec_status_lookup(status_states(statuses), #[trigger] names[k], scope) matches Some(i)
            && ids[k] == statuses[i].state.runtime_id@)
}

/// Decides which tracked tunnels `stop` is about. `--all` with names is
/// refused; with nothing tracked and no names there is nothing to do;
/// `--all` gives every tracked tunnel in scope by name; names give the
/// tracked tunnels they mean in their order (refused when one means none);
/// nothing at all asks the user.
pub fn plan_stop(
    statuses: &[TunnelRuntimeStatus],
    names: &[String],
    all: bool,
    scope: Option<ConfigSourceKind>,
) -> (r: Result<StopPlan, StopRefusal>)
    ensures
        all && names@.len() > 0 <==> r == Err::<StopPlan, StopRefusal>(StopRefusal::AllWithNames),
        !(all && names@.len() > 0) ==> if statuses@.len() == 0 && names@.len() == 0 {
            r == Ok::<StopPlan, StopRefusal>(StopPlan::NothingTracked)
        } else if all {
            r matches Ok(StopPlan::Selected(ids)) && exists|sorted: Seq<&TunnelRuntimeStatus>|
                #[trigger] statuses_sorted(statuses@, sorted) && ids.deep_view() == ids_in_scope(sorted, scope)
        } else if names@.len() == 0 {
            r == Ok::<StopPlan, StopRefusal>(StopPlan::Prompt)
        } else if forall|k: int|
            0 <= k < names@.len() ==> #[trigger] spec_status_lookup(
                status_states(statuses@),
                names.deep_view()[k],
                scope,
            ) is Some {
            r matches Ok(StopPlan::Selected(ids)) && named_status_ids(statuses@, names.deep_view(), scope, ids.deep_view())
        } else {
            r == Err::<StopPlan, StopRefusal>(StopRefusal::UntrackedNames)
        },
{
    if all && names.len() > 0 {
        return Err(StopRefusal::AllWithNames);
    }
    if statuses.len() == 0 && names.len() == 0 {
        return Ok(StopPlan::NothingTracked);
    }
    if all {
        let sorted = sorted_statuses_by_id(statuses);
        let ghost sv = sorted@;
        let mut ids: Vec<String> = Vec::new();
        let mut i: usize = 0;
        while i < sorted.len()
            invariant
                sv == sorted@,
                i <= sv.len(),
                ids.deep_view() == ids_in_scope(sv.subrange(0, i as int), scope),
            decreases sv.len() - i,
        {
            assert(sv.subrange(0, i + 1).drop_last() =~= sv.subrange(0, i as int));
            let ghost before = ids.deep_view();
            if status_matches_scope(sorted[i], scope) {
                ids.push(sorted[i].state.runtime_id.clone());
                assert(ids.deep_view() =~= before.push(sv[i as int].state.runtime_id@));
            }
            i += 1;
        }
        assert(sv.subrange(0, i as int) =~= sv);
        assert(statuses_sorted(statuses@, sv));
        return Ok(StopPlan::Selected(ids));
    }
    if names.len() == 0 {
        return Ok(StopPlan::Prompt);
    }
    match find_statuses_by_names(statuses, names, scope) {
        Ok(found) => {
            let mut ids: Vec<String> = Vec::new();
            let mut k: usize = 0;
            while k < found.len()
                invariant
                    k <= found@.len(),
                    ids@.len() == k,
                    forall|j: int| 0 <= j < k ==> (#[trigger] ids@[j])@ == found@[j].state.runtime_id@,
                decreases found@.len() - k,
            {
                ids.push(found[k].state.runtime_id.clone());
                k += 1;
            }
            assert forall|j: int| 0 <= j < names@.len() implies #[trigger] names.deep_view()[j] == names@[j]@ by {}
            assert forall|j: int| 0 <= j < names@.len() implies (spec_status_lookup(
                status_states(statuses@),
                #[trigger] names.deep_view()[j],
                scope,
            ) matches Some(i) && ids.deep_view()[j] == statuses@[i].state.runtime_id@) by {
                assert(names.deep_view()[j] == names@[j]@);
            }
            Ok(StopPlan::Selected(ids))
        },
        Err(_) => {
            proof {
                let k = choose|k: int|
                    0 <= k < names@.len() && spec_status_lookup(status_states(statuses@), (#[trigger] names@[k])@, scope)
                        is None;
                assert(names.deep_view()[k] == names@[k]@);
            }
            Err(StopRefusal::UntrackedNames)
        },
    }
}

// ---------------------------------------------------------------------
// recover
// ---------------------------------------------------------------------

/// Why `recover` refuses a request.
#[derive(Debug, PartialEq, Eq)]
pub enum RecoverRefusal {
    /// No configuration file was found.
    NoConfiguration,
    /// The configuration has errors; the report lists them.
    InvalidConfiguration { report: ValidationReport },
    /// Some name means no tunnel in scope.
    UnknownNames,
}

/// What `recover` does for one runtime ID.
#[derive(Debug, PartialEq, Eq)]
pub enum RecoveryStep<'a> {
    /// No tunnel with this runtime ID is tracked (a failure).
    NotTracked { runtime_id: String },
    /// The tunnel runs already (nothing to do).
    AlreadyRunning { name: String, pid: u32 },
    /// The tracked tunnel is no longer configured (a failure).
    ConfigMissing { name: String, runtime_id: String },
    /// Start this tunnel again.
    Start(&'a ResolvedTunnelConfig),
}

/// What `recover` is to do.
#[derive(Debug, PartialEq, Eq)]
pub enum RecoverPlan<'a> {
    /// No tunnel is tracked.
    NothingTracked,
    /// No tunnel needs recovering.
    NothingStale,
    /// One step per runtime ID, in order.
    Steps(Vec<RecoveryStep<'a>>),
}

/// The position of the last status recorded under `runtime_id` among the
/// first `n`.
pub open spec fn last_status_with_id(statuses: Seq<TunnelRuntimeStatus>, runtime_id: Seq<char>, n: int) -> Option<int>
    decreases n,
{
    if n <= 0 {
        None
    } else if statuses[n - 1].state.runtime_id@ == runtime_id {
        Some(n - 1)
    } else {
        last_status_with_id(statuses, runtime_id, n - 1)
    }
}

/// What `recover` does for `runtime_id`: report it untracked, leave a
/// running tunnel alone, report a tracked tunnel no longer configured, or
/// start the configured tunnel with that runtime ID.
pub open spec fn spec_recovery_step<'a>(
    c: EffectiveModel,
    paths: Seq<Seq<char>>,
    statuses: Seq<TunnelRuntimeStatus>,
    runtime_id: Seq<char>,
    step: RecoveryStep<'a>,
) -> bool {
    match last_status_with_id(statuses, runtime_id, statuses.len() as int) {
        None => step matches RecoveryStep::NotTracked { runtime_id: id } && id@ == runtime_id,
        Some(s) => if statuses[s].process_state == ProcessState::Running {
            step matches RecoveryStep::AlreadyRunning { name, pid } && name@ == statuses[s].state.name@ && pid
                == statuses[s].state.pid
        } else {
            match runtime_id_position(c.tunnels, paths, runtime_id, c.tunnels.len() as int) {
                None => step matches RecoveryStep::ConfigMissing { name, runtime_id: id } && name@
                    == statuses[s].state.name@ && id@ == runtime_id,
                Some(i) => step matches RecoveryStep::Start(t) && t@ == c.tunnels[i],
            }
        },
    }
}

/// The runtime IDs `recover` is about: the stale tracked tunnels in scope
/// without names, else those of the tunnels the names mean.
pub open spec fn recovery_ids(
    c: EffectiveModel,
    paths: Seq<Seq<char>>,
    statuses: Seq<TunnelRuntimeStatus>,
    names: Seq<Seq<char>>,
    scope: Option<ConfigSourceKind>,
    ids: Seq<Seq<char>>,
) -> bool {
    if names.len() == 0 {
        ids == statuses.filter(|s: TunnelRuntimeStatus| is_watched_stale(s, seq![], scope)).map_values(
            |s: TunnelRuntimeStatus| s.state.runtime_id@,
        )
    } else {
        named_runtime_ids(c, paths, names, scope, ids)
    }
}

/// `ids` holds, for each name in turn, the runtime ID of the tunnel it
/// means in scope.
pub open spec fn named_runtime_ids(
    c: EffectiveModel,
    paths: Seq<Seq<char>>,
    names: Seq<Seq<char>>,
    scope: Option<ConfigSourceKind>,
    ids: Seq<Seq<char>>,
) -> bool {
    ids.len() == names.len() && forall|k: int|
        0 <= k < names.len() ==> (spec_name_lookup(c.tunnels, #[trigger] names[k], scope) matches Some(i) && ids[k]
            == spec_runtime_id(c.tunnels[i].source.kind, paths[i], c.tunnels[i].tunnel.name))
}

/// The runtime IDs of the tunnels the names mean, in the order of the
/// names; refused when a name means no tunnel in scope.
/// `normalized_source_paths` holds the normalized source path of each
/// configured tunnel.
pub fn runtime_ids_for_names(
    config: &EffectiveConfig,
    normalized_source_paths: &Vec<String>,
    names: &[String],
    scope: Option<ConfigSourceKind>,
) -> (r: Result<Vec<String>, ()>)
    requires
        normalized_source_paths@.len() == config@.tunnels.len(),
    ensures
        match r {
            Ok(ids) => all_names_known(config@.tunnels, names.deep_view(), scope) && named_runtime_ids(
                config@,
                normalized_source_paths.deep_view(),
                names.deep_view(),
                scope,
                ids.deep_view(),
            ),
            Err(_) => !all_names_known(config@.tunnels, names.deep_view(), scope),
        },
{
    let ghost pv = normalized_source_paths.deep_view();
    let mut out: Vec<String> = Vec::new();
    let mut k: usize = 0;
    while k < names.len()
        invariant
            k <= names@.len(),
            out@.len() == k,
            pv == normalized_source_paths.deep_view(),
            pv.len() == config@.tunnels.len(),
            forall|j: int|
                0 <= j < k ==> (spec_name_lookup(config@.tunnels, (#[trigger] names@[j])@, scope) matches Some(i)
                    && out@[j]@ == spec_runtime_id(config@.tunnels[i].source.kind, pv[i], config@.tunnels[i].tunnel.name)),
            forall|j: int| 0 <= j < k ==> #[trigger] spec_name_lookup(config@.tunnels, names@[j]@, scope) is Some,
        decreases names@.len() - k,
    {
        match name_position(config, names[k].as_str(), scope) {
            Some(i) => {
                assert(pv[i as int] == normalized_source_paths@[i as int]@);
                assert(config@.tunnels[i as int] == config.tunnels@[i as int]@);
                let ghost before = out@;
                out.push(runtime_id_for_resolved_tunnel(&config.tunnels[i], normalized_source_paths[i].as_str()));
                assert forall|j: int| 0 <= j < k implies #[trigger] out@[j] == before[j] by {}
                assert(spec_name_lookup(config@.tunnels, names@[k as int]@, scope) == Some(i as int));
            },
            None => {
                proof {
                    assert(names.deep_view()[k as int] == names@[k as int]@);
                }
                return Err(());
            },
        }
        k += 1;
    }
    proof {
        assert forall|j: int| 0 <= j < names@.len() implies #[trigger] spec_name_lookup(
            config@.tunnels,
            names.deep_view()[j],
            scope,
        ) is Some by {
            assert(names.deep_view()[j] == names@[j]@);
        }
        assert forall|j: int| 0 <= j < names@.len() implies (spec_name_lookup(
            config@.tunnels,
            #[trigger] names.deep_view()[j],
            scope,
        ) matches Some(i) && out.deep_view()[j] == spec_runtime_id(
            config@.tunnels[i].source.kind,
            pv[i],
            config@.tunnels[i].tunnel.name,
        )) by {
            assert(names.deep_view()[j] == names@[j]@);
        }
    }
    Ok(out)
}

/// The position of the last status recorded under `runtime_id`.
pub fn last_status_position(statuses: &[TunnelRuntimeStatus], runtime_id: &str) -> (r: Option<usize>)
    ensures
        match r {
            Some(j) => last_status_with_id(statuses@, runtime_id@, statuses@.len() as int) == Some(j as int)
                && j < statuses@.len(),
            None => last_status_with_id(statuses@, runtime_id@, statuses@.len() as int) is None,
        },
{
    let mut found: Option<usize> = None;
    let mut i: usize = 0;
    while i < statuses.len()
        invariant
            i <= statuses@.len(),
            (found is None) == (last_status_with_id(statuses@, runtime_id@, i as int) is None),
            found matches Some(j) ==> j < i && last_status_with_id(statuses@, runtime_id@, i as int) == Some(j as int),
        decreases statuses@.len() - i,
    {
        if str_eq(statuses[i].state.runtime_id.as_str(), runtime_id) {
            found = Some(i);
        }
        i += 1;
    }
    found
}

/// The step for one runtime ID.
fn recovery_step<'a>(
    config: &'a EffectiveConfig,
    normalized_source_paths: &Vec<String>,
    statuses: &[TunnelRuntimeStatus],
    runtime_id: &str,
) -> (r: RecoveryStep<'a>)
    requires
        normalized_source_paths@.len() == config@.tunnels.len(),
    ensures
        spec_recovery_step(config@, normalized_source_paths.deep_view(), statuses@, runtime_id@, r),
{
    let found = last_status_position(statuses, runtime_id);
    match found {
        None => RecoveryStep::NotTracked { runtime_id: String::from_str(runtime_id) },
        Some(s) => {
            let status = &statuses[s];
            if status.process_state == ProcessState::Running {
                RecoveryStep::AlreadyRunning { name: status.state.name.clone(), pid: status.state.pid }
            } else {
                match find_tunnel_by_runtime_id(config, normalized_source_paths, runtime_id) {
                    None => RecoveryStep::ConfigMissing {
                        name: status.state.name.clone(),
                        runtime_id: String::from_str(runtime_id),
                    },
                    Some(t) => RecoveryStep::Start(t),
                }
            }
        },
    }
}

proof fn lemma_runtime_id_position_found(ts: Seq<ResolvedModel>, paths: Seq<Seq<char>>, id: Seq<char>, n: int)
    ensures
        runtime_id_position(ts, paths, id, n) matches Some(i) ==> 0 <= i < n && spec_runtime_id(
            ts[i].source.kind,
            paths[i],
            ts[i].tunnel.name,
        ) == id,
    decreases n,
{
    if n > 0 {
        lemma_runtime_id_position_found(ts, paths, id, n - 1);
    }
}

proof fn lemma_last_status_is_unique(statuses: Seq<TunnelRuntimeStatus>, id: Seq<char>, s: int, n: int)
    requires
        0 <= s < n <= statuses.len(),
        statuses[s].state.runtime_id@ == id,
        forall|i: int, j: int|
            0 <= i < j < statuses.len() ==> (#[trigger] statuses[i]).state.runtime_id@
                != (#[trigger] statuses[j]).state.runtime_id@,
    ensures
        last_status_with_id(statuses, id, n) == Some(s),
    decreases n,
{
    if n - 1 != s {
        assert(statuses[s].state.runtime_id@ != statuses[n - 1].state.runtime_id@);
        lemma_last_status_is_unique(statuses, id, s, n - 1);
    }
}

/// `recover` without names restarts stale tunnels only: where no two
/// tracked tunnels share a runtime ID, every runtime ID it takes up is that
/// of a stale tracked tunnel in scope, and its step starts the configured
/// tunnel with that runtime ID or reports that none is configured; a
/// running tunnel is never restarted.
pub proof fn lemma_recover_restarts_only_stale<'a>(
    c: EffectiveModel,
    paths: Seq<Seq<char>>,
    statuses: Seq<TunnelRuntimeStatus>,
    scope: Option<ConfigSourceKind>,
    ids: Seq<Seq<char>>,
    k: int,
    step: RecoveryStep<'a>,
)
    requires
        forall|i: int, j: int|
            0 <= i < j < statuses.len() ==> (#[trigger] statuses[i]).state.runtime_id@
                != (#[trigger] statuses[j]).state.runtime_id@,
        recovery_ids(c, paths, statuses, seq![], scope, ids),
        0 <= k < ids.len(),
        spec_recovery_step(c, paths, statuses, ids[k], step),
    ensures
        exists|s: int|
            0 <= s < statuses.len() && (#[trigger] statuses[s]).process_state == ProcessState::Stale
                && spec_in_scope(statuses[s], scope) && statuses[s].state.runtime_id@ == ids[k],
        step is Start || step is ConfigMissing,
        step matches RecoveryStep::Start(t) ==> exists|i: int|
            0 <= i < c.tunnels.len() && t@ == c.tunnels[i] && spec_runtime_id(
                c.tunnels[i].source.kind,
                paths[i],
                c.tunnels[i].tunnel.name,
            ) == ids[k],
{
    let pred = |s: TunnelRuntimeStatus| is_watched_stale(s, seq![], scope);
    let stale = statuses.filter(pred);
    assert(ids == stale.map_values(|s: TunnelRuntimeStatus| s.state.runtime_id@));
    let e = stale[k];
    assert(ids[k] == e.state.runtime_id@);
    statuses.lemma_filter_pred(pred, k);
    assert(stale.contains(e));
    statuses.lemma_filter_contains_rev(pred, e);
    let s = choose|s: int| 0 <= s < statuses.len() && statuses[s] == e;
    assert(statuses[s].process_state == ProcessState::Stale);
    lemma_last_status_is_unique(statuses, ids[k], s, statuses.len() as int);
    lemma_runtime_id_position_found(c.tunnels, paths, ids[k], c.tunnels.len() as int);
}

/// Decides what `recover` does. It refuses without any configuration file
/// and when the configuration has errors; with nothing tracked there is
/// nothing to do. Without names it recovers the stale tracked tunnels in
/// scope; with names, the tunnels they mean (refused when one means none);
/// with no such tunnel there is nothing to do. For each runtime ID in turn
/// the step is as [`spec_recovery_step`] says. `normalized_source_paths`
/// holds the normalized source path of each configured tunnel.
pub fn plan_recover<'a>(
    config: &'a EffectiveConfig,
    normalized_source_paths: &Vec<String>,
    statuses: &[TunnelRuntimeStatus],
    names: &[String],
    scope: Option<ConfigSourceKind>,
) -> (r: Result<RecoverPlan<'a>, RecoverRefusal>)
    requires
        normalized_source_paths@.len() == config@.tunnels.len(),
    ensures
        !has_configuration(config@) <==> r == Err::<RecoverPlan<'a>, RecoverRefusal>(RecoverRefusal::NoConfiguration),
        (has_configuration(config@) && spec_validation_errors(config@).len() > 0) <==> (r matches Err(
            RecoverRefusal::InvalidConfiguration { report },
        )),
        r matches Err(RecoverRefusal::InvalidConfiguration { report }) ==> report.errors.deep_view()
            == spec_validation_errors(config@),
        has_configuration(config@) && spec_validation_errors(config@).len() == 0 ==> if statuses@.len() == 0 {
            r == Ok::<RecoverPlan<'a>, RecoverRefusal>(RecoverPlan::NothingTracked)
        } else if names@.len() > 0 && !all_names_known(config@.tunnels, names.deep_view(), scope) {
            r == Err::<RecoverPlan<'a>, RecoverRefusal>(RecoverRefusal::UnknownNames)
        } else {
            exists|ids: Seq<Seq<char>>|
                #[trigger] recovery_ids(
                    config@,
                    normalized_source_paths.deep_view(),
                    statuses@,
                    names.deep_view(),
                    scope,
                    ids,
                ) && if ids.len() == 0 {
                    r == Ok::<RecoverPlan<'a>, RecoverRefusal>(RecoverPlan::NothingStale)
                } else {
                    r matches Ok(RecoverPlan::Steps(steps)) && steps@.len() == ids.len() && forall|k: int|
                        0 <= k < ids.len() ==> spec_recovery_step(
                            config@,
                            normalized_source_paths.deep_view(),
                            statuses@,
                            ids[k],
                            #[trigger] steps@[k],
                        )
                }
        },
{
    if !config.has_sources() {
        return Err(RecoverRefusal::NoConfiguration);
    }
    let report = validate_config(config);
    if !report.is_valid() {
        return Err(RecoverRefusal::InvalidConfiguration { report });
    }
    if statuses.len() == 0 {
        return Ok(RecoverPlan::NothingTracked);
    }
    let ghost pv = normalized_source_paths.deep_view();
    let ids: Vec<String> = if names.len() == 0 {
        stale_runtime_ids(statuses, scope)
    } else {
        match runtime_ids_for_names(config, normalized_source_paths, names, scope) {
            Ok(ids) => ids,
            Err(_) => {
                return Err(RecoverRefusal::UnknownNames);
            },
        }
    };
    let ghost idv = ids.deep_view();
    assert(recovery_ids(config@, pv, statuses@, names.deep_view(), scope, idv));
    if ids.len() == 0 {
        return Ok(RecoverPlan::NothingStale);
    }
    let mut steps: Vec<RecoveryStep<'a>> = Vec::new();
    let mut k: usize = 0;
    while k < ids.len()
        invariant
            k <= ids@.len(),
            idv == ids.deep_view(),
            steps@.len() == k,
            normalized_source_paths@.len() == config@.tunnels.len(),
            forall|j: int|
                0 <= j < k ==> spec_recovery_step(
                    config@,
                    normalized_source_paths.deep_view(),
                    statuses@,
                    idv[j],
                    #[trigger] steps@[j],
                ),
        decreases ids@.len() - k,
    {
        assert(idv[k as int] == ids@[k as int]@);
        steps.push(recovery_step(config, normalized_source_paths, statuses, ids[k].as_str()));
        k += 1;
    }
    Ok(RecoverPlan::Steps(steps))
}

// ---------------------------------------------------------------------
// watch
// ---------------------------------------------------------------------

/// Why `watch` refuses a request.
#[derive(Debug, PartialEq, Eq)]
pub enum WatchRefusal {
    /// No configuration file was found.
    NoConfiguration,
    /// The configuration has errors; the report lists them.
    InvalidConfiguration { report: ValidationReport },
    /// The interval is 0 seconds.
    ZeroInterval,
    /// Some name means no tunnel in scope.
    UnknownNames,
}

/// Decides which runtime IDs `watch` keeps an eye on: it refuses without
/// any configuration file, when the configuration has errors, for an
/// interval of 0 and for a name that means no tunnel in scope; without
/// names the list is empty (every stale tunnel is watched), with names it
/// holds the runtime IDs of the tunnels they mean.
pub fn plan_watch(
    config: &EffectiveConfig,
    normalized_source_paths: &Vec<String>,
    names: &[String],
    scope: Option<ConfigSourceKind>,
    interval_seconds: u64,
) -> (r: Result<Vec<String>, WatchRefusal>)
    requires
        normalized_source_paths@.len() == config@.tunnels.len(),
    ensures
        !has_configuration(config@) <==> r == Err::<Vec<String>, WatchRefusal>(WatchRefusal::NoConfiguration),
        (has_configuration(config@) && spec_validation_errors(config@).len() > 0) <==> (r matches Err(
            WatchRefusal::InvalidConfiguration { report },
        )),
        r matches Err(WatchRefusal::InvalidConfiguration { report }) ==> report.errors.deep_view()
            == spec_validation_errors(config@),
        has_configuration(config@) && spec_validation_errors(config@).len() == 0 ==> if interval_seconds == 0 {
            r == Err::<Vec<String>, WatchRefusal>(WatchRefusal::ZeroInterval)
        } else if names@.len() == 0 {
            r matches Ok(ids) && ids@.len() == 0
        } else if all_names_known(config@.tunnels, names.deep_view(), scope) {
            r matches Ok(ids) && named_runtime_ids(
                config@,
                normalized_source_paths.deep_view(),
                names.deep_view(),
                scope,
                ids.deep_view(),
            )
        } else {
            r == Err::<Vec<String>, WatchRefusal>(WatchRefusal::UnknownNames)
        },
{
    if !config.has_sources() {
        return Err(WatchRefusal::NoConfiguration);
    }
    let report = validate_config(config);
    if !report.is_valid() {
        return Err(WatchRefusal::InvalidConfiguration { report });
    }
    if interval_seconds == 0 {
        return Err(WatchRefusal::ZeroInterval);
    }
    if names.len() == 0 {
        return Ok(Vec::new());
    }
    match runtime_ids_for_names(config, normalized_source_paths, names, scope) {
        Ok(ids) => Ok(ids),
        Err(_) => Err(WatchRefusal::UnknownNames),
    }
}

// ---------------------------------------------------------------------
// Messages
// ---------------------------------------------------------------------

/// The message of a refused `start`; none where the configuration's
/// errors or the unknown names are reported instead.
pub open spec fn spec_start_refusal_message(r: StartRefusal) -> Option<Seq<char>> {
    match r {
        StartRefusal::NoConfiguration => Some("No configuration files were found."@),
        StartRefusal::InvalidConfiguration { .. } => None,
        StartRefusal::AllWithSelection => Some("Cannot combine --all with tunnel NAMEs or --tag."@),
        StartRefusal::NamesWithTags => Some("Cannot combine tunnel IDs with --tag."@),
        StartRefusal::ZeroParallelism => Some("Parallelism must be greater than or equal to 1."@),
        StartRefusal::InvalidTag { message } => Some(message@),
        StartRefusal::NoTagMatch { tags } => Some("No tunnels matched tags: "@ + joined(tags.deep_view(), ", "@) + "."@),
        StartRefusal::UnknownNames => None,
    }
}

/// The message of a refused `start`.
pub fn start_refusal_message(refusal: &StartRefusal) -> (r: Option<String>)
    ensures
        r.deep_view() == spec_start_refusal_message(*refusal),
{
    match refusal {
        StartRefusal::NoConfiguration => Some(String::from_str("No configuration files were found.")),
        StartRefusal::InvalidConfiguration { .. } => None,
        StartRefusal::AllWithSelection => Some(String::from_str("Cannot combine --all with tunnel NAMEs or --tag.")),
        StartRefusal::NamesWithTags => Some(String::from_str("Cannot combine tunnel IDs with --tag.")),
        StartRefusal::ZeroParallelism => Some(String::from_str("Parallelism must be greater than or equal to 1.")),
        StartRefusal::InvalidTag { message } => Some(message.clone()),
        StartRefusal::NoTagMatch { tags } => {
            let a = concat_str("No tunnels matched tags: ", join_strings(tags.as_slice(), ", ").as_str());
            Some(concat_str(a.as_str(), "."))
        },
        StartRefusal::UnknownNames => None,
    }
}

/// What is printed for a recovery step: that the tunnel is not tracked
/// or no longer configured (failures), or that it already runs; nothing
/// for a tunnel to start.
pub open spec fn spec_recovery_step_line<'a>(step: RecoveryStep<'a>) -> Option<PrintedModel> {
    match step {
        RecoveryStep::NotTracked { runtime_id } => Some(PrintedModel::Error("Tunnel is not tracked: "@ + runtime_id@)),
        RecoveryStep::AlreadyRunning { name, pid } => Some(
            PrintedModel::Out("Tunnel is already running: "@ + name@ + " (pid: "@ + decimal(pid as nat) + ")"@),
        ),
        RecoveryStep::ConfigMissing { name, runtime_id } => Some(
            PrintedModel::Error(
                "Configured tunnel not found for stale state: "@ + name@ + " ("@ + runtime_id@ + ")"@,
            ),
        ),
        RecoveryStep::Start(_) => None,
    }
}

/// What is printed for a recovery step.
pub fn recovery_step_line(step: &RecoveryStep) -> (r: Option<PrintedLine>)
    ensures
        match r {
            Some(l) => spec_recovery_step_line(*step) == Some(l@),
            None => spec_recovery_step_line(*step) is None,
        },
{
    match step {
        RecoveryStep::NotTracked { runtime_id } => Some(
            PrintedLine::Error(concat_str("Tunnel is not tracked: ", runtime_id.as_str())),
        ),
        RecoveryStep::AlreadyRunning { name, pid } => {
            let a = concat_str("Tunnel is already running: ", name.as_str());
            let b = concat_str(a.as_str(), " (pid: ");
            let c = concat_str(b.as_str(), decimal_string(*pid as u64).as_str());
            Some(PrintedLine::Out(concat_str(c.as_str(), ")")))
        },
        RecoveryStep::ConfigMissing { name, runtime_id } => {
            let a = concat_str("Configured tunnel not found for stale state: ", name.as_str());
            let b = concat_str(a.as_str(), " (");
            let c = concat_str(b.as_str(), runtime_id.as_str());
            Some(PrintedLine::Error(concat_str(c.as_str(), ")")))
        },
        RecoveryStep::Start(_) => None,
    }
}

// ---------------------------------------------------------------------
// Watching
// ---------------------------------------------------------------------

/// What `watch` does for a stale tracked tunnel.
#[derive(Debug, PartialEq, Eq)]
pub enum WatchStep<'a> {
    /// Start this tunnel again.
    Start(&'a ResolvedTunnelConfig),
    /// No configured tunnel has this runtime ID (reported, then skipped).
    ConfigMissing { runtime_id: String },
}

/// What `watch` does for the stale runtime ID `runtime_id`: start the
/// configured tunnel with that runtime ID, or report that there is none.
pub open spec fn spec_watch_step<'a>(c: EffectiveModel, paths: Seq<Seq<char>>, runtime_id: Seq<char>, step: WatchStep<'a>) -> bool {
    match runtime_id_position(c.tunnels, paths, runtime_id, c.tunnels.len() as int) {
        Some(i) => step matches WatchStep::Start(t) && t@ == c.tunnels[i],
        None => step matches WatchStep::ConfigMissing { runtime_id: id } && id@ == runtime_id,
    }
}

/// What `watch` does for each stale runtime ID, in order;
/// `normalized_source_paths` holds the normalized source path of each
/// configured tunnel.
pub fn watch_recovery_steps<'a>(
    config: &'a EffectiveConfig,
    normalized_source_paths: &Vec<String>,
    stale_runtime_ids: &[String],
) -> (r: Vec<WatchStep<'a>>)
    requires
        normalized_source_paths@.len() == config@.tunnels.len(),
    ensures
        r@.len() == stale_runtime_ids@.len(),
        forall|i: int|
            0 <= i < r@.len() ==> spec_watch_step(
                config@,
                normalized_source_paths.deep_view(),
                stale_runtime_ids@[i]@,
                #[trigger] r@[i],
            ),
{
    let mut r: Vec<WatchStep<'a>> = Vec::new();
    let mut i: usize = 0;
    while i < stale_runtime_ids.len()
        invariant
            normalized_source_paths@.len() == config@.tunnels.len(),
            i <= stale_runtime_ids@.len(),
            r@.len() == i,
            forall|j: int|
                0 <= j < i ==> spec_watch_step(
                    config@,
                    normalized_source_paths.deep_view(),
                    stale_runtime_ids@[j]@,
                    #[trigger] r@[j],
                ),
        decreases stale_runtime_ids@.len() - i,
    {
        let id = stale_runtime_ids[i].as_str();
        match find_tunnel_by_runtime_id(config, normalized_source_paths, id) {
            Some(t) => r.push(WatchStep::Start(t)),
            None => r.push(WatchStep::ConfigMissing { runtime_id: String::from_str(id) }),
        }
        i += 1;
    }
    r
}

/// The message when a stale tracked tunnel is no longer configured.
pub fn watch_config_missing_message(runtime_id: &str) -> (r: String)
    ensures
        r@ == "Configured tunnel not found for stale state: "@ + runtime_id@,
{
    concat_str("Configured tunnel not found for stale state: ", runtime_id)
}

} // verus!
