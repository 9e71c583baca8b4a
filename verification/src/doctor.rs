//! The checks of `doctor`: what the configuration, the state file, the
//! commands it needs, the identity files and the local ports say about
//! the environment. Reading files, running commands and binding ports is
//! left to the caller, which hands in what it found.

use vstd::prelude::*;

use crate::config::{spec_effective_local_host, ConfigPaths, EffectiveConfig, EffectiveModel, ResolvedModel, TunnelConfig, TunnelModel};
use crate::display::{endpoint_text, format_local_endpoint};
use crate::paths::{format_path_for_display_with_home, spec_display_path};
use crate::report::{display_home, display_home_str, opt_str_view};
use crate::strings::clone_opt_string;
use crate::text::{concat_str, decimal, decimal_string, str_eq};
use crate::tunnel::{expand_home_path_with_home, spec_expand_home};
use crate::validate::{spec_validation_errors, spec_validation_warnings, validate_config, ValidationReport};

verus! {

/// How a check came out.
#[derive(Debug, Clone, Copy, PartialEq, Eq, Structural)]
pub enum DoctorCheckStatus {
    /// Nothing to report.
    Passed,
    /// Worth a look; does not fail `doctor`.
    Warning,
    /// A problem; fails `doctor`.
    Error,
}

/// One check: how it came out, what was checked and what was found.
#[derive(Debug, PartialEq, Eq)]
pub struct DoctorCheck {
    pub status: DoctorCheckStatus,
    pub name: String,
    pub message: String,
}

/// The mathematical value of a [`DoctorCheck`].
pub ghost struct CheckModel {
    pub status: DoctorCheckStatus,
    pub name: Seq<char>,
    pub message: Seq<char>,
}

impl View for DoctorCheck {
    type V = CheckModel;

    open spec fn view(&self) -> CheckModel {
        CheckModel { status: self.status, name: self.name@, message: self.message@ }
    }
}

impl DeepView for DoctorCheck {
    type V = CheckModel;

    open spec fn deep_view(&self) -> CheckModel {
        self@
    }
}

/// A check with its outcome, name and message.
pub open spec fn check(status: DoctorCheckStatus, name: Seq<char>, message: Seq<char>) -> CheckModel {
    CheckModel { status, name, message }
}

impl DoctorCheck {
    /// A check that passed.
    pub fn passed(name: String, message: String) -> (r: Self)
        ensures
            r@ == check(DoctorCheckStatus::Passed, name@, message@),
    {
        DoctorCheck { status: DoctorCheckStatus::Passed, name, message }
    }

    /// A check worth a look.
    pub fn warning(name: String, message: String) -> (r: Self)
        ensures
            r@ == check(DoctorCheckStatus::Warning, name@, message@),
    {
        DoctorCheck { status: DoctorCheckStatus::Warning, name, message }
    }

    /// A check that failed.
    pub fn error(name: String, message: String) -> (r: Self)
        ensures
            r@ == check(DoctorCheckStatus::Error, name@, message@),
    {
        DoctorCheck { status: DoctorCheckStatus::Error, name, message }
    }
}

/// The label of an outcome.
pub open spec fn status_label(status: DoctorCheckStatus) -> Seq<char> {
    match status {
        DoctorCheckStatus::Passed => "[OK]"@,
        DoctorCheckStatus::Warning => "[WARN]"@,
        DoctorCheckStatus::Error => "[ERROR]"@,
    }
}

/// The label of an outcome: `[OK]`, `[WARN]` or `[ERROR]`.
pub fn doctor_status_label(status: DoctorCheckStatus) -> (r: &'static str)
    ensures
        r@ == status_label(status),
{
    proof {
        reveal_strlit("[OK]");
        reveal_strlit("[WARN]");
        reveal_strlit("[ERROR]");
    }
    match status {
        DoctorCheckStatus::Passed => "[OK]",
        DoctorCheckStatus::Warning => "[WARN]",
        DoctorCheckStatus::Error => "[ERROR]",
    }
}

/// The line of the report for a check.
pub open spec fn spec_report_line(c: CheckModel) -> Seq<char> {
    status_label(c.status) + " "@ + c.name + ": "@ + c.message
}

/// The line of the report for a check: `label name: message`.
pub fn doctor_report_line(c: &DoctorCheck) -> (r: String)
    ensures
        r@ == spec_report_line(c@),
{
    let a = concat_str(doctor_status_label(c.status), " ");
    let b = concat_str(a.as_str(), c.name.as_str());
    let d = concat_str(b.as_str(), ": ");
    concat_str(d.as_str(), c.message.as_str())
}

/// Whether one of the checks failed, which fails `doctor`.
pub fn doctor_failed(checks: &[DoctorCheck]) -> (r: bool)
    ensures
        r == exists|i: int| 0 <= i < checks@.len() && (#[trigger] checks@[i]).status == DoctorCheckStatus::Error,
{
    let mut i: usize = 0;
    while i < checks.len()
        invariant
            i <= checks@.len(),
            forall|j: int| 0 <= j < i ==> (#[trigger] checks@[j]).status != DoctorCheckStatus::Error,
        decreases checks@.len() - i,
    {
        if checks[i].status == DoctorCheckStatus::Error {
            return true;
        }
        i += 1;
    }
    false
}

/// The check that configuration files were found: how many were loaded,
/// else where they were looked for (paths shown with `home` shortened).
pub open spec fn spec_presence_check(c: EffectiveModel, global: Option<Seq<char>>, local: Seq<char>, home: Seq<char>) -> CheckModel {
    if c.sources.len() > 0 || c.local_override is Some {
        check(DoctorCheckStatus::Passed, "Configuration files"@, "loaded "@ + decimal(c.sources.len()) + " file(s)"@)
    } else {
        check(
            DoctorCheckStatus::Error,
            "Configuration files"@,
            "no configuration files were found (global: "@ + match global {
                Some(g) => spec_display_path(g, home),
                None => "-"@,
            } + ", local: "@ + spec_display_path(local, home) + ")"@,
        )
    }
}

/// The check that configuration files were found.
pub fn doctor_config_presence_check(config: &EffectiveConfig, paths: &ConfigPaths, home: &str) -> (r: DoctorCheck)
    ensures
        r@ == spec_presence_check(config@, paths.global.deep_view(), paths.local@, home@),
{
    if config.has_sources() {
        let a = concat_str("loaded ", decimal_string(config.sources.len() as u64).as_str());
        return DoctorCheck::passed(String::from_str("Configuration files"), concat_str(a.as_str(), " file(s)"));
    }
    let g = match &paths.global {
        Some(p) => format_path_for_display_with_home(p.as_str(), home),
        None => String::from_str("-"),
    };
    let a = concat_str("no configuration files were found (global: ", g.as_str());
    let b = concat_str(a.as_str(), ", local: ");
    let c = concat_str(b.as_str(), format_path_for_display_with_home(paths.local.as_str(), home).as_str());
    DoctorCheck::error(String::from_str("Configuration files"), concat_str(c.as_str(), ")"))
}

/// The check of a validation with this many errors and warnings.
pub open spec fn spec_validation_check(errors: nat, warnings: nat) -> CheckModel {
    if errors == 0 {
        if warnings > 0 {
            check(
                DoctorCheckStatus::Warning,
                "Configuration validation"@,
                "valid with "@ + decimal(warnings) + " warning(s)"@,
            )
        } else {
            check(DoctorCheckStatus::Passed, "Configuration validation"@, "valid"@)
        }
    } else {
        check(DoctorCheckStatus::Error, "Configuration validation"@, decimal(errors) + " error(s)"@)
    }
}

/// The check of a validation report: errors fail it, warnings alone are
/// worth a look.
pub fn doctor_validation_check_from_report(report: &ValidationReport) -> (r: DoctorCheck)
    ensures
        r@ == spec_validation_check(report.errors@.len(), report.warnings@.len()),
{
    let name = String::from_str("Configuration validation");
    if report.is_valid() {
        if report.has_warnings() {
            let a = concat_str("valid with ", decimal_string(report.warnings.len() as u64).as_str());
            return DoctorCheck::warning(name, concat_str(a.as_str(), " warning(s)"));
        }
        return DoctorCheck::passed(name, String::from_str("valid"));
    }
    DoctorCheck::error(name, concat_str(decimal_string(report.errors.len() as u64).as_str(), " error(s)"))
}

/// The check that the configuration validates.
pub fn doctor_validation_check(config: &EffectiveConfig) -> (r: DoctorCheck)
    ensures
        r@ == spec_validation_check(
            spec_validation_errors(config@).len(),
            spec_validation_warnings(config@).len(),
        ),
{
    let report = validate_config(config);
    doctor_validation_check_from_report(&report)
}

/// The check of the state file, given why reading it failed and why
/// writing beside it failed, where either did.
pub open spec fn spec_state_check(
    read_error: Option<Seq<char>>,
    write_error: Option<Seq<char>>,
    state_path: Seq<char>,
    home: Seq<char>,
) -> CheckModel {
    match read_error {
        Some(e) => check(DoctorCheckStatus::Error, "State file"@, e),
        None => match write_error {
            Some(e) => check(DoctorCheckStatus::Error, "State file"@, e),
            None => check(
                DoctorCheckStatus::Passed,
                "State file"@,
                "readable and writable: "@ + spec_display_path(state_path, home),
            ),
        },
    }
}

/// The check of the state file: a read that failed, else a write beside
/// it that failed, fails it.
pub fn doctor_state_check(read_error: Option<String>, write_error: Option<String>, state_path: &str, home: &str) -> (r: DoctorCheck)
    ensures
        r@ == spec_state_check(read_error.deep_view(), write_error.deep_view(), state_path@, home@),
{
    match read_error {
        Some(e) => DoctorCheck::error(String::from_str("State file"), e),
        None => match write_error {
            Some(e) => DoctorCheck::error(String::from_str("State file"), e),
            None => DoctorCheck::passed(
                String::from_str("State file"),
                concat_str(
                    "readable and writable: ",
                    format_path_for_display_with_home(state_path, home).as_str(),
                ),
            ),
        },
    }
}

/// What came of running a command.
#[derive(Debug, PartialEq, Eq)]
pub enum CommandProbe {
    /// It ran (whatever its exit status).
    Ran,
    /// There is no such command.
    NotFound,
    /// It could not be run, for this reason.
    Failed(String),
}

/// The mathematical value of a [`CommandProbe`].
pub ghost enum ProbeModel {
    Ran,
    NotFound,
    Failed(Seq<char>),
}

impl View for CommandProbe {
    type V = ProbeModel;

    open spec fn view(&self) -> ProbeModel {
        match self {
            CommandProbe::Ran => ProbeModel::Ran,
            CommandProbe::NotFound => ProbeModel::NotFound,
            CommandProbe::Failed(m) => ProbeModel::Failed(m@),
        }
    }
}

/// The check of a command: available when it ran; a missing `lsof` is
/// worth a look, any other missing or failing command fails.
pub open spec fn spec_command_check(command: Seq<char>, probe: ProbeModel) -> CheckModel {
    match probe {
        ProbeModel::Ran => check(DoctorCheckStatus::Passed, command + " command"@, "available"@),
        ProbeModel::NotFound => if command == "lsof"@ {
            check(DoctorCheckStatus::Warning, "lsof command"@, "not found; port process details may be limited"@)
        } else {
            check(DoctorCheckStatus::Error, command + " command"@, "not found"@)
        },
        ProbeModel::Failed(m) => check(DoctorCheckStatus::Error, command + " command"@, m),
    }
}

/// The check of a command, from what came of running it.
pub fn doctor_command_check(command: &str, probe: CommandProbe) -> (r: DoctorCheck)
    ensures
        r@ == spec_command_check(command@, probe@),
{
    let name = concat_str(command, " command");
    match probe {
        CommandProbe::Ran => DoctorCheck::passed(name, String::from_str("available")),
        CommandProbe::NotFound => {
            if str_eq(command, "lsof") {
                DoctorCheck::warning(
                    String::from_str("lsof command"),
                    String::from_str("not found; port process details may be limited"),
                )
            } else {
                DoctorCheck::error(name, String::from_str("not found"))
            }
        },
        CommandProbe::Failed(m) => DoctorCheck::error(name, m),
    }
}

/// An identity file to look for, and the name of its check.
#[derive(Debug, PartialEq, Eq)]
pub struct IdentityFileTarget {
    pub name: String,
    pub path: String,
}

/// The identity files to look for: for each tunnel that names one, in
/// order, `Identity file (name)` and the file with `~/` expanded.
pub open spec fn spec_identity_targets(ts: Seq<ResolvedModel>, home: Option<Seq<char>>) -> Seq<(Seq<char>, Seq<char>)>
    decreases ts.len(),
{
    if ts.len() == 0 {
        seq![]
    } else {
        let rest = spec_identity_targets(ts.drop_last(), home);
        let t = ts.last().tunnel;
        match t.identity_file {
            Some(f) => rest.push(("Identity file ("@ + t.name + ")"@, spec_expand_home(f, home))),
            None => rest,
        }
    }
}

/// The mathematical value of identity file targets.
pub open spec fn target_views(v: Seq<IdentityFileTarget>) -> Seq<(Seq<char>, Seq<char>)> {
    v.map_values(|t: IdentityFileTarget| (t.name@, t.path@))
}

/// The identity files that `doctor` looks for, `~/` expanded with `home`.
pub fn doctor_identity_file_targets(config: &EffectiveConfig, home: Option<&str>) -> (r: Vec<IdentityFileTarget>)
    ensures
        target_views(r@) == spec_identity_targets(config@.tunnels, opt_str_view(home)),
{
    let ghost tv = config@.tunnels;
    let ghost hv = opt_str_view(home);
    let mut r: Vec<IdentityFileTarget> = Vec::new();
    let mut i: usize = 0;
    while i < config.tunnels.len()
        invariant
            tv == config@.tunnels,
            hv == opt_str_view(home),
            i <= tv.len(),
            target_views(r@) == spec_identity_targets(tv.subrange(0, i as int), hv),
        decreases tv.len() - i,
    {
        assert(tv.subrange(0, i + 1).drop_last() =~= tv.subrange(0, i as int));
        assert(tv[i as int] == config.tunnels@[i as int]@);
        let t = &config.tunnels[i].tunnel;
        match &t.identity_file {
            Some(f) => {
                let ghost before = target_views(r@);
                let a = concat_str("Identity file (", t.name.as_str());
                let name = concat_str(a.as_str(), ")");
                let path = expand_home_path_with_home(f.as_str(), home);
                r.push(IdentityFileTarget { name, path });
                assert(target_views(r@) =~= before.push((name@, path@)));
            },
            None => {},
        }
        i += 1;
    }
    assert(tv.subrange(0, i as int) =~= tv);
    r
}

/// The check of an identity file: found, or not found (a failure).
pub open spec fn spec_identity_check(target: (Seq<char>, Seq<char>), is_file: bool, home: Seq<char>) -> CheckModel {
    if is_file {
        check(DoctorCheckStatus::Passed, target.0, spec_display_path(target.1, home))
    } else {
        check(DoctorCheckStatus::Error, target.0, "not found: "@ + spec_display_path(target.1, home))
    }
}

/// The check of an identity file, given whether it is a file.
pub fn doctor_identity_file_check(target: &IdentityFileTarget, is_file: bool, home: &str) -> (r: DoctorCheck)
    ensures
        r@ == spec_identity_check((target.name@, target.path@), is_file, home@),
{
    let shown = format_path_for_display_with_home(target.path.as_str(), home);
    if is_file {
        DoctorCheck::passed(target.name.clone(), shown)
    } else {
        DoctorCheck::error(target.name.clone(), concat_str("not found: ", shown.as_str()))
    }
}

/// The check of a tunnel's local endpoint: available when it could be
/// bound, else worth a look, with the reason.
pub open spec fn spec_endpoint_check(t: TunnelModel, bind_error: Option<Seq<char>>) -> CheckModel {
    let endpoint = endpoint_text(spec_effective_local_host(t), t.local_port);
    match bind_error {
        None => check(DoctorCheckStatus::Passed, "Local endpoint ("@ + t.name + ")"@, endpoint + " is available"@),
        Some(e) => check(
            DoctorCheckStatus::Warning,
            "Local endpoint ("@ + t.name + ")"@,
            endpoint + " is not available: "@ + e,
        ),
    }
}

/// The check of a tunnel's local endpoint, given why binding it failed,
/// where it did.
pub fn doctor_local_endpoint_check(tunnel: &TunnelConfig, bind_error: Option<String>) -> (r: DoctorCheck)
    ensures
        r@ == spec_endpoint_check(tunnel@, bind_error.deep_view()),
{
    let a = concat_str("Local endpoint (", tunnel.name.as_str());
    let name = concat_str(a.as_str(), ")");
    let endpoint = format_local_endpoint(tunnel);
    match bind_error {
        None => DoctorCheck::passed(name, concat_str(endpoint.as_str(), " is available")),
        Some(e) => {
            let b = concat_str(endpoint.as_str(), " is not available: ");
            DoctorCheck::warning(name, concat_str(b.as_str(), e.as_str()))
        },
    }
}

/// All checks of `doctor`, in order: configuration files, validation, the
/// state file, `ssh`, `lsof`, then each identity file and each local
/// endpoint.
pub open spec fn spec_doctor_checks(
    c: EffectiveModel,
    global: Option<Seq<char>>,
    local: Seq<char>,
    home: Option<Seq<char>>,
    state: CheckModel,
    ssh: ProbeModel,
    lsof: ProbeModel,
    identity_files_found: Seq<bool>,
    bind_errors: Seq<Option<Seq<char>>>,
) -> Seq<CheckModel> {
    let targets = spec_identity_targets(c.tunnels, home);
    seq![
        spec_presence_check(c, global, local, display_home(home)),
        spec_validation_check(spec_validation_errors(c).len(), spec_validation_warnings(c).len()),
        state,
        spec_command_check("ssh"@, ssh),
        spec_command_check("lsof"@, lsof),
    ] + Seq::new(
        targets.len(),
        |i: int| spec_identity_check(targets[i], identity_files_found[i], display_home(home)),
    ) + Seq::new(c.tunnels.len(), |i: int| spec_endpoint_check(c.tunnels[i].tunnel, bind_errors[i]))
}

/// All checks of `doctor`, from what the caller found: the state file
/// check, what came of running `ssh` and `lsof`, whether each identity
/// file of [`doctor_identity_file_targets`] is a file, and why binding
/// each tunnel's local endpoint failed, where it did.
pub fn doctor_checks(
    config: &EffectiveConfig,
    paths: &ConfigPaths,
    home: Option<&str>,
    state: DoctorCheck,
    ssh: CommandProbe,
    lsof: CommandProbe,
    identity_files_found: &[bool],
    bind_errors: &[Option<String>],
) -> (r: Vec<DoctorCheck>)
    requires
        identity_files_found@.len() == spec_identity_targets(config@.tunnels, opt_str_view(home)).len(),
        bind_errors@.len() == config@.tunnels.len(),
    ensures
        r.deep_view() == spec_doctor_checks(
            config@,
            paths.global.deep_view(),
            paths.local@,
            opt_str_view(home),
            state@,
            ssh@,
            lsof@,
            identity_files_found@,
            bind_errors.deep_view(),
        ),
{
    let ghost sv = state@;
    let ghost ssh_v = ssh@;
    let ghost lsof_v = lsof@;
    let ghost be = bind_errors.deep_view();
    let shown_home = display_home_str(home);
    let mut r: Vec<DoctorCheck> = Vec::new();
    r.push(doctor_config_presence_check(config, paths, shown_home));
    r.push(doctor_validation_check(config));
    r.push(state);
    r.push(doctor_command_check("ssh", ssh));
    r.push(doctor_command_check("lsof", lsof));
    let ghost head = r.deep_view();
    let targets = doctor_identity_file_targets(config, home);
    let ghost tg = spec_identity_targets(config@.tunnels, opt_str_view(home));
    let mut i: usize = 0;
    while i < targets.len()
        invariant
            tg == target_views(targets@),
            identity_files_found@.len() == tg.len(),
            shown_home@ == display_home(opt_str_view(home)),
            i <= tg.len(),
            r@.len() == head.len() + i,
            forall|j: int| 0 <= j < head.len() ==> (#[trigger] r@[j])@ == head[j],
            forall|j: int|
                0 <= j < i ==> (#[trigger] r@[head.len() + j])@ == spec_identity_check(
                    tg[j],
                    identity_files_found@[j],
                    shown_home@,
                ),
        decreases tg.len() - i,
    {
        r.push(doctor_identity_file_check(&targets[i], identity_files_found[i], shown_home));
        i += 1;
    }
    let ghost mid = head.len() + tg.len();
    let mut k: usize = 0;
    let n = config.tunnels.len();
    while k < n
        invariant
            n == config@.tunnels.len(),
            be.len() == n,
            be == bind_errors.deep_view(),
            mid == head.len() + tg.len(),
            identity_files_found@.len() == tg.len(),
            k <= n,
            r@.len() == mid + k,
            forall|j: int| 0 <= j < head.len() ==> (#[trigger] r@[j])@ == head[j],
            forall|j: int|
                0 <= j < tg.len() ==> (#[trigger] r@[head.len() + j])@ == spec_identity_check(
                    tg[j],
                    identity_files_found@[j],
                    shown_home@,
                ),
            forall|j: int|
                0 <= j < k ==> (#[trigger] r@[mid + j])@ == spec_endpoint_check(config@.tunnels[j].tunnel, be[j]),
        decreases n - k,
    {
        let e = clone_opt_string(&bind_errors[k]);
        assert(be[k as int] == bind_errors@[k as int].deep_view());
        assert(config.tunnels@[k as int]@ == config@.tunnels[k as int]);
        r.push(doctor_local_endpoint_check(&config.tunnels[k].tunnel, e));
        k += 1;
    }
    let ghost want = spec_doctor_checks(
        config@,
        paths.global.deep_view(),
        paths.local@,
        opt_str_view(home),
        sv,
        ssh_v,
        lsof_v,
        identity_files_found@,
        be,
    );
    assert forall|x: int| 0 <= x < r@.len() implies (#[trigger] r.deep_view()[x]) == want[x] by {
        if x >= mid {
            assert(r@[mid + (x - mid)]@ == spec_endpoint_check(config@.tunnels[x - mid].tunnel, be[x - mid]));
        } else if x >= head.len() {
            assert(r@[head.len() + (x - head.len())]@ == spec_identity_check(
                tg[x - head.len()],
                identity_files_found@[x - head.len()],
                shown_home@,
            ));
        }
    }
    assert(r.deep_view() =~= want);
    r
}

} // verus!
