//! Semantic checks of a merged configuration.

use vstd::prelude::*;

use crate::config::{
    ConfigSource, ConfigSourceKind, EffectiveConfig, EffectiveModel, LoadedConfigFile,
    LoadedConfigOverrideFile,
    LoadedFileModel, OverrideFileModel, OverrideModel, ResolvedModel, ResolvedTunnelConfig,
    SourceModel, TunnelConfig, TunnelConfigOverride, TunnelModel,
};
use crate::tags::{spec_tag_is_valid, tag_is_valid};
use crate::text::{chars_of, char_is_ws, concat_str, decimal, decimal_string, is_blank, is_ws, str_eq, trim};

verus! {

/// A problem found by validation.
#[derive(Debug, PartialEq, Eq)]
pub struct ValidationError {
    pub source: ConfigSource,
    pub tunnel_name: Option<String>,
    pub message: String,
}

/// A caution found by validation.
#[derive(Debug, PartialEq, Eq)]
pub struct ValidationWarning {
    pub source: ConfigSource,
    pub tunnel_name: Option<String>,
    pub message: String,
}

/// The mathematical value of an error or a warning.
pub ghost struct IssueModel {
    pub source: SourceModel,
    pub tunnel_name: Option<Seq<char>>,
    pub message: Seq<char>,
}

impl View for ValidationError {
    type V = IssueModel;

    open spec fn view(&self) -> IssueModel {
        IssueModel {
            source: self.source@,
            tunnel_name: self.tunnel_name.deep_view(),
            message: self.message@,
        }
    }
}

impl DeepView for ValidationError {
    type V = IssueModel;

    open spec fn deep_view(&self) -> IssueModel {
        self@
    }
}

impl View for ValidationWarning {
    type V = IssueModel;

    open spec fn view(&self) -> IssueModel {
        IssueModel {
            source: self.source@,
            tunnel_name: self.tunnel_name.deep_view(),
            message: self.message@,
        }
    }
}

impl DeepView for ValidationWarning {
    type V = IssueModel;

    open spec fn deep_view(&self) -> IssueModel {
        self@
    }
}

impl ValidationError {
    /// An error about `source`, naming a tunnel where there is one.
    pub fn new(source: ConfigSource, tunnel_name: Option<String>, message: String) -> (r: Self)
        ensures
            r.source == source,
            r.tunnel_name == tunnel_name,
            r.message == message,
    {
        ValidationError { source, tunnel_name, message }
    }
}

impl ValidationWarning {
    /// A warning about `source`, naming a tunnel where there is one.
    pub fn new(source: ConfigSource, tunnel_name: Option<String>, message: String) -> (r: Self)
        ensures
            r.source == source,
            r.tunnel_name == tunnel_name,
            r.message == message,
    {
        ValidationWarning { source, tunnel_name, message }
    }
}

/// The outcome of validation: errors make a configuration invalid,
/// warnings do not.
#[derive(Debug, PartialEq, Eq)]
pub struct ValidationReport {
    pub errors: Vec<ValidationError>,
    pub warnings: Vec<ValidationWarning>,
}

impl ValidationReport {
    /// A report with no errors and no warnings.
    pub fn valid() -> (r: Self)
        ensures
            r.errors@.len() == 0,
            r.warnings@.len() == 0,
    {
        ValidationReport { errors: Vec::new(), warnings: Vec::new() }
    }

    /// Whether the report holds no error.
    pub fn is_valid(&self) -> (r: bool)
        ensures
            r == (self.errors@.len() == 0),
    {
        self.errors.len() == 0
    }

    /// Whether the report holds a warning.
    pub fn has_warnings(&self) -> (r: bool)
        ensures
            r == (self.warnings@.len() > 0),
    {
        self.warnings.len() > 0
    }

    /// Adds an error at the end.
    pub fn push(&mut self, error: ValidationError)
        ensures
            final(self).errors@ == old(self).errors@.push(error),
            final(self).warnings == old(self).warnings,
    {
        self.errors.push(error);
    }

    /// Adds a warning at the end.
    pub fn push_warning(&mut self, warning: ValidationWarning)
        ensures
            final(self).warnings@ == old(self).warnings@.push(warning),
            final(self).errors == old(self).errors,
    {
        self.warnings.push(warning);
    }
}


/// An issue about tunnel `name` of `source`.
pub open spec fn issue(source: SourceModel, name: Seq<char>, message: Seq<char>) -> IssueModel {
    IssueModel { source, tunnel_name: Some(name), message }
}

/// `<field> cannot be empty`.
pub open spec fn msg_empty(field: Seq<char>) -> Seq<char> {
    field + " cannot be empty"@
}

/// `<field> must be greater than or equal to 1`.
pub open spec fn msg_port_zero(field: Seq<char>) -> Seq<char> {
    field + " must be greater than or equal to 1"@
}

/// The message for a tag that is not a valid slug.
pub open spec fn msg_bad_tag(tag: Seq<char>) -> Seq<char> {
    "tag must contain only lowercase ASCII letters, numbers, '-', '_', '.', or '/': "@ + tag
}

/// `local_port <port> duplicates <name>`.
pub open spec fn msg_dup_port(port: u16, name: Seq<char>) -> Seq<char> {
    "local_port "@ + decimal(port as nat) + " duplicates "@ + name
}

/// Whether a string holds a whitespace character.
pub open spec fn has_ws(s: Seq<char>) -> bool {
    exists|i: int| 0 <= i < s.len() && is_ws(#[trigger] s[i])
}

/// Whether `port` may need elevated privileges to bind.
pub open spec fn is_privileged(port: u16) -> bool {
    1 <= port && port < 1024
}

/// One issue when `bad`, none otherwise.
pub open spec fn when(bad: bool, i: IssueModel) -> Seq<IssueModel> {
    if bad {
        seq![i]
    } else {
        seq![]
    }
}

/// Errors for required text settings that are blank.
pub open spec fn required_errors(src: SourceModel, t: TunnelModel) -> Seq<IssueModel> {
    when(trim(t.name).len() == 0, issue(src, t.name, msg_empty("name"@)))
        + when(trim(t.remote_host).len() == 0, issue(src, t.name, msg_empty("remote_host"@)))
        + when(trim(t.ssh_user).len() == 0, issue(src, t.name, msg_empty("ssh_user"@)))
        + when(trim(t.ssh_host).len() == 0, issue(src, t.name, msg_empty("ssh_host"@)))
}

/// Errors for a local bind address that is blank or holds whitespace.
pub open spec fn local_host_errors(src: SourceModel, name: Seq<char>, host: Option<Seq<char>>) -> Seq<IssueModel> {
    match host {
        Some(h) => if trim(h).len() == 0 {
            seq![issue(src, name, "local_host cannot be empty"@)]
        } else if has_ws(h) {
            seq![issue(src, name, "local_host cannot contain whitespace"@)]
        } else {
            seq![]
        },
        None => seq![],
    }
}

/// Errors for the tags among `tags` that are not valid slugs, in order.
pub open spec fn tag_errors(src: SourceModel, name: Seq<char>, tags: Seq<Seq<char>>) -> Seq<IssueModel>
    decreases tags.len(),
{
    if tags.len() == 0 {
        seq![]
    } else {
        tag_errors(src, name, tags.drop_last()) + when(
            !spec_tag_is_valid(tags.last()),
            issue(src, name, msg_bad_tag(tags.last())),
        )
    }
}

/// Errors for ports that are zero.
pub open spec fn port_errors(src: SourceModel, t: TunnelModel) -> Seq<IssueModel> {
    when(t.local_port == 0, issue(src, t.name, msg_port_zero("local_port"@)))
        + when(t.remote_port == 0, issue(src, t.name, msg_port_zero("remote_port"@)))
}

/// The warning for a privileged local port.
pub open spec fn privileged_warnings(src: SourceModel, name: Seq<char>, port: u16) -> Seq<IssueModel> {
    when(is_privileged(port), issue(src, name, "local_port below 1024 may require elevated privileges"@))
}

/// Errors for blank required settings over all pairs, in order.
pub open spec fn required_all(st: Seq<(SourceModel, TunnelModel)>) -> Seq<IssueModel>
    decreases st.len(),
{
    if st.len() == 0 {
        seq![]
    } else {
        required_all(st.drop_last()) + required_errors(st.last().0, st.last().1)
    }
}

/// Errors for local bind addresses over all pairs, in order.
pub open spec fn local_host_all(st: Seq<(SourceModel, TunnelModel)>) -> Seq<IssueModel>
    decreases st.len(),
{
    if st.len() == 0 {
        seq![]
    } else {
        local_host_all(st.drop_last()) + local_host_errors(st.last().0, st.last().1.name, st.last().1.local_host)
    }
}

/// Errors for tags over all pairs, in order.
pub open spec fn tags_all(st: Seq<(SourceModel, TunnelModel)>) -> Seq<IssueModel>
    decreases st.len(),
{
    if st.len() == 0 {
        seq![]
    } else {
        tags_all(st.drop_last()) + tag_errors(st.last().0, st.last().1.name, st.last().1.tags)
    }
}

/// Errors for zero ports over all pairs, in order.
pub open spec fn ports_all(st: Seq<(SourceModel, TunnelModel)>) -> Seq<IssueModel>
    decreases st.len(),
{
    if st.len() == 0 {
        seq![]
    } else {
        ports_all(st.drop_last()) + port_errors(st.last().0, st.last().1)
    }
}

/// Warnings for privileged local ports over all pairs, in order.
pub open spec fn privileged_all(st: Seq<(SourceModel, TunnelModel)>) -> Seq<IssueModel>
    decreases st.len(),
{
    if st.len() == 0 {
        seq![]
    } else {
        privileged_all(st.drop_last()) + privileged_warnings(st.last().0, st.last().1.name, st.last().1.local_port)
    }
}

/// Each tunnel of each file with the file's source, in order.
pub open spec fn file_pairs(files: Seq<LoadedFileModel>) -> Seq<(SourceModel, TunnelModel)>
    decreases files.len(),
{
    if files.len() == 0 {
        seq![]
    } else {
        file_pairs(files.drop_last()) + files.last().tunnels.map_values(
            |t: TunnelModel| (files.last().source, t),
        )
    }
}

/// The tunnels the field checks look at: every tunnel of every file, or,
/// when no file is loaded, the configured tunnels.
pub open spec fn spec_source_tunnels(c: EffectiveModel) -> Seq<(SourceModel, TunnelModel)> {
    if c.sources.len() == 0 {
        c.configured_tunnels.map_values(|r: ResolvedModel| (r.source, r.tunnel))
    } else {
        file_pairs(c.sources)
    }
}

/// Whether tunnel `i` is the first with its name.
pub open spec fn first_of_name(ts: Seq<Seq<char>>, i: int) -> bool {
    forall|j: int| 0 <= j < i ==> #[trigger] ts[j] != ts[i]
}

/// Whether a later tunnel has the name of tunnel `i`.
pub open spec fn repeated_later(ts: Seq<Seq<char>>, i: int) -> bool {
    exists|j: int| i < j < ts.len() && #[trigger] ts[j] == ts[i]
}

/// One issue per name that occurs more than once among the first `n`
/// names, at the name's first occurrence.
pub open spec fn dup_name_issues(src: SourceModel, names: Seq<Seq<char>>, n: int, message: Seq<char>) -> Seq<IssueModel>
    decreases n,
{
    if n <= 0 {
        seq![]
    } else {
        dup_name_issues(src, names, n - 1, message) + when(
            first_of_name(names, n - 1) && repeated_later(names, n - 1),
            IssueModel { source: src, tunnel_name: Some(names[n - 1]), message },
        )
    }
}

/// The names of the tunnels of a file.
pub open spec fn tunnel_names(ts: Seq<TunnelModel>) -> Seq<Seq<char>> {
    ts.map_values(|t: TunnelModel| t.name)
}

/// Errors for names repeated within one file, file by file.
pub open spec fn duplicate_name_errors(files: Seq<LoadedFileModel>) -> Seq<IssueModel>
    decreases files.len(),
{
    if files.len() == 0 {
        seq![]
    } else {
        duplicate_name_errors(files.drop_last()) + dup_name_issues(
            files.last().source,
            tunnel_names(files.last().tunnels),
            files.last().tunnels.len() as int,
            "Duplicate name in the same configuration file"@,
        )
    }
}


/// Whether some local file has a tunnel called `name`.
pub open spec fn name_in_local(files: Seq<LoadedFileModel>, name: Seq<char>) -> bool {
    exists|f: int, j: int|
        0 <= f < files.len() && files[f].source.kind == ConfigSourceKind::Local && 0 <= j
            < files[f].tunnels.len() && (#[trigger] files[f].tunnels[j]).name == name
}

/// Errors for the text settings of an override entry.
pub open spec fn override_text_errors(src: SourceModel, o: OverrideModel) -> Seq<IssueModel> {
    local_host_errors(src, o.name, o.local_host) + when(
        o.remote_host is Some && trim(o.remote_host.unwrap()).len() == 0,
        issue(src, o.name, msg_empty("remote_host"@)),
    ) + when(
        o.ssh_user is Some && trim(o.ssh_user.unwrap()).len() == 0,
        issue(src, o.name, msg_empty("ssh_user"@)),
    ) + when(
        o.ssh_host is Some && trim(o.ssh_host.unwrap()).len() == 0,
        issue(src, o.name, msg_empty("ssh_host"@)),
    )
}

/// Errors for the ports and tags of an override entry.
pub open spec fn override_port_tag_errors(src: SourceModel, o: OverrideModel) -> Seq<IssueModel> {
    when(o.local_port == Some(0u16), issue(src, o.name, msg_port_zero("local_port"@)))
        + when(o.remote_port == Some(0u16), issue(src, o.name, msg_port_zero("remote_port"@)))
        + match o.tags {
        Some(tags) => tag_errors(src, o.name, tags),
        None => seq![],
    }
}

/// Errors for the settings of one override entry that names a local tunnel.
pub open spec fn override_field_errors(src: SourceModel, o: OverrideModel) -> Seq<IssueModel> {
    override_text_errors(src, o) + override_port_tag_errors(src, o)
}

/// Errors for one override entry.
pub open spec fn override_entry_errors(src: SourceModel, files: Seq<LoadedFileModel>, o: OverrideModel) -> Seq<IssueModel> {
    if trim(o.name).len() == 0 {
        seq![issue(src, o.name, "Override name cannot be empty"@)]
    } else if !name_in_local(files, o.name) {
        seq![]
    } else {
        override_field_errors(src, o)
    }
}

/// Warnings for one override entry.
pub open spec fn override_entry_warnings(src: SourceModel, files: Seq<LoadedFileModel>, o: OverrideModel) -> Seq<IssueModel> {
    if trim(o.name).len() == 0 {
        seq![]
    } else if !name_in_local(files, o.name) {
        seq![issue(src, o.name, "Override name was not found in local configuration; entry was ignored"@)]
    } else {
        when(
            o.local_port is Some && is_privileged(o.local_port.unwrap()),
            issue(src, o.name, "local_port below 1024 may require elevated privileges"@),
        )
    }
}

/// Errors for the first `n` override entries, entry by entry.
pub open spec fn override_entries_errors(src: SourceModel, files: Seq<LoadedFileModel>, os: Seq<OverrideModel>, n: int) -> Seq<IssueModel>
    decreases n,
{
    if n <= 0 {
        seq![]
    } else {
        override_entries_errors(src, files, os, n - 1) + override_entry_errors(src, files, os[n - 1])
    }
}

/// Warnings for the first `n` override entries, entry by entry.
pub open spec fn override_entries_warnings(src: SourceModel, files: Seq<LoadedFileModel>, os: Seq<OverrideModel>, n: int) -> Seq<IssueModel>
    decreases n,
{
    if n <= 0 {
        seq![]
    } else {
        override_entries_warnings(src, files, os, n - 1) + override_entry_warnings(src, files, os[n - 1])
    }
}

/// The names of override entries.
pub open spec fn override_names(os: Seq<OverrideModel>) -> Seq<Seq<char>> {
    os.map_values(|o: OverrideModel| o.name)
}

/// Errors of the override check.
pub open spec fn override_errors(files: Seq<LoadedFileModel>, ov: Option<OverrideFileModel>) -> Seq<IssueModel> {
    match ov {
        Some(ov) => override_entries_errors(ov.source, files, ov.tunnels, ov.tunnels.len() as int)
            + dup_name_issues(
            ov.source,
            override_names(ov.tunnels),
            ov.tunnels.len() as int,
            "Duplicate name in local override configuration file"@,
        ),
        None => seq![],
    }
}

/// Warnings of the override check.
pub open spec fn override_warnings(files: Seq<LoadedFileModel>, ov: Option<OverrideFileModel>) -> Seq<IssueModel> {
    match ov {
        Some(ov) => override_entries_warnings(ov.source, files, ov.tunnels, ov.tunnels.len() as int),
        None => seq![],
    }
}

/// The index of the last tunnel before `i` with local port `port`.
pub open spec fn last_port_before(ts: Seq<TunnelModel>, i: int, port: u16) -> Option<int>
    decreases i,
{
    if i <= 0 {
        None
    } else if ts[i - 1].local_port == port {
        Some(i - 1)
    } else {
        last_port_before(ts, i - 1, port)
    }
}

/// Errors for local ports repeated among the first `n` tunnels of one file:
/// each repeat names the latest earlier tunnel with that port.
pub open spec fn raw_port_issues(src: SourceModel, ts: Seq<TunnelModel>, n: int) -> Seq<IssueModel>
    decreases n,
{
    if n <= 0 {
        seq![]
    } else {
        raw_port_issues(src, ts, n - 1) + match last_port_before(ts, n - 1, ts[n - 1].local_port) {
            Some(j) => seq![issue(src, ts[n - 1].name, msg_dup_port(ts[n - 1].local_port, ts[j].name))],
            None => seq![],
        }
    }
}

/// Errors for local ports repeated within one file, file by file.
pub open spec fn raw_port_errors(files: Seq<LoadedFileModel>) -> Seq<IssueModel>
    decreases files.len(),
{
    if files.len() == 0 {
        seq![]
    } else {
        raw_port_errors(files.drop_last()) + raw_port_issues(
            files.last().source,
            files.last().tunnels,
            files.last().tunnels.len() as int,
        )
    }
}

/// Whether a file with source `src` repeats local port `port`.
pub open spec fn raw_duplicate(files: Seq<LoadedFileModel>, src: SourceModel, port: u16) -> bool {
    exists|f: int, i: int|
        0 <= f < files.len() && files[f].source == src && 0 <= i < files[f].tunnels.len()
            && (#[trigger] files[f].tunnels[i]).local_port == port && last_port_before(
            files[f].tunnels,
            i,
            port,
        ) is Some
}

/// The index of the last merged tunnel before `k` from source `src` with local port `port`.
pub open spec fn last_resolved_before(rs: Seq<ResolvedModel>, k: int, src: SourceModel, port: u16) -> Option<int>
    decreases k,
{
    if k <= 0 {
        None
    } else if rs[k - 1].source == src && rs[k - 1].tunnel.local_port == port {
        Some(k - 1)
    } else {
        last_resolved_before(rs, k - 1, src, port)
    }
}

/// The error for two merged tunnels of one source sharing a local port:
/// it is put on the one an override applied to, else on the later one.
pub open spec fn port_conflict_issue(cur: ResolvedModel, prev: ResolvedModel) -> IssueModel {
    if cur.override_source is Some {
        issue(cur.override_source.unwrap(), cur.tunnel.name, msg_dup_port(cur.tunnel.local_port, prev.tunnel.name))
    } else if prev.override_source is Some {
        issue(prev.override_source.unwrap(), prev.tunnel.name, msg_dup_port(prev.tunnel.local_port, cur.tunnel.name))
    } else {
        issue(cur.source, cur.tunnel.name, msg_dup_port(cur.tunnel.local_port, prev.tunnel.name))
    }
}

/// Errors for local ports shared after merging by tunnels of one source,
/// leaving out ports already reported as repeated within a file.
pub open spec fn merged_port_errors(files: Seq<LoadedFileModel>, rs: Seq<ResolvedModel>, n: int) -> Seq<IssueModel>
    decreases n,
{
    if n <= 0 {
        seq![]
    } else {
        merged_port_errors(files, rs, n - 1) + match last_resolved_before(
            rs,
            n - 1,
            rs[n - 1].source,
            rs[n - 1].tunnel.local_port,
        ) {
            Some(m) => if raw_duplicate(files, rs[n - 1].source, rs[n - 1].tunnel.local_port) {
                seq![]
            } else {
                seq![port_conflict_issue(rs[n - 1], rs[m])]
            },
            None => seq![],
        }
    }
}

/// All errors of a configuration, in the order the checks run: repeated
/// names, the override file, blank required settings, the local bind
/// address, tags, zero ports, and repeated local ports.
pub open spec fn spec_validation_errors(c: EffectiveModel) -> Seq<IssueModel> {
    let st = spec_source_tunnels(c);
    duplicate_name_errors(c.sources) + override_errors(c.sources, c.local_override)
        + required_all(st) + local_host_all(st) + tags_all(st) + ports_all(st)
        + raw_port_errors(c.sources)
        + merged_port_errors(c.sources, c.configured_tunnels, c.configured_tunnels.len() as int)
}

/// All warnings of a configuration: those of the override file, then
/// privileged local ports.
pub open spec fn spec_validation_warnings(c: EffectiveModel) -> Seq<IssueModel> {
    override_warnings(c.sources, c.local_override) + privileged_all(spec_source_tunnels(c))
}


/// Adds an error at the end of a list.
fn push_error(errs: &mut Vec<ValidationError>, e: ValidationError)
    ensures
        final(errs).deep_view() == old(errs).deep_view().push(e@),
{
    let ghost prev = errs.deep_view();
    let ghost ev = e@;
    errs.push(e);
    assert(errs.deep_view() =~= prev.push(ev));
}

/// Adds a warning at the end of a list.
fn push_warning_to(warns: &mut Vec<ValidationWarning>, w: ValidationWarning)
    ensures
        final(warns).deep_view() == old(warns).deep_view().push(w@),
{
    let ghost prev = warns.deep_view();
    let ghost wv = w@;
    warns.push(w);
    assert(warns.deep_view() =~= prev.push(wv));
}

/// An error about tunnel `name` of `source`.
fn new_error(source: &ConfigSource, name: &String, message: String) -> (r: ValidationError)
    ensures
        r@ == issue(source@, name@, message@),
{
    ValidationError::new(source.clone(), Some(name.clone()), message)
}

/// A warning about tunnel `name` of `source`.
fn new_warning(source: &ConfigSource, name: &String, message: String) -> (r: ValidationWarning)
    ensures
        r@ == issue(source@, name@, message@),
{
    ValidationWarning::new(source.clone(), Some(name.clone()), message)
}

/// `local_port <port> duplicates <name>`.
fn dup_port_message(port: u16, name: &String) -> (r: String)
    ensures
        r@ == msg_dup_port(port, name@),
{
    let mut r = String::from_str("local_port ");
    let d = decimal_string(port as u64);
    r.append(d.as_str());
    r.append(" duplicates ");
    r.append(name.as_str());
    r
}

/// Whether a string holds a whitespace character.
pub fn contains_ws(s: &str) -> (r: bool)
    ensures
        r == has_ws(s@),
{
    let cs = chars_of(s);
    let mut i: usize = 0;
    while i < cs.len()
        invariant
            cs@ == s@,
            i <= cs@.len(),
            forall|j: int| 0 <= j < i ==> !is_ws(#[trigger] cs@[j]),
        decreases cs@.len() - i,
    {
        if char_is_ws(cs[i]) {
            assert(is_ws(s@[i as int]));
            return true;
        }
        i += 1;
    }
    false
}

/// Adds the error for one blank required setting.
fn check_blank(source: &ConfigSource, name: &String, value: &String, field: &str, errs: &mut Vec<ValidationError>)
    ensures
        final(errs).deep_view() == old(errs).deep_view() + when(
            trim(value@).len() == 0,
            issue(source@, name@, msg_empty(field@)),
        ),
{
    if is_blank(value.as_str()) {
        let e = new_error(source, name, concat_str(field, " cannot be empty"));
        push_error(errs, e);
    }
    assert(errs.deep_view() =~= old(errs).deep_view() + when(
        trim(value@).len() == 0,
        issue(source@, name@, msg_empty(field@)),
    ));
}

/// Adds the errors for blank required settings of one tunnel.
fn check_required(source: &ConfigSource, t: &TunnelConfig, errs: &mut Vec<ValidationError>)
    ensures
        final(errs).deep_view() == old(errs).deep_view() + required_errors(source@, t@),
{
    check_blank(source, &t.name, &t.name, "name", errs);
    check_blank(source, &t.name, &t.remote_host, "remote_host", errs);
    check_blank(source, &t.name, &t.ssh_user, "ssh_user", errs);
    check_blank(source, &t.name, &t.ssh_host, "ssh_host", errs);
    assert(errs.deep_view() =~= old(errs).deep_view() + required_errors(source@, t@));
}

/// Adds the error for a local bind address that is blank or holds whitespace.
fn check_local_host(source: &ConfigSource, name: &String, host: &Option<String>, errs: &mut Vec<ValidationError>)
    ensures
        final(errs).deep_view() == old(errs).deep_view() + local_host_errors(source@, name@, host.deep_view()),
{
    match host {
        Some(h) => {
            if is_blank(h.as_str()) {
                push_error(errs, new_error(source, name, String::from_str("local_host cannot be empty")));
            } else if contains_ws(h.as_str()) {
                push_error(errs, new_error(source, name, String::from_str("local_host cannot contain whitespace")));
            }
        },
        None => {},
    }
    assert(errs.deep_view() =~= old(errs).deep_view() + local_host_errors(source@, name@, host.deep_view()));
}

/// Adds the errors for the tags that are not valid slugs.
fn check_tags(source: &ConfigSource, name: &String, tags: &Vec<String>, errs: &mut Vec<ValidationError>)
    ensures
        final(errs).deep_view() == old(errs).deep_view() + tag_errors(source@, name@, tags.deep_view()),
{
    let ghost init = errs.deep_view();
    let mut i: usize = 0;
    while i < tags.len()
        invariant
            i <= tags@.len(),
            errs.deep_view() == init + tag_errors(source@, name@, tags.deep_view().subrange(0, i as int)),
        decreases tags@.len() - i,
    {
        let ghost before = errs.deep_view();
        if !tag_is_valid(tags[i].as_str()) {
            let m = concat_str("tag must contain only lowercase ASCII letters, numbers, '-', '_', '.', or '/': ", tags[i].as_str());
            push_error(errs, new_error(source, name, m));
        }
        let ghost tv = tags.deep_view();
        assert(tv.subrange(0, i + 1).drop_last() =~= tv.subrange(0, i as int));
        assert(tv.subrange(0, i + 1).last() == tags@[i as int]@);
        i += 1;
        assert(errs.deep_view() =~= init + tag_errors(source@, name@, tv.subrange(0, i as int)));
    }
    assert(tags.deep_view().subrange(0, i as int) =~= tags.deep_view());
}

/// Adds the errors for zero ports of one tunnel.
fn check_ports(source: &ConfigSource, t: &TunnelConfig, errs: &mut Vec<ValidationError>)
    ensures
        final(errs).deep_view() == old(errs).deep_view() + port_errors(source@, t@),
{
    if t.local_port == 0 {
        push_error(errs, new_error(source, &t.name, concat_str("local_port", " must be greater than or equal to 1")));
    }
    if t.remote_port == 0 {
        push_error(errs, new_error(source, &t.name, concat_str("remote_port", " must be greater than or equal to 1")));
    }
    assert(errs.deep_view() =~= old(errs).deep_view() + port_errors(source@, t@));
}

/// Adds the warning for a privileged local port.
fn check_privileged(source: &ConfigSource, name: &String, port: u16, warns: &mut Vec<ValidationWarning>)
    ensures
        final(warns).deep_view() == old(warns).deep_view() + privileged_warnings(source@, name@, port),
{
    if 1 <= port && port < 1024 {
        push_warning_to(warns, new_warning(source, name, String::from_str("local_port below 1024 may require elevated privileges")));
    }
    assert(warns.deep_view() =~= old(warns).deep_view() + privileged_warnings(source@, name@, port));
}


/// The tunnels the field checks look at, each with its source: every
/// tunnel of every file, or the configured tunnels when no file is loaded.
pub fn source_tunnels<'a>(c: &'a EffectiveConfig) -> (r: Vec<(&'a ConfigSource, &'a TunnelConfig)>)
    ensures
        r.deep_view() == spec_source_tunnels(c@),
{
    let mut out: Vec<(&'a ConfigSource, &'a TunnelConfig)> = Vec::new();
    if c.sources.len() == 0 {
        let mut i: usize = 0;
        while i < c.configured_tunnels.len()
            invariant
                c.sources@.len() == 0,
                i <= c.configured_tunnels@.len(),
                out.deep_view() == c@.configured_tunnels.subrange(0, i as int).map_values(
                    |r: ResolvedModel| (r.source, r.tunnel),
                ),
            decreases c.configured_tunnels@.len() - i,
        {
            let r = &c.configured_tunnels[i];
            let ghost prev = out.deep_view();
            out.push((&r.source, &r.tunnel));
            assert(out.deep_view() =~= prev.push((r.source@, r.tunnel@)));
            assert(c@.configured_tunnels[i as int] == r@);
            i += 1;
            assert(out.deep_view() =~= c@.configured_tunnels.subrange(0, i as int).map_values(
                |r: ResolvedModel| (r.source, r.tunnel),
            ));
        }
        assert(c@.configured_tunnels.subrange(0, i as int) =~= c@.configured_tunnels);
        return out;
    }
    let mut f: usize = 0;
    while f < c.sources.len()
        invariant
            f <= c.sources@.len(),
            out.deep_view() == file_pairs(c@.sources.subrange(0, f as int)),
        decreases c.sources@.len() - f,
    {
        let file = &c.sources[f];
        let ghost before = out.deep_view();
        let mut j: usize = 0;
        while j < file.tunnels.len()
            invariant
                f < c.sources@.len(),
                file == c.sources@[f as int],
                j <= file.tunnels@.len(),
                out.deep_view() == before + file@.tunnels.subrange(0, j as int).map_values(
                    |t: TunnelModel| (file@.source, t),
                ),
            decreases file.tunnels@.len() - j,
        {
            let ghost prev = out.deep_view();
            out.push((&file.source, &file.tunnels[j]));
            assert(out.deep_view() =~= prev.push((file.source@, file.tunnels@[j as int]@)));
            j += 1;
            assert(out.deep_view() =~= before + file@.tunnels.subrange(0, j as int).map_values(
                |t: TunnelModel| (file@.source, t),
            ));
        }
        assert(file@.tunnels.subrange(0, j as int) =~= file@.tunnels);
        f += 1;
        assert(c@.sources.subrange(0, f as int).drop_last() =~= c@.sources.subrange(0, f - 1));
    }
    assert(c@.sources.subrange(0, f as int) =~= c@.sources);
    out
}

/// Runs the required check over every pair.
fn run_required_check(st: &Vec<(&ConfigSource, &TunnelConfig)>, errs: &mut Vec<ValidationError>)
    ensures
        final(errs).deep_view() == old(errs).deep_view() + required_all(st.deep_view()),
{
    let ghost init = errs.deep_view();
    let mut i: usize = 0;
    while i < st.len()
        invariant
            i <= st@.len(),
            errs.deep_view() == init + required_all(st.deep_view().subrange(0, i as int)),
        decreases st@.len() - i,
    {
        check_required(st[i].0, st[i].1, errs);
        let ghost sv = st.deep_view();
        assert(sv.subrange(0, i + 1).drop_last() =~= sv.subrange(0, i as int));
        i += 1;
        assert(errs.deep_view() =~= init + required_all(sv.subrange(0, i as int)));
    }
    assert(st.deep_view().subrange(0, i as int) =~= st.deep_view());
}

/// Runs the local host check over every pair.
fn run_local_host_check(st: &Vec<(&ConfigSource, &TunnelConfig)>, errs: &mut Vec<ValidationError>)
    ensures
        final(errs).deep_view() == old(errs).deep_view() + local_host_all(st.deep_view()),
{
    let ghost init = errs.deep_view();
    let mut i: usize = 0;
    while i < st.len()
        invariant
            i <= st@.len(),
            errs.deep_view() == init + local_host_all(st.deep_view().subrange(0, i as int)),
        decreases st@.len() - i,
    {
        check_local_host(st[i].0, &st[i].1.name, &st[i].1.local_host, errs);
        let ghost sv = st.deep_view();
        assert(sv.subrange(0, i + 1).drop_last() =~= sv.subrange(0, i as int));
        i += 1;
        assert(errs.deep_view() =~= init + local_host_all(sv.subrange(0, i as int)));
    }
    assert(st.deep_view().subrange(0, i as int) =~= st.deep_view());
}

/// Runs the tags check over every pair.
fn run_tags_check(st: &Vec<(&ConfigSource, &TunnelConfig)>, errs: &mut Vec<ValidationError>)
    ensures
        final(errs).deep_view() == old(errs).deep_view() + tags_all(st.deep_view()),
{
    let ghost init = errs.deep_view();
    let mut i: usize = 0;
    while i < st.len()
        invariant
            i <= st@.len(),
            errs.deep_view() == init + tags_all(st.deep_view().subrange(0, i as int)),
        decreases st@.len() - i,
    {
        check_tags(st[i].0, &st[i].1.name, &st[i].1.tags, errs);
        let ghost sv = st.deep_view();
        assert(sv.subrange(0, i + 1).drop_last() =~= sv.subrange(0, i as int));
        i += 1;
        assert(errs.deep_view() =~= init + tags_all(sv.subrange(0, i as int)));
    }
    assert(st.deep_view().subrange(0, i as int) =~= st.deep_view());
}

/// Runs the ports check over every pair.
fn run_ports_check(st: &Vec<(&ConfigSource, &TunnelConfig)>, errs: &mut Vec<ValidationError>)
    ensures
        final(errs).deep_view() == old(errs).deep_view() + ports_all(st.deep_view()),
{
    let ghost init = errs.deep_view();
    let mut i: usize = 0;
    while i < st.len()
        invariant
            i <= st@.len(),
            errs.deep_view() == init + ports_all(st.deep_view().subrange(0, i as int)),
        decreases st@.len() - i,
    {
        check_ports(st[i].0, st[i].1, errs);
        let ghost sv = st.deep_view();
        assert(sv.subrange(0, i + 1).drop_last() =~= sv.subrange(0, i as int));
        i += 1;
        assert(errs.deep_view() =~= init + ports_all(sv.subrange(0, i as int)));
    }
    assert(st.deep_view().subrange(0, i as int) =~= st.deep_view());
}

/// Runs the privileged check over every pair.
fn run_privileged_check(st: &Vec<(&ConfigSource, &TunnelConfig)>, errs: &mut Vec<ValidationWarning>)
    ensures
        final(errs).deep_view() == old(errs).deep_view() + privileged_all(st.deep_view()),
{
    let ghost init = errs.deep_view();
    let mut i: usize = 0;
    while i < st.len()
        invariant
            i <= st@.len(),
            errs.deep_view() == init + privileged_all(st.deep_view().subrange(0, i as int)),
        decreases st@.len() - i,
    {
        check_privileged(st[i].0, &st[i].1.name, st[i].1.local_port, errs);
        let ghost sv = st.deep_view();
        assert(sv.subrange(0, i + 1).drop_last() =~= sv.subrange(0, i as int));
        i += 1;
        assert(errs.deep_view() =~= init + privileged_all(sv.subrange(0, i as int)));
    }
    assert(st.deep_view().subrange(0, i as int) =~= st.deep_view());
}


/// The names of a file's tunnels.
fn names_of_tunnels(ts: &Vec<TunnelConfig>) -> (r: Vec<&String>)
    ensures
        r.deep_view() == tunnel_names(ts.deep_view()),
{
    let mut out: Vec<&String> = Vec::new();
    let mut i: usize = 0;
    while i < ts.len()
        invariant
            i <= ts@.len(),
            out.deep_view() == tunnel_names(ts.deep_view().subrange(0, i as int)),
        decreases ts@.len() - i,
    {
        let ghost prev = out.deep_view();
        out.push(&ts[i].name);
        assert(out.deep_view() =~= prev.push(ts@[i as int].name@));
        i += 1;
        assert(out.deep_view() =~= tunnel_names(ts.deep_view().subrange(0, i as int)));
    }
    assert(ts.deep_view().subrange(0, i as int) =~= ts.deep_view());
    out
}

/// The names of override entries.
fn names_of_overrides(os: &Vec<TunnelConfigOverride>) -> (r: Vec<&String>)
    ensures
        r.deep_view() == override_names(os.deep_view()),
{
    let mut out: Vec<&String> = Vec::new();
    let mut i: usize = 0;
    while i < os.len()
        invariant
            i <= os@.len(),
            out.deep_view() == override_names(os.deep_view().subrange(0, i as int)),
        decreases os@.len() - i,
    {
        let ghost prev = out.deep_view();
        out.push(&os[i].name);
        assert(out.deep_view() =~= prev.push(os@[i as int].name@));
        i += 1;
        assert(out.deep_view() =~= override_names(os.deep_view().subrange(0, i as int)));
    }
    assert(os.deep_view().subrange(0, i as int) =~= os.deep_view());
    out
}

/// Adds one error per name that occurs more than once, at its first occurrence.
fn check_duplicate_names(source: &ConfigSource, names: &Vec<&String>, message: &str, errs: &mut Vec<ValidationError>)
    ensures
        final(errs).deep_view() == old(errs).deep_view() + dup_name_issues(
            source@,
            names.deep_view(),
            names@.len() as int,
            message@,
        ),
{
    let ghost nv = names.deep_view();
    let ghost init = errs.deep_view();
    let n = names.len();
    let mut i: usize = 0;
    while i < n
        invariant
            n == names@.len(),
            nv == names.deep_view(),
            i <= n,
            errs.deep_view() == init + dup_name_issues(source@, nv, i as int, message@),
        decreases n - i,
    {
        let mut first = true;
        let mut j: usize = 0;
        while j < i
            invariant
                n == names@.len(),
                nv == names.deep_view(),
                i < n,
                j <= i,
                first == (forall|k: int| 0 <= k < j ==> #[trigger] nv[k] != nv[i as int]),
            decreases i - j,
        {
            assert(nv[j as int] == names@[j as int]@ && nv[i as int] == names@[i as int]@);
            if *names[j] == *names[i] {
                first = false;
            }
            j += 1;
        }
        let mut later = false;
        let mut k: usize = i + 1;
        while k < n
            invariant
                n == names@.len(),
                nv == names.deep_view(),
                i < n,
                i + 1 <= k <= n,
                later == (exists|m: int| i < m < k && #[trigger] nv[m] == nv[i as int]),
            decreases n - k,
        {
            assert(nv[k as int] == names@[k as int]@ && nv[i as int] == names@[i as int]@);
            if *names[k] == *names[i] {
                later = true;
            }
            k += 1;
        }
        if first && later {
            let e = ValidationError::new(source.clone(), Some(names[i].clone()), String::from_str(message));
            push_error(errs, e);
        }
        i += 1;
        assert(errs.deep_view() =~= init + dup_name_issues(source@, nv, i as int, message@));
    }
}

/// Errors for names repeated within one file, file by file.
fn check_duplicate_names_in_files(files: &Vec<LoadedConfigFile>, errs: &mut Vec<ValidationError>)
    ensures
        final(errs).deep_view() == old(errs).deep_view() + duplicate_name_errors(files.deep_view()),
{
    let ghost init = errs.deep_view();
    let mut f: usize = 0;
    while f < files.len()
        invariant
            f <= files@.len(),
            errs.deep_view() == init + duplicate_name_errors(files.deep_view().subrange(0, f as int)),
        decreases files@.len() - f,
    {
        let ghost e0 = errs.deep_view();
        let names = names_of_tunnels(&files[f].tunnels);
        check_duplicate_names(&files[f].source, &names, "Duplicate name in the same configuration file", errs);
        let ghost fv = files.deep_view();
        assert(names@.len() == names.deep_view().len());
        assert(names.deep_view().len() == files@[f as int]@.tunnels.len());
        assert(errs.deep_view() == e0 + dup_name_issues(
            files@[f as int]@.source,
            tunnel_names(files@[f as int]@.tunnels),
            files@[f as int]@.tunnels.len() as int,
            "Duplicate name in the same configuration file"@,
        ));
        assert(fv.subrange(0, f + 1).drop_last() =~= fv.subrange(0, f as int));
        assert(fv.subrange(0, f + 1).last() == files@[f as int]@);
        f += 1;
        assert(errs.deep_view() =~= init + duplicate_name_errors(fv.subrange(0, f as int)));
    }
    assert(files.deep_view().subrange(0, f as int) =~= files.deep_view());
}

/// Whether some local file has a tunnel called `name`.
fn local_has_name(files: &Vec<LoadedConfigFile>, name: &String) -> (r: bool)
    ensures
        r == name_in_local(files.deep_view(), name@),
{
    let ghost fv = files.deep_view();
    let mut f: usize = 0;
    while f < files.len()
        invariant
            f <= files@.len(),
            fv == files.deep_view(),
            forall|g: int, j: int|
                0 <= g < f && fv[g].source.kind == ConfigSourceKind::Local && 0 <= j
                    < fv[g].tunnels.len() ==> (#[trigger] fv[g].tunnels[j]).name != name@,
        decreases files@.len() - f,
    {
        if files[f].source.kind == ConfigSourceKind::Local {
            let mut j: usize = 0;
            while j < files[f].tunnels.len()
                invariant
                    f < files@.len(),
                    fv == files.deep_view(),
                    fv[f as int].source.kind == ConfigSourceKind::Local,
                    j <= fv[f as int].tunnels.len(),
                    forall|k: int| 0 <= k < j ==> (#[trigger] fv[f as int].tunnels[k]).name != name@,
                decreases files@[f as int].tunnels@.len() - j,
            {
                if files[f].tunnels[j].name == *name {
                    assert(fv[f as int].tunnels[j as int].name == name@);
                    return true;
                }
                j += 1;
            }
        }
        f += 1;
    }
    false
}

/// Adds the error when an optional text setting is present but blank.
fn check_opt_blank(source: &ConfigSource, name: &String, value: &Option<String>, field: &str, errs: &mut Vec<ValidationError>)
    ensures
        final(errs).deep_view() == old(errs).deep_view() + when(
            value.deep_view() is Some && trim(value.deep_view().unwrap()).len() == 0,
            issue(source@, name@, msg_empty(field@)),
        ),
{
    match value {
        Some(v) => check_blank(source, name, v, field, errs),
        None => {},
    }
    assert(errs.deep_view() =~= old(errs).deep_view() + when(
        value.deep_view() is Some && trim(value.deep_view().unwrap()).len() == 0,
        issue(source@, name@, msg_empty(field@)),
    ));
}

/// Adds the error when an optional port setting is zero.
fn check_opt_zero_port(source: &ConfigSource, name: &String, port: Option<u16>, field: &str, errs: &mut Vec<ValidationError>)
    ensures
        final(errs).deep_view() == old(errs).deep_view() + when(
            port == Some(0u16),
            issue(source@, name@, msg_port_zero(field@)),
        ),
{
    if port == Some(0u16) {
        push_error(errs, new_error(source, name, concat_str(field, " must be greater than or equal to 1")));
    }
    assert(errs.deep_view() =~= old(errs).deep_view() + when(
        port == Some(0u16),
        issue(source@, name@, msg_port_zero(field@)),
    ));
}

/// Adds the errors for the text settings of an override entry.
fn check_override_text(source: &ConfigSource, o: &TunnelConfigOverride, errs: &mut Vec<ValidationError>)
    ensures
        final(errs).deep_view() == old(errs).deep_view() + override_text_errors(source@, o@),
{
    let name = &o.name;
    let ghost e0 = errs.deep_view();
    let ghost a = local_host_errors(source@, o@.name, o@.local_host);
    let ghost b = when(
        o@.remote_host is Some && trim(o@.remote_host.unwrap()).len() == 0,
        issue(source@, o@.name, msg_empty("remote_host"@)),
    );
    let ghost c = when(
        o@.ssh_user is Some && trim(o@.ssh_user.unwrap()).len() == 0,
        issue(source@, o@.name, msg_empty("ssh_user"@)),
    );
    check_local_host(source, name, &o.local_host, errs);
    check_opt_blank(source, name, &o.remote_host, "remote_host", errs);
    assert(errs.deep_view() =~= e0 + (a + b));
    check_opt_blank(source, name, &o.ssh_user, "ssh_user", errs);
    assert(errs.deep_view() =~= e0 + (a + b + c));
    check_opt_blank(source, name, &o.ssh_host, "ssh_host", errs);
    assert(errs.deep_view() =~= e0 + override_text_errors(source@, o@));
}

/// Adds the errors for the ports and tags of an override entry.
fn check_override_ports_tags(source: &ConfigSource, o: &TunnelConfigOverride, errs: &mut Vec<ValidationError>)
    ensures
        final(errs).deep_view() == old(errs).deep_view() + override_port_tag_errors(source@, o@),
{
    let name = &o.name;
    let ghost e0 = errs.deep_view();
    let ghost e = when(o@.local_port == Some(0u16), issue(source@, o@.name, msg_port_zero("local_port"@)));
    let ghost f = when(o@.remote_port == Some(0u16), issue(source@, o@.name, msg_port_zero("remote_port"@)));
    check_opt_zero_port(source, name, o.local_port, "local_port", errs);
    check_opt_zero_port(source, name, o.remote_port, "remote_port", errs);
    assert(errs.deep_view() =~= e0 + (e + f));
    match &o.tags {
        Some(tags) => check_tags(source, name, tags, errs),
        None => {},
    }
    assert(errs.deep_view() =~= e0 + override_port_tag_errors(source@, o@));
}

/// Adds the errors for the settings of an override entry.
fn check_override_fields(source: &ConfigSource, o: &TunnelConfigOverride, errs: &mut Vec<ValidationError>)
    ensures
        final(errs).deep_view() == old(errs).deep_view() + override_field_errors(source@, o@),
{
    check_override_text(source, o, errs);
    check_override_ports_tags(source, o, errs);
    assert(errs.deep_view() =~= old(errs).deep_view() + override_field_errors(source@, o@));
}

/// Adds the errors and warnings for one override entry.
#[verifier::rlimit(30)]
fn check_override_entry(
    source: &ConfigSource,
    files: &Vec<LoadedConfigFile>,
    o: &TunnelConfigOverride,
    errs: &mut Vec<ValidationError>,
    warns: &mut Vec<ValidationWarning>,
)
    ensures
        final(errs).deep_view() == old(errs).deep_view() + override_entry_errors(source@, files.deep_view(), o@),
        final(warns).deep_view() == old(warns).deep_view() + override_entry_warnings(source@, files.deep_view(), o@),
{
    let name = &o.name;
    if is_blank(name.as_str()) {
        push_error(errs, new_error(source, name, String::from_str("Override name cannot be empty")));
        assert(errs.deep_view() =~= old(errs).deep_view() + override_entry_errors(source@, files.deep_view(), o@));
        assert(warns.deep_view() =~= old(warns).deep_view() + override_entry_warnings(source@, files.deep_view(), o@));
    } else if !local_has_name(files, name) {
        push_warning_to(warns, new_warning(source, name, String::from_str("Override name was not found in local configuration; entry was ignored")));
        assert(errs.deep_view() =~= old(errs).deep_view() + override_entry_errors(source@, files.deep_view(), o@));
        assert(warns.deep_view() =~= old(warns).deep_view() + override_entry_warnings(source@, files.deep_view(), o@));
    } else {
        check_override_fields(source, o, errs);
        match o.local_port {
            Some(p) => check_privileged(source, name, p, warns),
            None => {},
        }
        assert(errs.deep_view() =~= old(errs).deep_view() + override_entry_errors(source@, files.deep_view(), o@));
        assert(warns.deep_view() =~= old(warns).deep_view() + override_entry_warnings(source@, files.deep_view(), o@));
    }
}

/// Adds the errors and warnings of the override file.
fn check_override_file(
    files: &Vec<LoadedConfigFile>,
    ov: &Option<LoadedConfigOverrideFile>,
    errs: &mut Vec<ValidationError>,
    warns: &mut Vec<ValidationWarning>,
)
    ensures
        final(errs).deep_view() == old(errs).deep_view() + override_errors(files.deep_view(), ov.deep_view()),
        final(warns).deep_view() == old(warns).deep_view() + override_warnings(files.deep_view(), ov.deep_view()),
{
    match ov {
        None => {
            assert(errs.deep_view() =~= old(errs).deep_view() + override_errors(files.deep_view(), ov.deep_view()));
            assert(warns.deep_view() =~= old(warns).deep_view() + override_warnings(files.deep_view(), ov.deep_view()));
        },
        Some(file) => {
            let ghost einit = errs.deep_view();
            let ghost winit = warns.deep_view();
            let ghost os = file@.tunnels;
            let mut i: usize = 0;
            while i < file.tunnels.len()
                invariant
                    i <= file.tunnels@.len(),
                    os == file@.tunnels,
                    errs.deep_view() == einit + override_entries_errors(file.source@, files.deep_view(), os, i as int),
                    warns.deep_view() == winit + override_entries_warnings(file.source@, files.deep_view(), os, i as int),
                decreases file.tunnels@.len() - i,
            {
                check_override_entry(&file.source, files, &file.tunnels[i], errs, warns);
                i += 1;
                assert(errs.deep_view() =~= einit + override_entries_errors(file.source@, files.deep_view(), os, i as int));
                assert(warns.deep_view() =~= winit + override_entries_warnings(file.source@, files.deep_view(), os, i as int));
            }
            assert(i == os.len());
            let names = names_of_overrides(&file.tunnels);
            let ghost e1 = errs.deep_view();
            check_duplicate_names(&file.source, &names, "Duplicate name in local override configuration file", errs);
            assert(names.deep_view().len() == os.len());
            assert(errs.deep_view() == e1 + dup_name_issues(
                file.source@,
                override_names(os),
                os.len() as int,
                "Duplicate name in local override configuration file"@,
            ));
            assert(errs.deep_view() =~= einit + override_errors(files.deep_view(), ov.deep_view()));
            assert(warns.deep_view() =~= winit + override_warnings(files.deep_view(), ov.deep_view()));
        },
    }
}


/// Whether two sources are the same file of the same kind.
pub fn same_source(a: &ConfigSource, b: &ConfigSource) -> (r: bool)
    ensures
        r == (a@ == b@),
{
    a.kind == b.kind && a.path == b.path
}

/// The index of the last tunnel before `i` with local port `port`.
pub fn last_port_index(ts: &Vec<TunnelConfig>, i: usize, port: u16) -> (r: Option<usize>)
    requires
        i <= ts@.len(),
    ensures
        match r {
            Some(j) => j < i && last_port_before(ts.deep_view(), i as int, port) == Some(j as int),
            None => last_port_before(ts.deep_view(), i as int, port).is_none(),
        },
    decreases i,
{
    if i == 0 {
        None
    } else if ts[i - 1].local_port == port {
        Some(i - 1)
    } else {
        last_port_index(ts, i - 1, port)
    }
}

/// Adds the errors for local ports repeated within one file.
fn check_raw_ports(file: &LoadedConfigFile, errs: &mut Vec<ValidationError>)
    ensures
        final(errs).deep_view() == old(errs).deep_view() + raw_port_issues(
            file@.source,
            file@.tunnels,
            file@.tunnels.len() as int,
        ),
{
    let ghost init = errs.deep_view();
    let ghost ts = file@.tunnels;
    let mut n: usize = 0;
    while n < file.tunnels.len()
        invariant
            n <= file.tunnels@.len(),
            ts == file@.tunnels,
            errs.deep_view() == init + raw_port_issues(file@.source, ts, n as int),
        decreases file.tunnels@.len() - n,
    {
        let t = &file.tunnels[n];
        match last_port_index(&file.tunnels, n, t.local_port) {
            Some(j) => {
                let m = dup_port_message(t.local_port, &file.tunnels[j].name);
                push_error(errs, new_error(&file.source, &t.name, m));
            },
            None => {},
        }
        n += 1;
        assert(errs.deep_view() =~= init + raw_port_issues(file@.source, ts, n as int));
    }
}

/// Adds the errors for local ports repeated within a file, file by file.
fn check_raw_ports_in_files(files: &Vec<LoadedConfigFile>, errs: &mut Vec<ValidationError>)
    ensures
        final(errs).deep_view() == old(errs).deep_view() + raw_port_errors(files.deep_view()),
{
    let ghost init = errs.deep_view();
    let mut f: usize = 0;
    while f < files.len()
        invariant
            f <= files@.len(),
            errs.deep_view() == init + raw_port_errors(files.deep_view().subrange(0, f as int)),
        decreases files@.len() - f,
    {
        check_raw_ports(&files[f], errs);
        let ghost fv = files.deep_view();
        assert(fv.subrange(0, f + 1).drop_last() =~= fv.subrange(0, f as int));
        assert(fv.subrange(0, f + 1).last() == files@[f as int]@);
        f += 1;
        assert(errs.deep_view() =~= init + raw_port_errors(fv.subrange(0, f as int)));
    }
    assert(files.deep_view().subrange(0, f as int) =~= files.deep_view());
}

/// Whether a file with source `src` repeats local port `port`.
fn raw_duplicate_exists(files: &Vec<LoadedConfigFile>, src: &ConfigSource, port: u16) -> (r: bool)
    ensures
        r == raw_duplicate(files.deep_view(), src@, port),
{
    let ghost fv = files.deep_view();
    let mut f: usize = 0;
    while f < files.len()
        invariant
            f <= files@.len(),
            fv == files.deep_view(),
            forall|g: int, i: int|
                0 <= g < f && fv[g].source == src@ && 0 <= i < fv[g].tunnels.len()
                    && (#[trigger] fv[g].tunnels[i]).local_port == port ==> last_port_before(
                    fv[g].tunnels,
                    i,
                    port,
                ) is None,
        decreases files@.len() - f,
    {
        if same_source(&files[f].source, src) {
            let mut i: usize = 0;
            while i < files[f].tunnels.len()
                invariant
                    f < files@.len(),
                    fv == files.deep_view(),
                    fv[f as int].source == src@,
                    i <= fv[f as int].tunnels.len(),
                    forall|k: int|
                        0 <= k < i && (#[trigger] fv[f as int].tunnels[k]).local_port == port
                            ==> last_port_before(fv[f as int].tunnels, k, port) is None,
                decreases files@[f as int].tunnels@.len() - i,
            {
                if files[f].tunnels[i].local_port == port {
                    if last_port_index(&files[f].tunnels, i, port).is_some() {
                        assert(fv[f as int].tunnels[i as int].local_port == port);
                        return true;
                    }
                }
                i += 1;
            }
        }
        f += 1;
    }
    false
}

/// The index of the last merged tunnel before `k` from `src` with local port `port`.
fn last_resolved_index(rs: &Vec<ResolvedTunnelConfig>, k: usize, src: &ConfigSource, port: u16) -> (r: Option<usize>)
    requires
        k <= rs@.len(),
    ensures
        match r {
            Some(j) => j < k && last_resolved_before(rs.deep_view(), k as int, src@, port) == Some(j as int),
            None => last_resolved_before(rs.deep_view(), k as int, src@, port).is_none(),
        },
    decreases k,
{
    if k == 0 {
        None
    } else if same_source(&rs[k - 1].source, src) && rs[k - 1].tunnel.local_port == port {
        Some(k - 1)
    } else {
        last_resolved_index(rs, k - 1, src, port)
    }
}

/// The error for two merged tunnels of one source sharing a local port.
fn port_conflict_error(cur: &ResolvedTunnelConfig, prev: &ResolvedTunnelConfig) -> (r: ValidationError)
    ensures
        r@ == port_conflict_issue(cur@, prev@),
{
    match &cur.override_source {
        Some(os) => new_error(os, &cur.tunnel.name, dup_port_message(cur.tunnel.local_port, &prev.tunnel.name)),
        None => match &prev.override_source {
            Some(os) => new_error(os, &prev.tunnel.name, dup_port_message(prev.tunnel.local_port, &cur.tunnel.name)),
            None => new_error(&cur.source, &cur.tunnel.name, dup_port_message(cur.tunnel.local_port, &prev.tunnel.name)),
        },
    }
}

/// Adds the errors for local ports shared after merging.
fn check_merged_ports(files: &Vec<LoadedConfigFile>, rs: &Vec<ResolvedTunnelConfig>, errs: &mut Vec<ValidationError>)
    ensures
        final(errs).deep_view() == old(errs).deep_view() + merged_port_errors(
            files.deep_view(),
            rs.deep_view(),
            rs@.len() as int,
        ),
{
    let ghost init = errs.deep_view();
    let mut n: usize = 0;
    while n < rs.len()
        invariant
            n <= rs@.len(),
            errs.deep_view() == init + merged_port_errors(files.deep_view(), rs.deep_view(), n as int),
        decreases rs@.len() - n,
    {
        let cur = &rs[n];
        match last_resolved_index(rs, n, &cur.source, cur.tunnel.local_port) {
            Some(m) => {
                if !raw_duplicate_exists(files, &cur.source, cur.tunnel.local_port) {
                    push_error(errs, port_conflict_error(cur, &rs[m]));
                }
            },
            None => {},
        }
        n += 1;
        assert(errs.deep_view() =~= init + merged_port_errors(files.deep_view(), rs.deep_view(), n as int));
    }
}

/// Checks a configuration: the errors and warnings are those that
/// [`spec_validation_errors`] and [`spec_validation_warnings`] list, in that order.
pub fn validate_config(config: &EffectiveConfig) -> (r: ValidationReport)
    ensures
        r.errors.deep_view() == spec_validation_errors(config@),
        r.warnings.deep_view() == spec_validation_warnings(config@),
{
    let mut errs: Vec<ValidationError> = Vec::new();
    let mut warns: Vec<ValidationWarning> = Vec::new();
    let st = source_tunnels(config);
    check_duplicate_names_in_files(&config.sources, &mut errs);
    check_override_file(&config.sources, &config.local_override, &mut errs, &mut warns);
    let ghost e2 = errs.deep_view();
    run_required_check(&st, &mut errs);
    run_local_host_check(&st, &mut errs);
    run_tags_check(&st, &mut errs);
    run_ports_check(&st, &mut errs);
    let ghost w2 = warns.deep_view();
    run_privileged_check(&st, &mut warns);
    let ghost e6 = errs.deep_view();
    check_raw_ports_in_files(&config.sources, &mut errs);
    check_merged_ports(&config.sources, &config.configured_tunnels, &mut errs);
    proof {
        let ghost sv = spec_source_tunnels(config@);
        assert(e6 =~= e2 + (required_all(sv) + local_host_all(sv) + tags_all(sv) + ports_all(sv)));
        assert(errs.deep_view() =~= spec_validation_errors(config@));
        assert(warns.deep_view() =~= spec_validation_warnings(config@));
    }
    ValidationReport { errors: errs, warnings: warns }
}

// ---------------------------------------------------------------------
// Laws
// ---------------------------------------------------------------------

proof fn lemma_dup_issue_present(src: SourceModel, names: Seq<Seq<char>>, n: int, message: Seq<char>, i: int)
    requires
        0 <= i < n <= names.len(),
        first_of_name(names, i),
        repeated_later(names, i),
    ensures
        dup_name_issues(src, names, n, message).contains(
            IssueModel { source: src, tunnel_name: Some(names[i]), message },
        ),
    decreases n,
{
    let issue = IssueModel { source: src, tunnel_name: Some(names[i]), message };
    let prev = dup_name_issues(src, names, n - 1, message);
    let tail = when(first_of_name(names, n - 1) && repeated_later(names, n - 1), IssueModel {
        source: src,
        tunnel_name: Some(names[n - 1]),
        message,
    });
    assert(dup_name_issues(src, names, n, message) == prev + tail);
    if i == n - 1 {
        assert((prev + tail)[prev.len() as int] == issue);
    } else {
        lemma_dup_issue_present(src, names, n - 1, message, i);
        let k = choose|k: int| 0 <= k < prev.len() && prev[k] == issue;
        assert((prev + tail)[k] == issue);
    }
}

proof fn lemma_first_occurrence(names: Seq<Seq<char>>, a: int)
    requires
        0 <= a < names.len(),
    ensures
        exists|i: int| 0 <= i <= a && names[i] == names[a] && #[trigger] first_of_name(names, i),
    decreases a,
{
    if first_of_name(names, a) {
        assert(first_of_name(names, a));
    } else {
        let j = choose|j: int| 0 <= j < a && names[j] != names[a] == false;
        lemma_first_occurrence(names, j);
        let i = choose|i: int| 0 <= i <= j && names[i] == names[j] && #[trigger] first_of_name(names, i);
        assert(first_of_name(names, i));
    }
}

proof fn lemma_file_dup_in_errors(files: Seq<LoadedFileModel>, f: int, issue: IssueModel)
    requires
        0 <= f < files.len(),
        dup_name_issues(
            files[f].source,
            tunnel_names(files[f].tunnels),
            files[f].tunnels.len() as int,
            "Duplicate name in the same configuration file"@,
        ).contains(issue),
    ensures
        duplicate_name_errors(files).contains(issue),
    decreases files.len(),
{
    let prev = duplicate_name_errors(files.drop_last());
    let last = dup_name_issues(
        files.last().source,
        tunnel_names(files.last().tunnels),
        files.last().tunnels.len() as int,
        "Duplicate name in the same configuration file"@,
    );
    assert(duplicate_name_errors(files) == prev + last);
    if f == files.len() - 1 {
        let k = choose|k: int| 0 <= k < last.len() && last[k] == issue;
        assert((prev + last)[prev.len() + k] == issue);
    } else {
        assert(files.drop_last()[f] == files[f]);
        lemma_file_dup_in_errors(files.drop_last(), f, issue);
        let k = choose|k: int| 0 <= k < prev.len() && prev[k] == issue;
        assert((prev + last)[k] == issue);
    }
}

/// A name used by two tunnels of the same configuration file is an error
/// of validation, reported against that file under that name.
pub proof fn lemma_duplicate_name_in_file_is_error(c: EffectiveModel, f: int, a: int, b: int)
    requires
        0 <= f < c.sources.len(),
        0 <= a < b < c.sources[f].tunnels.len(),
        c.sources[f].tunnels[a].name == c.sources[f].tunnels[b].name,
    ensures
        spec_validation_errors(c).contains(
            IssueModel {
                source: c.sources[f].source,
                tunnel_name: Some(c.sources[f].tunnels[a].name),
                message: "Duplicate name in the same configuration file"@,
            },
        ),
{
    let file = c.sources[f];
    let names = tunnel_names(file.tunnels);
    lemma_first_occurrence(names, a);
    let i = choose|i: int| 0 <= i <= a && names[i] == names[a] && #[trigger] first_of_name(names, i);
    assert(names[b] == names[i]);
    assert(repeated_later(names, i));
    let message = "Duplicate name in the same configuration file"@;
    lemma_dup_issue_present(file.source, names, file.tunnels.len() as int, message, i);
    let issue = IssueModel { source: file.source, tunnel_name: Some(names[i]), message };
    lemma_file_dup_in_errors(c.sources, f, issue);
    let dups = duplicate_name_errors(c.sources);
    let st = spec_source_tunnels(c);
    let k = choose|k: int| 0 <= k < dups.len() && dups[k] == issue;
    let s1 = dups + override_errors(c.sources, c.local_override);
    assert(s1[k] == issue);
    let s2 = s1 + required_all(st);
    assert(s2[k] == issue);
    let s3 = s2 + local_host_all(st);
    assert(s3[k] == issue);
    let s4 = s3 + tags_all(st);
    assert(s4[k] == issue);
    let s5 = s4 + ports_all(st);
    assert(s5[k] == issue);
    let s6 = s5 + raw_port_errors(c.sources);
    assert(s6[k] == issue);
    let s7 = s6 + merged_port_errors(c.sources, c.configured_tunnels, c.configured_tunnels.len() as int);
    assert(s7[k] == issue);
    assert(spec_validation_errors(c) == s7);
}

proof fn lemma_last_port_before_found(ts: Seq<TunnelModel>, i: int, port: u16, a: int)
    requires
        0 <= a < i <= ts.len(),
        ts[a].local_port == port,
    ensures
        last_port_before(ts, i, port) matches Some(j) && a <= j < i && ts[j].local_port == port,
    decreases i,
{
    if ts[i - 1].local_port != port {
        lemma_last_port_before_found(ts, i - 1, port, a);
    }
}

proof fn lemma_raw_port_issue_present(src: SourceModel, ts: Seq<TunnelModel>, n: int, b: int, j: int)
    requires
        0 <= b < n <= ts.len(),
        last_port_before(ts, b, ts[b].local_port) == Some(j),
    ensures
        raw_port_issues(src, ts, n).contains(issue(src, ts[b].name, msg_dup_port(ts[b].local_port, ts[j].name))),
    decreases n,
{
    let want = issue(src, ts[b].name, msg_dup_port(ts[b].local_port, ts[j].name));
    let prev = raw_port_issues(src, ts, n - 1);
    if b == n - 1 {
        assert(raw_port_issues(src, ts, n) == prev + seq![want]);
        assert((prev + seq![want])[prev.len() as int] == want);
    } else {
        lemma_raw_port_issue_present(src, ts, n - 1, b, j);
        let k = choose|k: int| 0 <= k < prev.len() && prev[k] == want;
        let tail = match last_port_before(ts, n - 1, ts[n - 1].local_port) {
            Some(j2) => seq![issue(src, ts[n - 1].name, msg_dup_port(ts[n - 1].local_port, ts[j2].name))],
            None => seq![],
        };
        assert(raw_port_issues(src, ts, n) == prev + tail);
        assert((prev + tail)[k] == want);
    }
}

proof fn lemma_raw_port_in_errors(files: Seq<LoadedFileModel>, f: int, x: IssueModel)
    requires
        0 <= f < files.len(),
        raw_port_issues(files[f].source, files[f].tunnels, files[f].tunnels.len() as int).contains(x),
    ensures
        raw_port_errors(files).contains(x),
    decreases files.len(),
{
    let prev = raw_port_errors(files.drop_last());
    let last = raw_port_issues(files.last().source, files.last().tunnels, files.last().tunnels.len() as int);
    assert(raw_port_errors(files) == prev + last);
    if f == files.len() - 1 {
        let k = choose|k: int| 0 <= k < last.len() && last[k] == x;
        assert((prev + last)[prev.len() + k] == x);
    } else {
        assert(files.drop_last()[f] == files[f]);
        lemma_raw_port_in_errors(files.drop_last(), f, x);
        let k = choose|k: int| 0 <= k < prev.len() && prev[k] == x;
        assert((prev + last)[k] == x);
    }
}

/// A local port used by two tunnels of the same configuration file is an
/// error of validation, reported against the later tunnel and naming an
/// earlier one with that port (the nearest).
pub proof fn lemma_duplicate_port_in_file_is_error(c: EffectiveModel, f: int, a: int, b: int)
    requires
        0 <= f < c.sources.len(),
        0 <= a < b < c.sources[f].tunnels.len(),
        c.sources[f].tunnels[a].local_port == c.sources[f].tunnels[b].local_port,
    ensures
        exists|j: int|
            a <= j < b && #[trigger] c.sources[f].tunnels[j].local_port == c.sources[f].tunnels[b].local_port
                && spec_validation_errors(c).contains(
                issue(
                    c.sources[f].source,
                    c.sources[f].tunnels[b].name,
                    msg_dup_port(c.sources[f].tunnels[b].local_port, c.sources[f].tunnels[j].name),
                ),
            ),
{
    let file = c.sources[f];
    let ts = file.tunnels;
    let port = ts[b].local_port;
    lemma_last_port_before_found(ts, b, port, a);
    let j = last_port_before(ts, b, port)->Some_0;
    lemma_raw_port_issue_present(file.source, ts, ts.len() as int, b, j);
    let x = issue(file.source, ts[b].name, msg_dup_port(port, ts[j].name));
    lemma_raw_port_in_errors(c.sources, f, x);
    let raw = raw_port_errors(c.sources);
    let k = choose|k: int| 0 <= k < raw.len() && raw[k] == x;
    let st = spec_source_tunnels(c);
    let pre = duplicate_name_errors(c.sources) + override_errors(c.sources, c.local_override) + required_all(st)
        + local_host_all(st) + tags_all(st) + ports_all(st);
    let s6 = pre + raw;
    assert(s6[pre.len() + k] == x);
    let s7 = s6 + merged_port_errors(c.sources, c.configured_tunnels, c.configured_tunnels.len() as int);
    assert(s7[pre.len() + k] == x);
    assert(spec_validation_errors(c) == s7);
    assert(spec_validation_errors(c).contains(x));
}

/// Every privileged local port among the pairs has its warning.
proof fn lemma_privileged_all_warns(st: Seq<(SourceModel, TunnelModel)>, k: int)
    requires
        0 <= k < st.len(),
        is_privileged(st[k].1.local_port),
    ensures
        privileged_all(st).contains(
            issue(st[k].0, st[k].1.name, "local_port below 1024 may require elevated privileges"@),
        ),
    decreases st.len(),
{
    let w = issue(st[k].0, st[k].1.name, "local_port below 1024 may require elevated privileges"@);
    let prev = privileged_all(st.drop_last());
    let last = privileged_warnings(st.last().0, st.last().1.name, st.last().1.local_port);
    if k == st.len() - 1 {
        assert(last == seq![w]);
        assert((prev + last)[prev.len() as int] == w);
    } else {
        lemma_privileged_all_warns(st.drop_last(), k);
        let j = choose|j: int| 0 <= j < prev.len() && prev[j] == w;
        assert((prev + last)[j] == w);
    }
}

/// `validate` warns about every tunnel whose local port is below 1024
/// (and above 0): binding it may need elevated privileges.
pub proof fn lemma_privileged_port_warns(c: EffectiveModel, k: int)
    requires
        0 <= k < spec_source_tunnels(c).len(),
        is_privileged(spec_source_tunnels(c)[k].1.local_port),
    ensures
        spec_validation_warnings(c).contains(
            issue(
                spec_source_tunnels(c)[k].0,
                spec_source_tunnels(c)[k].1.name,
                "local_port below 1024 may require elevated privileges"@,
            ),
        ),
{
    let st = spec_source_tunnels(c);
    let w = issue(st[k].0, st[k].1.name, "local_port below 1024 may require elevated privileges"@);
    lemma_privileged_all_warns(st, k);
    let ow = override_warnings(c.sources, c.local_override);
    let j = choose|j: int| 0 <= j < privileged_all(st).len() && privileged_all(st)[j] == w;
    assert((ow + privileged_all(st))[ow.len() + j] == w);
}

proof fn lemma_file_pairs_hold(files: Seq<LoadedFileModel>, f: int, k: int)
    requires
        0 <= f < files.len(),
        0 <= k < files[f].tunnels.len(),
    ensures
        file_pairs(files).contains((files[f].source, files[f].tunnels[k])),
    decreases files.len(),
{
    let init = files.drop_last();
    let prev = file_pairs(init);
    let last = files.last().tunnels.map_values(|t: TunnelModel| (files.last().source, t));
    if f == files.len() - 1 {
        assert((prev + last)[prev.len() + k] == last[k]);
    } else {
        assert(init[f] == files[f]);
        lemma_file_pairs_hold(init, f, k);
        let j = choose|j: int| 0 <= j < prev.len() && prev[j] == (files[f].source, files[f].tunnels[k]);
        assert((prev + last)[j] == prev[j]);
    }
}

proof fn lemma_required_all_holds(st: Seq<(SourceModel, TunnelModel)>, k: int)
    requires
        0 <= k < st.len(),
    ensures
        required_errors(st[k].0, st[k].1).len() > 0 ==> forall|x: int|
            0 <= x < required_errors(st[k].0, st[k].1).len() ==> required_all(st).contains(
                #[trigger] required_errors(st[k].0, st[k].1)[x],
            ),
    decreases st.len(),
{
    let prev = required_all(st.drop_last());
    let last = required_errors(st.last().0, st.last().1);
    if k == st.len() - 1 {
        assert forall|x: int| 0 <= x < last.len() implies required_all(st).contains(#[trigger] last[x]) by {
            assert((prev + last)[prev.len() + x] == last[x]);
        }
    } else {
        assert(st.drop_last()[k] == st[k]);
        lemma_required_all_holds(st.drop_last(), k);
        let e = required_errors(st[k].0, st[k].1);
        assert forall|x: int| 0 <= x < e.len() implies required_all(st).contains(#[trigger] e[x]) by {
            assert(prev.contains(e[x]));
            let j = choose|j: int| 0 <= j < prev.len() && prev[j] == e[x];
            assert((prev + last)[j] == prev[j]);
        }
    }
}

/// `validate` refuses every tunnel of a loaded file whose required text
/// settings are blank (empty or whitespace only): each blank `name`,
/// `remote_host`, `ssh_user` and `ssh_host` is an error of the
/// configuration, "<field> cannot be empty", for that tunnel and file.
pub proof fn lemma_blank_required_fields_are_errors(c: EffectiveModel, f: int, k: int)
    requires
        0 <= f < c.sources.len(),
        0 <= k < c.sources[f].tunnels.len(),
    ensures
        ({
            let src = c.sources[f].source;
            let t = c.sources[f].tunnels[k];
            let errs = spec_validation_errors(c);
            &&& trim(t.name).len() == 0 ==> errs.contains(
                IssueModel { source: src, tunnel_name: Some(t.name), message: "name cannot be empty"@ },
            )
            &&& trim(t.remote_host).len() == 0 ==> errs.contains(
                IssueModel { source: src, tunnel_name: Some(t.name), message: "remote_host cannot be empty"@ },
            )
            &&& trim(t.ssh_user).len() == 0 ==> errs.contains(
                IssueModel { source: src, tunnel_name: Some(t.name), message: "ssh_user cannot be empty"@ },
            )
            &&& trim(t.ssh_host).len() == 0 ==> errs.contains(
                IssueModel { source: src, tunnel_name: Some(t.name), message: "ssh_host cannot be empty"@ },
            )
        }),
{
    let src = c.sources[f].source;
    let t = c.sources[f].tunnels[k];
    let st = spec_source_tunnels(c);
    lemma_file_pairs_hold(c.sources, f, k);
    let m = choose|m: int| 0 <= m < st.len() && st[m] == (src, t);
    lemma_required_all_holds(st, m);
    assert(msg_empty("name"@) =~= "name cannot be empty"@) by {
        reveal_strlit("name");
        reveal_strlit(" cannot be empty");
        reveal_strlit("name cannot be empty");
    }
    assert(msg_empty("remote_host"@) =~= "remote_host cannot be empty"@) by {
        reveal_strlit("remote_host");
        reveal_strlit(" cannot be empty");
        reveal_strlit("remote_host cannot be empty");
    }
    assert(msg_empty("ssh_user"@) =~= "ssh_user cannot be empty"@) by {
        reveal_strlit("ssh_user");
        reveal_strlit(" cannot be empty");
        reveal_strlit("ssh_user cannot be empty");
    }
    assert(msg_empty("ssh_host"@) =~= "ssh_host cannot be empty"@) by {
        reveal_strlit("ssh_host");
        reveal_strlit(" cannot be empty");
        reveal_strlit("ssh_host cannot be empty");
    }
    let e = required_errors(src, t);
    let a = when(trim(t.name).len() == 0, issue(src, t.name, msg_empty("name"@)));
    let b = when(trim(t.remote_host).len() == 0, issue(src, t.name, msg_empty("remote_host"@)));
    let u = when(trim(t.ssh_user).len() == 0, issue(src, t.name, msg_empty("ssh_user"@)));
    let h = when(trim(t.ssh_host).len() == 0, issue(src, t.name, msg_empty("ssh_host"@)));
    assert(e == a + b + u + h);
    let head = duplicate_name_errors(c.sources) + override_errors(c.sources, c.local_override);
    let req = required_all(st);
    let tail = local_host_all(st) + tags_all(st) + ports_all(st) + raw_port_errors(c.sources)
        + merged_port_errors(c.sources, c.configured_tunnels, c.configured_tunnels.len() as int);
    assert(spec_validation_errors(c) =~= head + req + tail);
    assert forall|x: IssueModel| req.contains(x) implies spec_validation_errors(c).contains(x) by {
        let j = choose|j: int| 0 <= j < req.len() && req[j] == x;
        assert((head + req + tail)[head.len() + j] == x);
    }
    if trim(t.name).len() == 0 {
        assert(e[0] == issue(src, t.name, msg_empty("name"@)));
        assert(st[m].0 == src && st[m].1 == t);
        assert(req.contains(required_errors(st[m].0, st[m].1)[0]));
        assert(spec_validation_errors(c).contains(issue(src, t.name, msg_empty("name"@))));
    }
    if trim(t.remote_host).len() == 0 {
        assert(e[a.len() as int] == issue(src, t.name, msg_empty("remote_host"@)));
        assert(st[m].0 == src && st[m].1 == t);
        assert(req.contains(required_errors(st[m].0, st[m].1)[a.len() as int]));
        assert(spec_validation_errors(c).contains(issue(src, t.name, msg_empty("remote_host"@))));
    }
    if trim(t.ssh_user).len() == 0 {
        assert(e[(a.len() + b.len()) as int] == issue(src, t.name, msg_empty("ssh_user"@)));
        assert(st[m].0 == src && st[m].1 == t);
        assert(req.contains(required_errors(st[m].0, st[m].1)[(a.len() + b.len()) as int]));
        assert(spec_validation_errors(c).contains(issue(src, t.name, msg_empty("ssh_user"@))));
    }
    if trim(t.ssh_host).len() == 0 {
        assert(e[(a.len() + b.len() + u.len()) as int] == issue(src, t.name, msg_empty("ssh_host"@)));
        assert(st[m].0 == src && st[m].1 == t);
        assert(req.contains(required_errors(st[m].0, st[m].1)[(a.len() + b.len() + u.len()) as int]));
        assert(spec_validation_errors(c).contains(issue(src, t.name, msg_empty("ssh_host"@))));
    }
}

proof fn lemma_ports_all_holds(st: Seq<(SourceModel, TunnelModel)>, k: int)
    requires
        0 <= k < st.len(),
    ensures
        forall|x: int|
            0 <= x < port_errors(st[k].0, st[k].1).len() ==> ports_all(st).contains(
                #[trigger] port_errors(st[k].0, st[k].1)[x],
            ),
    decreases st.len(),
{
    let prev = ports_all(st.drop_last());
    let last = port_errors(st.last().0, st.last().1);
    if k == st.len() - 1 {
        assert forall|x: int| 0 <= x < last.len() implies ports_all(st).contains(#[trigger] last[x]) by {
            assert((prev + last)[prev.len() + x] == last[x]);
        }
    } else {
        assert(st.drop_last()[k] == st[k]);
        lemma_ports_all_holds(st.drop_last(), k);
        let e = port_errors(st[k].0, st[k].1);
        assert forall|x: int| 0 <= x < e.len() implies ports_all(st).contains(#[trigger] e[x]) by {
            assert(prev.contains(e[x]));
            let j = choose|j: int| 0 <= j < prev.len() && prev[j] == e[x];
            assert((prev + last)[j] == prev[j]);
        }
    }
}

/// `validate` refuses every tunnel of a loaded file with a port of 0: a
/// local or remote port of 0 is an error of the configuration, "<field>
/// must be greater than or equal to 1", for that tunnel and file.
pub proof fn lemma_zero_ports_are_errors(c: EffectiveModel, f: int, k: int)
    requires
        0 <= f < c.sources.len(),
        0 <= k < c.sources[f].tunnels.len(),
    ensures
        ({
            let src = c.sources[f].source;
            let t = c.sources[f].tunnels[k];
            let errs = spec_validation_errors(c);
            &&& t.local_port == 0 ==> errs.contains(
                IssueModel {
                    source: src,
                    tunnel_name: Some(t.name),
                    message: "local_port must be greater than or equal to 1"@,
                },
            )
            &&& t.remote_port == 0 ==> errs.contains(
                IssueModel {
                    source: src,
                    tunnel_name: Some(t.name),
                    message: "remote_port must be greater than or equal to 1"@,
                },
            )
        }),
{
    let src = c.sources[f].source;
    let t = c.sources[f].tunnels[k];
    let st = spec_source_tunnels(c);
    lemma_file_pairs_hold(c.sources, f, k);
    let m = choose|m: int| 0 <= m < st.len() && st[m] == (src, t);
    lemma_ports_all_holds(st, m);
    assert(msg_port_zero("local_port"@) =~= "local_port must be greater than or equal to 1"@) by {
        reveal_strlit("local_port");
        reveal_strlit(" must be greater than or equal to 1");
        reveal_strlit("local_port must be greater than or equal to 1");
    }
    assert(msg_port_zero("remote_port"@) =~= "remote_port must be greater than or equal to 1"@) by {
        reveal_strlit("remote_port");
        reveal_strlit(" must be greater than or equal to 1");
        reveal_strlit("remote_port must be greater than or equal to 1");
    }
    let e = port_errors(src, t);
    let a = when(t.local_port == 0, issue(src, t.name, msg_port_zero("local_port"@)));
    let b = when(t.remote_port == 0, issue(src, t.name, msg_port_zero("remote_port"@)));
    assert(e == a + b);
    let head = duplicate_name_errors(c.sources) + override_errors(c.sources, c.local_override) + required_all(st)
        + local_host_all(st) + tags_all(st);
    let ports = ports_all(st);
    let tail = raw_port_errors(c.sources) + merged_port_errors(
        c.sources,
        c.configured_tunnels,
        c.configured_tunnels.len() as int,
    );
    assert(spec_validation_errors(c) =~= head + ports + tail);
    assert forall|x: IssueModel| ports.contains(x) implies spec_validation_errors(c).contains(x) by {
        let j = choose|j: int| 0 <= j < ports.len() && ports[j] == x;
        assert((head + ports + tail)[head.len() + j] == x);
    }
    assert(st[m].0 == src && st[m].1 == t);
    if t.local_port == 0 {
        assert(e[0] == issue(src, t.name, msg_port_zero("local_port"@)));
        assert(ports.contains(port_errors(st[m].0, st[m].1)[0]));
    }
    if t.remote_port == 0 {
        assert(e[a.len() as int] == issue(src, t.name, msg_port_zero("remote_port"@)));
        assert(ports.contains(port_errors(st[m].0, st[m].1)[a.len() as int]));
    }
}

/// No name repeats among the first `n` names: no issue.
proof fn lemma_dup_name_issues_empty(src: SourceModel, names: Seq<Seq<char>>, n: int, message: Seq<char>)
    requires
        n <= names.len(),
        forall|i: int, j: int| 0 <= i < j < names.len() ==> names[i] != names[j],
    ensures
        dup_name_issues(src, names, n, message) == Seq::<IssueModel>::empty(),
    decreases n,
{
    if n > 0 {
        lemma_dup_name_issues_empty(src, names, n - 1, message);
        assert(!repeated_later(names, n - 1));
        assert(dup_name_issues(src, names, n, message) =~= Seq::<IssueModel>::empty());
    }
}

/// No local port repeats among the first `i` tunnels: none is found
/// before `i`.
proof fn lemma_no_port_before(ts: Seq<TunnelModel>, i: int)
    requires
        0 <= i < ts.len(),
        forall|a: int, b: int| 0 <= a < b < ts.len() ==> ts[a].local_port != ts[b].local_port,
    ensures
        last_port_before(ts, i, ts[i].local_port) is None,
{
    lemma_no_port_before_upto(ts, i, i);
}

/// Helper of [`lemma_no_port_before`], by induction on `m`.
proof fn lemma_no_port_before_upto(ts: Seq<TunnelModel>, i: int, m: int)
    requires
        0 <= m <= i < ts.len(),
        forall|a: int, b: int| 0 <= a < b < ts.len() ==> ts[a].local_port != ts[b].local_port,
    ensures
        last_port_before(ts, m, ts[i].local_port) is None,
    decreases m,
{
    if m > 0 {
        lemma_no_port_before_upto(ts, i, m - 1);
    }
}

/// No local port repeats in a file: no issue.
proof fn lemma_raw_port_issues_empty(src: SourceModel, ts: Seq<TunnelModel>, n: int)
    requires
        n <= ts.len(),
        forall|a: int, b: int| 0 <= a < b < ts.len() ==> ts[a].local_port != ts[b].local_port,
    ensures
        raw_port_issues(src, ts, n) == Seq::<IssueModel>::empty(),
    decreases n,
{
    if n > 0 {
        lemma_raw_port_issues_empty(src, ts, n - 1);
        lemma_no_port_before(ts, n - 1);
        assert(raw_port_issues(src, ts, n) =~= Seq::<IssueModel>::empty());
    }
}

/// Whether no file repeats a name or a local port.
pub open spec fn unique_within_files(files: Seq<LoadedFileModel>) -> bool {
    forall|f: int, i: int, j: int|
        0 <= f < files.len() && 0 <= i < j < files[f].tunnels.len() ==> (#[trigger] files[f].tunnels[i]).name
            != (#[trigger] files[f].tunnels[j]).name && files[f].tunnels[i].local_port != files[f].tunnels[j].local_port
}

/// A name or a local port may be shared between the global and the local
/// file: when no file repeats a name or a local port, validation reports
/// no name or port repeated within a file.
pub proof fn lemma_sharing_across_files_is_allowed(files: Seq<LoadedFileModel>)
    requires
        unique_within_files(files),
    ensures
        duplicate_name_errors(files) == Seq::<IssueModel>::empty(),
        raw_port_errors(files) == Seq::<IssueModel>::empty(),
    decreases files.len(),
{
    if files.len() > 0 {
        let init = files.drop_last();
        assert forall|f: int, i: int, j: int|
            0 <= f < init.len() && 0 <= i < j < init[f].tunnels.len() implies (#[trigger] init[f].tunnels[i]).name
            != (#[trigger] init[f].tunnels[j]).name && init[f].tunnels[i].local_port != init[f].tunnels[j].local_port by {
            assert(init[f] == files[f]);
        }
        lemma_sharing_across_files_is_allowed(init);
        let last = files.last();
        let f = files.len() - 1;
        assert(files[f] == last);
        let names = tunnel_names(last.tunnels);
        assert forall|i: int, j: int| 0 <= i < j < names.len() implies names[i] != names[j] by {
            assert(files[f].tunnels[i].name != files[f].tunnels[j].name);
        }
        lemma_dup_name_issues_empty(
            last.source,
            names,
            last.tunnels.len() as int,
            "Duplicate name in the same configuration file"@,
        );
        assert forall|a: int, b: int| 0 <= a < b < last.tunnels.len() implies last.tunnels[a].local_port
            != last.tunnels[b].local_port by {
            assert(files[f].tunnels[a].name != files[f].tunnels[b].name);
        }
        lemma_raw_port_issues_empty(last.source, last.tunnels, last.tunnels.len() as int);
        assert(duplicate_name_errors(files) =~= Seq::<IssueModel>::empty());
        assert(raw_port_errors(files) =~= Seq::<IssueModel>::empty());
    }
}

} // verus!
