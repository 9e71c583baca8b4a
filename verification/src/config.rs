//! Tunnel definitions, the files that hold them, and how the files are
//! merged into the effective configuration.

use vstd::prelude::*;

use crate::strings::{clone_opt_string, clone_strings};

verus! {

/// The local bind address used when a tunnel does not name one.
pub const DEFAULT_LOCAL_HOST: &'static str = "127.0.0.1";

/// `ConnectTimeout` used when no file sets one.
pub const DEFAULT_CONNECT_TIMEOUT_SECONDS: u32 = 15;

/// `ServerAliveInterval` used when no file sets one.
pub const DEFAULT_SERVER_ALIVE_INTERVAL_SECONDS: u32 = 30;

/// `ServerAliveCountMax` used when no file sets one.
pub const DEFAULT_SERVER_ALIVE_COUNT_MAX: u32 = 3;

/// Start grace period used when no file sets one.
pub const DEFAULT_START_GRACE_MILLISECONDS: u64 = 300;

/// Which configuration file a tunnel comes from.
#[derive(Debug, Clone, Copy, PartialEq, Eq, Hash, Structural)]
pub enum ConfigSourceKind {
    Global,
    Local,
}

/// The display label of a source kind.
pub open spec fn kind_label(kind: ConfigSourceKind) -> Seq<char> {
    match kind {
        ConfigSourceKind::Global => "global"@,
        ConfigSourceKind::Local => "local"@,
    }
}

impl ConfigSourceKind {
    /// The display label: `global` or `local`.
    pub fn label(&self) -> (r: String)
        ensures
            r@ == kind_label(*self),
    {
        match self {
            ConfigSourceKind::Global => String::from_str("global"),
            ConfigSourceKind::Local => String::from_str("local"),
        }
    }
}

/// Where a configuration file is and which kind it is.
#[derive(Debug, PartialEq, Eq, Hash)]
pub struct ConfigSource {
    pub kind: ConfigSourceKind,
    pub path: String,
}

/// The mathematical value of a [`ConfigSource`].
pub ghost struct SourceModel {
    pub kind: ConfigSourceKind,
    pub path: Seq<char>,
}

impl View for ConfigSource {
    type V = SourceModel;

    open spec fn view(&self) -> SourceModel {
        SourceModel { kind: self.kind, path: self.path@ }
    }
}

impl DeepView for ConfigSource {
    type V = SourceModel;

    open spec fn deep_view(&self) -> SourceModel {
        self@
    }
}

impl Clone for ConfigSource {
    fn clone(&self) -> (r: Self)
        ensures
            r@ == self@,
    {
        ConfigSource { kind: self.kind, path: self.path.clone() }
    }
}

impl ConfigSource {
    /// A source of the given kind at the given path.
    pub fn new(kind: ConfigSourceKind, path: String) -> (r: Self)
        ensures
            r.kind == kind,
            r.path == path,
    {
        ConfigSource { kind, path }
    }
}

/// Timeout settings as written in a file; each may be absent.
#[derive(Debug, Clone, Copy, PartialEq, Eq, Structural)]
pub struct TimeoutConfig {
    pub connect_timeout_seconds: Option<u32>,
    pub server_alive_interval_seconds: Option<u32>,
    pub server_alive_count_max: Option<u32>,
    pub start_grace_milliseconds: Option<u64>,
}

/// The timeout settings that are all absent.
pub open spec fn empty_timeouts() -> TimeoutConfig {
    TimeoutConfig {
        connect_timeout_seconds: None,
        server_alive_interval_seconds: None,
        server_alive_count_max: None,
        start_grace_milliseconds: None,
    }
}

/// `high`'s settings where present, `low`'s elsewhere.
pub open spec fn spec_apply_overrides(low: TimeoutConfig, high: TimeoutConfig) -> TimeoutConfig {
    TimeoutConfig {
        connect_timeout_seconds: or_else(high.connect_timeout_seconds, low.connect_timeout_seconds),
        server_alive_interval_seconds: or_else(
            high.server_alive_interval_seconds,
            low.server_alive_interval_seconds,
        ),
        server_alive_count_max: or_else(high.server_alive_count_max, low.server_alive_count_max),
        start_grace_milliseconds: or_else(
            high.start_grace_milliseconds,
            low.start_grace_milliseconds,
        ),
    }
}

/// `a` when present, else `b`.
pub open spec fn or_else<T>(a: Option<T>, b: Option<T>) -> Option<T> {
    match a {
        Some(x) => Some(x),
        None => b,
    }
}

/// The value inside `a`, or `d` when absent.
pub open spec fn unwrap_or<T>(a: Option<T>, d: T) -> T {
    match a {
        Some(x) => x,
        None => d,
    }
}

/// `t`'s settings where present, `base`'s elsewhere.
pub open spec fn spec_resolve_with_base(t: TimeoutConfig, base: ResolvedTimeoutConfig) -> ResolvedTimeoutConfig {
    ResolvedTimeoutConfig {
        connect_timeout_seconds: unwrap_or(t.connect_timeout_seconds, base.connect_timeout_seconds),
        server_alive_interval_seconds: unwrap_or(
            t.server_alive_interval_seconds,
            base.server_alive_interval_seconds,
        ),
        server_alive_count_max: unwrap_or(t.server_alive_count_max, base.server_alive_count_max),
        start_grace_milliseconds: unwrap_or(
            t.start_grace_milliseconds,
            base.start_grace_milliseconds,
        ),
    }
}

/// The built-in timeout values.
pub open spec fn default_resolved_timeouts() -> ResolvedTimeoutConfig {
    ResolvedTimeoutConfig {
        connect_timeout_seconds: DEFAULT_CONNECT_TIMEOUT_SECONDS,
        server_alive_interval_seconds: DEFAULT_SERVER_ALIVE_INTERVAL_SECONDS,
        server_alive_count_max: DEFAULT_SERVER_ALIVE_COUNT_MAX,
        start_grace_milliseconds: DEFAULT_START_GRACE_MILLISECONDS,
    }
}

impl Default for TimeoutConfig {
    fn default() -> (r: Self)
        ensures
            r == empty_timeouts(),
    {
        TimeoutConfig {
            connect_timeout_seconds: None,
            server_alive_interval_seconds: None,
            server_alive_count_max: None,
            start_grace_milliseconds: None,
        }
    }
}

impl TimeoutConfig {
    /// Whether no setting is present (the table can be left out of a file).
    pub fn is_empty(&self) -> (r: bool)
        ensures
            r == (*self == empty_timeouts()),
    {
        self.connect_timeout_seconds.is_none() && self.server_alive_interval_seconds.is_none()
            && self.server_alive_count_max.is_none() && self.start_grace_milliseconds.is_none()
    }

    /// These settings, each replaced by the one in `overrides` where that is present.
    pub fn apply_overrides(&self, overrides: &Self) -> (r: Self)
        ensures
            r == spec_apply_overrides(*self, *overrides),
    {
        TimeoutConfig {
            connect_timeout_seconds: match overrides.connect_timeout_seconds {
                Some(v) => Some(v),
                None => self.connect_timeout_seconds,
            },
            server_alive_interval_seconds: match overrides.server_alive_interval_seconds {
                Some(v) => Some(v),
                None => self.server_alive_interval_seconds,
            },
            server_alive_count_max: match overrides.server_alive_count_max {
                Some(v) => Some(v),
                None => self.server_alive_count_max,
            },
            start_grace_milliseconds: match overrides.start_grace_milliseconds {
                Some(v) => Some(v),
                None => self.start_grace_milliseconds,
            },
        }
    }

    /// These settings with the built-in values filling the gaps.
    pub fn resolve_with_defaults(&self) -> (r: ResolvedTimeoutConfig)
        ensures
            r == spec_resolve_with_base(*self, default_resolved_timeouts()),
    {
        self.resolve_with_base(ResolvedTimeoutConfig::default())
    }

    /// These settings with `base` filling the gaps.
    pub fn resolve_with_base(&self, base: ResolvedTimeoutConfig) -> (r: ResolvedTimeoutConfig)
        ensures
            r == spec_resolve_with_base(*self, base),
    {
        ResolvedTimeoutConfig {
            connect_timeout_seconds: match self.connect_timeout_seconds {
                Some(v) => v,
                None => base.connect_timeout_seconds,
            },
            server_alive_interval_seconds: match self.server_alive_interval_seconds {
                Some(v) => v,
                None => base.server_alive_interval_seconds,
            },
            server_alive_count_max: match self.server_alive_count_max {
                Some(v) => v,
                None => base.server_alive_count_max,
            },
            start_grace_milliseconds: match self.start_grace_milliseconds {
                Some(v) => v,
                None => base.start_grace_milliseconds,
            },
        }
    }
}

/// Timeout settings used at run time; every value is present.
#[derive(Debug, Clone, Copy, PartialEq, Eq, Structural)]
pub struct ResolvedTimeoutConfig {
    pub connect_timeout_seconds: u32,
    pub server_alive_interval_seconds: u32,
    pub server_alive_count_max: u32,
    pub start_grace_milliseconds: u64,
}

impl Default for ResolvedTimeoutConfig {
    fn default() -> (r: Self)
        ensures
            r == default_resolved_timeouts(),
    {
        ResolvedTimeoutConfig {
            connect_timeout_seconds: DEFAULT_CONNECT_TIMEOUT_SECONDS,
            server_alive_interval_seconds: DEFAULT_SERVER_ALIVE_INTERVAL_SECONDS,
            server_alive_count_max: DEFAULT_SERVER_ALIVE_COUNT_MAX,
            start_grace_milliseconds: DEFAULT_START_GRACE_MILLISECONDS,
        }
    }
}


/// One tunnel as written in a configuration file.
#[derive(Debug, PartialEq, Eq)]
pub struct TunnelConfig {
    pub name: String,
    pub enabled: bool,
    pub description: Option<String>,
    pub tags: Vec<String>,
    pub local_host: Option<String>,
    pub local_port: u16,
    pub remote_host: String,
    pub remote_port: u16,
    pub ssh_user: String,
    pub ssh_host: String,
    pub ssh_port: Option<u16>,
    pub identity_file: Option<String>,
    pub timeouts: TimeoutConfig,
}

/// The mathematical value of a [`TunnelConfig`].
pub ghost struct TunnelModel {
    pub name: Seq<char>,
    pub enabled: bool,
    pub description: Option<Seq<char>>,
    pub tags: Seq<Seq<char>>,
    pub local_host: Option<Seq<char>>,
    pub local_port: u16,
    pub remote_host: Seq<char>,
    pub remote_port: u16,
    pub ssh_user: Seq<char>,
    pub ssh_host: Seq<char>,
    pub ssh_port: Option<u16>,
    pub identity_file: Option<Seq<char>>,
    pub timeouts: TimeoutConfig,
}

impl View for TunnelConfig {
    type V = TunnelModel;

    open spec fn view(&self) -> TunnelModel {
        TunnelModel {
            name: self.name@,
            enabled: self.enabled,
            description: self.description.deep_view(),
            tags: self.tags.deep_view(),
            local_host: self.local_host.deep_view(),
            local_port: self.local_port,
            remote_host: self.remote_host@,
            remote_port: self.remote_port,
            ssh_user: self.ssh_user@,
            ssh_host: self.ssh_host@,
            ssh_port: self.ssh_port,
            identity_file: self.identity_file.deep_view(),
            timeouts: self.timeouts,
        }
    }
}

impl DeepView for TunnelConfig {
    type V = TunnelModel;

    open spec fn deep_view(&self) -> TunnelModel {
        self@
    }
}

impl Clone for TunnelConfig {
    fn clone(&self) -> (r: Self)
        ensures
            r@ == self@,
    {
        TunnelConfig {
            name: self.name.clone(),
            enabled: self.enabled,
            description: clone_opt_string(&self.description),
            tags: clone_strings(&self.tags),
            local_host: clone_opt_string(&self.local_host),
            local_port: self.local_port,
            remote_host: self.remote_host.clone(),
            remote_port: self.remote_port,
            ssh_user: self.ssh_user.clone(),
            ssh_host: self.ssh_host.clone(),
            ssh_port: self.ssh_port,
            identity_file: clone_opt_string(&self.identity_file),
            timeouts: self.timeouts,
        }
    }
}

/// The local bind address of a tunnel, with the default filled in.
pub open spec fn spec_effective_local_host(t: TunnelModel) -> Seq<char> {
    unwrap_or(t.local_host, DEFAULT_LOCAL_HOST@)
}

impl TunnelConfig {
    /// The local bind address, [`DEFAULT_LOCAL_HOST`] when none is written.
    pub fn effective_local_host(&self) -> (r: &str)
        ensures
            r@ == spec_effective_local_host(self@),
    {
        match &self.local_host {
            Some(h) => h.as_str(),
            None => DEFAULT_LOCAL_HOST,
        }
    }
}

/// Per-tunnel settings in the local override file; each may be absent.
#[derive(Debug, PartialEq, Eq)]
pub struct TunnelConfigOverride {
    pub name: String,
    pub enabled: Option<bool>,
    pub description: Option<String>,
    pub tags: Option<Vec<String>>,
    pub local_host: Option<String>,
    pub local_port: Option<u16>,
    pub remote_host: Option<String>,
    pub remote_port: Option<u16>,
    pub ssh_user: Option<String>,
    pub ssh_host: Option<String>,
    pub ssh_port: Option<u16>,
    pub identity_file: Option<String>,
    pub timeouts: TimeoutConfig,
}

/// The mathematical value of a [`TunnelConfigOverride`].
pub ghost struct OverrideModel {
    pub name: Seq<char>,
    pub enabled: Option<bool>,
    pub description: Option<Seq<char>>,
    pub tags: Option<Seq<Seq<char>>>,
    pub local_host: Option<Seq<char>>,
    pub local_port: Option<u16>,
    pub remote_host: Option<Seq<char>>,
    pub remote_port: Option<u16>,
    pub ssh_user: Option<Seq<char>>,
    pub ssh_host: Option<Seq<char>>,
    pub ssh_port: Option<u16>,
    pub identity_file: Option<Seq<char>>,
    pub timeouts: TimeoutConfig,
}

impl View for TunnelConfigOverride {
    type V = OverrideModel;

    open spec fn view(&self) -> OverrideModel {
        OverrideModel {
            name: self.name@,
            enabled: self.enabled,
            description: self.description.deep_view(),
            tags: self.tags.deep_view(),
            local_host: self.local_host.deep_view(),
            local_port: self.local_port,
            remote_host: self.remote_host.deep_view(),
            remote_port: self.remote_port,
            ssh_user: self.ssh_user.deep_view(),
            ssh_host: self.ssh_host.deep_view(),
            ssh_port: self.ssh_port,
            identity_file: self.identity_file.deep_view(),
            timeouts: self.timeouts,
        }
    }
}

impl DeepView for TunnelConfigOverride {
    type V = OverrideModel;

    open spec fn deep_view(&self) -> OverrideModel {
        self@
    }
}

/// A copy of an optional list of strings.
pub fn clone_opt_strings(v: &Option<Vec<String>>) -> (r: Option<Vec<String>>)
    ensures
        r.deep_view() == v.deep_view(),
{
    match v {
        Some(x) => Some(clone_strings(x)),
        None => None,
    }
}

impl Clone for TunnelConfigOverride {
    fn clone(&self) -> (r: Self)
        ensures
            r@ == self@,
    {
        TunnelConfigOverride {
            name: self.name.clone(),
            enabled: self.enabled,
            description: clone_opt_string(&self.description),
            tags: clone_opt_strings(&self.tags),
            local_host: clone_opt_string(&self.local_host),
            local_port: self.local_port,
            remote_host: clone_opt_string(&self.remote_host),
            remote_port: self.remote_port,
            ssh_user: clone_opt_string(&self.ssh_user),
            ssh_host: clone_opt_string(&self.ssh_host),
            ssh_port: self.ssh_port,
            identity_file: clone_opt_string(&self.identity_file),
            timeouts: self.timeouts,
        }
    }
}

/// Whether an override sets at least one setting.
pub open spec fn spec_has_overrides(o: OverrideModel) -> bool {
    ||| o.enabled is Some
    ||| o.description is Some
    ||| o.tags is Some
    ||| o.local_host is Some
    ||| o.local_port is Some
    ||| o.remote_host is Some
    ||| o.remote_port is Some
    ||| o.ssh_user is Some
    ||| o.ssh_host is Some
    ||| o.ssh_port is Some
    ||| o.identity_file is Some
    ||| o.timeouts != empty_timeouts()
}

/// `base` with every setting that `o` sets replaced; the name stays `base`'s.
pub open spec fn spec_apply_to(o: OverrideModel, base: TunnelModel) -> TunnelModel {
    TunnelModel {
        name: base.name,
        enabled: unwrap_or(o.enabled, base.enabled),
        description: or_else(o.description, base.description),
        tags: unwrap_or(o.tags, base.tags),
        local_host: or_else(o.local_host, base.local_host),
        local_port: unwrap_or(o.local_port, base.local_port),
        remote_host: unwrap_or(o.remote_host, base.remote_host),
        remote_port: unwrap_or(o.remote_port, base.remote_port),
        ssh_user: unwrap_or(o.ssh_user, base.ssh_user),
        ssh_host: unwrap_or(o.ssh_host, base.ssh_host),
        ssh_port: or_else(o.ssh_port, base.ssh_port),
        identity_file: or_else(o.identity_file, base.identity_file),
        timeouts: spec_apply_overrides(base.timeouts, o.timeouts),
    }
}

/// The value inside `a` or a copy of `d`.
fn pick_string(a: &Option<String>, d: &String) -> (r: String)
    ensures
        r@ == unwrap_or(a.deep_view(), d@),
{
    match a {
        Some(v) => v.clone(),
        None => d.clone(),
    }
}

/// A copy of `a` when present, else a copy of `b`.
fn pick_opt_string(a: &Option<String>, b: &Option<String>) -> (r: Option<String>)
    ensures
        r.deep_view() == or_else(a.deep_view(), b.deep_view()),
{
    match a {
        Some(v) => Some(v.clone()),
        None => clone_opt_string(b),
    }
}

impl TunnelConfigOverride {
    /// An override for `name` that sets nothing.
    pub fn new(name: String) -> (r: Self)
        ensures
            r@.name == name@,
            !spec_has_overrides(r@),
    {
        TunnelConfigOverride {
            name,
            enabled: None,
            description: None,
            tags: None,
            local_host: None,
            local_port: None,
            remote_host: None,
            remote_port: None,
            ssh_user: None,
            ssh_host: None,
            ssh_port: None,
            identity_file: None,
            timeouts: TimeoutConfig::default(),
        }
    }

    /// Whether this override sets at least one setting.
    pub fn has_overrides(&self) -> (r: bool)
        ensures
            r == spec_has_overrides(self@),
    {
        self.enabled.is_some() || self.description.is_some() || self.tags.is_some()
            || self.local_host.is_some() || self.local_port.is_some() || self.remote_host.is_some()
            || self.remote_port.is_some() || self.ssh_user.is_some() || self.ssh_host.is_some()
            || self.ssh_port.is_some() || self.identity_file.is_some() || !self.timeouts.is_empty()
    }

    /// `base` with the settings of this override applied.
    pub fn apply_to(&self, base: &TunnelConfig) -> (r: TunnelConfig)
        ensures
            r@ == spec_apply_to(self@, base@),
    {
        TunnelConfig {
            name: base.name.clone(),
            enabled: match self.enabled {
                Some(v) => v,
                None => base.enabled,
            },
            description: pick_opt_string(&self.description, &base.description),
            tags: match &self.tags {
                Some(t) => clone_strings(t),
                None => clone_strings(&base.tags),
            },
            local_host: pick_opt_string(&self.local_host, &base.local_host),
            local_port: match self.local_port {
                Some(v) => v,
                None => base.local_port,
            },
            remote_host: pick_string(&self.remote_host, &base.remote_host),
            remote_port: match self.remote_port {
                Some(v) => v,
                None => base.remote_port,
            },
            ssh_user: pick_string(&self.ssh_user, &base.ssh_user),
            ssh_host: pick_string(&self.ssh_host, &base.ssh_host),
            ssh_port: match self.ssh_port {
                Some(v) => Some(v),
                None => base.ssh_port,
            },
            identity_file: pick_opt_string(&self.identity_file, &base.identity_file),
            timeouts: base.timeouts.apply_overrides(&self.timeouts),
        }
    }
}

/// An override that sets nothing leaves every tunnel as it is.
pub proof fn lemma_empty_override_is_identity(o: OverrideModel, base: TunnelModel)
    requires
        !spec_has_overrides(o),
    ensures
        spec_apply_to(o, base) == base,
{
}

/// Applying an override twice gives what applying it once gives.
pub proof fn lemma_apply_to_idempotent(o: OverrideModel, base: TunnelModel)
    ensures
        spec_apply_to(o, spec_apply_to(o, base)) == spec_apply_to(o, base),
{
}


/// A loaded local override file.
#[derive(Debug, PartialEq, Eq)]
pub struct LoadedConfigOverrideFile {
    pub source: ConfigSource,
    pub tunnels: Vec<TunnelConfigOverride>,
}

/// The mathematical value of a [`LoadedConfigOverrideFile`].
pub ghost struct OverrideFileModel {
    pub source: SourceModel,
    pub tunnels: Seq<OverrideModel>,
}

impl View for LoadedConfigOverrideFile {
    type V = OverrideFileModel;

    open spec fn view(&self) -> OverrideFileModel {
        OverrideFileModel { source: self.source@, tunnels: self.tunnels.deep_view() }
    }
}

impl DeepView for LoadedConfigOverrideFile {
    type V = OverrideFileModel;

    open spec fn deep_view(&self) -> OverrideFileModel {
        self@
    }
}

/// A copy of a list of values whose copies keep their value.
pub fn clone_overrides(v: &Vec<TunnelConfigOverride>) -> (r: Vec<TunnelConfigOverride>)
    ensures
        r.deep_view() == v.deep_view(),
{
    let mut r: Vec<TunnelConfigOverride> = Vec::new();
    let mut i: usize = 0;
    while i < v.len()
        invariant
            i <= v@.len(),
            r@.len() == i,
            forall|j: int| 0 <= j < i ==> (#[trigger] r@[j])@ == v@[j]@,
        decreases v@.len() - i,
    {
        r.push(v[i].clone());
        i += 1;
    }
    assert(r.deep_view() =~= v.deep_view());
    r
}

/// A copy of a list of tunnels.
pub fn clone_tunnels(v: &Vec<TunnelConfig>) -> (r: Vec<TunnelConfig>)
    ensures
        r.deep_view() == v.deep_view(),
{
    let mut r: Vec<TunnelConfig> = Vec::new();
    let mut i: usize = 0;
    while i < v.len()
        invariant
            i <= v@.len(),
            r@.len() == i,
            forall|j: int| 0 <= j < i ==> (#[trigger] r@[j])@ == v@[j]@,
        decreases v@.len() - i,
    {
        r.push(v[i].clone());
        i += 1;
    }
    assert(r.deep_view() =~= v.deep_view());
    r
}

impl Clone for LoadedConfigOverrideFile {
    fn clone(&self) -> (r: Self)
        ensures
            r@ == self@,
    {
        LoadedConfigOverrideFile { source: self.source.clone(), tunnels: clone_overrides(&self.tunnels) }
    }
}

impl LoadedConfigOverrideFile {
    /// A loaded override file with the given entries.
    pub fn new(source: ConfigSource, tunnels: Vec<TunnelConfigOverride>) -> (r: Self)
        ensures
            r.source == source,
            r.tunnels == tunnels,
    {
        LoadedConfigOverrideFile { source, tunnels }
    }
}

/// A loaded configuration file.
#[derive(Debug, PartialEq, Eq)]
pub struct LoadedConfigFile {
    pub source: ConfigSource,
    pub timeouts: TimeoutConfig,
    pub tunnels: Vec<TunnelConfig>,
}

/// The mathematical value of a [`LoadedConfigFile`].
pub ghost struct LoadedFileModel {
    pub source: SourceModel,
    pub timeouts: TimeoutConfig,
    pub tunnels: Seq<TunnelModel>,
}

impl View for LoadedConfigFile {
    type V = LoadedFileModel;

    open spec fn view(&self) -> LoadedFileModel {
        LoadedFileModel {
            source: self.source@,
            timeouts: self.timeouts,
            tunnels: self.tunnels.deep_view(),
        }
    }
}

impl DeepView for LoadedConfigFile {
    type V = LoadedFileModel;

    open spec fn deep_view(&self) -> LoadedFileModel {
        self@
    }
}

impl Clone for LoadedConfigFile {
    fn clone(&self) -> (r: Self)
        ensures
            r@ == self@,
    {
        LoadedConfigFile {
            source: self.source.clone(),
            timeouts: self.timeouts,
            tunnels: clone_tunnels(&self.tunnels),
        }
    }
}

impl LoadedConfigFile {
    /// A loaded file without file-wide timeout settings.
    pub fn new(source: ConfigSource, tunnels: Vec<TunnelConfig>) -> (r: Self)
        ensures
            r.source == source,
            r.timeouts == empty_timeouts(),
            r.tunnels == tunnels,
    {
        Self::with_timeouts(source, TimeoutConfig::default(), tunnels)
    }

    /// A loaded file with file-wide timeout settings.
    pub fn with_timeouts(source: ConfigSource, timeouts: TimeoutConfig, tunnels: Vec<TunnelConfig>) -> (r: Self)
        ensures
            r.source == source,
            r.timeouts == timeouts,
            r.tunnels == tunnels,
    {
        LoadedConfigFile { source, timeouts, tunnels }
    }
}

/// One tunnel after merging: where it came from, the override applied to
/// it (if any), and its run-time timeouts.
#[derive(Debug, PartialEq, Eq)]
pub struct ResolvedTunnelConfig {
    pub source: ConfigSource,
    pub override_source: Option<ConfigSource>,
    pub tunnel: TunnelConfig,
    pub timeouts: ResolvedTimeoutConfig,
}

/// The mathematical value of a [`ResolvedTunnelConfig`].
pub ghost struct ResolvedModel {
    pub source: SourceModel,
    pub override_source: Option<SourceModel>,
    pub tunnel: TunnelModel,
    pub timeouts: ResolvedTimeoutConfig,
}

impl View for ResolvedTunnelConfig {
    type V = ResolvedModel;

    open spec fn view(&self) -> ResolvedModel {
        ResolvedModel {
            source: self.source@,
            override_source: self.override_source.deep_view(),
            tunnel: self.tunnel@,
            timeouts: self.timeouts,
        }
    }
}

impl DeepView for ResolvedTunnelConfig {
    type V = ResolvedModel;

    open spec fn deep_view(&self) -> ResolvedModel {
        self@
    }
}

/// A copy of an optional source.
pub fn clone_opt_source(s: &Option<ConfigSource>) -> (r: Option<ConfigSource>)
    ensures
        r.deep_view() == s.deep_view(),
{
    match s {
        Some(v) => Some(v.clone()),
        None => None,
    }
}

impl Clone for ResolvedTunnelConfig {
    fn clone(&self) -> (r: Self)
        ensures
            r@ == self@,
    {
        ResolvedTunnelConfig {
            source: self.source.clone(),
            override_source: clone_opt_source(&self.override_source),
            tunnel: self.tunnel.clone(),
            timeouts: self.timeouts,
        }
    }
}

impl ResolvedTunnelConfig {
    /// A merged tunnel with the built-in timeouts and no override.
    pub fn new(source: ConfigSource, tunnel: TunnelConfig) -> (r: Self)
        ensures
            r.source == source,
            r.override_source.is_none(),
            r.tunnel == tunnel,
            r.timeouts == default_resolved_timeouts(),
    {
        Self::new_with_timeouts(source, tunnel, ResolvedTimeoutConfig::default())
    }

    /// A merged tunnel with the given timeouts and no override.
    pub fn new_with_timeouts(source: ConfigSource, tunnel: TunnelConfig, timeouts: ResolvedTimeoutConfig) -> (r: Self)
        ensures
            r.source == source,
            r.override_source.is_none(),
            r.tunnel == tunnel,
            r.timeouts == timeouts,
    {
        ResolvedTunnelConfig { source, override_source: None, tunnel, timeouts }
    }

    /// A merged tunnel with the source of the override applied to it.
    pub fn new_with_override(
        source: ConfigSource,
        override_source: Option<ConfigSource>,
        tunnel: TunnelConfig,
        timeouts: ResolvedTimeoutConfig,
    ) -> (r: Self)
        ensures
            r.source == source,
            r.override_source == override_source,
            r.tunnel == tunnel,
            r.timeouts == timeouts,
    {
        ResolvedTunnelConfig { source, override_source, tunnel, timeouts }
    }

    /// Whether a local override was applied to this tunnel.
    pub fn is_overridden(&self) -> (r: bool)
        ensures
            r == self.override_source.is_some(),
    {
        self.override_source.is_some()
    }
}

/// A copy of a list of merged tunnels.
pub fn clone_resolved(v: &Vec<ResolvedTunnelConfig>) -> (r: Vec<ResolvedTunnelConfig>)
    ensures
        r.deep_view() == v.deep_view(),
{
    let mut r: Vec<ResolvedTunnelConfig> = Vec::new();
    let mut i: usize = 0;
    while i < v.len()
        invariant
            i <= v@.len(),
            r@.len() == i,
            forall|j: int| 0 <= j < i ==> (#[trigger] r@[j])@ == v@[j]@,
        decreases v@.len() - i,
    {
        r.push(v[i].clone());
        i += 1;
    }
    assert(r.deep_view() =~= v.deep_view());
    r
}

/// File-wide timeouts of all files, later files taking precedence.
pub open spec fn spec_merge_timeouts(files: Seq<LoadedFileModel>) -> TimeoutConfig
    decreases files.len(),
{
    if files.len() == 0 {
        empty_timeouts()
    } else {
        spec_apply_overrides(spec_merge_timeouts(files.drop_last()), files.last().timeouts)
    }
}

/// The first entry for `name` that sets something, in an override file.
pub open spec fn first_override(entries: Seq<OverrideModel>, name: Seq<char>) -> Option<OverrideModel>
    decreases entries.len(),
{
    if entries.len() == 0 {
        None
    } else if entries[0].name == name && spec_has_overrides(entries[0]) {
        Some(entries[0])
    } else {
        first_override(entries.drop_first(), name)
    }
}

/// The override that applies to a tunnel of `file`: only local files take overrides.
pub open spec fn override_for(
    file: LoadedFileModel,
    name: Seq<char>,
    local_override: Option<OverrideFileModel>,
) -> Option<OverrideModel> {
    if file.source.kind == ConfigSourceKind::Local {
        match local_override {
            Some(ov) => first_override(ov.tunnels, name),
            None => None,
        }
    } else {
        None
    }
}

/// The merged form of one tunnel of `file`.
pub open spec fn resolve_one(
    file: LoadedFileModel,
    t: TunnelModel,
    base: ResolvedTimeoutConfig,
    local_override: Option<OverrideFileModel>,
) -> ResolvedModel {
    let o = override_for(file, t.name, local_override);
    let tunnel = match o {
        Some(o) => spec_apply_to(o, t),
        None => t,
    };
    ResolvedModel {
        source: file.source,
        override_source: match o {
            Some(_) => Some(local_override.unwrap().source),
            None => None,
        },
        tunnel,
        timeouts: spec_resolve_with_base(tunnel.timeouts, base),
    }
}

/// The merged form of the tunnels of one file, in file order.
pub open spec fn resolve_file(
    file: LoadedFileModel,
    base: ResolvedTimeoutConfig,
    local_override: Option<OverrideFileModel>,
) -> Seq<ResolvedModel> {
    file.tunnels.map_values(|t: TunnelModel| resolve_one(file, t, base, local_override))
}

/// The merged tunnels of `files`, file by file and in file order.
pub open spec fn resolve_files(
    files: Seq<LoadedFileModel>,
    base: ResolvedTimeoutConfig,
    local_override: Option<OverrideFileModel>,
) -> Seq<ResolvedModel>
    decreases files.len(),
{
    if files.len() == 0 {
        seq![]
    } else {
        resolve_files(files.drop_last(), base, local_override) + resolve_file(
            files.last(),
            base,
            local_override,
        )
    }
}

/// The merged tunnels of a configuration.
pub open spec fn spec_merge_tunnels(
    files: Seq<LoadedFileModel>,
    local_override: Option<OverrideFileModel>,
) -> Seq<ResolvedModel> {
    resolve_files(
        files,
        spec_resolve_with_base(spec_merge_timeouts(files), default_resolved_timeouts()),
        local_override,
    )
}

/// File-wide timeout settings of all files, later files taking precedence.
pub fn merge_timeout_config(sources: &Vec<LoadedConfigFile>) -> (r: TimeoutConfig)
    ensures
        r == spec_merge_timeouts(sources.deep_view()),
{
    let mut t = TimeoutConfig::default();
    let mut i: usize = 0;
    while i < sources.len()
        invariant
            i <= sources@.len(),
            t == spec_merge_timeouts(sources.deep_view().subrange(0, i as int)),
        decreases sources@.len() - i,
    {
        t = t.apply_overrides(&sources[i].timeouts);
        i += 1;
        assert(sources.deep_view().subrange(0, i as int).drop_last() =~= sources.deep_view().subrange(0, i - 1));
    }
    assert(sources.deep_view().subrange(0, i as int) =~= sources.deep_view());
    t
}

/// The first entry for `name` that sets something, in an override file.
pub fn find_override<'a>(entries: &'a Vec<TunnelConfigOverride>, name: &String) -> (r: Option<&'a TunnelConfigOverride>)
    ensures
        match r {
            Some(o) => first_override(entries.deep_view(), name@) == Some(o@),
            None => first_override(entries.deep_view(), name@).is_none(),
        },
{
    let mut i: usize = 0;
    assert(entries.deep_view().subrange(0, entries@.len() as int) =~= entries.deep_view());
    while i < entries.len()
        invariant
            i <= entries@.len(),
            first_override(entries.deep_view(), name@) == first_override(
                entries.deep_view().subrange(i as int, entries@.len() as int),
                name@,
            ),
        decreases entries@.len() - i,
    {
        let ghost rest = entries.deep_view().subrange(i as int, entries@.len() as int);
        assert(rest[0] == entries@[i as int]@);
        assert(rest.drop_first() =~= entries.deep_view().subrange(i + 1, entries@.len() as int));
        if entries[i].name == *name && entries[i].has_overrides() {
            return Some(&entries[i]);
        }
        i += 1;
    }
    None
}

/// The tunnels of all files merged: each tunnel of each file in order, with
/// the local override applied to local tunnels and timeouts resolved
/// against the tunnel's own settings, then the files' settings, then the
/// built-in values.
pub fn merge_tunnels(sources: &Vec<LoadedConfigFile>, local_override: Option<&LoadedConfigOverrideFile>) -> (r: Vec<ResolvedTunnelConfig>)
    ensures
        r.deep_view() == spec_merge_tunnels(
            sources.deep_view(),
            match local_override {
                Some(o) => Some(o@),
                None => None,
            },
        ),
{
    let ghost ov = match local_override {
        Some(o) => Some(o@),
        None => None,
    };
    let base = merge_timeout_config(sources).resolve_with_defaults();
    let mut out: Vec<ResolvedTunnelConfig> = Vec::new();
    let mut i: usize = 0;
    while i < sources.len()
        invariant
            i <= sources@.len(),
            ov == (match local_override { Some(o) => Some(o@), None => None::<OverrideFileModel> }),
            base == spec_resolve_with_base(spec_merge_timeouts(sources.deep_view()), default_resolved_timeouts()),
            out.deep_view() == resolve_files(sources.deep_view().subrange(0, i as int), base, ov),
        decreases sources@.len() - i,
    {
        let file = &sources[i];
        let ghost before = out.deep_view();
        let mut j: usize = 0;
        while j < file.tunnels.len()
            invariant
                i < sources@.len(),
                file == sources@[i as int],
                j <= file.tunnels@.len(),
                ov == (match local_override { Some(o) => Some(o@), None => None::<OverrideFileModel> }),
                out.deep_view() == before + resolve_file(file@, base, ov).subrange(0, j as int),
            decreases file.tunnels@.len() - j,
        {
            let base_tunnel = &file.tunnels[j];
            let applied: Option<&TunnelConfigOverride> = if file.source.kind == ConfigSourceKind::Local {
                match local_override {
                    Some(o) => find_override(&o.tunnels, &base_tunnel.name),
                    None => None,
                }
            } else {
                None
            };
            let tunnel = match applied {
                Some(o) => o.apply_to(base_tunnel),
                None => base_tunnel.clone(),
            };
            let timeouts = tunnel.timeouts.resolve_with_base(base);
            let override_source = match applied {
                Some(_) => match local_override {
                    Some(o) => Some(o.source.clone()),
                    None => None,
                },
                None => None,
            };
            let resolved = ResolvedTunnelConfig::new_with_override(
                file.source.clone(),
                override_source,
                tunnel,
                timeouts,
            );
            proof {
                assert(resolved@ == resolve_one(file@, file@.tunnels[j as int], base, ov));
            }
            let ghost prev = out.deep_view();
            let ghost rv = resolved@;
            out.push(resolved);
            assert(out.deep_view() =~= prev.push(rv));
            assert(resolve_file(file@, base, ov)[j as int] == rv);
            j += 1;
            assert(resolve_file(file@, base, ov).subrange(0, j as int) =~= resolve_file(file@, base, ov).subrange(0, j - 1).push(rv));
            assert(out.deep_view() =~= before + resolve_file(file@, base, ov).subrange(0, j as int));
        }
        assert(resolve_file(file@, base, ov).subrange(0, j as int) =~= resolve_file(file@, base, ov));
        i += 1;
        assert(sources.deep_view().subrange(0, i as int).drop_last() =~= sources.deep_view().subrange(0, i - 1));
    }
    assert(sources.deep_view().subrange(0, i as int) =~= sources.deep_view());
    out
}


/// All configuration after merging.
#[derive(Debug, PartialEq, Eq)]
pub struct EffectiveConfig {
    pub sources: Vec<LoadedConfigFile>,
    pub local_override: Option<LoadedConfigOverrideFile>,
    pub configured_tunnels: Vec<ResolvedTunnelConfig>,
    pub tunnels: Vec<ResolvedTunnelConfig>,
}

/// The mathematical value of an [`EffectiveConfig`].
pub ghost struct EffectiveModel {
    pub sources: Seq<LoadedFileModel>,
    pub local_override: Option<OverrideFileModel>,
    pub configured_tunnels: Seq<ResolvedModel>,
    pub tunnels: Seq<ResolvedModel>,
}

impl View for EffectiveConfig {
    type V = EffectiveModel;

    open spec fn view(&self) -> EffectiveModel {
        EffectiveModel {
            sources: self.sources.deep_view(),
            local_override: self.local_override.deep_view(),
            configured_tunnels: self.configured_tunnels.deep_view(),
            tunnels: self.tunnels.deep_view(),
        }
    }
}

/// Whether a merged tunnel is enabled.
pub open spec fn is_enabled(r: ResolvedModel) -> bool {
    r.tunnel.enabled
}

/// The enabled tunnels of `configured`, in order.
pub open spec fn enabled_tunnels(configured: Seq<ResolvedModel>) -> Seq<ResolvedModel> {
    configured.filter(|r: ResolvedModel| is_enabled(r))
}

/// The enabled tunnels, in order.
pub fn enabled_only(configured: &Vec<ResolvedTunnelConfig>) -> (r: Vec<ResolvedTunnelConfig>)
    ensures
        r.deep_view() == enabled_tunnels(configured.deep_view()),
{
    let ghost pred = |r: ResolvedModel| is_enabled(r);
    let mut out: Vec<ResolvedTunnelConfig> = Vec::new();
    let mut i: usize = 0;
    while i < configured.len()
        invariant
            i <= configured@.len(),
            pred == (|r: ResolvedModel| is_enabled(r)),
            out.deep_view() == configured.deep_view().subrange(0, i as int).filter(pred),
        decreases configured@.len() - i,
    {
        reveal_with_fuel(Seq::<_>::filter, 1);
        let ghost prev = out.deep_view();
        if configured[i].tunnel.enabled {
            let c = configured[i].clone();
            out.push(c);
            assert(out.deep_view() =~= prev.push(configured@[i as int]@));
        }
        i += 1;
        assert(configured.deep_view().subrange(0, i as int).drop_last() =~= configured.deep_view().subrange(0, i - 1));
    }
    assert(configured.deep_view().subrange(0, i as int) =~= configured.deep_view());
    out
}

impl EffectiveConfig {
    /// A configuration from loaded files and the tunnels to run; the
    /// configured tunnels are the files merged, or the given tunnels when
    /// there are no files.
    pub fn new(sources: Vec<LoadedConfigFile>, tunnels: Vec<ResolvedTunnelConfig>) -> (r: Self)
        ensures
            r.sources == sources,
            r.local_override.is_none(),
            r@.configured_tunnels == (if sources@.len() == 0 {
                tunnels.deep_view()
            } else {
                spec_merge_tunnels(sources.deep_view(), None)
            }),
            r.tunnels == tunnels,
    {
        let configured_tunnels = if sources.len() == 0 {
            clone_resolved(&tunnels)
        } else {
            merge_tunnels(&sources, None)
        };
        EffectiveConfig { sources, local_override: None, configured_tunnels, tunnels }
    }

    /// A configuration whose tunnels to run are the enabled configured ones.
    pub fn with_local_override(
        sources: Vec<LoadedConfigFile>,
        local_override: Option<LoadedConfigOverrideFile>,
        configured_tunnels: Vec<ResolvedTunnelConfig>,
    ) -> (r: Self)
        ensures
            r.sources == sources,
            r.local_override == local_override,
            r.configured_tunnels == configured_tunnels,
            r@.tunnels == enabled_tunnels(configured_tunnels.deep_view()),
    {
        let tunnels = enabled_only(&configured_tunnels);
        EffectiveConfig { sources, local_override, configured_tunnels, tunnels }
    }

    /// Whether any configuration file was loaded.
    pub fn has_sources(&self) -> (r: bool)
        ensures
            r == (self.sources@.len() > 0 || self.local_override.is_some()),
    {
        self.sources.len() > 0 || self.local_override.is_some()
    }
}

/// The configuration made of the loaded files (the global one, then the
/// local one, where they exist) and the local override file when it
/// exists: the merged tunnels, of which the enabled ones run.
pub fn load_effective_config(
    sources: Vec<LoadedConfigFile>,
    local_override: Option<LoadedConfigOverrideFile>,
) -> (r: EffectiveConfig)
    ensures
        r.sources == sources,
        r.local_override == local_override,
        r@.configured_tunnels == spec_merge_tunnels(sources.deep_view(), local_override.deep_view()),
        r@.tunnels == enabled_tunnels(spec_merge_tunnels(sources.deep_view(), local_override.deep_view())),
{
    let configured = match &local_override {
        Some(o) => merge_tunnels(&sources, Some(o)),
        None => merge_tunnels(&sources, None),
    };
    EffectiveConfig::with_local_override(sources, local_override, configured)
}

/// Merging keeps one entry per tunnel of each file.
pub proof fn lemma_merge_keeps_every_tunnel(
    files: Seq<LoadedFileModel>,
    base: ResolvedTimeoutConfig,
    local_override: Option<OverrideFileModel>,
)
    ensures
        resolve_files(files, base, local_override).len() == total_tunnels(files),
    decreases files.len(),
{
    if files.len() > 0 {
        lemma_merge_keeps_every_tunnel(files.drop_last(), base, local_override);
    }
}

/// The number of tunnels over all files.
pub open spec fn total_tunnels(files: Seq<LoadedFileModel>) -> nat
    decreases files.len(),
{
    if files.len() == 0 {
        0
    } else {
        total_tunnels(files.drop_last()) + files.last().tunnels.len()
    }
}

/// Merging lists the tunnels file by file and in file order: the `k`-th
/// tunnel of file `f` comes after the tunnels of the files before it, with
/// that file as its source. Without an override file it is the file's
/// tunnel as written, with no override source.
pub proof fn lemma_merge_places_file_tunnels(
    files: Seq<LoadedFileModel>,
    base: ResolvedTimeoutConfig,
    local_override: Option<OverrideFileModel>,
    f: int,
    k: int,
)
    requires
        0 <= f < files.len(),
        0 <= k < files[f].tunnels.len(),
    ensures
        ({
            let r = resolve_files(files, base, local_override)[total_tunnels(files.subrange(0, f)) + k];
            &&& total_tunnels(files.subrange(0, f)) + k < resolve_files(files, base, local_override).len()
            &&& r.source == files[f].source
            &&& r == resolve_one(files[f], files[f].tunnels[k], base, local_override)
            &&& local_override is None ==> r.tunnel == files[f].tunnels[k] && r.override_source is None
        }),
    decreases files.len(),
{
    let n = files.len() - 1;
    let init = files.drop_last();
    lemma_merge_keeps_every_tunnel(init, base, local_override);
    lemma_merge_keeps_every_tunnel(files, base, local_override);
    if f < n {
        lemma_merge_places_file_tunnels(init, base, local_override, f, k);
        assert(init.subrange(0, f) =~= files.subrange(0, f));
        assert(init[f] == files[f]);
        lemma_total_tunnels_prefix(init, f);
    } else {
        assert(files.subrange(0, f) =~= init);
    }
}

proof fn lemma_total_tunnels_prefix(files: Seq<LoadedFileModel>, f: int)
    requires
        0 <= f < files.len(),
    ensures
        total_tunnels(files.subrange(0, f)) + files[f].tunnels.len() <= total_tunnels(files),
    decreases files.len(),
{
    if f < files.len() - 1 {
        lemma_total_tunnels_prefix(files.drop_last(), f);
        assert(files.drop_last().subrange(0, f) =~= files.subrange(0, f));
    } else {
        assert(files.subrange(0, f) =~= files.drop_last());
    }
}

/// A global file never takes a local override, so its tunnels come through unchanged.
pub proof fn lemma_global_tunnels_unchanged(
    file: LoadedFileModel,
    t: TunnelModel,
    base: ResolvedTimeoutConfig,
    local_override: Option<OverrideFileModel>,
)
    requires
        file.source.kind == ConfigSourceKind::Global,
    ensures
        resolve_one(file, t, base, local_override).tunnel == t,
        resolve_one(file, t, base, local_override).override_source.is_none(),
{
}

/// Where the configuration files are: the global one (when used), the
/// local one, and the local override file next to the local one.
#[derive(Debug, PartialEq, Eq)]
pub struct ConfigPaths {
    pub global: Option<String>,
    pub local: String,
    pub local_override: String,
}

impl ConfigPaths {
    /// The configuration files for a global file (when used) and a local
    /// file; the override file is derived from the local one.
    pub fn new(global: Option<String>, local: String) -> (r: Self)
        ensures
            r.global.deep_view() == global.deep_view(),
            r.local@ == local@,
            r.local_override@ == crate::paths::spec_local_override_path(local@),
    {
        let local_override = crate::paths::local_override_config_path(local.as_str());
        ConfigPaths { global, local, local_override }
    }
}

/// The first of the settings that is present, else the default.
pub open spec fn first_present<T>(tunnel: Option<T>, local: Option<T>, global: Option<T>, default: T) -> T {
    unwrap_or(tunnel, unwrap_or(local, unwrap_or(global, default)))
}

/// Timeouts take precedence in this order, for every configured tunnel:
/// the local override's setting for the tunnel, the tunnel's own setting,
/// the file-wide `[timeouts]` of the files (a later file before an earlier
/// one: the local file before the global one), then the built-in value.
/// The `k`-th tunnel of file `f` is the one after the tunnels of the files
/// before it.
pub proof fn lemma_timeout_precedence(
    files: Seq<LoadedFileModel>,
    local_override: Option<OverrideFileModel>,
    f: int,
    k: int,
)
    requires
        0 <= f < files.len(),
        0 <= k < files[f].tunnels.len(),
    ensures
        ({
            let r = spec_merge_tunnels(files, local_override)[total_tunnels(files.subrange(0, f)) + k];
            let b = files[f].tunnels[k];
            let o = override_for(files[f], b.name, local_override);
            let ot = match o {
                Some(o) => o.timeouts,
                None => empty_timeouts(),
            };
            let t = b.timeouts;
            let m = spec_merge_timeouts(files);
            &&& total_tunnels(files.subrange(0, f)) + k < spec_merge_tunnels(files, local_override).len()
            &&& r.source == files[f].source
            &&& r.tunnel == match o {
                Some(o) => spec_apply_to(o, b),
                None => b,
            }
            &&& r.timeouts.connect_timeout_seconds == unwrap_or(or_else(ot.connect_timeout_seconds, t.connect_timeout_seconds), unwrap_or(m.connect_timeout_seconds, DEFAULT_CONNECT_TIMEOUT_SECONDS))
            &&& r.timeouts.server_alive_interval_seconds == unwrap_or(or_else(ot.server_alive_interval_seconds, t.server_alive_interval_seconds), unwrap_or(m.server_alive_interval_seconds, DEFAULT_SERVER_ALIVE_INTERVAL_SECONDS))
            &&& r.timeouts.server_alive_count_max == unwrap_or(or_else(ot.server_alive_count_max, t.server_alive_count_max), unwrap_or(m.server_alive_count_max, DEFAULT_SERVER_ALIVE_COUNT_MAX))
            &&& r.timeouts.start_grace_milliseconds == unwrap_or(or_else(ot.start_grace_milliseconds, t.start_grace_milliseconds), unwrap_or(m.start_grace_milliseconds, DEFAULT_START_GRACE_MILLISECONDS))
            &&& files.len() == 2 ==> r.timeouts.connect_timeout_seconds == first_present(
                or_else(ot.connect_timeout_seconds, t.connect_timeout_seconds),
                files[1].timeouts.connect_timeout_seconds,
                files[0].timeouts.connect_timeout_seconds,
                DEFAULT_CONNECT_TIMEOUT_SECONDS,
            )
            &&& files.len() == 2 ==> r.timeouts.server_alive_interval_seconds == first_present(
                or_else(ot.server_alive_interval_seconds, t.server_alive_interval_seconds),
                files[1].timeouts.server_alive_interval_seconds,
                files[0].timeouts.server_alive_interval_seconds,
                DEFAULT_SERVER_ALIVE_INTERVAL_SECONDS,
            )
            &&& files.len() == 2 ==> r.timeouts.server_alive_count_max == first_present(
                or_else(ot.server_alive_count_max, t.server_alive_count_max),
                files[1].timeouts.server_alive_count_max,
                files[0].timeouts.server_alive_count_max,
                DEFAULT_SERVER_ALIVE_COUNT_MAX,
            )
            &&& files.len() == 2 ==> r.timeouts.start_grace_milliseconds == first_present(
                or_else(ot.start_grace_milliseconds, t.start_grace_milliseconds),
                files[1].timeouts.start_grace_milliseconds,
                files[0].timeouts.start_grace_milliseconds,
                DEFAULT_START_GRACE_MILLISECONDS,
            )
            &&& files.len() == 1 ==> r.timeouts.connect_timeout_seconds == unwrap_or(
                or_else(ot.connect_timeout_seconds, t.connect_timeout_seconds),
                unwrap_or(files[0].timeouts.connect_timeout_seconds, DEFAULT_CONNECT_TIMEOUT_SECONDS),
            )
            &&& files.len() == 1 ==> r.timeouts.server_alive_interval_seconds == unwrap_or(
                or_else(ot.server_alive_interval_seconds, t.server_alive_interval_seconds),
                unwrap_or(files[0].timeouts.server_alive_interval_seconds, DEFAULT_SERVER_ALIVE_INTERVAL_SECONDS),
            )
            &&& files.len() == 1 ==> r.timeouts.server_alive_count_max == unwrap_or(
                or_else(ot.server_alive_count_max, t.server_alive_count_max),
                unwrap_or(files[0].timeouts.server_alive_count_max, DEFAULT_SERVER_ALIVE_COUNT_MAX),
            )
            &&& files.len() == 1 ==> r.timeouts.start_grace_milliseconds == unwrap_or(
                or_else(ot.start_grace_milliseconds, t.start_grace_milliseconds),
                unwrap_or(files[0].timeouts.start_grace_milliseconds, DEFAULT_START_GRACE_MILLISECONDS),
            )
        }),
{
    let base = spec_resolve_with_base(spec_merge_timeouts(files), default_resolved_timeouts());
    lemma_merge_places_file_tunnels(files, base, local_override, f, k);
    let r = spec_merge_tunnels(files, local_override)[total_tunnels(files.subrange(0, f)) + k];
    let b = files[f].tunnels[k];
    let o = override_for(files[f], b.name, local_override);
    assert(r == resolve_one(files[f], b, base, local_override));
    let ot = match o {
        Some(o) => o.timeouts,
        None => empty_timeouts(),
    };
    assert(r.tunnel.timeouts == spec_apply_overrides(b.timeouts, ot));
    assert(r.timeouts == spec_resolve_with_base(r.tunnel.timeouts, base));
    assert(spec_merge_timeouts(Seq::<LoadedFileModel>::empty()) == empty_timeouts());
    if files.len() == 1 {
        assert(files.drop_last() =~= Seq::<LoadedFileModel>::empty());
        assert(spec_merge_timeouts(files) == spec_apply_overrides(empty_timeouts(), files[0].timeouts));
    }
    if files.len() == 2 {
        assert(files.drop_last() =~= seq![files[0]]);
        assert(seq![files[0]].drop_last() =~= Seq::<LoadedFileModel>::empty());
        assert(seq![files[0]].last() == files[0]);
        assert(spec_merge_timeouts(seq![files[0]]) == spec_apply_overrides(empty_timeouts(), files[0].timeouts));
        assert(spec_merge_timeouts(files) == spec_apply_overrides(
            spec_merge_timeouts(seq![files[0]]),
            files[1].timeouts,
        ));
    }
}

} // verus!
