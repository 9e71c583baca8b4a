//! Reading tunnel definitions out of an `ssh` command line: its local
//! forwards (`-L`), its destination, user, port, identity file and the
//! timeout options it sets.

use vstd::prelude::*;

use crate::config::{TimeoutConfig, TunnelConfig, TunnelModel, DEFAULT_LOCAL_HOST};
use crate::paths::file_name;
use crate::strings::{clone_opt_string, clone_strings};
use crate::text::{decimal, decimal_string, 
    chars_of, concat_str, has_prefix, is_blank, lower, lower_char, char_to_ascii_lowercase, parse_unsigned,
    parse_unsigned_str, push_char, starts_with_str, str_eq, string_of_range, trim,
};

verus! {

/// The tag given by default to imported tunnels.
pub const DEFAULT_IMPORT_TAG: &'static str = "imported";

/// The warning for an option that is not kept.
pub const MSG_NOT_SAVED: &'static str = "このSSHオプションは設定ファイルへ保存されません";

/// The warning for an `-o` value that is not `key=value`.
pub const MSG_NOT_KEY_VALUE: &'static str = "key=value形式ではないSSHオプションは保存されません: ";

/// The warning for a remote command argument.
pub const MSG_REMOTE_COMMAND: &'static str = "リモートコマンド引数は設定ファイルへ保存されません";

/// One local forward (`-L`) of an `ssh` command.
#[derive(Debug, PartialEq, Eq)]
pub struct SshLocalForward {
    pub local_host: String,
    pub local_port: u16,
    pub remote_host: String,
    pub remote_port: u16,
}

/// The mathematical value of an [`SshLocalForward`].
pub ghost struct ForwardModel {
    pub local_host: Seq<char>,
    pub local_port: u16,
    pub remote_host: Seq<char>,
    pub remote_port: u16,
}

impl View for SshLocalForward {
    type V = ForwardModel;

    open spec fn view(&self) -> ForwardModel {
        ForwardModel {
            local_host: self.local_host@,
            local_port: self.local_port,
            remote_host: self.remote_host@,
            remote_port: self.remote_port,
        }
    }
}

impl DeepView for SshLocalForward {
    type V = ForwardModel;

    open spec fn deep_view(&self) -> ForwardModel {
        self@
    }
}

impl Clone for SshLocalForward {
    fn clone(&self) -> (r: Self)
        ensures
            r@ == self@,
    {
        SshLocalForward {
            local_host: self.local_host.clone(),
            local_port: self.local_port,
            remote_host: self.remote_host.clone(),
            remote_port: self.remote_port,
        }
    }
}

/// Something of the command that the import does not keep.
#[derive(Debug, PartialEq, Eq)]
pub struct SshImportWarning {
    pub option: String,
    pub message: String,
}

/// The mathematical value of an [`SshImportWarning`].
pub ghost struct WarningModel {
    pub option: Seq<char>,
    pub message: Seq<char>,
}

impl View for SshImportWarning {
    type V = WarningModel;

    open spec fn view(&self) -> WarningModel {
        WarningModel { option: self.option@, message: self.message@ }
    }
}

impl DeepView for SshImportWarning {
    type V = WarningModel;

    open spec fn deep_view(&self) -> WarningModel {
        self@
    }
}

impl Clone for SshImportWarning {
    fn clone(&self) -> (r: Self)
        ensures
            r@ == self@,
    {
        SshImportWarning { option: self.option.clone(), message: self.message.clone() }
    }
}

/// The display form of a warning: `option: message`.
pub open spec fn spec_warning_text(w: WarningModel) -> Seq<char> {
    w.option + ": "@ + w.message
}

impl SshImportWarning {
    /// The display form: `option: message`.
    pub fn to_display_string(&self) -> (r: String)
        ensures
            r@ == spec_warning_text(self@),
    {
        let a = concat_str(self.option.as_str(), ": ");
        concat_str(a.as_str(), self.message.as_str())
    }
}

/// What an `ssh` command says about its tunnels.
#[derive(Debug, PartialEq, Eq)]
pub struct SshImport {
    pub forwards: Vec<SshLocalForward>,
    pub ssh_user: String,
    pub ssh_host: String,
    pub ssh_port: Option<u16>,
    pub identity_file: Option<String>,
    pub timeouts: TimeoutConfig,
    pub warnings: Vec<SshImportWarning>,
}

/// The mathematical value of an [`SshImport`].
pub ghost struct ImportModel {
    pub forwards: Seq<ForwardModel>,
    pub ssh_user: Seq<char>,
    pub ssh_host: Seq<char>,
    pub ssh_port: Option<u16>,
    pub identity_file: Option<Seq<char>>,
    pub timeouts: TimeoutConfig,
    pub warnings: Seq<WarningModel>,
}

impl View for SshImport {
    type V = ImportModel;

    open spec fn view(&self) -> ImportModel {
        ImportModel {
            forwards: self.forwards.deep_view(),
            ssh_user: self.ssh_user@,
            ssh_host: self.ssh_host@,
            ssh_port: self.ssh_port,
            identity_file: self.identity_file.deep_view(),
            timeouts: self.timeouts,
            warnings: self.warnings.deep_view(),
        }
    }
}

/// Why an `ssh` command cannot be imported.
#[derive(Debug, PartialEq, Eq)]
pub enum SshImportError {
    EmptyCommand,
    InvalidShellSyntax,
    MissingLocalForward,
    MissingSshDestination,
    MissingSshUser,
    MissingOptionValue { option: String },
    InvalidPort { field: &'static str, value: String },
    InvalidLocalForward { value: String },
    UnsupportedForwardOption { option: String },
}

/// The mathematical value of an [`SshImportError`].
pub ghost enum ImportErrorModel {
    EmptyCommand,
    InvalidShellSyntax,
    MissingLocalForward,
    MissingSshDestination,
    MissingSshUser,
    MissingOptionValue { option: Seq<char> },
    InvalidPort { field: Seq<char>, value: Seq<char> },
    InvalidLocalForward { value: Seq<char> },
    UnsupportedForwardOption { option: Seq<char> },
}

impl View for SshImportError {
    type V = ImportErrorModel;

    open spec fn view(&self) -> ImportErrorModel {
        match self {
            SshImportError::EmptyCommand => ImportErrorModel::EmptyCommand,
            SshImportError::InvalidShellSyntax => ImportErrorModel::InvalidShellSyntax,
            SshImportError::MissingLocalForward => ImportErrorModel::MissingLocalForward,
            SshImportError::MissingSshDestination => ImportErrorModel::MissingSshDestination,
            SshImportError::MissingSshUser => ImportErrorModel::MissingSshUser,
            SshImportError::MissingOptionValue { option } => ImportErrorModel::MissingOptionValue { option: option@ },
            SshImportError::InvalidPort { field, value } => ImportErrorModel::InvalidPort {
                field: field@,
                value: value@,
            },
            SshImportError::InvalidLocalForward { value } => ImportErrorModel::InvalidLocalForward { value: value@ },
            SshImportError::UnsupportedForwardOption { option } => ImportErrorModel::UnsupportedForwardOption {
                option: option@,
            },
        }
    }
}

/// The message of an import error.
pub open spec fn spec_import_error_text(e: ImportErrorModel) -> Seq<char> {
    match e {
        ImportErrorModel::EmptyCommand => "SSHコマンドを入力してください"@,
        ImportErrorModel::InvalidShellSyntax => "SSHコマンドのshell構文を解析できませんでした"@,
        ImportErrorModel::MissingLocalForward => "SSHローカルフォワード（-L）が指定されていません"@,
        ImportErrorModel::MissingSshDestination => "SSH接続先ホストが指定されていません"@,
        ImportErrorModel::MissingSshUser =>
            "SSHユーザーが指定されていません。user@host または -l USER を指定してください"@,
        ImportErrorModel::MissingOptionValue { option } => option + " の値が指定されていません"@,
        ImportErrorModel::InvalidPort { field, value } => field + " は1から65535のポート番号で指定してください: "@
            + value,
        ImportErrorModel::InvalidLocalForward { value } => "未対応のローカルフォワード形式です: "@ + value,
        ImportErrorModel::UnsupportedForwardOption { option } => option + " はSSHコマンド取り込みでは未対応です"@,
    }
}

impl SshImportError {
    /// The message of the error.
    pub fn to_display_string(&self) -> (r: String)
        ensures
            r@ == spec_import_error_text(self@),
    {
        match self {
            SshImportError::EmptyCommand => String::from_str("SSHコマンドを入力してください"),
            SshImportError::InvalidShellSyntax => String::from_str("SSHコマンドのshell構文を解析できませんでした"),
            SshImportError::MissingLocalForward => String::from_str("SSHローカルフォワード（-L）が指定されていません"),
            SshImportError::MissingSshDestination => String::from_str("SSH接続先ホストが指定されていません"),
            SshImportError::MissingSshUser => String::from_str(
                "SSHユーザーが指定されていません。user@host または -l USER を指定してください",
            ),
            SshImportError::MissingOptionValue { option } => concat_str(option.as_str(), " の値が指定されていません"),
            SshImportError::InvalidPort { field, value } => {
                let a = concat_str(field, " は1から65535のポート番号で指定してください: ");
                concat_str(a.as_str(), value.as_str())
            },
            SshImportError::InvalidLocalForward { value } => concat_str(
                "未対応のローカルフォワード形式です: ",
                value.as_str(),
            ),
            SshImportError::UnsupportedForwardOption { option } => concat_str(
                option.as_str(),
                " はSSHコマンド取り込みでは未対応です",
            ),
        }
    }
}

// ---------------------------------------------------------------------
// What the import means
// ---------------------------------------------------------------------

/// `v` without one pair of outer square brackets (as around an IPv6
/// address).
pub open spec fn strip_brackets(v: Seq<char>) -> Seq<char> {
    if v.len() >= 2 && v[0] == '[' && v.last() == ']' {
        v.subrange(1, v.len() - 1)
    } else {
        v
    }
}

/// The last position of `c` before `e` in `s` (-1 when none).
pub open spec fn last_index_of(s: Seq<char>, c: char, e: int) -> int
    decreases e,
{
    if e <= 0 {
        -1
    } else if s[e - 1] == c {
        e - 1
    } else {
        last_index_of(s, c, e - 1)
    }
}

/// The first position of `c` at or after `i` in `s` (-1 when none).
pub open spec fn first_index_of(s: Seq<char>, c: char, i: int) -> int
    decreases s.len() - i,
{
    if i < 0 || i >= s.len() {
        -1
    } else if s[i] == c {
        i
    } else {
        first_index_of(s, c, i + 1)
    }
}

/// The user and host of a destination `user@host` (split at the last
/// `@`), or only the host.
pub open spec fn split_destination(v: Seq<char>) -> (Option<Seq<char>>, Seq<char>) {
    let k = last_index_of(v, '@', v.len() as int);
    if k >= 0 {
        (Some(v.subrange(0, k)), strip_brackets(v.subrange(k + 1, v.len() as int)))
    } else {
        (None, strip_brackets(v))
    }
}

/// The key and value of an `-o key=value` option (split at the first
/// `=`); absent when either is blank.
pub open spec fn split_assignment(v: Seq<char>) -> Option<(Seq<char>, Seq<char>)> {
    let k = first_index_of(v, '=', 0);
    if k < 0 {
        None
    } else {
        let key = v.subrange(0, k);
        let value = v.subrange(k + 1, v.len() as int);
        if trim(key).len() == 0 || trim(value).len() == 0 {
            None
        } else {
            Some((key, value))
        }
    }
}

/// `s` without `-` and `_`.
pub open spec fn drop_dashes(s: Seq<char>) -> Seq<char>
    decreases s.len(),
{
    if s.len() == 0 {
        s
    } else if s.last() == '-' || s.last() == '_' {
        drop_dashes(s.drop_last())
    } else {
        drop_dashes(s.drop_last()).push(s.last())
    }
}

/// An option name in the form in which it is compared: without `-` and
/// `_`, in ASCII lower case.
pub open spec fn normalize_option_key(s: Seq<char>) -> Seq<char> {
    lower(drop_dashes(s))
}

/// Whether an argument is an option: it starts with `-` and is not `-`.
pub open spec fn is_option_like(s: Seq<char>) -> bool {
    s.len() >= 2 && s[0] == '-'
}

/// Whether an option is dropped without a warning: `-N`, or `-` followed
/// only by `v`s.
pub open spec fn ignored_silently(s: Seq<char>) -> bool {
    s == "-N"@ || forall|i: int| 1 <= i < s.len() ==> s[i] == 'v'
}

/// The letters of the options that take a value and are not kept.
pub open spec fn value_option_letters() -> Seq<char> {
    "BbcEeFIJmOQSWw"@
}

/// The known option with a value that `s` starts with.
pub open spec fn known_value_option(s: Seq<char>) -> Option<Seq<char>> {
    if s.len() >= 2 && s[0] == '-' && value_option_letters().contains(s[1]) {
        Some(s.subrange(0, 2))
    } else {
        None
    }
}

/// The state of a left-to-right split at `:` outside square brackets
/// after the first `i` characters: the finished parts, the current part,
/// and the bracket depth (counted up to 255 and not below 0).
pub open spec fn colon_split_state(v: Seq<char>, i: int) -> (Seq<Seq<char>>, Seq<char>, nat)
    decreases i,
{
    if i <= 0 {
        (seq![], seq![], 0)
    } else {
        let (parts, cur, depth) = colon_split_state(v, i - 1);
        let c = v[i - 1];
        if c == '[' {
            (parts, cur.push(c), if depth < 255 { (depth + 1) as nat } else { 255 })
        } else if c == ']' {
            (parts, cur.push(c), if depth > 0 { (depth - 1) as nat } else { 0 })
        } else if c == ':' && depth == 0 {
            (parts.push(cur), seq![], depth)
        } else {
            (parts, cur.push(c), depth)
        }
    }
}

/// The parts of `v` between `:` characters that stand outside square
/// brackets.
pub open spec fn colon_parts(v: Seq<char>) -> Seq<Seq<char>> {
    let (parts, cur, _) = colon_split_state(v, v.len() as int);
    parts.push(cur)
}

/// A port number: what `u16` parsing accepts, other than 0.
pub open spec fn spec_parse_port(field: Seq<char>, v: Seq<char>) -> Result<u16, ImportErrorModel> {
    match parse_unsigned(v, 65535) {
        Some(n) => if n > 0 {
            Ok(n as u16)
        } else {
            Err(ImportErrorModel::InvalidPort { field, value: v })
        },
        None => Err(ImportErrorModel::InvalidPort { field, value: v }),
    }
}

/// A `u32` option value.
pub open spec fn spec_parse_u32(field: Seq<char>, v: Seq<char>) -> Result<u32, ImportErrorModel> {
    match parse_unsigned(v, 0xffff_ffff) {
        Some(n) => Ok(n as u32),
        None => Err(ImportErrorModel::InvalidPort { field, value: v }),
    }
}

/// A local forward `[bind_address:]port:host:hostport`; a bind address
/// or host may be in square brackets.
pub open spec fn spec_parse_local_forward(v: Seq<char>) -> Result<ForwardModel, ImportErrorModel> {
    let invalid = ImportErrorModel::InvalidLocalForward { value: v };
    let parts = colon_parts(v);
    if v.len() > 0 && v[0] == '/' {
        Err(invalid)
    } else if parts.len() == 3 {
        match spec_parse_port("local_port"@, parts[0]) {
            Err(e) => Err(e),
            Ok(lp) => match spec_parse_port("remote_port"@, parts[2]) {
                Err(e) => Err(e),
                Ok(rp) => if strip_brackets(parts[1]).len() == 0 {
                    Err(invalid)
                } else {
                    Ok(
                        ForwardModel {
                            local_host: DEFAULT_LOCAL_HOST@,
                            local_port: lp,
                            remote_host: strip_brackets(parts[1]),
                            remote_port: rp,
                        },
                    )
                },
            },
        }
    } else if parts.len() == 4 && parts[0].len() > 0 {
        match spec_parse_port("local_port"@, parts[1]) {
            Err(e) => Err(e),
            Ok(lp) => match spec_parse_port("remote_port"@, parts[3]) {
                Err(e) => Err(e),
                Ok(rp) => if strip_brackets(parts[2]).len() == 0 {
                    Err(invalid)
                } else {
                    Ok(
                        ForwardModel {
                            local_host: strip_brackets(parts[0]),
                            local_port: lp,
                            remote_host: strip_brackets(parts[2]),
                            remote_port: rp,
                        },
                    )
                },
            },
        }
    } else {
        Err(invalid)
    }
}

/// The state of reading the arguments of an `ssh` command.
pub ghost struct ParserModel {
    pub forwards: Seq<ForwardModel>,
    pub explicit_user: Option<Seq<char>>,
    pub ssh_host: Option<Seq<char>>,
    pub ssh_port: Option<u16>,
    pub identity_file: Option<Seq<char>>,
    pub timeouts: TimeoutConfig,
    pub warnings: Seq<WarningModel>,
    pub destination_seen: bool,
    pub stop_option_parsing: bool,
}

/// The state before the first argument.
pub open spec fn initial_parser() -> ParserModel {
    ParserModel {
        forwards: seq![],
        explicit_user: None,
        ssh_host: None,
        ssh_port: None,
        identity_file: None,
        timeouts: TimeoutConfig {
            connect_timeout_seconds: None,
            server_alive_interval_seconds: None,
            server_alive_count_max: None,
            start_grace_milliseconds: None,
        },
        warnings: seq![],
        destination_seen: false,
        stop_option_parsing: false,
    }
}

/// The state with one more warning.
pub open spec fn warned(p: ParserModel, option: Seq<char>, message: Seq<char>) -> ParserModel {
    ParserModel { warnings: p.warnings.push(WarningModel { option, message }), ..p }
}

/// A non-option argument: the first is the destination, the others are
/// the remote command (not kept).
pub open spec fn on_positional(p: ParserModel, v: Seq<char>) -> ParserModel {
    if !p.destination_seen {
        let (user, host) = split_destination(v);
        ParserModel {
            destination_seen: true,
            explicit_user: match user {
                Some(u) => Some(u),
                None => p.explicit_user,
            },
            ssh_host: Some(host),
            ..p
        }
    } else {
        warned(p, v, MSG_REMOTE_COMMAND@)
    }
}

/// The value of the short option `option` at `args[i]`: the rest of the
/// argument (without a leading `=`), or the next argument when the option
/// stands alone; with whether the next argument was used.
pub open spec fn spec_take_value(args: Seq<Seq<char>>, i: int, option: Seq<char>) -> Result<(Seq<char>, bool), ImportErrorModel> {
    let arg = args[i];
    if arg == option {
        if i + 1 < args.len() {
            Ok((args[i + 1], true))
        } else {
            Err(ImportErrorModel::MissingOptionValue { option })
        }
    } else {
        let rest = arg.subrange(option.len() as int, arg.len() as int);
        let v = if rest.len() > 0 && rest[0] == '=' {
            rest.drop_first()
        } else {
            rest
        };
        if v.len() == 0 {
            Err(ImportErrorModel::MissingOptionValue { option })
        } else {
            Ok((v, false))
        }
    }
}

/// An `-o key=value` option: the three timeouts are kept,
/// `ExitOnForwardFailure` is dropped silently, any other key is warned
/// about, and a value that is not `key=value` too.
pub open spec fn on_ssh_option(p: ParserModel, v: Seq<char>) -> Result<ParserModel, ImportErrorModel> {
    match split_assignment(v) {
        None => Ok(warned(p, "-o"@, MSG_NOT_KEY_VALUE@ + v)),
        Some((key, raw)) => {
            let k = normalize_option_key(key);
            if k == "connecttimeout"@ {
                match spec_parse_u32("ConnectTimeout"@, raw) {
                    Err(e) => Err(e),
                    Ok(n) => Ok(ParserModel { timeouts: TimeoutConfig { connect_timeout_seconds: Some(n), ..p.timeouts }, ..p }),
                }
            } else if k == "serveraliveinterval"@ {
                match spec_parse_u32("ServerAliveInterval"@, raw) {
                    Err(e) => Err(e),
                    Ok(n) => Ok(
                        ParserModel {
                            timeouts: TimeoutConfig { server_alive_interval_seconds: Some(n), ..p.timeouts },
                            ..p
                        },
                    ),
                }
            } else if k == "serveralivecountmax"@ {
                match spec_parse_u32("ServerAliveCountMax"@, raw) {
                    Err(e) => Err(e),
                    Ok(n) => Ok(ParserModel { timeouts: TimeoutConfig { server_alive_count_max: Some(n), ..p.timeouts }, ..p }),
                }
            } else if k == "exitonforwardfailure"@ {
                Ok(p)
            } else {
                Ok(warned(p, "-o "@ + key, MSG_NOT_SAVED@))
            }
        },
    }
}

/// Reading the argument at `i`: the new state, and whether the next
/// argument was used as the option's value.
pub open spec fn parse_step(p: ParserModel, args: Seq<Seq<char>>, i: int) -> Result<(ParserModel, bool), ImportErrorModel> {
    let arg = args[i];
    if p.stop_option_parsing || !is_option_like(arg) {
        Ok((on_positional(p, arg), false))
    } else if arg == "--"@ {
        Ok((ParserModel { stop_option_parsing: true, ..p }, false))
    } else if has_prefix(arg, "-L"@) {
        match spec_take_value(args, i, "-L"@) {
            Err(e) => Err(e),
            Ok((v, used)) => match spec_parse_local_forward(v) {
                Err(e) => Err(e),
                Ok(f) => Ok((ParserModel { forwards: p.forwards.push(f), ..p }, used)),
            },
        }
    } else if has_prefix(arg, "-R"@) || has_prefix(arg, "-D"@) {
        Err(ImportErrorModel::UnsupportedForwardOption { option: arg.subrange(0, 2) })
    } else if has_prefix(arg, "-i"@) {
        match spec_take_value(args, i, "-i"@) {
            Err(e) => Err(e),
            Ok((v, used)) => Ok((ParserModel { identity_file: Some(v), ..p }, used)),
        }
    } else if has_prefix(arg, "-p"@) {
        match spec_take_value(args, i, "-p"@) {
            Err(e) => Err(e),
            Ok((v, used)) => match spec_parse_port("ssh_port"@, v) {
                Err(e) => Err(e),
                Ok(port) => Ok((ParserModel { ssh_port: Some(port), ..p }, used)),
            },
        }
    } else if has_prefix(arg, "-l"@) {
        match spec_take_value(args, i, "-l"@) {
            Err(e) => Err(e),
            Ok((v, used)) => Ok((ParserModel { explicit_user: Some(v), ..p }, used)),
        }
    } else if has_prefix(arg, "-o"@) {
        match spec_take_value(args, i, "-o"@) {
            Err(e) => Err(e),
            Ok((v, used)) => match on_ssh_option(p, v) {
                Err(e) => Err(e),
                Ok(q) => Ok((q, used)),
            },
        }
    } else if ignored_silently(arg) {
        Ok((p, false))
    } else {
        match known_value_option(arg) {
            Some(o) => match spec_take_value(args, i, o) {
                Err(e) => Err(e),
                Ok((v, used)) => Ok((warned(p, o, MSG_NOT_SAVED@ + ": "@ + v), used)),
            },
            None => Ok((warned(p, arg, MSG_NOT_SAVED@), false)),
        }
    }
}

/// Reading the arguments from position `i` on, one option (with its
/// value) at a time; the first refused argument ends it.
pub open spec fn parse_from(p: ParserModel, args: Seq<Seq<char>>, i: int) -> Result<ParserModel, ImportErrorModel>
    decreases args.len() - i,
{
    if i < 0 || i >= args.len() {
        Ok(p)
    } else {
        match parse_step(p, args, i) {
            Err(e) => Err(e),
            Ok((q, used)) => parse_from(q, args, if used { i + 2 } else { i + 1 }),
        }
    }
}

/// The import from the final state: it needs a local forward, a
/// destination and a user.
pub open spec fn spec_finish(p: ParserModel) -> Result<ImportModel, ImportErrorModel> {
    if p.forwards.len() == 0 {
        Err(ImportErrorModel::MissingLocalForward)
    } else {
        match p.ssh_host {
            None => Err(ImportErrorModel::MissingSshDestination),
            Some(host) => match p.explicit_user {
                None => Err(ImportErrorModel::MissingSshUser),
                Some(user) => Ok(
                    ImportModel {
                        forwards: p.forwards,
                        ssh_user: user,
                        ssh_host: host,
                        ssh_port: p.ssh_port,
                        identity_file: p.identity_file,
                        timeouts: p.timeouts,
                        warnings: p.warnings,
                    },
                ),
            },
        }
    }
}

/// The arguments without a leading command name whose file name is `ssh`.
pub open spec fn without_command_name(args: Seq<Seq<char>>) -> Seq<Seq<char>> {
    if args.len() > 0 && file_name(args[0]) == Some("ssh"@) {
        args.drop_first()
    } else {
        args
    }
}

/// Importing the arguments of an `ssh` command (with or without the
/// command name).
pub open spec fn spec_parse_ssh_args(args: Seq<Seq<char>>) -> Result<ImportModel, ImportErrorModel> {
    let rest = without_command_name(args);
    if rest.len() == 0 {
        Err(ImportErrorModel::EmptyCommand)
    } else {
        match parse_from(initial_parser(), rest, 0) {
            Err(e) => Err(e),
            Ok(p) => spec_finish(p),
        }
    }
}

/// The mathematical value of an import.
pub open spec fn import_result(r: Result<SshImport, SshImportError>) -> Result<ImportModel, ImportErrorModel> {
    match r {
        Ok(i) => Ok(i@),
        Err(e) => Err(e@),
    }
}

// ---------------------------------------------------------------------
// Reading the command
// ---------------------------------------------------------------------

/// `v` without one pair of outer square brackets.
fn strip_brackets_str(v: &str) -> (r: String)
    ensures
        r@ == strip_brackets(v@),
{
    let cs = chars_of(v);
    let n = cs.len();
    if n >= 2 && cs[0] == '[' && cs[n - 1] == ']' {
        string_of_range(&cs, 1, n - 1)
    } else {
        string_of_range(&cs, 0, n)
    }
}

proof fn lemma_last_index_bounds(s: Seq<char>, c: char, e: int)
    requires
        0 <= e <= s.len(),
    ensures
        -1 <= last_index_of(s, c, e) < e,
        last_index_of(s, c, e) >= 0 ==> s[last_index_of(s, c, e)] == c,
    decreases e,
{
    if e > 0 && s[e - 1] != c {
        lemma_last_index_bounds(s, c, e - 1);
    }
}

proof fn lemma_first_index_bounds(s: Seq<char>, c: char, i: int)
    requires
        0 <= i <= s.len(),
    ensures
        first_index_of(s, c, i) == -1 || (i <= first_index_of(s, c, i) < s.len()),
    decreases s.len() - i,
{
    if i < s.len() && s[i] != c {
        lemma_first_index_bounds(s, c, i + 1);
    }
}

/// The last position of `c` in `cs`.
fn last_index_of_char(cs: &Vec<char>, c: char) -> (r: Option<usize>)
    ensures
        match r {
            Some(k) => last_index_of(cs@, c, cs@.len() as int) == k as int && k < cs@.len(),
            None => last_index_of(cs@, c, cs@.len() as int) == -1,
        },
{
    proof {
        lemma_last_index_bounds(cs@, c, cs@.len() as int);
    }
    let mut k = cs.len();
    while k > 0 && cs[k - 1] != c
        invariant
            k <= cs@.len(),
            last_index_of(cs@, c, cs@.len() as int) == last_index_of(cs@, c, k as int),
        decreases k,
    {
        k -= 1;
    }
    if k == 0 {
        None
    } else {
        Some(k - 1)
    }
}

/// The first position of `c` in `cs`.
fn first_index_of_char(cs: &Vec<char>, c: char) -> (r: Option<usize>)
    ensures
        match r {
            Some(k) => first_index_of(cs@, c, 0) == k as int && k < cs@.len(),
            None => first_index_of(cs@, c, 0) == -1,
        },
{
    proof {
        lemma_first_index_bounds(cs@, c, 0);
    }
    let mut i: usize = 0;
    while i < cs.len() && cs[i] != c
        invariant
            i <= cs@.len(),
            first_index_of(cs@, c, 0) == first_index_of(cs@, c, i as int),
        decreases cs@.len() - i,
    {
        i += 1;
    }
    if i == cs.len() {
        None
    } else {
        Some(i)
    }
}

/// The user and host of a destination `user@host`, or only the host.
fn split_destination_str(v: &str) -> (r: (Option<String>, String))
    ensures
        (r.0.deep_view(), r.1@) == split_destination(v@),
{
    let cs = chars_of(v);
    let n = cs.len();
    match last_index_of_char(&cs, '@') {
        Some(k) => {
            assert(k < n);
            let user = string_of_range(&cs, 0, k);
            let host = string_of_range(&cs, k + 1, cs.len());
            (Some(user), strip_brackets_str(host.as_str()))
        },
        None => (None, strip_brackets_str(v)),
    }
}

/// The key and value of an `-o key=value` option.
fn split_assignment_str(v: &str) -> (r: Option<(String, String)>)
    ensures
        match r {
            Some((k, x)) => split_assignment(v@) == Some((k@, x@)),
            None => split_assignment(v@) is None,
        },
{
    let cs = chars_of(v);
    let n = cs.len();
    match first_index_of_char(&cs, '=') {
        None => None,
        Some(k) => {
            assert(k < n);
            let key = string_of_range(&cs, 0, k);
            let value = string_of_range(&cs, k + 1, cs.len());
            if is_blank(key.as_str()) || is_blank(value.as_str()) {
                None
            } else {
                Some((key, value))
            }
        },
    }
}

/// An option name without `-` and `_`, in ASCII lower case.
fn normalize_option_key_str(s: &str) -> (r: String)
    ensures
        r@ == normalize_option_key(s@),
{
    let cs = chars_of(s);
    let mut r = String::new();
    let mut i: usize = 0;
    while i < cs.len()
        invariant
            cs@ == s@,
            i <= cs@.len(),
            r@ == lower(drop_dashes(s@.subrange(0, i as int))),
        decreases cs@.len() - i,
    {
        let c = cs[i];
        let ghost prev = s@.subrange(0, i as int);
        assert(s@.subrange(0, i + 1).drop_last() =~= prev);
        if c != '-' && c != '_' {
            push_char(&mut r, char_to_ascii_lowercase(c));
            assert(lower(drop_dashes(prev).push(c)) =~= lower(drop_dashes(prev)).push(lower_char(c)));
        }
        i += 1;
    }
    assert(s@.subrange(0, i as int) =~= s@);
    r
}

/// Whether an argument is an option.
fn is_option_like_str(s: &str) -> (r: bool)
    ensures
        r == is_option_like(s@),
{
    let cs = chars_of(s);
    cs.len() >= 2 && cs[0] == '-'
}

/// Whether an option is dropped without a warning.
fn ignored_silently_str(s: &str) -> (r: bool)
    ensures
        r == ignored_silently(s@),
{
    if str_eq(s, "-N") {
        return true;
    }
    let cs = chars_of(s);
    let mut i: usize = 1;
    let mut all_v = true;
    while i < cs.len()
        invariant
            cs@ == s@,
            1 <= i,
            i <= cs@.len() || cs@.len() == 0,
            all_v == forall|j: int| 1 <= j < i && j < cs@.len() ==> cs@[j] == 'v',
        decreases cs@.len() - i,
    {
        if cs[i] != 'v' {
            all_v = false;
        }
        i += 1;
    }
    all_v
}

/// The known option with a value that `s` starts with.
fn known_value_option_str(s: &str) -> (r: Option<String>)
    ensures
        r.deep_view() == known_value_option(s@),
{
    let cs = chars_of(s);
    if cs.len() < 2 || cs[0] != '-' {
        return None;
    }
    let letters = chars_of("BbcEeFIJmOQSWw");
    let mut i: usize = 0;
    let mut found = false;
    while i < letters.len()
        invariant
            letters@ == value_option_letters(),
            i <= letters@.len(),
            cs@.len() >= 2,
            found == exists|j: int| 0 <= j < i && letters@[j] == cs@[1],
        decreases letters@.len() - i,
    {
        if letters[i] == cs[1] {
            found = true;
        }
        i += 1;
    }
    proof {
        if found {
            let j = choose|j: int| 0 <= j < i && letters@[j] == cs@[1];
            assert(value_option_letters().contains(cs@[1]));
        }
    }
    if found {
        Some(string_of_range(&cs, 0, 2))
    } else {
        None
    }
}

/// The parts of `v` between `:` characters outside square brackets.
fn colon_parts_str(v: &str) -> (r: Vec<String>)
    ensures
        r.deep_view() == colon_parts(v@),
{
    let cs = chars_of(v);
    let mut parts: Vec<String> = Vec::new();
    let mut cur = String::new();
    let mut depth: u8 = 0;
    let mut i: usize = 0;
    while i < cs.len()
        invariant
            cs@ == v@,
            i <= cs@.len(),
            colon_split_state(v@, i as int) == (parts.deep_view(), cur@, depth as nat),
        decreases cs@.len() - i,
    {
        let c = cs[i];
        let ghost before = parts.deep_view();
        if c == '[' {
            depth = depth.saturating_add(1);
            push_char(&mut cur, c);
        } else if c == ']' {
            depth = depth.saturating_sub(1);
            push_char(&mut cur, c);
        } else if c == ':' && depth == 0 {
            let done = cur;
            cur = String::new();
            parts.push(done);
            assert(parts.deep_view() =~= before.push(done@));
        } else {
            push_char(&mut cur, c);
        }
        i += 1;
    }
    let ghost before = parts.deep_view();
    parts.push(cur);
    assert(parts.deep_view() =~= before.push(cur@));
    parts
}

/// A port number: what `u16` parsing accepts, other than 0.
fn parse_port(field: &'static str, v: &str) -> (r: Result<u16, SshImportError>)
    ensures
        match r {
            Ok(p) => spec_parse_port(field@, v@) == Ok::<u16, ImportErrorModel>(p),
            Err(e) => spec_parse_port(field@, v@) == Err::<u16, ImportErrorModel>(e@),
        },
{
    match parse_unsigned_str(v, 65535) {
        Some(n) => if n > 0 {
            Ok(n as u16)
        } else {
            Err(SshImportError::InvalidPort { field, value: String::from_str(v) })
        },
        None => Err(SshImportError::InvalidPort { field, value: String::from_str(v) }),
    }
}

/// A `u32` option value.
fn parse_u32_option(field: &'static str, v: &str) -> (r: Result<u32, SshImportError>)
    ensures
        match r {
            Ok(n) => spec_parse_u32(field@, v@) == Ok::<u32, ImportErrorModel>(n),
            Err(e) => spec_parse_u32(field@, v@) == Err::<u32, ImportErrorModel>(e@),
        },
{
    match parse_unsigned_str(v, 0xffff_ffff) {
        Some(n) => Ok(n as u32),
        None => Err(SshImportError::InvalidPort { field, value: String::from_str(v) }),
    }
}

/// The mathematical value of a parsed forward.
pub open spec fn forward_result(r: Result<SshLocalForward, SshImportError>) -> Result<ForwardModel, ImportErrorModel> {
    match r {
        Ok(f) => Ok(f@),
        Err(e) => Err(e@),
    }
}

/// A local forward `[bind_address:]port:host:hostport`.
pub fn parse_local_forward(v: &str) -> (r: Result<SshLocalForward, SshImportError>)
    ensures
        forward_result(r) == spec_parse_local_forward(v@),
{
    let cs = chars_of(v);
    if cs.len() > 0 && cs[0] == '/' {
        return Err(SshImportError::InvalidLocalForward { value: String::from_str(v) });
    }
    let parts = colon_parts_str(v);
    let ghost pv = parts.deep_view();
    let (local_host, local_port, remote_host, remote_port) = if parts.len() == 3 {
        assert(pv[0] == parts@[0]@ && pv[1] == parts@[1]@ && pv[2] == parts@[2]@);
        let lp = match parse_port("local_port", parts[0].as_str()) {
            Err(e) => {
                return Err(e);
            },
            Ok(p) => p,
        };
        let rp = match parse_port("remote_port", parts[2].as_str()) {
            Err(e) => {
                return Err(e);
            },
            Ok(p) => p,
        };
        (String::from_str(DEFAULT_LOCAL_HOST), lp, strip_brackets_str(parts[1].as_str()), rp)
    } else if parts.len() == 4 && parts[0].as_str().unicode_len() > 0 {
        assert(pv[0] == parts@[0]@ && pv[1] == parts@[1]@ && pv[2] == parts@[2]@ && pv[3] == parts@[3]@);
        let lp = match parse_port("local_port", parts[1].as_str()) {
            Err(e) => {
                return Err(e);
            },
            Ok(p) => p,
        };
        let rp = match parse_port("remote_port", parts[3].as_str()) {
            Err(e) => {
                return Err(e);
            },
            Ok(p) => p,
        };
        (strip_brackets_str(parts[0].as_str()), lp, strip_brackets_str(parts[2].as_str()), rp)
    } else {
        return Err(SshImportError::InvalidLocalForward { value: String::from_str(v) });
    };
    if remote_host.as_str().unicode_len() == 0 {
        return Err(SshImportError::InvalidLocalForward { value: String::from_str(v) });
    }
    Ok(SshLocalForward { local_host, local_port, remote_host, remote_port })
}

/// The state of reading the arguments of an `ssh` command.
struct SshArgParser {
    forwards: Vec<SshLocalForward>,
    explicit_user: Option<String>,
    ssh_host: Option<String>,
    ssh_port: Option<u16>,
    identity_file: Option<String>,
    timeouts: TimeoutConfig,
    warnings: Vec<SshImportWarning>,
    destination_seen: bool,
    stop_option_parsing: bool,
}

impl View for SshArgParser {
    type V = ParserModel;

    closed spec fn view(&self) -> ParserModel {
        ParserModel {
            forwards: self.forwards.deep_view(),
            explicit_user: self.explicit_user.deep_view(),
            ssh_host: self.ssh_host.deep_view(),
            ssh_port: self.ssh_port,
            identity_file: self.identity_file.deep_view(),
            timeouts: self.timeouts,
            warnings: self.warnings.deep_view(),
            destination_seen: self.destination_seen,
            stop_option_parsing: self.stop_option_parsing,
        }
    }
}

/// The mathematical value of a step of reading.
spec fn parser_result(r: Result<SshArgParser, SshImportError>) -> Result<ParserModel, ImportErrorModel> {
    match r {
        Ok(p) => Ok(p@),
        Err(e) => Err(e@),
    }
}

/// The mathematical value of a step that may use the next argument.
spec fn step_result(r: Result<(SshArgParser, bool), SshImportError>) -> Result<(ParserModel, bool), ImportErrorModel> {
    match r {
        Ok((p, used)) => Ok((p@, used)),
        Err(e) => Err(e@),
    }
}

/// The state before the first argument.
fn new_parser() -> (r: SshArgParser)
    ensures
        r@ == initial_parser(),
{
    let r = SshArgParser {
        forwards: Vec::new(),
        explicit_user: None,
        ssh_host: None,
        ssh_port: None,
        identity_file: None,
        timeouts: TimeoutConfig {
            connect_timeout_seconds: None,
            server_alive_interval_seconds: None,
            server_alive_count_max: None,
            start_grace_milliseconds: None,
        },
        warnings: Vec::new(),
        destination_seen: false,
        stop_option_parsing: false,
    };
    assert(r.forwards.deep_view() =~= Seq::<ForwardModel>::empty());
    assert(r.warnings.deep_view() =~= Seq::<WarningModel>::empty());
    r
}

/// The state with one more warning.
fn warn(p: SshArgParser, option: String, message: String) -> (r: SshArgParser)
    ensures
        r@ == warned(p@, option@, message@),
{
    let mut p = p;
    let ghost before = p.warnings.deep_view();
    let w = SshImportWarning { option, message };
    let ghost wv = w@;
    p.warnings.push(w);
    assert(p.warnings.deep_view() =~= before.push(wv));
    p
}

/// A non-option argument.
fn handle_positional(p: SshArgParser, v: &str) -> (r: SshArgParser)
    ensures
        r@ == on_positional(p@, v@),
{
    let mut p = p;
    if !p.destination_seen {
        p.destination_seen = true;
        let (user, host) = split_destination_str(v);
        match user {
            Some(u) => {
                p.explicit_user = Some(u);
            },
            None => {},
        }
        p.ssh_host = Some(host);
        p
    } else {
        warn(p, String::from_str(v), String::from_str(MSG_REMOTE_COMMAND))
    }
}

/// An `-o key=value` option.
fn handle_ssh_option(p: SshArgParser, v: &str) -> (r: Result<SshArgParser, SshImportError>)
    ensures
        parser_result(r) == on_ssh_option(p@, v@),
{
    let mut p = p;
    match split_assignment_str(v) {
        None => Ok(warn(p, String::from_str("-o"), concat_str(MSG_NOT_KEY_VALUE, v))),
        Some((key, raw)) => {
            let k = normalize_option_key_str(key.as_str());
            if str_eq(k.as_str(), "connecttimeout") {
                match parse_u32_option("ConnectTimeout", raw.as_str()) {
                    Err(e) => Err(e),
                    Ok(n) => {
                        p.timeouts.connect_timeout_seconds = Some(n);
                        Ok(p)
                    },
                }
            } else if str_eq(k.as_str(), "serveraliveinterval") {
                match parse_u32_option("ServerAliveInterval", raw.as_str()) {
                    Err(e) => Err(e),
                    Ok(n) => {
                        p.timeouts.server_alive_interval_seconds = Some(n);
                        Ok(p)
                    },
                }
            } else if str_eq(k.as_str(), "serveralivecountmax") {
                match parse_u32_option("ServerAliveCountMax", raw.as_str()) {
                    Err(e) => Err(e),
                    Ok(n) => {
                        p.timeouts.server_alive_count_max = Some(n);
                        Ok(p)
                    },
                }
            } else if str_eq(k.as_str(), "exitonforwardfailure") {
                Ok(p)
            } else {
                Ok(warn(p, concat_str("-o ", key.as_str()), String::from_str(MSG_NOT_SAVED)))
            }
        },
    }
}

/// The value of the short option `option` at `args[i]`, with whether the
/// next argument was used.
fn take_short_option_value(args: &[String], i: usize, option: &str) -> (r: Result<(String, bool), SshImportError>)
    requires
        i < args@.len(),
        has_prefix(args@[i as int]@, option@),
    ensures
        match r {
            Ok((v, used)) => spec_take_value(args.deep_view(), i as int, option@) == Ok::<(Seq<char>, bool), ImportErrorModel>((v@, used)),
            Err(e) => spec_take_value(args.deep_view(), i as int, option@) == Err::<(Seq<char>, bool), ImportErrorModel>(e@),
        },
{
    let ghost av = args.deep_view();
    assert(av[i as int] == args@[i as int]@);
    let arg = args[i].as_str();
    if str_eq(arg, option) {
        if i + 1 < args.len() {
            assert(av[i + 1] == args@[i + 1]@);
            Ok((args[i + 1].clone(), true))
        } else {
            Err(SshImportError::MissingOptionValue { option: String::from_str(option) })
        }
    } else {
        let cs = chars_of(arg);
        let olen = option.unicode_len();
        let start = if olen < cs.len() && cs[olen] == '=' {
            olen + 1
        } else {
            olen
        };
        proof {
            let rest = arg@.subrange(option@.len() as int, arg@.len() as int);
            if olen < cs.len() && cs@[olen as int] == '=' {
                assert(rest.drop_first() =~= arg@.subrange(start as int, arg@.len() as int));
            } else {
                assert(rest =~= arg@.subrange(start as int, arg@.len() as int));
            }
        }
        if start >= cs.len() {
            Err(SshImportError::MissingOptionValue { option: String::from_str(option) })
        } else {
            Ok((string_of_range(&cs, start, cs.len()), false))
        }
    }
}

/// Reading an option argument other than `--` at `args[i]`.
fn option_step(p: SshArgParser, args: &[String], i: usize) -> (r: Result<(SshArgParser, bool), SshImportError>)
    requires
        i < args@.len(),
        !p@.stop_option_parsing,
        is_option_like(args@[i as int]@),
        args@[i as int]@ != "--"@,
    ensures
        step_result(r) == parse_step(p@, args.deep_view(), i as int),
{
    let ghost av = args.deep_view();
    assert(av[i as int] == args@[i as int]@);
    proof {
        reveal_strlit("-L");
        reveal_strlit("-R");
        reveal_strlit("-D");
    }
    let arg = args[i].as_str();
    let mut p = p;
    if starts_with_str(arg, "-L") {
        let (v, used) = match take_short_option_value(args, i, "-L") {
            Err(e) => {
                return Err(e);
            },
            Ok(x) => x,
        };
        let f = match parse_local_forward(v.as_str()) {
            Err(e) => {
                return Err(e);
            },
            Ok(f) => f,
        };
        let ghost before = p.forwards.deep_view();
        let ghost fv = f@;
        p.forwards.push(f);
        assert(p.forwards.deep_view() =~= before.push(fv));
        Ok((p, used))
    } else if starts_with_str(arg, "-R") || starts_with_str(arg, "-D") {
        let cs = chars_of(arg);
        Err(SshImportError::UnsupportedForwardOption { option: string_of_range(&cs, 0, 2) })
    } else if starts_with_str(arg, "-i") {
        let (v, used) = match take_short_option_value(args, i, "-i") {
            Err(e) => {
                return Err(e);
            },
            Ok(x) => x,
        };
        p.identity_file = Some(v);
        Ok((p, used))
    } else if starts_with_str(arg, "-p") {
        let (v, used) = match take_short_option_value(args, i, "-p") {
            Err(e) => {
                return Err(e);
            },
            Ok(x) => x,
        };
        let port = match parse_port("ssh_port", v.as_str()) {
            Err(e) => {
                return Err(e);
            },
            Ok(port) => port,
        };
        p.ssh_port = Some(port);
        Ok((p, used))
    } else if starts_with_str(arg, "-l") {
        let (v, used) = match take_short_option_value(args, i, "-l") {
            Err(e) => {
                return Err(e);
            },
            Ok(x) => x,
        };
        p.explicit_user = Some(v);
        Ok((p, used))
    } else if starts_with_str(arg, "-o") {
        let (v, used) = match take_short_option_value(args, i, "-o") {
            Err(e) => {
                return Err(e);
            },
            Ok(x) => x,
        };
        match handle_ssh_option(p, v.as_str()) {
            Err(e) => Err(e),
            Ok(q) => Ok((q, used)),
        }
    } else if ignored_silently_str(arg) {
        Ok((p, false))
    } else {
        match known_value_option_str(arg) {
            Some(o) => {
                proof {
                    assert(has_prefix(arg@, o@)) by {
                        assert(arg@.subrange(0, 2) =~= o@);
                    }
                }
                let (v, used) = match take_short_option_value(args, i, o.as_str()) {
                    Err(e) => {
                        return Err(e);
                    },
                    Ok(x) => x,
                };
                let a = concat_str(MSG_NOT_SAVED, ": ");
                let message = concat_str(a.as_str(), v.as_str());
                Ok((warn(p, o, message), used))
            },
            None => Ok((warn(p, String::from_str(arg), String::from_str(MSG_NOT_SAVED)), false)),
        }
    }
}

/// Reading the argument at `args[i]`.
fn parse_one(p: SshArgParser, args: &[String], i: usize) -> (r: Result<(SshArgParser, bool), SshImportError>)
    requires
        i < args@.len(),
    ensures
        step_result(r) == parse_step(p@, args.deep_view(), i as int),
        r matches Ok((_, used)) && used ==> i + 1 < args@.len(),
{
    let ghost av = args.deep_view();
    assert(av[i as int] == args@[i as int]@);
    let arg = args[i].as_str();
    if p.stop_option_parsing || !is_option_like_str(arg) {
        Ok((handle_positional(p, arg), false))
    } else if str_eq(arg, "--") {
        let mut p = p;
        p.stop_option_parsing = true;
        Ok((p, false))
    } else {
        option_step(p, args, i)
    }
}

/// Reading all the arguments.
fn parse_args(args: &[String]) -> (r: Result<SshArgParser, SshImportError>)
    ensures
        parser_result(r) == parse_from(initial_parser(), args.deep_view(), 0),
{
    let ghost av = args.deep_view();
    let mut p = new_parser();
    let mut i: usize = 0;
    loop
        invariant
            av == args.deep_view(),
            i <= args@.len(),
            parse_from(initial_parser(), av, 0) == parse_from(p@, av, i as int),
        decreases args@.len() - i,
    {
        if i >= args.len() {
            return Ok(p);
        }
        match parse_one(p, args, i) {
            Err(e) => {
                return Err(e);
            },
            Ok((q, used)) => {
                p = q;
                i = if used {
                    i + 2
                } else {
                    i + 1
                };
            },
        }
    }
}

/// The import from the final state.
fn finish(p: SshArgParser) -> (r: Result<SshImport, SshImportError>)
    ensures
        import_result(r) == spec_finish(p@),
{
    if p.forwards.len() == 0 {
        return Err(SshImportError::MissingLocalForward);
    }
    let ssh_host = match p.ssh_host {
        None => {
            return Err(SshImportError::MissingSshDestination);
        },
        Some(h) => h,
    };
    let ssh_user = match p.explicit_user {
        None => {
            return Err(SshImportError::MissingSshUser);
        },
        Some(u) => u,
    };
    Ok(
        SshImport {
            forwards: p.forwards,
            ssh_user,
            ssh_host,
            ssh_port: p.ssh_port,
            identity_file: p.identity_file,
            timeouts: p.timeouts,
            warnings: p.warnings,
        },
    )
}

/// Imports the arguments of an `ssh` command, with or without the command
/// name (an argument whose file name is `ssh`).
pub fn parse_ssh_args(args: &[String]) -> (r: Result<SshImport, SshImportError>)
    ensures
        import_result(r) == spec_parse_ssh_args(args.deep_view()),
{
    let ghost av = args.deep_view();
    let skip_first = if args.len() > 0 {
        assert(av[0] == args@[0]@);
        match crate::paths::file_name_of(args[0].as_str()) {
            Some(name) => str_eq(name.as_str(), "ssh"),
            None => false,
        }
    } else {
        false
    };
    let rest: &[String] = if skip_first {
        vstd::slice::slice_subrange(args, 1, args.len())
    } else {
        args
    };
    proof {
        if skip_first {
            assert(rest.deep_view() =~= av.drop_first());
        }
        assert(rest.deep_view() == without_command_name(av));
    }
    if rest.len() == 0 {
        return Err(SshImportError::EmptyCommand);
    }
    match parse_args(rest) {
        Err(e) => Err(e),
        Ok(p) => finish(p),
    }
}

/// The words of a command line as a POSIX shell splits them, or `None`
/// when its quoting is broken.
pub uninterp spec fn shell_words(line: Seq<char>) -> Option<Seq<Seq<char>>>;

/// `shlex::split`: the words of `line` as a POSIX shell splits them, or
/// `None` when its quoting is broken. Its result is named by
/// [`shell_words`] and depends on `line` alone; nothing more is claimed.
#[verifier::external_body]
fn split_shell_words(line: &str) -> (r: Option<Vec<String>>)
    ensures
        r.deep_view() == shell_words(line@),
{
    shlex::split(line)
}

/// Imports a command line already split into words: `None` (broken
/// quoting) is [`SshImportError::InvalidShellSyntax`].
pub fn parse_shell_words(words: Option<Vec<String>>) -> (r: Result<SshImport, SshImportError>)
    ensures
        import_result(r) == match words.deep_view() {
            None => Err(ImportErrorModel::InvalidShellSyntax),
            Some(args) => spec_parse_ssh_args(args),
        },
{
    match words {
        None => Err(SshImportError::InvalidShellSyntax),
        Some(args) => {
            let sl = args.as_slice();
            proof {
                assert(sl.deep_view() =~= args.deep_view());
            }
            parse_ssh_args(sl)
        },
    }
}

/// Importing a command line: refused when blank, else split as a shell
/// would and imported.
pub open spec fn spec_parse_ssh_command(command: Seq<char>) -> Result<ImportModel, ImportErrorModel> {
    if trim(command).len() == 0 {
        Err(ImportErrorModel::EmptyCommand)
    } else {
        match shell_words(command) {
            None => Err(ImportErrorModel::InvalidShellSyntax),
            Some(args) => spec_parse_ssh_args(args),
        }
    }
}

/// Imports an `ssh` command line.
pub fn parse_ssh_command(command: &str) -> (r: Result<SshImport, SshImportError>)
    ensures
        import_result(r) == spec_parse_ssh_command(command@),
{
    if is_blank(command) {
        return Err(SshImportError::EmptyCommand);
    }
    parse_shell_words(split_shell_words(command))
}

/// The tunnel for one forward of an import.
pub open spec fn spec_tunnel_config(
    import: ImportModel,
    forward: ForwardModel,
    name: Seq<char>,
    description: Option<Seq<char>>,
    tags: Seq<Seq<char>>,
) -> TunnelModel {
    TunnelModel {
        name,
        enabled: true,
        description,
        tags,
        local_host: Some(forward.local_host),
        local_port: forward.local_port,
        remote_host: forward.remote_host,
        remote_port: forward.remote_port,
        ssh_user: import.ssh_user,
        ssh_host: import.ssh_host,
        ssh_port: import.ssh_port,
        identity_file: import.identity_file,
        timeouts: import.timeouts,
    }
}

impl SshImport {
    /// The tunnel for one forward of this import, with the given name,
    /// description and tags.
    pub fn tunnel_config(
        &self,
        forward: &SshLocalForward,
        name: String,
        description: Option<String>,
        tags: Vec<String>,
    ) -> (r: TunnelConfig)
        ensures
            r@ == spec_tunnel_config(self@, forward@, name@, description.deep_view(), tags.deep_view()),
    {
        TunnelConfig {
            name,
            enabled: true,
            description,
            tags,
            local_host: Some(forward.local_host.clone()),
            local_port: forward.local_port,
            remote_host: forward.remote_host.clone(),
            remote_port: forward.remote_port,
            ssh_user: self.ssh_user.clone(),
            ssh_host: self.ssh_host.clone(),
            ssh_port: self.ssh_port,
            identity_file: clone_opt_string(&self.identity_file),
            timeouts: self.timeouts,
        }
    }
}

/// Whether `c` is a lower-case hexadecimal digit.
pub open spec fn is_lower_hex(c: char) -> bool {
    ('0' <= c && c <= '9') || ('a' <= c && c <= 'f')
}

/// A fresh random identifier: `uuid::Uuid::new_v4().simple().to_string()`,
/// 32 lower-case hexadecimal digits. Which digits come out is left open.
#[verifier::external_body]
fn random_simple_uuid() -> (r: String)
    ensures
        r@.len() == 32,
        forall|i: int| 0 <= i < 32 ==> is_lower_hex(#[trigger] r@[i]),
{
    uuid::Uuid::new_v4().simple().to_string()
}

/// The name of an imported tunnel drawn from an identifier: `tunnel-`
/// followed by its first 8 characters.
pub fn import_tunnel_name_from_id(id: &str) -> (r: String)
    requires
        id@.len() >= 8,
    ensures
        r@ == "tunnel-"@ + id@.subrange(0, 8),
{
    let cs = chars_of(id);
    let head = string_of_range(&cs, 0, 8);
    concat_str("tunnel-", head.as_str())
}

/// A fresh name for an imported tunnel: `tunnel-` followed by 8 random
/// lower-case hexadecimal digits.
pub fn generate_import_tunnel_name() -> (r: String)
    ensures
        r@.len() == 15,
        r@.subrange(0, 7) == "tunnel-"@,
        forall|i: int| 7 <= i < 15 ==> is_lower_hex(#[trigger] r@[i]),
{
    let id = random_simple_uuid();
    let r = import_tunnel_name_from_id(id.as_str());
    proof {
        reveal_strlit("tunnel-");
        assert(r@.subrange(0, 7) =~= "tunnel-"@);
        assert forall|i: int| 7 <= i < 15 implies is_lower_hex(#[trigger] r@[i]) by {
            assert(r@[i] == id@[i - 7]);
        }
    }
    r
}

/// The command name is optional: putting `ssh` (or a path whose file name
/// is `ssh`) in front of arguments that do not start with it changes
/// nothing of the import.
pub proof fn lemma_command_name_is_optional(command: Seq<char>, args: Seq<Seq<char>>)
    requires
        file_name(command) == Some("ssh"@),
        without_command_name(args) == args,
    ensures
        spec_parse_ssh_args(seq![command] + args) == spec_parse_ssh_args(args),
{
    assert((seq![command] + args).drop_first() =~= args);
}

// ---------------------------------------------------------------------
// Turning an import into tunnels
// ---------------------------------------------------------------------

/// How imported tunnels are named.
#[derive(Debug, PartialEq, Eq)]
pub enum ImportNaming {
    /// This name, for the only forward.
    Name(String),
    /// `PREFIX-1`, `PREFIX-2`, ... in the order of the forwards.
    Prefix(String),
    /// A fresh `tunnel-<8 hex digits>` name for each forward.
    Generated,
}

/// Why imported tunnels cannot be named as asked.
#[derive(Debug, Clone, Copy, PartialEq, Eq, Structural)]
pub enum ImportNamingError {
    /// A single name was given for a command with several (or no) forwards.
    NameNeedsSingleForward,
}

impl ImportNamingError {
    /// The message of the error.
    pub fn to_display_string(&self) -> (r: String)
        ensures
            r@ == "--name can be used only when the command has a single -L; use --name-prefix for several"@,
    {
        String::from_str("--name can be used only when the command has a single -L; use --name-prefix for several")
    }
}

/// The tags of imported tunnels: `imported` first unless left out, then
/// the tags asked for.
pub open spec fn spec_import_tags(tags: Seq<Seq<char>>, import_tag: bool) -> Seq<Seq<char>> {
    if import_tag {
        seq![DEFAULT_IMPORT_TAG@] + tags
    } else {
        tags
    }
}

/// Whether a name has the form of a generated one: `tunnel-` and 8
/// lower-case hexadecimal digits.
pub open spec fn is_generated_name(name: Seq<char>) -> bool {
    &&& name.len() == 15
    &&& name.subrange(0, 7) == "tunnel-"@
    &&& forall|i: int| 7 <= i < 15 ==> is_lower_hex(#[trigger] name[i])
}

/// The name of the `i`-th imported tunnel with a prefix: `PREFIX-<i + 1>`.
pub open spec fn prefixed_name(prefix: Seq<char>, i: int) -> Seq<char> {
    prefix + "-"@ + decimal((i + 1) as nat)
}

/// Whether `name` is what the naming gives the `i`-th forward.
pub open spec fn named_as(naming: ImportNaming, i: int, name: Seq<char>) -> bool {
    match naming {
        ImportNaming::Name(n) => name == n@,
        ImportNaming::Prefix(p) => name == prefixed_name(p@, i),
        ImportNaming::Generated => is_generated_name(name),
    }
}

/// The tunnels of an import, one per forward in order, named as asked and
/// tagged with `imported` (unless `import_tag` is false) and the given
/// tags; refused when a single name is given for a number of forwards
/// other than one.
pub fn import_tunnel_configs(
    import: &SshImport,
    naming: &ImportNaming,
    tags: &Vec<String>,
    import_tag: bool,
) -> (r: Result<Vec<TunnelConfig>, ImportNamingError>)
    requires
        import@.forwards.len() < usize::MAX,
    ensures
        r is Err <==> (naming is Name && import@.forwards.len() != 1),
        r matches Ok(ts) ==> {
            &&& ts@.len() == import@.forwards.len()
            &&& forall|i: int|
                0 <= i < ts@.len() ==> named_as(*naming, i, (#[trigger] ts@[i]).name@) && ts@[i]@
                    == spec_tunnel_config(
                    import@,
                    import@.forwards[i],
                    ts@[i].name@,
                    None,
                    spec_import_tags(tags.deep_view(), import_tag),
                )
        },
{
    let n = import.forwards.len();
    if let ImportNaming::Name(_) = naming {
        if n != 1 {
            return Err(ImportNamingError::NameNeedsSingleForward);
        }
    }
    let ghost tv = spec_import_tags(tags.deep_view(), import_tag);
    let mut out: Vec<TunnelConfig> = Vec::new();
    let mut i: usize = 0;
    while i < n
        invariant
            n == import@.forwards.len(),
            n < usize::MAX,
            naming is Name ==> n == 1,
            tv == spec_import_tags(tags.deep_view(), import_tag),
            i <= n,
            out@.len() == i,
            forall|k: int|
                0 <= k < i ==> named_as(*naming, k, (#[trigger] out@[k]).name@) && out@[k]@ == spec_tunnel_config(
                    import@,
                    import@.forwards[k],
                    out@[k].name@,
                    None,
                    tv,
                ),
        decreases n - i,
    {
        let name = match naming {
            ImportNaming::Name(n) => n.clone(),
            ImportNaming::Prefix(p) => {
                let a = concat_str(p.as_str(), "-");
                concat_str(a.as_str(), decimal_string((i + 1) as u64).as_str())
            },
            ImportNaming::Generated => generate_import_tunnel_name(),
        };
        proof {
            reveal_strlit("tunnel-");
            if naming is Generated {
                assert(is_generated_name(name@));
            }
        }
        assert(named_as(*naming, i as int, name@));
        let mut t_tags: Vec<String> = Vec::new();
        if import_tag {
            t_tags.push(String::from_str(DEFAULT_IMPORT_TAG));
        }
        let ghost head = t_tags.deep_view();
        let extra = clone_strings(tags);
        let mut extra = extra;
        t_tags.append(&mut extra);
        assert(t_tags.deep_view() =~= tv);
        let forward = &import.forwards[i];
        assert(import@.forwards[i as int] == forward@);
        let t = import.tunnel_config(forward, name, None, t_tags);
        out.push(t);
        i += 1;
    }
    Ok(out)
}

/// A known option that takes a value (`-B -b -c -E -e -F -I -J -m -O -Q
/// -S -W -w`), written on its own while options are still read, takes the
/// next argument as its value: reading it uses that argument, warns that
/// the option is not kept (with its value), leaves the destination, user,
/// port, identity file, forwards and timeouts as they were, and reading
/// goes on after the value, which thus never becomes the destination.
pub proof fn lemma_value_option_consumes_next(p: ParserModel, args: Seq<Seq<char>>, i: int)
    requires
        0 <= i,
        i + 1 < args.len(),
        !p.stop_option_parsing,
        args[i].len() == 2,
        args[i][0] == '-',
        "BbcEeFIJmOQSWw"@.contains(args[i][1]),
    ensures
        parse_step(p, args, i) matches Ok((q, used)) && used && q.destination_seen == p.destination_seen
            && q.ssh_host == p.ssh_host && q.explicit_user == p.explicit_user && q.ssh_port == p.ssh_port
            && q.identity_file == p.identity_file && q.forwards == p.forwards && q.timeouts == p.timeouts
            && q.stop_option_parsing == p.stop_option_parsing && q.warnings == p.warnings.push(
            WarningModel { option: args[i], message: MSG_NOT_SAVED@ + ": "@ + args[i + 1] },
        ),
        parse_step(p, args, i) matches Ok((q, _)) && parse_from(p, args, i) == parse_from(q, args, i + 2),
{
    let arg = args[i];
    reveal_strlit("BbcEeFIJmOQSWw");
    reveal_strlit("-L");
    reveal_strlit("-R");
    reveal_strlit("-D");
    reveal_strlit("-i");
    reveal_strlit("-p");
    reveal_strlit("-l");
    reveal_strlit("-o");
    reveal_strlit("--");
    reveal_strlit("-N");
    let letters = "BbcEeFIJmOQSWw"@;
    let k = choose|k: int| 0 <= k < letters.len() && letters[k] == arg[1];
    assert(arg.subrange(0, 2) =~= arg);
    assert(is_option_like(arg));
    assert(arg != "--"@) by {
        assert("--"@[1] == '-');
    }
    assert(!has_prefix(arg, "-L"@)) by {
        assert("-L"@[1] == 'L');
    }
    assert(!has_prefix(arg, "-R"@)) by {
        assert("-R"@[1] == 'R');
    }
    assert(!has_prefix(arg, "-D"@)) by {
        assert("-D"@[1] == 'D');
    }
    assert(!has_prefix(arg, "-i"@)) by {
        assert("-i"@[1] == 'i');
    }
    assert(!has_prefix(arg, "-p"@)) by {
        assert("-p"@[1] == 'p');
    }
    assert(!has_prefix(arg, "-l"@)) by {
        assert("-l"@[1] == 'l');
    }
    assert(!has_prefix(arg, "-o"@)) by {
        assert("-o"@[1] == 'o');
    }
    assert(!ignored_silently(arg)) by {
        assert("-N"@[1] == 'N');
        assert(arg[1] != 'v');
    }
    assert(value_option_letters() == letters);
    assert(known_value_option(arg) == Some(arg));
    assert(spec_take_value(args, i, arg) == Ok::<(Seq<char>, bool), ImportErrorModel>((args[i + 1], true)));
}

proof fn lemma_last_index_of_after(s: Seq<char>, c: char, k: int, e: int)
    requires
        -1 <= k < e <= s.len(),
        k >= 0 ==> s[k] == c,
        forall|j: int| k < j < e ==> s[j] != c,
        k == -1 ==> forall|j: int| 0 <= j < e ==> s[j] != c,
    ensures
        last_index_of(s, c, e) == k,
    decreases e,
{
    if e > 0 && s[e - 1] != c {
        if e - 1 > k {
            lemma_last_index_of_after(s, c, k, e - 1);
        }
    }
}

/// An argument that is not an option (or any argument after `--`) is the
/// destination when it is the first such: split at its last `@` into the
/// user and the host (without outer square brackets), or only the host when
/// it has no `@`. Every later one is part of the remote command: it is
/// warned about and leaves the destination and user as they were. It
/// never uses the argument after it.
pub proof fn lemma_positional_sets_destination_once(
    p: ParserModel,
    args: Seq<Seq<char>>,
    i: int,
    user: Seq<char>,
    host: Seq<char>,
)
    requires
        0 <= i < args.len(),
        p.stop_option_parsing || !is_option_like(args[i]),
    ensures
        parse_step(p, args, i) matches Ok((q, used)) && !used && q.forwards == p.forwards && q.ssh_port
            == p.ssh_port && q.identity_file == p.identity_file && q.timeouts == p.timeouts
            && q.destination_seen,
        !p.destination_seen && args[i] == user + "@"@ + host && !host.contains('@') ==> (parse_step(
            p,
            args,
            i,
        ) matches Ok((q, _)) && q.explicit_user == Some(user) && q.ssh_host == Some(strip_brackets(host))),
        !p.destination_seen && !args[i].contains('@') ==> (parse_step(p, args, i) matches Ok((q, _))
            && q.explicit_user == p.explicit_user && q.ssh_host == Some(strip_brackets(args[i]))),
        p.destination_seen ==> (parse_step(p, args, i) matches Ok((q, _)) && q.explicit_user == p.explicit_user
            && q.ssh_host == p.ssh_host && q.warnings.len() == p.warnings.len() + 1),
{
    let v = args[i];
    reveal_strlit("@");
    if !p.destination_seen && v == user + "@"@ + host && !host.contains('@') {
        let k = user.len() as int;
        assert(v[k] == '@');
        assert forall|j: int| k < j < v.len() implies v[j] != '@' by {
            assert(v[j] == host[j - k - 1]);
        }
        lemma_last_index_of_after(v, '@', k, v.len() as int);
        assert(v.subrange(0, k) =~= user);
        assert(v.subrange(k + 1, v.len() as int) =~= host);
    }
    if !p.destination_seen && !v.contains('@') {
        assert forall|j: int| 0 <= j < v.len() implies v[j] != '@' by {
            if v[j] == '@' {
                assert(v.contains(v[j]));
            }
        }
        lemma_last_index_of_after(v, '@', -1, v.len() as int);
    }
}

/// The options `-L`, `-i`, `-p`, `-l` and `-o` written on their own take
/// the next argument as their value: reading them uses it, so it never
/// becomes the destination. `-i` keeps it as the identity file and `-l`
/// as the user; none of them touches the destination.
pub proof fn lemma_kept_option_takes_next(p: ParserModel, args: Seq<Seq<char>>, i: int)
    requires
        0 <= i,
        i + 1 < args.len(),
        !p.stop_option_parsing,
        args[i] == "-L"@ || args[i] == "-i"@ || args[i] == "-p"@ || args[i] == "-l"@ || args[i] == "-o"@,
    ensures
        parse_step(p, args, i) matches Ok((q, used)) ==> used && q.ssh_host == p.ssh_host && q.destination_seen
            == p.destination_seen,
        args[i] == "-i"@ ==> (parse_step(p, args, i) matches Ok((q, _)) && q.identity_file == Some(args[i + 1])),
        args[i] == "-l"@ ==> (parse_step(p, args, i) matches Ok((q, _)) && q.explicit_user == Some(args[i + 1])),
        parse_step(p, args, i) matches Ok((q, _)) ==> parse_from(p, args, i) == parse_from(q, args, i + 2),
{
    let arg = args[i];
    reveal_strlit("-L");
    reveal_strlit("-R");
    reveal_strlit("-D");
    reveal_strlit("-i");
    reveal_strlit("-p");
    reveal_strlit("-l");
    reveal_strlit("-o");
    reveal_strlit("--");
    assert(arg.len() == 2);
    assert(arg.subrange(0, 2) =~= arg);
    assert(is_option_like(arg));
    assert(arg != "--"@) by {
        assert("--"@[1] == '-');
    }
    assert(has_prefix(arg, "-L"@) == (arg == "-L"@));
    assert(has_prefix(arg, "-R"@) == (arg == "-R"@));
    assert(has_prefix(arg, "-D"@) == (arg == "-D"@));
    assert(has_prefix(arg, "-i"@) == (arg == "-i"@));
    assert(has_prefix(arg, "-p"@) == (arg == "-p"@));
    assert(has_prefix(arg, "-l"@) == (arg == "-l"@));
    assert(has_prefix(arg, "-o"@) == (arg == "-o"@));
    assert(arg != "-R"@) by {
        assert("-R"@[1] == 'R');
    }
    assert(arg != "-D"@) by {
        assert("-D"@[1] == 'D');
    }
    if arg == "-o"@ {
        assert(arg != "-L"@ && arg != "-i"@ && arg != "-p"@ && arg != "-l"@) by {
            assert("-o"@[1] == 'o');
        }
    }
    if arg == "-l"@ {
        assert(arg != "-L"@ && arg != "-i"@ && arg != "-p"@) by {
            assert("-l"@[1] == 'l');
        }
    }
    if arg == "-p"@ {
        assert(arg != "-L"@ && arg != "-i"@) by {
            assert("-p"@[1] == 'p');
        }
    }
    if arg == "-i"@ {
        assert(arg != "-L"@) by {
            assert("-i"@[1] == 'i');
        }
    }
    assert(spec_take_value(args, i, arg) == Ok::<(Seq<char>, bool), ImportErrorModel>((args[i + 1], true)));
    match parse_step(p, args, i) {
        Ok((q, used)) => {
            assert(used);
        },
        Err(_) => {},
    }
}

} // verus!
