//! Text shown to the user: endpoints, tag lists, column padding by
//! display width, shell quoting and short messages.

use vstd::prelude::*;

use crate::config::{TunnelConfig, TunnelModel, spec_effective_local_host};
use crate::state::{StateModel, TunnelState};
use crate::tags::{normalize_tag, spec_normalize_tag, spec_tag_is_valid, tag_is_valid};
use crate::text::{
    chars_of, concat_str, decimal, decimal_string, is_blank, lower, lower_str, push_char, string_of_range, trim,
    trim_str,
};
use crate::tunnel::ProcessState;

verus! {

/// The marker put where text was cut.
pub const TRUNCATION_MARKER: &'static str = "...";

/// The widest a remote host is shown in the list, in columns.
pub const LIST_REMOTE_HOST_MAX_WIDTH: usize = 40;

/// The bundle identifier of the desktop app.
pub const FWD_DECK_APP_BUNDLE_IDENTIFIER: &'static str = "dev.oiekjr.fwddeck";

/// The argument by which the desktop app is told which workspace to open.
pub const FWD_DECK_APP_OPEN_WORKSPACE_ARG: &'static str = "--fwd-deck-open-workspace";

// ---------------------------------------------------------------------
// Display width
// ---------------------------------------------------------------------

/// The number of terminal columns a text takes.
pub uninterp spec fn text_width(s: Seq<char>) -> usize;

/// The number of terminal columns a character takes; absent for control
/// characters.
pub uninterp spec fn char_width(c: char) -> Option<usize>;

/// `unicode_width::UnicodeWidthStr::width`: the columns a text takes in a
/// terminal. Its result is named by [`text_width`] and depends on the text
/// alone; nothing more is claimed.
#[verifier::external_body]
pub(crate) fn display_width(s: &str) -> (r: usize)
    ensures
        r == text_width(s@),
{
    unicode_width::UnicodeWidthStr::width(s)
}

/// `unicode_width::UnicodeWidthChar::width`: the columns a character takes
/// in a terminal. Its result is named by [`char_width`] and depends on the
/// character alone; nothing more is claimed.
#[verifier::external_body]
fn display_width_of_char(c: char) -> (r: Option<usize>)
    ensures
        r == char_width(c),
{
    unicode_width::UnicodeWidthChar::width(c)
}

/// `n` spaces.
pub open spec fn spaces(n: nat) -> Seq<char> {
    Seq::new(n, |i: int| ' ')
}

/// A text padded with spaces on the right to `width` columns, given the
/// columns it takes; left as it is when it is as wide already.
pub open spec fn spec_pad(value: Seq<char>, visible_width: usize, width: usize) -> Seq<char> {
    if visible_width >= width {
        value
    } else {
        value + spaces((width - visible_width) as nat)
    }
}

/// Pads a text with spaces on the right to `width` columns, given the
/// columns it takes (which may differ from its length, as for text with
/// color codes).
pub fn pad_display_width_with_visible_width(value: &str, visible_width: usize, width: usize) -> (r: String)
    ensures
        r@ == spec_pad(value@, visible_width, width),
{
    if visible_width >= width {
        return String::from_str(value);
    }
    let n = width - visible_width;
    let mut r = String::from_str(value);
    let mut i: usize = 0;
    while i < n
        invariant
            i <= n,
            r@ == value@ + spaces(i as nat),
        decreases n - i,
    {
        push_char(&mut r, ' ');
        i += 1;
        assert(r@ =~= value@ + spaces(i as nat));
    }
    r
}

/// Pads a text with spaces on the right to `width` terminal columns.
pub fn pad_display_width(value: &str, width: usize) -> (r: String)
    ensures
        r@ == spec_pad(value@, text_width(value@), width),
{
    let w = display_width(value);
    pad_display_width_with_visible_width(value, w, width)
}

/// The columns a character counts for when text is cut: 0 when unknown.
pub open spec fn cut_width(c: char) -> int {
    match char_width(c) {
        Some(w) => w as int,
        None => 0,
    }
}

/// How many characters of `s` from `i` on fit into `budget` columns when
/// `used` columns are taken already: characters are taken while they fit.
pub open spec fn fitting_end(s: Seq<char>, budget: int, i: int, used: int) -> int
    decreases s.len() - i,
{
    if i < 0 || i >= s.len() || used + cut_width(s[i]) > budget {
        i
    } else {
        fitting_end(s, budget, i + 1, used + cut_width(s[i]))
    }
}

/// A text cut to `max_width` columns: as it is when it fits; else as many
/// leading characters as fit before `...`; or only part of `...` when
/// `max_width` leaves no room for text.
pub open spec fn spec_truncate(value: Seq<char>, max_width: usize) -> Seq<char> {
    let marker = TRUNCATION_MARKER@;
    if text_width(value) <= max_width {
        value
    } else if max_width <= text_width(marker) {
        marker.subrange(0, if max_width < marker.len() { max_width as int } else { marker.len() as int })
    } else {
        value.subrange(0, fitting_end(value, max_width - text_width(marker), 0, 0)) + marker
    }
}

proof fn lemma_fitting_end_bounds(s: Seq<char>, budget: int, i: int, used: int)
    requires
        0 <= i <= s.len(),
    ensures
        i <= fitting_end(s, budget, i, used) <= s.len(),
    decreases s.len() - i,
{
    if i < s.len() && used + cut_width(s[i]) <= budget {
        lemma_fitting_end_bounds(s, budget, i + 1, used + cut_width(s[i]));
    }
}

/// The columns the characters of `s` count for when text is cut.
pub open spec fn cut_width_sum(s: Seq<char>) -> int
    decreases s.len(),
{
    if s.len() == 0 {
        0
    } else {
        cut_width_sum(s.drop_last()) + cut_width(s.last())
    }
}

proof fn lemma_fitting_end_sum(s: Seq<char>, budget: int, i: int, used: int)
    requires
        0 <= i <= s.len(),
        used == cut_width_sum(s.subrange(0, i)),
        used <= budget,
    ensures
        ({
            let e = fitting_end(s, budget, i, used);
            &&& cut_width_sum(s.subrange(0, e)) <= budget
            &&& e < s.len() ==> cut_width_sum(s.subrange(0, e + 1)) > budget
        }),
    decreases s.len() - i,
{
    if i < s.len() {
        assert(s.subrange(0, i + 1).drop_last() =~= s.subrange(0, i));
        assert(s.subrange(0, i + 1).last() == s[i]);
        if used + cut_width(s[i]) <= budget {
            lemma_fitting_end_sum(s, budget, i + 1, used + cut_width(s[i]));
        }
    }
}

/// When a text is cut, the characters kept before `...` count, by their
/// own widths, for at most the columns `max_width` leaves beside the
/// marker, and they are the longest leading run that does: one character
/// more would not fit.
pub proof fn lemma_truncation_fits(value: Seq<char>, max_width: usize)
    requires
        text_width(value) > max_width,
        max_width > text_width(TRUNCATION_MARKER@),
    ensures
        exists|e: int|
            0 <= e <= value.len() && spec_truncate(value, max_width) == value.subrange(0, e) + TRUNCATION_MARKER@
                && cut_width_sum(#[trigger] value.subrange(0, e)) <= max_width - text_width(TRUNCATION_MARKER@)
                && (e < value.len() ==> cut_width_sum(value.subrange(0, e + 1)) > max_width - text_width(
                TRUNCATION_MARKER@,
            )),
{
    let budget = max_width - text_width(TRUNCATION_MARKER@);
    assert(value.subrange(0, 0) =~= Seq::<char>::empty());
    lemma_fitting_end_sum(value, budget, 0, 0);
    lemma_fitting_end_bounds(value, budget, 0, 0);
    let e = fitting_end(value, budget, 0, 0);
    assert(cut_width_sum(value.subrange(0, e)) <= budget);
}

/// Cuts a text to `max_width` terminal columns, marking the cut with `...`.
pub fn truncate_display_width(value: &str, max_width: usize) -> (r: String)
    ensures
        r@ == spec_truncate(value@, max_width),
{
    if display_width(value) <= max_width {
        return String::from_str(value);
    }
    let marker_width = display_width(TRUNCATION_MARKER);
    let marker = chars_of(TRUNCATION_MARKER);
    if max_width <= marker_width {
        let n = if max_width < marker.len() {
            max_width
        } else {
            marker.len()
        };
        return string_of_range(&marker, 0, n);
    }
    let budget = max_width - marker_width;
    let cs = chars_of(value);
    let mut used: usize = 0;
    let mut i: usize = 0;
    proof {
        lemma_fitting_end_bounds(value@, budget as int, 0, 0);
    }
    loop
        invariant
            cs@ == value@,
            i <= cs@.len(),
            used <= budget,
            fitting_end(value@, budget as int, 0, 0) == fitting_end(value@, budget as int, i as int, used as int),
        ensures
            i <= cs@.len(),
            fitting_end(value@, budget as int, 0, 0) == i,
        decreases cs@.len() - i,
    {
        if i >= cs.len() {
            break;
        }
        let w = match display_width_of_char(cs[i]) {
            Some(w) => w,
            None => 0,
        };
        if w > budget - used {
            break;
        }
        used = used + w;
        i += 1;
    }
    let head = string_of_range(&cs, 0, i);
    concat_str(head.as_str(), TRUNCATION_MARKER)
}

// ---------------------------------------------------------------------
// Endpoints and lists
// ---------------------------------------------------------------------

/// `host:port`.
pub open spec fn endpoint_text(host: Seq<char>, port: u16) -> Seq<char> {
    host + ":"@ + decimal(port as nat)
}

/// `host:port` from a host and a port.
fn endpoint_string(host: &str, port: u16) -> (r: String)
    ensures
        r@ == endpoint_text(host@, port),
{
    let a = concat_str(host, ":");
    concat_str(a.as_str(), decimal_string(port as u64).as_str())
}

/// The local endpoint of a tunnel: `host:port`.
pub fn format_local_endpoint(tunnel: &TunnelConfig) -> (r: String)
    ensures
        r@ == endpoint_text(spec_effective_local_host(tunnel@), tunnel.local_port),
{
    endpoint_string(tunnel.effective_local_host(), tunnel.local_port)
}

/// The remote endpoint of a tunnel: `host:port`.
pub fn format_remote_endpoint(tunnel: &TunnelConfig) -> (r: String)
    ensures
        r@ == endpoint_text(tunnel.remote_host@, tunnel.remote_port),
{
    endpoint_string(tunnel.remote_host.as_str(), tunnel.remote_port)
}

/// The remote endpoint in the list: the host cut to
/// [`LIST_REMOTE_HOST_MAX_WIDTH`] columns unless `wide`, then `:port`.
pub fn format_list_remote_endpoint(tunnel: &TunnelConfig, wide: bool) -> (r: String)
    ensures
        r@ == endpoint_text(
            if wide {
                tunnel.remote_host@
            } else {
                spec_truncate(tunnel.remote_host@, LIST_REMOTE_HOST_MAX_WIDTH)
            },
            tunnel.remote_port,
        ),
{
    let host = if wide {
        tunnel.remote_host.clone()
    } else {
        truncate_display_width(tunnel.remote_host.as_str(), LIST_REMOTE_HOST_MAX_WIDTH)
    };
    endpoint_string(host.as_str(), tunnel.remote_port)
}

/// The SSH endpoint of a tunnel: `user@host`, with `:port` when set.
pub open spec fn spec_ssh_endpoint(t: TunnelModel) -> Seq<char> {
    let base = t.ssh_user + "@"@ + t.ssh_host;
    match t.ssh_port {
        Some(p) => base + ":"@ + decimal(p as nat),
        None => base,
    }
}

/// The SSH endpoint of a tunnel: `user@host`, with `:port` when set.
pub fn format_ssh_endpoint(tunnel: &TunnelConfig) -> (r: String)
    ensures
        r@ == spec_ssh_endpoint(tunnel@),
{
    let a = concat_str(tunnel.ssh_user.as_str(), "@");
    let base = concat_str(a.as_str(), tunnel.ssh_host.as_str());
    match tunnel.ssh_port {
        Some(p) => endpoint_string(base.as_str(), p),
        None => base,
    }
}

/// Texts joined by `sep`.
pub open spec fn joined(items: Seq<Seq<char>>, sep: Seq<char>) -> Seq<char>
    decreases items.len(),
{
    if items.len() == 0 {
        seq![]
    } else if items.len() == 1 {
        items[0]
    } else {
        joined(items.drop_last(), sep) + sep + items.last()
    }
}

/// Texts joined by `sep`.
pub fn join_strings(items: &[String], sep: &str) -> (r: String)
    ensures
        r@ == joined(items.deep_view(), sep@),
{
    let ghost iv = items.deep_view();
    let mut r = String::new();
    let mut i: usize = 0;
    while i < items.len()
        invariant
            iv == items.deep_view(),
            i <= iv.len(),
            r@ == joined(iv.subrange(0, i as int), sep@),
        decreases iv.len() - i,
    {
        assert(iv[i as int] == items@[i as int]@);
        assert(iv.subrange(0, i + 1).drop_last() =~= iv.subrange(0, i as int));
        if i == 0 {
            r = items[i].clone();
        } else {
            let a = concat_str(r.as_str(), sep);
            r = concat_str(a.as_str(), items[i].as_str());
        }
        i += 1;
    }
    assert(iv.subrange(0, i as int) =~= iv);
    r
}

/// Tags for display: `-` when there are none, else joined by `,`.
pub open spec fn spec_tag_list(tags: Seq<Seq<char>>) -> Seq<char> {
    if tags.len() == 0 {
        "-"@
    } else {
        joined(tags, ","@)
    }
}

/// Tags for display: `-` when there are none, else joined by `,`.
pub fn format_tag_list(tags: &[String]) -> (r: String)
    ensures
        r@ == spec_tag_list(tags.deep_view()),
{
    if tags.len() == 0 {
        String::from_str("-")
    } else {
        join_strings(tags, ",")
    }
}

/// An optional value for display: `-` when absent or blank.
pub fn format_optional_value<'a>(value: Option<&'a str>) -> (r: &'a str)
    ensures
        r@ == match value {
            Some(v) => if trim(v@).len() > 0 {
                v@
            } else {
                "-"@
            },
            None => "-"@,
        },
{
    match value {
        Some(v) => if is_blank(v) {
            "-"
        } else {
            v
        },
        None => "-",
    }
}

/// The local endpoint of a recorded tunnel: `host:port`.
pub fn format_status_local_endpoint(state: &TunnelState) -> (r: String)
    ensures
        r@ == endpoint_text(state.local_host@, state.local_port),
{
    endpoint_string(state.local_host.as_str(), state.local_port)
}

/// The remote endpoint of a recorded tunnel: `host:port`.
pub fn format_status_remote_endpoint(state: &TunnelState) -> (r: String)
    ensures
        r@ == endpoint_text(state.remote_host@, state.remote_port),
{
    endpoint_string(state.remote_host.as_str(), state.remote_port)
}

/// The label of a process state: `RUNNING` or `STALE`.
pub fn process_state_plain_label(process_state: ProcessState) -> (r: &'static str)
    ensures
        r@ == match process_state {
            ProcessState::Running => "RUNNING"@,
            ProcessState::Stale => "STALE"@,
        },
{
    match process_state {
        ProcessState::Running => "RUNNING",
        ProcessState::Stale => "STALE",
    }
}

/// How long ago a tunnel started, in the largest whole unit: seconds
/// below a minute, minutes below an hour, hours below a day, else days;
/// `in the future` for a start after `now`.
pub open spec fn spec_relative_time(started_at: u64, now: u64) -> Seq<char> {
    if started_at > now {
        "in the future"@
    } else {
        let elapsed = (now - started_at) as nat;
        if elapsed < 60 {
            decimal(elapsed) + "s ago"@
        } else if elapsed / 60 < 60 {
            decimal(elapsed / 60) + "m ago"@
        } else if elapsed / 3600 < 24 {
            decimal(elapsed / 3600) + "h ago"@
        } else {
            decimal(elapsed / 86400) + "d ago"@
        }
    }
}

/// How long ago a tunnel started, in the largest whole unit.
pub fn relative_time_label(started_at: u64, now: u64) -> (r: String)
    ensures
        r@ == spec_relative_time(started_at, now),
{
    if started_at > now {
        return String::from_str("in the future");
    }
    let elapsed = now - started_at;
    if elapsed < 60 {
        return concat_str(decimal_string(elapsed).as_str(), "s ago");
    }
    let minutes = elapsed / 60;
    if minutes < 60 {
        return concat_str(decimal_string(minutes).as_str(), "m ago");
    }
    let hours = minutes / 60;
    assert(hours == elapsed / 3600) by (nonlinear_arith)
        requires
            minutes == elapsed / 60,
            hours == minutes / 60,
    ;
    if hours < 24 {
        return concat_str(decimal_string(hours).as_str(), "h ago");
    }
    let days = hours / 24;
    assert(days == elapsed / 86400) by (nonlinear_arith)
        requires
            hours == elapsed / 3600,
            days == hours / 24,
    ;
    concat_str(decimal_string(days).as_str(), "d ago")
}

// ---------------------------------------------------------------------
// Shell text
// ---------------------------------------------------------------------

/// Whether a character is shown unquoted in a shell command.
pub open spec fn is_shell_safe(c: char) -> bool {
    ('a' <= c && c <= 'z') || ('A' <= c && c <= 'Z') || ('0' <= c && c <= '9') || c == '@' || c == '%' || c
        == '_' || c == '+' || c == '=' || c == ':' || c == ',' || c == '.' || c == '/' || c == '-'
}

/// `s` with each `'` written as `'\''`.
pub open spec fn escape_single_quotes(s: Seq<char>) -> Seq<char>
    decreases s.len(),
{
    if s.len() == 0 {
        s
    } else {
        escape_single_quotes(s.drop_last()) + if s.last() == '\'' {
            "'\\''"@
        } else {
            seq![s.last()]
        }
    }
}

/// A shell argument as shown: as it is when every character is safe,
/// else in single quotes.
pub open spec fn spec_shell_quote(s: Seq<char>) -> Seq<char> {
    if forall|i: int| 0 <= i < s.len() ==> is_shell_safe(#[trigger] s[i]) {
        s
    } else {
        "'"@ + escape_single_quotes(s) + "'"@
    }
}

/// A shell argument as shown: as it is when it holds only letters,
/// digits and `@%_+=:,./-`, else in single quotes.
pub fn shell_quote(value: &str) -> (r: String)
    ensures
        r@ == spec_shell_quote(value@),
{
    let cs = chars_of(value);
    let mut safe = true;
    let mut i: usize = 0;
    while i < cs.len()
        invariant
            cs@ == value@,
            i <= cs@.len(),
            safe == forall|j: int| 0 <= j < i ==> is_shell_safe(#[trigger] cs@[j]),
        decreases cs@.len() - i,
    {
        let c = cs[i];
        let ok = ('a' <= c && c <= 'z') || ('A' <= c && c <= 'Z') || ('0' <= c && c <= '9') || c == '@' || c
            == '%' || c == '_' || c == '+' || c == '=' || c == ':' || c == ',' || c == '.' || c == '/' || c == '-';
        if !ok {
            safe = false;
        }
        i += 1;
    }
    if safe {
        return String::from_str(value);
    }
    let mut r = String::from_str("'");
    let ghost start = r@;
    let mut k: usize = 0;
    while k < cs.len()
        invariant
            cs@ == value@,
            k <= cs@.len(),
            r@ == start + escape_single_quotes(value@.subrange(0, k as int)),
        decreases cs@.len() - k,
    {
        assert(value@.subrange(0, k + 1).drop_last() =~= value@.subrange(0, k as int));
        if cs[k] == '\'' {
            let t = concat_str(r.as_str(), "'\\''");
            r = t;
        } else {
            push_char(&mut r, cs[k]);
        }
        k += 1;
    }
    assert(value@.subrange(0, k as int) =~= value@);
    concat_str(r.as_str(), "'")
}

/// The `ssh` command line shown for a run: `ssh` and the quoted
/// arguments, separated by spaces.
pub open spec fn spec_ssh_command(args: Seq<Seq<char>>) -> Seq<char> {
    joined(seq!["ssh"@] + args.map_values(|a: Seq<char>| spec_shell_quote(a)), " "@)
}

/// The `ssh` command line shown for a run.
pub fn format_ssh_command(args: &[String]) -> (r: String)
    ensures
        r@ == spec_ssh_command(args.deep_view()),
{
    let ghost av = args.deep_view();
    let mut parts: Vec<String> = Vec::new();
    parts.push(String::from_str("ssh"));
    let mut i: usize = 0;
    while i < args.len()
        invariant
            av == args.deep_view(),
            i <= av.len(),
            parts.deep_view() == seq!["ssh"@] + av.subrange(0, i as int).map_values(
                |a: Seq<char>| spec_shell_quote(a),
            ),
        decreases av.len() - i,
    {
        assert(av[i as int] == args@[i as int]@);
        let ghost before = parts.deep_view();
        let ghost f = |a: Seq<char>| spec_shell_quote(a);
        let q = shell_quote(args[i].as_str());
        parts.push(q);
        assert(parts.deep_view() =~= before.push(f(av[i as int])));
        assert(av.subrange(0, i + 1).map_values(f) =~= av.subrange(0, i as int).map_values(f).push(f(av[i as int])));
        i += 1;
        assert(parts.deep_view() =~= seq!["ssh"@] + av.subrange(0, i as int).map_values(f));
    }
    assert(av.subrange(0, i as int) =~= av);
    let sl = parts.as_slice();
    assert(sl.deep_view() =~= parts.deep_view());
    join_strings(sl, " ")
}

// ---------------------------------------------------------------------
// The desktop app
// ---------------------------------------------------------------------

/// The arguments of `open` that start the desktop app on a workspace.
pub fn app_open_command_args(workspace_path: &str) -> (r: Vec<String>)
    ensures
        r.deep_view() == seq![
            "-n"@,
            "-b"@,
            FWD_DECK_APP_BUNDLE_IDENTIFIER@,
            "--args"@,
            FWD_DECK_APP_OPEN_WORKSPACE_ARG@,
            workspace_path@,
        ],
{
    let mut r: Vec<String> = Vec::new();
    r.push(String::from_str("-n"));
    r.push(String::from_str("-b"));
    r.push(String::from_str(FWD_DECK_APP_BUNDLE_IDENTIFIER));
    r.push(String::from_str("--args"));
    r.push(String::from_str(FWD_DECK_APP_OPEN_WORKSPACE_ARG));
    r.push(String::from_str(workspace_path));
    assert(r.deep_view() =~= seq![
        "-n"@,
        "-b"@,
        FWD_DECK_APP_BUNDLE_IDENTIFIER@,
        "--args"@,
        FWD_DECK_APP_OPEN_WORKSPACE_ARG@,
        workspace_path@,
    ]);
    r
}

/// Whether `needle` occurs in `hay`.
pub open spec fn contains_text(hay: Seq<char>, needle: Seq<char>) -> bool {
    exists|i: int| 0 <= i <= hay.len() - needle.len() && #[trigger] hay.subrange(i, i + needle.len()) == needle
}

/// Whether `needle` occurs in `hay`.
pub fn str_contains(hay: &str, needle: &str) -> (r: bool)
    ensures
        r == contains_text(hay@, needle@),
{
    let h = chars_of(hay);
    let n = chars_of(needle);
    if n.len() > h.len() {
        return false;
    }
    if n.len() == 0 {
        assert(hay@.subrange(0int, 0int + needle@.len()) =~= needle@);
        return true;
    }
    let hlen = h.len();
    let last = h.len() - n.len();
    let mut i: usize = 0;
    while i <= last
        invariant
            h@ == hay@,
            n@ == needle@,
            last == h@.len() - n@.len(),
            hlen == h@.len(),
            n@.len() >= 1,
            i <= last + 1,
            forall|j: int| 0 <= j < i ==> #[trigger] hay@.subrange(j, j + needle@.len()) != needle@,
        decreases last + 1 - i,
    {
        let mut k: usize = 0;
        while k < n.len() && h[i + k] == n[k]
            invariant
                h@ == hay@,
                n@ == needle@,
                i <= last,
                last == h@.len() - n@.len(),
                hlen == h@.len(),
                k <= n@.len(),
                hay@.subrange(i as int, i + k) == needle@.subrange(0, k as int),
            decreases n@.len() - k,
        {
            assert(hay@.subrange(i as int, i + k + 1) =~= hay@.subrange(i as int, i + k).push(hay@[i + k]));
            assert(needle@.subrange(0, k + 1) =~= needle@.subrange(0, k as int).push(needle@[k as int]));
            k += 1;
        }
        if k == n.len() {
            assert(needle@.subrange(0, k as int) =~= needle@);
            return true;
        }
        assert(hay@.subrange(i as int, i + needle@.len())[k as int] != needle@[k as int]);
        i += 1;
    }
    false
}

/// Whether the output of a failed `open` says that the app is not
/// installed.
pub open spec fn spec_app_missing(stderr: Seq<char>) -> bool {
    let s = lower(stderr);
    contains_text(s, "-10814"@) || contains_text(s, "lscopyapplicationurlsforbundleidentifier() failed"@)
        || contains_text(s, "unable to find application"@) || contains_text(s, "application not found"@)
        || contains_text(s, "was not found"@)
}

/// Whether the output of a failed `open` says that the app is not
/// installed.
pub fn app_launch_error_indicates_missing_app(stderr: &str) -> (r: bool)
    ensures
        r == spec_app_missing(stderr@),
{
    let s = lower_str(stderr);
    str_contains(s.as_str(), "-10814") || str_contains(s.as_str(), "lscopyapplicationurlsforbundleidentifier() failed")
        || str_contains(s.as_str(), "unable to find application") || str_contains(
        s.as_str(),
        "application not found",
    ) || str_contains(s.as_str(), "was not found")
}

/// Why the desktop app could not be opened.
#[derive(Debug, PartialEq, Eq)]
pub enum AppLaunchError {
    /// The app is not installed.
    AppNotInstalled,
    /// `open` failed for another reason.
    AppLaunchFailed { message: String },
}

/// The message of a failed launch of the desktop app.
pub open spec fn spec_app_launch_error_text(e: AppLaunchError) -> Seq<char> {
    match e {
        AppLaunchError::AppNotInstalled =>
            "Fwd Deck.app が見つかりません。\nmacOSアプリをインストールしてから再実行してください。\n\n  brew install --cask oiekjr/tap/fwd-deck-app"@,
        AppLaunchError::AppLaunchFailed { message } => "Fwd Deck.app を起動できませんでした。\n"@ + message@,
    }
}

impl AppLaunchError {
    /// The message of the error.
    pub fn to_display_string(&self) -> (r: String)
        ensures
            r@ == spec_app_launch_error_text(*self),
    {
        match self {
            AppLaunchError::AppNotInstalled => String::from_str(
                "Fwd Deck.app が見つかりません。\nmacOSアプリをインストールしてから再実行してください。\n\n  brew install --cask oiekjr/tap/fwd-deck-app",
            ),
            AppLaunchError::AppLaunchFailed { message } => concat_str(
                "Fwd Deck.app を起動できませんでした。\n",
                message.as_str(),
            ),
        }
    }
}

/// A signed number in decimal, with `-` in front when negative.
pub open spec fn signed_decimal(n: i32) -> Seq<char> {
    if n < 0 {
        "-"@ + decimal((-n) as nat)
    } else {
        decimal(n as nat)
    }
}

/// A signed number in decimal.
fn signed_decimal_string(n: i32) -> (r: String)
    ensures
        r@ == signed_decimal(n),
{
    if n < 0 {
        let m: i64 = -(n as i64);
        concat_str("-", decimal_string(m as u64).as_str())
    } else {
        decimal_string(n as u64)
    }
}

/// The error for a failed `open`: the app is missing when its output says
/// so; else the trimmed output, or, when there is none, the exit status
/// (or that a signal ended it).
pub open spec fn spec_app_launch_error(status_code: Option<i32>, stderr: Seq<char>) -> Result<(), Seq<char>> {
    if spec_app_missing(stderr) {
        Ok(())
    } else if trim(stderr).len() == 0 {
        Err(
            match status_code {
                Some(code) => "/usr/bin/open exited with status "@ + signed_decimal(code) + "."@,
                None => "/usr/bin/open was terminated by signal."@,
            },
        )
    } else {
        Err("/usr/bin/open の出力:\n"@ + trim(stderr))
    }
}

/// The error for a failed `open` of the desktop app, from its exit status
/// and what it wrote to stderr.
pub fn app_launch_error_from_output(status_code: Option<i32>, stderr: &str) -> (r: AppLaunchError)
    ensures
        match spec_app_launch_error(status_code, stderr@) {
            Ok(_) => r == AppLaunchError::AppNotInstalled,
            Err(m) => r matches AppLaunchError::AppLaunchFailed { message } && message@ == m,
        },
{
    if app_launch_error_indicates_missing_app(stderr) {
        return AppLaunchError::AppNotInstalled;
    }
    let detail = trim_str(stderr);
    let message = if detail.as_str().unicode_len() == 0 {
        match status_code {
            Some(code) => {
                let a = concat_str("/usr/bin/open exited with status ", signed_decimal_string(code).as_str());
                concat_str(a.as_str(), ".")
            },
            None => String::from_str("/usr/bin/open was terminated by signal."),
        }
    } else {
        concat_str("/usr/bin/open の出力:\n", detail.as_str())
    };
    AppLaunchError::AppLaunchFailed { message }
}

// ---------------------------------------------------------------------
// Tags and queries typed by the user
// ---------------------------------------------------------------------

/// A tag as shown in an error: `<empty>` when blank.
pub open spec fn spec_invalid_tag_text(tag: Seq<char>) -> Seq<char> {
    if trim(tag).len() == 0 {
        "<empty>"@
    } else {
        tag
    }
}

/// A tag as shown in an error: `<empty>` when blank.
pub fn display_invalid_tag(tag: &str) -> (r: String)
    ensures
        r@ == spec_invalid_tag_text(tag@),
{
    if is_blank(tag) {
        String::from_str("<empty>")
    } else {
        String::from_str(tag)
    }
}

/// A tag typed by the user, in normal form; refused (with the text to
/// show) when the normal form is not a valid tag.
pub open spec fn spec_tag_input(tag: Seq<char>) -> Result<Seq<char>, Seq<char>> {
    if spec_tag_is_valid(spec_normalize_tag(tag)) {
        Ok(spec_normalize_tag(tag))
    } else {
        Err(spec_invalid_tag_text(tag))
    }
}

/// The mathematical value of a checked input.
pub open spec fn text_result(r: Result<String, String>) -> Result<Seq<char>, Seq<char>> {
    match r {
        Ok(s) => Ok(s@),
        Err(s) => Err(s@),
    }
}

/// A tag typed by the user, in normal form; refused with the text to show
/// when it is not a valid tag.
pub fn normalize_tag_input(tag: &str) -> (r: Result<String, String>)
    ensures
        text_result(r) == spec_tag_input(tag@),
{
    let normalized = normalize_tag(tag);
    if tag_is_valid(normalized.as_str()) {
        Ok(normalized)
    } else {
        Err(display_invalid_tag(tag))
    }
}

/// Tags typed by the user, in normal form; the first invalid one is
/// refused with the text to show.
pub open spec fn spec_tag_inputs(tags: Seq<Seq<char>>) -> Result<Seq<Seq<char>>, Seq<char>>
    decreases tags.len(),
{
    if tags.len() == 0 {
        Ok(seq![])
    } else {
        match spec_tag_inputs(tags.drop_last()) {
            Err(e) => Err(e),
            Ok(done) => match spec_tag_input(tags.last()) {
                Err(e) => Err(e),
                Ok(t) => Ok(done.push(t)),
            },
        }
    }
}

/// Tags typed by the user, in normal form; the first invalid one is
/// refused with the text to show.
pub fn normalize_cli_tags(tags: &[String]) -> (r: Result<Vec<String>, String>)
    ensures
        match r {
            Ok(v) => spec_tag_inputs(tags.deep_view()) == Ok::<Seq<Seq<char>>, Seq<char>>(v.deep_view()),
            Err(e) => spec_tag_inputs(tags.deep_view()) == Err::<Seq<Seq<char>>, Seq<char>>(e@),
        },
{
    let ghost tv = tags.deep_view();
    let mut out: Vec<String> = Vec::new();
    let mut i: usize = 0;
    assert(tv.subrange(0, 0) =~= Seq::<Seq<char>>::empty());
    assert(out.deep_view() =~= Seq::<Seq<char>>::empty());
    while i < tags.len()
        invariant
            tv == tags.deep_view(),
            i <= tv.len(),
            spec_tag_inputs(tv.subrange(0, i as int)) == Ok::<Seq<Seq<char>>, Seq<char>>(out.deep_view()),
        decreases tv.len() - i,
    {
        assert(tv[i as int] == tags@[i as int]@);
        assert(tv.subrange(0, i + 1).drop_last() =~= tv.subrange(0, i as int));
        match normalize_tag_input(tags[i].as_str()) {
            Err(e) => {
                proof {
                    lemma_tag_inputs_stop(tv, i + 1);
                }
                return Err(e);
            },
            Ok(t) => {
                let ghost before = out.deep_view();
                let ghost t_view = t@;
                out.push(t);
                assert(out.deep_view() =~= before.push(t_view));
            },
        }
        i += 1;
    }
    assert(tv.subrange(0, i as int) =~= tv);
    Ok(out)
}

proof fn lemma_tag_inputs_stop(tags: Seq<Seq<char>>, n: int)
    requires
        0 < n <= tags.len(),
        spec_tag_inputs(tags.subrange(0, n)) is Err,
    ensures
        spec_tag_inputs(tags) == spec_tag_inputs(tags.subrange(0, n)),
    decreases tags.len() - n,
{
    if n == tags.len() {
        assert(tags.subrange(0, n) =~= tags);
    } else {
        assert(tags.subrange(0, n + 1).drop_last() =~= tags.subrange(0, n));
        lemma_tag_inputs_stop(tags, n + 1);
    }
}

/// The pieces of a text between the separators (one piece more than
/// there are separators).
pub open spec fn split_on(s: Seq<char>, sep: char) -> Seq<Seq<char>>
    decreases s.len(),
{
    if s.len() == 0 {
        seq![seq![]]
    } else {
        let prev = split_on(s.drop_last(), sep);
        if s.last() == sep {
            prev.push(seq![])
        } else {
            prev.update(prev.len() - 1, prev.last().push(s.last()))
        }
    }
}

proof fn lemma_split_on_len(s: Seq<char>, sep: char)
    ensures
        split_on(s, sep).len() >= 1,
    decreases s.len(),
{
    if s.len() > 0 {
        lemma_split_on_len(s.drop_last(), sep);
    }
}

/// The pieces of a text between commas.
pub fn split_commas(value: &str) -> (r: Vec<String>)
    ensures
        r.deep_view() == split_on(value@, ','),
{
    let cs = chars_of(value);
    let mut pieces: Vec<String> = Vec::new();
    let mut current = String::new();
    let mut i: usize = 0;
    proof {
        assert(cs@.subrange(0, 0) =~= Seq::<char>::empty());
        assert(pieces.deep_view().push(current@) =~= seq![Seq::<char>::empty()]);
    }
    while i < cs.len()
        invariant
            cs@ == value@,
            i <= cs@.len(),
            pieces.deep_view().push(current@) == split_on(cs@.subrange(0, i as int), ','),
        decreases cs@.len() - i,
    {
        let ghost sub = cs@.subrange(0, i + 1);
        assert(sub.drop_last() =~= cs@.subrange(0, i as int));
        proof {
            lemma_split_on_len(cs@.subrange(0, i as int), ',');
        }
        let ghost before = pieces.deep_view();
        let ghost cur = current@;
        if cs[i] == ',' {
            let done = current;
            pieces.push(done);
            current = String::new();
            assert(pieces.deep_view().push(current@) =~= before.push(cur).push(Seq::<char>::empty()));
        } else {
            push_char(&mut current, cs[i]);
            assert(pieces.deep_view().push(current@) =~= before.push(cur).update(before.len() as int, cur.push(cs@[i as int])));
        }
        i += 1;
    }
    assert(cs@.subrange(0, i as int) =~= cs@);
    let ghost before = pieces.deep_view();
    let ghost cur = current@;
    pieces.push(current);
    assert(pieces.deep_view() =~= before.push(cur));
    pieces
}

/// Tags typed as one comma-separated text: none when blank, else each
/// piece in normal form (the first invalid one refused).
pub open spec fn spec_tag_list_input(value: Seq<char>) -> Result<Seq<Seq<char>>, Seq<char>> {
    if trim(value).len() == 0 {
        Ok(seq![])
    } else {
        spec_tag_inputs(split_on(value, ','))
    }
}

/// Tags typed as one comma-separated text.
pub fn parse_tag_list(value: &str) -> (r: Result<Vec<String>, String>)
    ensures
        match r {
            Ok(v) => spec_tag_list_input(value@) == Ok::<Seq<Seq<char>>, Seq<char>>(v.deep_view()),
            Err(e) => spec_tag_list_input(value@) == Err::<Seq<Seq<char>>, Seq<char>>(e@),
        },
{
    if is_blank(value) {
        let v: Vec<String> = Vec::new();
        assert(v.deep_view() =~= Seq::<Seq<char>>::empty());
        return Ok(v);
    }
    let pieces = split_commas(value);
    let r = normalize_cli_tags(pieces.as_slice());
    proof {
        assert(pieces@.map_values(|s: String| s@) =~= pieces.deep_view());
    }
    r
}

/// A list query in the form in which it is compared: trimmed and in ASCII
/// lower case; absent when blank.
pub open spec fn spec_list_query(query: Option<Seq<char>>) -> Option<Seq<char>> {
    match query {
        Some(q) => if lower(trim(q)).len() > 0 {
            Some(lower(trim(q)))
        } else {
            None
        },
        None => None,
    }
}

/// A list query in the form in which it is compared.
pub fn normalize_list_query(query: Option<String>) -> (r: Option<String>)
    ensures
        r.deep_view() == spec_list_query(query.deep_view()),
{
    match query {
        Some(q) => {
            let t = trim_str(q.as_str());
            let l = lower_str(t.as_str());
            if l.as_str().unicode_len() > 0 {
                Some(l)
            } else {
                None
            }
        },
        None => None,
    }
}

/// Whether `query` occurs in `value`, ignoring ASCII case.
pub open spec fn spec_contains_ignoring_case(value: Seq<char>, query: Seq<char>) -> bool {
    contains_text(lower(value), lower(query))
}

/// Whether `query` occurs in `value`, ignoring ASCII case.
pub fn ascii_case_insensitive_contains(value: &str, query: &str) -> (r: bool)
    ensures
        r == spec_contains_ignoring_case(value@, query@),
{
    let v = lower_str(value);
    let q = lower_str(query);
    str_contains(v.as_str(), q.as_str())
}

/// Whether a tunnel matches a list query: by name or by description,
/// ignoring ASCII case.
pub open spec fn spec_matches_query(t: TunnelModel, query: Seq<char>) -> bool {
    spec_contains_ignoring_case(t.name, query) || (t.description matches Some(d) && spec_contains_ignoring_case(
        d,
        query,
    ))
}

/// Whether a tunnel matches a list query: by name or by description,
/// ignoring ASCII case.
pub fn tunnel_matches_list_query(tunnel: &TunnelConfig, query: &str) -> (r: bool)
    ensures
        r == spec_matches_query(tunnel@, query@),
{
    if ascii_case_insensitive_contains(tunnel.name.as_str(), query) {
        return true;
    }
    match &tunnel.description {
        Some(d) => ascii_case_insensitive_contains(d.as_str(), query),
        None => false,
    }
}

/// Lower-casing twice is lower-casing once.
proof fn lemma_lower_idempotent(s: Seq<char>)
    ensures
        lower(lower(s)) == lower(s),
{
    assert(lower(lower(s)) =~= lower(s));
}

/// A list query ignores case: a query matches a tunnel exactly when its
/// lower-case form does.
pub proof fn lemma_query_ignores_case(t: TunnelModel, query: Seq<char>)
    ensures
        spec_matches_query(t, query) == spec_matches_query(t, lower(query)),
{
    lemma_lower_idempotent(query);
}

/// The message when the list selects nothing.
pub open spec fn spec_no_matches_message(tags: Seq<Seq<char>>, query: Option<Seq<char>>) -> Seq<char> {
    if tags.len() > 0 {
        match query {
            Some(q) => "No tunnels matched tags and query: "@ + joined(tags, ", "@) + " / "@ + q + "."@,
            None => "No tunnels matched tags: "@ + joined(tags, ", "@) + "."@,
        }
    } else {
        match query {
            Some(q) => "No tunnels matched query: "@ + q + "."@,
            None => "No tunnels are configured."@,
        }
    }
}

/// The message when the list selects nothing.
pub fn no_list_matches_message(tags: &[String], query: Option<&str>) -> (r: String)
    ensures
        r@ == spec_no_matches_message(tags.deep_view(), match query {
            Some(q) => Some(q@),
            None => None,
        }),
{
    if tags.len() > 0 {
        let joined_tags = join_strings(tags, ", ");
        match query {
            Some(q) => {
                let a = concat_str("No tunnels matched tags and query: ", joined_tags.as_str());
                let b = concat_str(a.as_str(), " / ");
                let c = concat_str(b.as_str(), q);
                concat_str(c.as_str(), ".")
            },
            None => {
                let a = concat_str("No tunnels matched tags: ", joined_tags.as_str());
                concat_str(a.as_str(), ".")
            },
        }
    } else {
        match query {
            Some(q) => {
                let a = concat_str("No tunnels matched query: ", q);
                concat_str(a.as_str(), ".")
            },
            None => String::from_str("No tunnels are configured."),
        }
    }
}

/// The message shown when watching starts.
pub open spec fn spec_watch_started_message(ids: Seq<Seq<char>>, interval_seconds: u64) -> Seq<char> {
    let target = if ids.len() == 0 {
        "tracked tunnels"@
    } else {
        "tracked tunnels: "@ + joined(ids, ", "@)
    };
    "Watching "@ + target + " every "@ + decimal(interval_seconds as nat) + "s. Press Ctrl-C to stop."@
}

/// The message shown when watching starts.
pub fn watch_started_message(ids: &[String], interval_seconds: u64) -> (r: String)
    ensures
        r@ == spec_watch_started_message(ids.deep_view(), interval_seconds),
{
    let target = if ids.len() == 0 {
        String::from_str("tracked tunnels")
    } else {
        let j = join_strings(ids, ", ");
        concat_str("tracked tunnels: ", j.as_str())
    };
    let a = concat_str("Watching ", target.as_str());
    let b = concat_str(a.as_str(), " every ");
    let c = concat_str(b.as_str(), decimal_string(interval_seconds).as_str());
    concat_str(c.as_str(), "s. Press Ctrl-C to stop.")
}

} // verus!
