//! The rows and column widths of the `list` and `status` tables.

use vstd::prelude::*;

use crate::config::{ConfigSourceKind, ResolvedTunnelConfig, ResolvedModel, spec_effective_local_host};
use crate::display::{
    display_width, endpoint_text, format_list_remote_endpoint, format_local_endpoint, format_ssh_endpoint,
    format_status_local_endpoint, format_status_remote_endpoint, format_tag_list, process_state_plain_label,
    relative_time_label, spec_relative_time, spec_ssh_endpoint, spec_tag_list, spec_truncate, text_width,
    LIST_REMOTE_HOST_MAX_WIDTH,
};
use crate::text::{concat_str, decimal, decimal_string};
use crate::tunnel::{ProcessState, TunnelRuntimeStatus};

verus! {

/// Narrowest `list` columns, in terminal columns.
pub const LIST_ID_MIN_WIDTH: usize = 24;
pub const LIST_LOCAL_MIN_WIDTH: usize = 24;
pub const LIST_REMOTE_MIN_WIDTH: usize = 32;
pub const LIST_SSH_MIN_WIDTH: usize = 32;
pub const LIST_TAGS_MIN_WIDTH: usize = 24;

/// Narrowest `status` columns, in terminal columns.
pub const STATUS_ID_MIN_WIDTH: usize = 24;
pub const STATUS_LOCAL_MIN_WIDTH: usize = 24;
pub const STATUS_REMOTE_MIN_WIDTH: usize = 32;
pub const STATUS_PID_MIN_WIDTH: usize = 8;
pub const STATUS_STATE_MIN_WIDTH: usize = 10;

/// The larger of two widths.
pub open spec fn wider(a: usize, b: usize) -> usize {
    if a >= b {
        a
    } else {
        b
    }
}

// ---------------------------------------------------------------------
// list
// ---------------------------------------------------------------------

/// One row of the `list` table, each cell with the columns it takes.
#[derive(Debug, PartialEq, Eq)]
pub struct ListRow {
    pub id: String,
    pub id_width: usize,
    pub local: String,
    pub local_width: usize,
    pub remote: String,
    pub remote_width: usize,
    pub ssh: String,
    pub ssh_width: usize,
    pub tags: String,
    pub tags_width: usize,
    pub source: ConfigSourceKind,
}

/// `row` shows `r`: its name, endpoints (the remote host cut unless
/// `wide`), SSH endpoint and tags, each with its display width.
pub open spec fn is_list_row_of(row: ListRow, r: ResolvedModel, wide: bool) -> bool {
    let t = r.tunnel;
    let remote = endpoint_text(
        if wide {
            t.remote_host
        } else {
            spec_truncate(t.remote_host, LIST_REMOTE_HOST_MAX_WIDTH)
        },
        t.remote_port,
    );
    &&& row.id@ == t.name
    &&& row.id_width == text_width(t.name)
    &&& row.local@ == endpoint_text(spec_effective_local_host(t), t.local_port)
    &&& row.local_width == text_width(row.local@)
    &&& row.remote@ == remote
    &&& row.remote_width == text_width(remote)
    &&& row.ssh@ == spec_ssh_endpoint(t)
    &&& row.ssh_width == text_width(row.ssh@)
    &&& row.tags@ == spec_tag_list(t.tags)
    &&& row.tags_width == text_width(row.tags@)
    &&& row.source == r.source.kind
}

impl ListRow {
    /// The `list` row of a tunnel.
    pub fn from_resolved_tunnel(resolved: &ResolvedTunnelConfig, wide: bool) -> (r: ListRow)
        ensures
            is_list_row_of(r, resolved@, wide),
    {
        let tunnel = &resolved.tunnel;
        let local = format_local_endpoint(tunnel);
        let remote = format_list_remote_endpoint(tunnel, wide);
        let ssh = format_ssh_endpoint(tunnel);
        let tags = format_tag_list(tunnel.tags.as_slice());
        ListRow {
            id: tunnel.name.clone(),
            id_width: display_width(tunnel.name.as_str()),
            local_width: display_width(local.as_str()),
            local,
            remote_width: display_width(remote.as_str()),
            remote,
            ssh_width: display_width(ssh.as_str()),
            ssh,
            tags_width: display_width(tags.as_str()),
            tags,
            source: resolved.source.kind,
        }
    }
}

/// The `list` rows of tunnels, in their order.
pub fn list_rows(tunnels: &[ResolvedTunnelConfig], wide: bool) -> (r: Vec<ListRow>)
    ensures
        r@.len() == tunnels@.len(),
        forall|k: int| 0 <= k < r@.len() ==> #[trigger] is_list_row_of(r@[k], tunnels@[k]@, wide),
{
    let mut rows: Vec<ListRow> = Vec::new();
    let mut i: usize = 0;
    while i < tunnels.len()
        invariant
            i <= tunnels@.len(),
            rows@.len() == i,
            forall|k: int| 0 <= k < i ==> #[trigger] is_list_row_of(rows@[k], tunnels@[k]@, wide),
        decreases tunnels@.len() - i,
    {
        rows.push(ListRow::from_resolved_tunnel(&tunnels[i], wide));
        i += 1;
    }
    rows
}

/// The widths of the `list` columns.
#[derive(Debug, Clone, Copy, PartialEq, Eq, Structural)]
pub struct ListColumnWidths {
    pub id: usize,
    pub local: usize,
    pub remote: usize,
    pub ssh: usize,
    pub tags: usize,
}

/// The narrowest `list` columns.
pub open spec fn list_minimums() -> ListColumnWidths {
    ListColumnWidths {
        id: LIST_ID_MIN_WIDTH,
        local: LIST_LOCAL_MIN_WIDTH,
        remote: LIST_REMOTE_MIN_WIDTH,
        ssh: LIST_SSH_MIN_WIDTH,
        tags: LIST_TAGS_MIN_WIDTH,
    }
}

impl ListColumnWidths {
    /// The narrowest `list` columns.
    pub fn with_minimums() -> (r: ListColumnWidths)
        ensures
            r == list_minimums(),
    {
        ListColumnWidths {
            id: LIST_ID_MIN_WIDTH,
            local: LIST_LOCAL_MIN_WIDTH,
            remote: LIST_REMOTE_MIN_WIDTH,
            ssh: LIST_SSH_MIN_WIDTH,
            tags: LIST_TAGS_MIN_WIDTH,
        }
    }
}

/// Each column as wide as its widest cell, and no narrower than its
/// minimum.
pub open spec fn spec_list_widths(rows: Seq<ListRow>) -> ListColumnWidths
    decreases rows.len(),
{
    if rows.len() == 0 {
        list_minimums()
    } else {
        let w = spec_list_widths(rows.drop_last());
        let row = rows.last();
        ListColumnWidths {
            id: wider(w.id, row.id_width),
            local: wider(w.local, row.local_width),
            remote: wider(w.remote, row.remote_width),
            ssh: wider(w.ssh, row.ssh_width),
            tags: wider(w.tags, row.tags_width),
        }
    }
}

/// The widths of the `list` columns for these rows.
pub fn list_column_widths(rows: &[ListRow]) -> (r: ListColumnWidths)
    ensures
        r == spec_list_widths(rows@),
{
    let mut w = ListColumnWidths::with_minimums();
    let mut i: usize = 0;
    while i < rows.len()
        invariant
            i <= rows@.len(),
            w == spec_list_widths(rows@.subrange(0, i as int)),
        decreases rows@.len() - i,
    {
        let row = &rows[i];
        assert(rows@.subrange(0, i + 1).drop_last() =~= rows@.subrange(0, i as int));
        w = ListColumnWidths {
            id: if row.id_width > w.id { row.id_width } else { w.id },
            local: if row.local_width > w.local { row.local_width } else { w.local },
            remote: if row.remote_width > w.remote { row.remote_width } else { w.remote },
            ssh: if row.ssh_width > w.ssh { row.ssh_width } else { w.ssh },
            tags: if row.tags_width > w.tags { row.tags_width } else { w.tags },
        };
        i += 1;
    }
    assert(rows@.subrange(0, i as int) =~= rows@);
    w
}

/// Every column is at least its minimum, and at least as wide as each of
/// its cells.
pub proof fn lemma_list_widths_cover_rows(rows: Seq<ListRow>)
    ensures
        spec_list_widths(rows).id >= LIST_ID_MIN_WIDTH,
        spec_list_widths(rows).local >= LIST_LOCAL_MIN_WIDTH,
        spec_list_widths(rows).remote >= LIST_REMOTE_MIN_WIDTH,
        spec_list_widths(rows).ssh >= LIST_SSH_MIN_WIDTH,
        spec_list_widths(rows).tags >= LIST_TAGS_MIN_WIDTH,
        forall|k: int|
            0 <= k < rows.len() ==> {
                let w = spec_list_widths(rows);
                &&& w.id >= (#[trigger] rows[k]).id_width
                &&& w.local >= rows[k].local_width
                &&& w.remote >= rows[k].remote_width
                &&& w.ssh >= rows[k].ssh_width
                &&& w.tags >= rows[k].tags_width
            },
    decreases rows.len(),
{
    if rows.len() > 0 {
        lemma_list_widths_cover_rows(rows.drop_last());
        assert forall|k: int| 0 <= k < rows.len() - 1 implies #[trigger] rows[k] == rows.drop_last()[k] by {}
    }
}

// ---------------------------------------------------------------------
// status
// ---------------------------------------------------------------------

/// A text in a color (an ANSI SGR code) when it goes to a terminal, else
/// as it is.
pub open spec fn spec_colorize(message: Seq<char>, color_code: Seq<char>, terminal: bool) -> Seq<char> {
    if terminal {
        "\x1b["@ + color_code + "m"@ + message + "\x1b[0m"@
    } else {
        message
    }
}

/// A text in a color (an ANSI SGR code) when it goes to a terminal, else
/// as it is.
pub fn colorize(message: &str, color_code: &str, terminal: bool) -> (r: String)
    ensures
        r@ == spec_colorize(message@, color_code@, terminal),
{
    if !terminal {
        return String::from_str(message);
    }
    let a = concat_str("\x1b[", color_code);
    let b = concat_str(a.as_str(), "m");
    let c = concat_str(b.as_str(), message);
    concat_str(c.as_str(), "\x1b[0m")
}

/// The label of a process state: `RUNNING` in green, `STALE` in red (the
/// colors only on a terminal).
pub open spec fn spec_state_label(state: ProcessState, terminal: bool) -> Seq<char> {
    match state {
        ProcessState::Running => spec_colorize("RUNNING"@, "32"@, terminal),
        ProcessState::Stale => spec_colorize("STALE"@, "31"@, terminal),
    }
}

/// The label of a process state, colored on a terminal.
pub fn process_state_label(state: ProcessState, terminal: bool) -> (r: String)
    ensures
        r@ == spec_state_label(state, terminal),
{
    match state {
        ProcessState::Running => colorize(process_state_plain_label(state), "32", terminal),
        ProcessState::Stale => colorize(process_state_plain_label(state), "31", terminal),
    }
}

/// One row of the `status` table, each cell with the columns it takes.
#[derive(Debug, PartialEq, Eq)]
pub struct StatusRow {
    pub id: String,
    pub id_width: usize,
    pub local: String,
    pub local_width: usize,
    pub remote: String,
    pub remote_width: usize,
    pub pid: String,
    pub pid_width: usize,
    pub process_state: String,
    pub process_state_width: usize,
    pub source: ConfigSourceKind,
    pub started: String,
}

/// `row` shows `s` at time `now`: its name, endpoints, pid, state (whose
/// width is that of the label without color) and how long ago it started.
pub open spec fn is_status_row_of(row: StatusRow, s: TunnelRuntimeStatus, now: u64, terminal: bool) -> bool {
    let st = s.state@;
    let plain = match s.process_state {
        ProcessState::Running => "RUNNING"@,
        ProcessState::Stale => "STALE"@,
    };
    &&& row.id@ == st.name
    &&& row.id_width == text_width(st.name)
    &&& row.local@ == endpoint_text(st.local_host, st.local_port)
    &&& row.local_width == text_width(row.local@)
    &&& row.remote@ == endpoint_text(st.remote_host, st.remote_port)
    &&& row.remote_width == text_width(row.remote@)
    &&& row.pid@ == decimal(st.pid as nat)
    &&& row.pid_width == text_width(row.pid@)
    &&& row.process_state@ == spec_state_label(s.process_state, terminal)
    &&& row.process_state_width == text_width(plain)
    &&& row.source == st.source_kind
    &&& row.started@ == spec_relative_time(st.started_at_unix_seconds, now)
}

impl StatusRow {
    /// The `status` row of a tunnel at time `now` (UNIX seconds).
    pub fn from_status(status: &TunnelRuntimeStatus, now: u64, terminal: bool) -> (r: StatusRow)
        ensures
            is_status_row_of(r, *status, now, terminal),
    {
        let state = &status.state;
        let local = format_status_local_endpoint(state);
        let remote = format_status_remote_endpoint(state);
        let pid = decimal_string(state.pid as u64);
        let process_state = process_state_label(status.process_state, terminal);
        let process_state_width = display_width(process_state_plain_label(status.process_state));
        let started = relative_time_label(state.started_at_unix_seconds, now);
        StatusRow {
            id: state.name.clone(),
            id_width: display_width(state.name.as_str()),
            local_width: display_width(local.as_str()),
            local,
            remote_width: display_width(remote.as_str()),
            remote,
            pid_width: display_width(pid.as_str()),
            pid,
            process_state_width,
            process_state,
            source: state.source_kind,
            started,
        }
    }
}

/// The `status` rows of tunnels at time `now`, in their order.
pub fn status_rows(statuses: &[TunnelRuntimeStatus], now: u64, terminal: bool) -> (r: Vec<StatusRow>)
    ensures
        r@.len() == statuses@.len(),
        forall|k: int| 0 <= k < r@.len() ==> #[trigger] is_status_row_of(r@[k], statuses@[k], now, terminal),
{
    let mut rows: Vec<StatusRow> = Vec::new();
    let mut i: usize = 0;
    while i < statuses.len()
        invariant
            i <= statuses@.len(),
            rows@.len() == i,
            forall|k: int| 0 <= k < i ==> #[trigger] is_status_row_of(rows@[k], statuses@[k], now, terminal),
        decreases statuses@.len() - i,
    {
        rows.push(StatusRow::from_status(&statuses[i], now, terminal));
        i += 1;
    }
    rows
}

/// The widths of the `status` columns.
#[derive(Debug, Clone, Copy, PartialEq, Eq, Structural)]
pub struct StatusColumnWidths {
    pub id: usize,
    pub local: usize,
    pub remote: usize,
    pub pid: usize,
    pub state: usize,
}

/// The narrowest `status` columns.
pub open spec fn status_minimums() -> StatusColumnWidths {
    StatusColumnWidths {
        id: STATUS_ID_MIN_WIDTH,
        local: STATUS_LOCAL_MIN_WIDTH,
        remote: STATUS_REMOTE_MIN_WIDTH,
        pid: STATUS_PID_MIN_WIDTH,
        state: STATUS_STATE_MIN_WIDTH,
    }
}

impl StatusColumnWidths {
    /// The narrowest `status` columns.
    pub fn with_minimums() -> (r: StatusColumnWidths)
        ensures
            r == status_minimums(),
    {
        StatusColumnWidths {
            id: STATUS_ID_MIN_WIDTH,
            local: STATUS_LOCAL_MIN_WIDTH,
            remote: STATUS_REMOTE_MIN_WIDTH,
            pid: STATUS_PID_MIN_WIDTH,
            state: STATUS_STATE_MIN_WIDTH,
        }
    }
}

/// Each column as wide as its widest cell, and no narrower than its
/// minimum.
pub open spec fn spec_status_widths(rows: Seq<StatusRow>) -> StatusColumnWidths
    decreases rows.len(),
{
    if rows.len() == 0 {
        status_minimums()
    } else {
        let w = spec_status_widths(rows.drop_last());
        let row = rows.last();
        StatusColumnWidths {
            id: wider(w.id, row.id_width),
            local: wider(w.local, row.local_width),
            remote: wider(w.remote, row.remote_width),
            pid: wider(w.pid, row.pid_width),
            state: wider(w.state, row.process_state_width),
        }
    }
}

/// The widths of the `status` columns for these rows.
pub fn status_column_widths(rows: &[StatusRow]) -> (r: StatusColumnWidths)
    ensures
        r == spec_status_widths(rows@),
{
    let mut w = StatusColumnWidths::with_minimums();
    let mut i: usize = 0;
    while i < rows.len()
        invariant
            i <= rows@.len(),
            w == spec_status_widths(rows@.subrange(0, i as int)),
        decreases rows@.len() - i,
    {
        let row = &rows[i];
        assert(rows@.subrange(0, i + 1).drop_last() =~= rows@.subrange(0, i as int));
        w = StatusColumnWidths {
            id: if row.id_width > w.id { row.id_width } else { w.id },
            local: if row.local_width > w.local { row.local_width } else { w.local },
            remote: if row.remote_width > w.remote { row.remote_width } else { w.remote },
            pid: if row.pid_width > w.pid { row.pid_width } else { w.pid },
            state: if row.process_state_width > w.state { row.process_state_width } else { w.state },
        };
        i += 1;
    }
    assert(rows@.subrange(0, i as int) =~= rows@);
    w
}

} // verus!
