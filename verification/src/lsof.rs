//! The processes that listen on local ports, as `lsof -F pcn` reports
//! them, and their display.

use vstd::prelude::*;

use std::collections::{HashMap, HashSet};

use crate::text::{
    chars_of, concat_str, decimal, decimal_string, parse_unsigned, parse_unsigned_str, str_eq, string_of_range,
    trim, trim_str,
};

verus! {

/// A process that listens on a local port.
#[derive(Debug, PartialEq, Eq)]
pub struct LocalPortProcess {
    pub command: String,
    pub pid: u32,
    pub endpoint: Option<String>,
}

/// The mathematical value of a [`LocalPortProcess`].
pub ghost struct ProcessModel {
    pub command: Seq<char>,
    pub pid: u32,
    pub endpoint: Option<Seq<char>>,
}

impl View for LocalPortProcess {
    type V = ProcessModel;

    open spec fn view(&self) -> ProcessModel {
        ProcessModel { command: self.command@, pid: self.pid, endpoint: self.endpoint.deep_view() }
    }
}

impl DeepView for LocalPortProcess {
    type V = ProcessModel;

    open spec fn deep_view(&self) -> ProcessModel {
        self@
    }
}

impl Clone for LocalPortProcess {
    fn clone(&self) -> (r: Self)
        ensures
            r@ == self@,
    {
        LocalPortProcess {
            command: self.command.clone(),
            pid: self.pid,
            endpoint: match &self.endpoint {
                Some(e) => Some(e.clone()),
                None => None,
            },
        }
    }
}

/// The display form of a process: `command (pid: N)` or
/// `command (pid: N, endpoint: E)`.
pub open spec fn spec_process_text(p: ProcessModel) -> Seq<char> {
    p.command + " (pid: "@ + decimal(p.pid as nat) + match p.endpoint {
        Some(e) => ", endpoint: "@ + e,
        None => seq![],
    } + ")"@
}

impl LocalPortProcess {
    /// The display form: `command (pid: N, endpoint: E)`, without the
    /// endpoint part when there is none.
    pub fn to_display_string(&self) -> (r: String)
        ensures
            r@ == spec_process_text(self@),
    {
        let a = concat_str(self.command.as_str(), " (pid: ");
        let d = decimal_string(self.pid as u64);
        let mut r = concat_str(a.as_str(), d.as_str());
        match &self.endpoint {
            Some(e) => {
                let b = concat_str(r.as_str(), ", endpoint: ");
                r = concat_str(b.as_str(), e.as_str());
            },
            None => {},
        }
        let r = concat_str(r.as_str(), ")");
        proof {
            match self@.endpoint {
                Some(e) => {},
                None => {
                    assert(self@.command + " (pid: "@ + decimal(self@.pid as nat) =~= self@.command + " (pid: "@
                        + decimal(self@.pid as nat) + Seq::<char>::empty());
                },
            }
        }
        r
    }
}

/// The processes that listen on some local port.
#[derive(Debug, PartialEq, Eq)]
pub struct LocalPortProcesses(Vec<LocalPortProcess>);

impl View for LocalPortProcesses {
    type V = Seq<ProcessModel>;

    closed spec fn view(&self) -> Seq<ProcessModel> {
        self.0.deep_view()
    }
}

impl Clone for LocalPortProcesses {
    fn clone(&self) -> (r: Self)
        ensures
            r@ == self@,
    {
        LocalPortProcesses(clone_processes(&self.0))
    }
}

impl Default for LocalPortProcesses {
    fn default() -> (r: Self)
        ensures
            r@ == Seq::<ProcessModel>::empty(),
    {
        LocalPortProcesses::new(Vec::new())
    }
}

/// A copy of a list of processes.
fn clone_processes(v: &Vec<LocalPortProcess>) -> (r: Vec<LocalPortProcess>)
    ensures
        r.deep_view() == v.deep_view(),
{
    let mut r: Vec<LocalPortProcess> = Vec::new();
    let mut i: usize = 0;
    while i < v.len()
        invariant
            i <= v@.len(),
            r@.len() == i,
            forall|j: int| 0 <= j < i ==> (#[trigger] r@[j])@ == v@[j]@,
        decreases v@.len() - i,
    {
        r.push(v[i].clone());
        i += 1;
    }
    assert(r.deep_view() =~= v.deep_view());
    r
}

/// The labels of the processes joined by `, `.
pub open spec fn joined_labels(ps: Seq<ProcessModel>) -> Seq<char>
    decreases ps.len(),
{
    if ps.len() == 0 {
        seq![]
    } else if ps.len() == 1 {
        spec_process_text(ps[0])
    } else {
        joined_labels(ps.drop_last()) + ", "@ + spec_process_text(ps.last())
    }
}

/// The note added to an error about a busy local port: empty when no
/// process is known, else `; listening process: ...` (or `processes`).
pub open spec fn spec_processes_text(ps: Seq<ProcessModel>) -> Seq<char> {
    if ps.len() == 0 {
        seq![]
    } else {
        "; "@ + (if ps.len() == 1 {
            "listening process"@
        } else {
            "listening processes"@
        }) + ": "@ + joined_labels(ps)
    }
}

impl LocalPortProcesses {
    /// A list of processes.
    pub fn new(processes: Vec<LocalPortProcess>) -> (r: Self)
        ensures
            r@ == processes.deep_view(),
    {
        LocalPortProcesses(processes)
    }

    /// Whether the list is empty.
    pub fn is_empty(&self) -> (r: bool)
        ensures
            r == (self@.len() == 0),
    {
        self.0.len() == 0
    }

    /// The processes, in order.
    pub fn processes(&self) -> (r: &Vec<LocalPortProcess>)
        ensures
            r.deep_view() == self@,
    {
        &self.0
    }

    /// Whether a process of the list has this pid.
    pub fn contains_pid(&self, pid: u32) -> (r: bool)
        ensures
            r == exists|i: int| 0 <= i < self@.len() && (#[trigger] self@[i]).pid == pid,
    {
        let mut i: usize = 0;
        while i < self.0.len()
            invariant
                i <= self@.len(),
                forall|j: int| 0 <= j < i ==> (#[trigger] self@[j]).pid != pid,
            decreases self@.len() - i,
        {
            assert(self@[i as int] == self.0@[i as int]@);
            if self.0[i].pid == pid {
                return true;
            }
            i += 1;
        }
        false
    }

    /// The note added to an error about a busy local port.
    pub fn to_display_string(&self) -> (r: String)
        ensures
            r@ == spec_processes_text(self@),
    {
        let n = self.0.len();
        if n == 0 {
            return String::new();
        }
        let mut labels = String::new();
        let mut i: usize = 0;
        while i < n
            invariant
                n == self@.len(),
                i <= n,
                labels@ == joined_labels(self@.subrange(0, i as int)),
            decreases n - i,
        {
            assert(self@[i as int] == self.0@[i as int]@);
            let label = self.0[i].to_display_string();
            let ghost prev = self@.subrange(0, i as int);
            assert(self@.subrange(0, i + 1).drop_last() =~= prev);
            if i == 0 {
                labels = label;
                assert(labels@ == joined_labels(self@.subrange(0, 1)));
            } else {
                let a = concat_str(labels.as_str(), ", ");
                labels = concat_str(a.as_str(), label.as_str());
            }
            i += 1;
        }
        assert(self@.subrange(0, n as int) =~= self@);
        let noun = if n == 1 {
            "listening process"
        } else {
            "listening processes"
        };
        let a = concat_str("; ", noun);
        let b = concat_str(a.as_str(), ": ");
        concat_str(b.as_str(), labels.as_str())
    }
}

// ---------------------------------------------------------------------
// The field output of lsof
// ---------------------------------------------------------------------

/// A line without one trailing carriage return.
pub open spec fn strip_cr(l: Seq<char>) -> Seq<char> {
    if l.len() > 0 && l.last() == '\r' {
        l.drop_last()
    } else {
        l
    }
}

/// The non-empty lines among the first `i` characters, and the line being
/// read: lines end at `\n`, and a `\r` just before it is dropped.
pub open spec fn line_state(s: Seq<char>, i: int) -> (Seq<Seq<char>>, Seq<char>)
    decreases i,
{
    if i <= 0 {
        (seq![], seq![])
    } else {
        let (lines, cur) = line_state(s, i - 1);
        if s[i - 1] == '\n' {
            let l = strip_cr(cur);
            (if l.len() > 0 {
                lines.push(l)
            } else {
                lines
            }, seq![])
        } else {
            (lines, cur.push(s[i - 1]))
        }
    }
}

/// The non-empty lines of a text.
pub open spec fn nonempty_lines(s: Seq<char>) -> Seq<Seq<char>> {
    let (lines, cur) = line_state(s, s.len() as int);
    if cur.len() > 0 {
        lines.push(cur)
    } else {
        lines
    }
}

/// Whether every non-empty line starts with an ASCII character (the field
/// letter); the output of `lsof -F` does.
pub open spec fn lsof_output_readable(s: Seq<char>) -> bool {
    forall|k: int| 0 <= k < nonempty_lines(s).len() ==> (#[trigger] nonempty_lines(s)[k])[0] < '\u{80}'
}

/// The process being read: its pid, command and endpoints so far.
pub ghost struct PendingModel {
    pub pid: Option<u32>,
    pub command: Option<Seq<char>>,
    pub endpoints: Seq<Seq<char>>,
}

/// The processes that a finished record gives: none without a pid, one
/// per endpoint, or one without an endpoint; the command is `unknown`
/// when none was given.
pub open spec fn pending_processes(b: PendingModel) -> Seq<ProcessModel> {
    match b.pid {
        None => seq![],
        Some(pid) => {
            let command = match b.command {
                Some(c) => c,
                None => "unknown"@,
            };
            if b.endpoints.len() == 0 {
                seq![ProcessModel { command, pid, endpoint: None }]
            } else {
                b.endpoints.map_values(|e: Seq<char>| ProcessModel { command, pid, endpoint: Some(e) })
            }
        },
    }
}

/// A record with nothing read yet.
pub open spec fn empty_pending() -> PendingModel {
    PendingModel { pid: None, command: None, endpoints: seq![] }
}

/// `Some(v)` unless `v` is empty.
pub open spec fn non_empty(v: Seq<char>) -> Option<Seq<char>> {
    if v.len() == 0 {
        None
    } else {
        Some(v)
    }
}

/// Reading the first `n` lines: the processes of the finished records,
/// and the record being read. A `p` line starts a record, a `c` line
/// gives its command, an `n` line adds an endpoint; other lines are
/// ignored.
pub open spec fn lsof_state(lines: Seq<Seq<char>>, n: int) -> (Seq<ProcessModel>, PendingModel)
    decreases n,
{
    if n <= 0 {
        (seq![], empty_pending())
    } else {
        let (ps, b) = lsof_state(lines, n - 1);
        let line = lines[n - 1];
        let f = line[0];
        let v = line.drop_first();
        if f == 'p' {
            (
                ps + pending_processes(b),
                PendingModel {
                    pid: match parse_unsigned(v, 0xffff_ffff) {
                        Some(x) => Some(x as u32),
                        None => None,
                    },
                    command: None,
                    endpoints: seq![],
                },
            )
        } else if f == 'c' {
            (ps, PendingModel { command: non_empty(v), ..b })
        } else if f == 'n' {
            (ps, if v.len() > 0 {
                PendingModel { endpoints: b.endpoints.push(v), ..b }
            } else {
                b
            })
        } else {
            (ps, b)
        }
    }
}

/// The processes listed in the field output of `lsof -F pcn`.
pub open spec fn spec_parse_lsof(s: Seq<char>) -> Seq<ProcessModel> {
    let lines = nonempty_lines(s);
    let (ps, b) = lsof_state(lines, lines.len() as int);
    ps + pending_processes(b)
}

/// The non-empty lines of a text.
fn lines_of(s: &str) -> (r: Vec<String>)
    ensures
        r.deep_view() == nonempty_lines(s@),
{
    let cs = chars_of(s);
    let mut lines: Vec<String> = Vec::new();
    let mut start: usize = 0;
    let mut i: usize = 0;
    while i < cs.len()
        invariant
            cs@ == s@,
            start <= i <= cs@.len(),
            line_state(s@, i as int) == (lines.deep_view(), s@.subrange(start as int, i as int)),
        decreases cs@.len() - i,
    {
        if cs[i] == '\n' {
            let end = if i > start && cs[i - 1] == '\r' {
                i - 1
            } else {
                i
            };
            let ghost cur = s@.subrange(start as int, i as int);
            assert(strip_cr(cur) =~= s@.subrange(start as int, end as int));
            if end > start {
                let ghost before = lines.deep_view();
                let l = string_of_range(&cs, start, end);
                lines.push(l);
                assert(lines.deep_view() =~= before.push(strip_cr(cur)));
            }
            start = i + 1;
            assert(s@.subrange(start as int, i + 1) =~= Seq::<char>::empty());
        } else {
            assert(s@.subrange(start as int, i + 1) =~= s@.subrange(start as int, i as int).push(cs@[i as int]));
        }
        i += 1;
    }
    if i > start {
        let ghost before = lines.deep_view();
        let l = string_of_range(&cs, start, i);
        lines.push(l);
        assert(lines.deep_view() =~= before.push(s@.subrange(start as int, i as int)));
    }
    lines
}

/// The record being read.
struct Pending {
    pid: Option<u32>,
    command: Option<String>,
    endpoints: Vec<String>,
}

impl View for Pending {
    type V = PendingModel;

    closed spec fn view(&self) -> PendingModel {
        PendingModel { pid: self.pid, command: self.command.deep_view(), endpoints: self.endpoints.deep_view() }
    }
}

/// Appends the processes of a finished record.
fn flush_pending(out: &mut Vec<LocalPortProcess>, b: Pending)
    ensures
        final(out).deep_view() == old(out).deep_view() + pending_processes(b@),
{
    let pid = match b.pid {
        None => {
            assert(old(out).deep_view() =~= old(out).deep_view() + Seq::<ProcessModel>::empty());
            return;
        },
        Some(p) => p,
    };
    let command = match b.command {
        Some(c) => c,
        None => String::from_str("unknown"),
    };
    let ghost start = out.deep_view();
    if b.endpoints.len() == 0 {
        out.push(LocalPortProcess { command, pid, endpoint: None });
        assert(out.deep_view() =~= start + pending_processes(b@));
        return;
    }
    let ghost eps = b.endpoints.deep_view();
    let ghost cv = command@;
    let mut i: usize = 0;
    while i < b.endpoints.len()
        invariant
            i <= b.endpoints@.len(),
            eps == b.endpoints.deep_view(),
            cv == command@,
            out.deep_view() == start + eps.subrange(0, i as int).map_values(
                |e: Seq<char>| ProcessModel { command: cv, pid, endpoint: Some(e) },
            ),
        decreases b.endpoints@.len() - i,
    {
        let ghost before = out.deep_view();
        let ghost f = |e: Seq<char>| ProcessModel { command: cv, pid, endpoint: Some(e) };
        assert(eps[i as int] == b.endpoints@[i as int]@);
        out.push(LocalPortProcess { command: command.clone(), pid, endpoint: Some(b.endpoints[i].clone()) });
        assert(out.deep_view() =~= before.push(f(eps[i as int])));
        assert(eps.subrange(0, i + 1).map_values(f) =~= eps.subrange(0, i as int).map_values(f).push(
            f(eps[i as int]),
        ));
        i += 1;
        assert(out.deep_view() =~= start + eps.subrange(0, i as int).map_values(f));
    }
    assert(eps.subrange(0, i as int) =~= eps);
}

/// Reads the processes listed in the field output of `lsof -F pcn`: a
/// `p` line starts a process, `c` gives its command and each `n` one of
/// its endpoints; a process is listed once per endpoint.
pub fn parse_lsof_processes(output: &str) -> (r: LocalPortProcesses)
    requires
        lsof_output_readable(output@),
    ensures
        r@ == spec_parse_lsof(output@),
{
    let lines = lines_of(output);
    let ghost lv = lines.deep_view();
    let mut out: Vec<LocalPortProcess> = Vec::new();
    let mut cur = Pending { pid: None, command: None, endpoints: Vec::new() };
    assert(cur@.endpoints =~= Seq::<Seq<char>>::empty());
    assert(out.deep_view() =~= Seq::<ProcessModel>::empty());
    let mut i: usize = 0;
    while i < lines.len()
        invariant
            lv == lines.deep_view(),
            lv == nonempty_lines(output@),
            lsof_output_readable(output@),
            i <= lv.len(),
            lsof_state(lv, i as int) == (out.deep_view(), cur@),
        decreases lv.len() - i,
    {
        assert(lv[i as int] == lines@[i as int]@);
        let cs = chars_of(lines[i].as_str());
        assert(lv[i as int].len() > 0) by {
            let (ls, c) = line_state(output@, output@.len() as int);
            lemma_lines_nonempty(output@, output@.len() as int);
        }
        let f = cs[0];
        let value = string_of_range(&cs, 1, cs.len());
        assert(value@ =~= lv[i as int].drop_first());
        if f == 'p' {
            let pid: Option<u32> = match parse_unsigned_str(value.as_str(), 0xffff_ffff) {
                Some(x) => Some(x as u32),
                None => None,
            };
            let next = Pending { pid, command: None, endpoints: Vec::new() };
            let old_cur = cur;
            cur = next;
            flush_pending(&mut out, old_cur);
            assert(cur@.endpoints =~= Seq::<Seq<char>>::empty());
        } else if f == 'c' {
            if value.as_str().unicode_len() == 0 {
                cur.command = None;
            } else {
                cur.command = Some(value);
            }
        } else if f == 'n' {
            if value.as_str().unicode_len() > 0 {
                let ghost before = cur.endpoints.deep_view();
                let ghost vv = value@;
                cur.endpoints.push(value);
                assert(cur.endpoints.deep_view() =~= before.push(vv));
            }
        }
        i += 1;
    }
    flush_pending(&mut out, cur);
    LocalPortProcesses(out)
}


/// Whether every non-empty line of the output starts with an ASCII
/// character, as [`parse_lsof_processes`] needs.
pub fn lsof_output_is_readable(output: &str) -> (r: bool)
    ensures
        r == lsof_output_readable(output@),
{
    let lines = lines_of(output);
    let ghost lv = lines.deep_view();
    proof {
        lemma_lines_nonempty(output@, output@.len() as int);
    }
    let mut i: usize = 0;
    while i < lines.len()
        invariant
            lv == lines.deep_view(),
            lv == nonempty_lines(output@),
            forall|k: int| 0 <= k < lv.len() ==> (#[trigger] lv[k]).len() > 0,
            i <= lv.len(),
            forall|k: int| 0 <= k < i ==> (#[trigger] lv[k])[0] < '\u{80}',
        decreases lv.len() - i,
    {
        assert(lv[i as int] == lines@[i as int]@);
        let cs = chars_of(lines[i].as_str());
        assert(lv[i as int].len() > 0);
        if cs[0] >= '\u{80}' {
            return false;
        }
        i += 1;
    }
    true
}

proof fn lemma_lines_nonempty(s: Seq<char>, i: int)
    requires
        0 <= i <= s.len(),
    ensures
        forall|k: int| 0 <= k < line_state(s, i).0.len() ==> (#[trigger] line_state(s, i).0[k]).len() > 0,
        i == s.len() ==> forall|k: int| 0 <= k < nonempty_lines(s).len() ==> (#[trigger] nonempty_lines(s)[k]).len() > 0,
    decreases i,
{
    if i > 0 {
        lemma_lines_nonempty(s, i - 1);
        let (ls, cur) = line_state(s, i - 1);
        if s[i - 1] == '\n' {
            let l = strip_cr(cur);
            if l.len() > 0 {
                assert forall|k: int| 0 <= k < ls.push(l).len() implies (#[trigger] ls.push(l)[k]).len() > 0 by {
                    if k < ls.len() {
                        assert(ls.push(l)[k] == ls[k]);
                    }
                }
            }
        }
    }
    if i == s.len() {
        let (ls, cur) = line_state(s, i);
        if cur.len() > 0 {
            assert forall|k: int| 0 <= k < ls.push(cur).len() implies (#[trigger] ls.push(cur)[k]).len() > 0 by {
                if k < ls.len() {
                    assert(ls.push(cur)[k] == ls[k]);
                }
            }
        }
    }
}

// ---------------------------------------------------------------------
// Endpoints
// ---------------------------------------------------------------------

/// `s` without the suffix `suffix`, when it ends with it.
pub open spec fn strip_suffix(s: Seq<char>, suffix: Seq<char>) -> Seq<char> {
    if suffix.len() <= s.len() && s.subrange(s.len() - suffix.len(), s.len() as int) == suffix {
        s.subrange(0, s.len() - suffix.len())
    } else {
        s
    }
}

/// The position of the last `c` in `s` (-1 when none).
pub open spec fn last_pos(s: Seq<char>, c: char, e: int) -> int
    decreases e,
{
    if e <= 0 {
        -1
    } else if s[e - 1] == c {
        e - 1
    } else {
        last_pos(s, c, e - 1)
    }
}

/// The local port of an endpoint as lsof writes it, such as
/// `127.0.0.1:15432 (LISTEN)` or `TCP *:15432`: the number after the last
/// `:` of its last word, without the ` (LISTEN)` mark.
pub open spec fn spec_listen_endpoint_port(endpoint: Seq<char>) -> Option<u16> {
    let e = trim(strip_suffix(trim(endpoint), " (LISTEN)"@));
    let sp = last_pos(e, ' ', e.len() as int);
    let socket = if sp >= 0 {
        e.subrange(sp + 1, e.len() as int)
    } else {
        e
    };
    let colon = last_pos(socket, ':', socket.len() as int);
    if colon < 0 {
        None
    } else {
        match parse_unsigned(socket.subrange(colon + 1, socket.len() as int), 65535) {
            Some(n) => Some(n as u16),
            None => None,
        }
    }
}

proof fn lemma_last_pos_bounds(s: Seq<char>, c: char, e: int)
    requires
        0 <= e <= s.len(),
    ensures
        -1 <= last_pos(s, c, e) < e,
    decreases e,
{
    if e > 0 && s[e - 1] != c {
        lemma_last_pos_bounds(s, c, e - 1);
    }
}

/// The position of the last `c` in `cs`.
fn last_pos_of(cs: &Vec<char>, c: char) -> (r: Option<usize>)
    ensures
        match r {
            Some(k) => last_pos(cs@, c, cs@.len() as int) == k as int && k < cs@.len(),
            None => last_pos(cs@, c, cs@.len() as int) == -1,
        },
{
    proof {
        lemma_last_pos_bounds(cs@, c, cs@.len() as int);
    }
    let mut k = cs.len();
    while k > 0 && cs[k - 1] != c
        invariant
            k <= cs@.len(),
            last_pos(cs@, c, cs@.len() as int) == last_pos(cs@, c, k as int),
        decreases k,
    {
        k -= 1;
    }
    if k == 0 {
        None
    } else {
        Some(k - 1)
    }
}

/// `s` without the suffix ` (LISTEN)`.
fn strip_listen_mark(s: &str) -> (r: String)
    ensures
        r@ == strip_suffix(s@, " (LISTEN)"@),
{
    let cs = chars_of(s);
    let mark = chars_of(" (LISTEN)");
    let n = cs.len();
    let m = mark.len();
    if m <= n {
        let tail = string_of_range(&cs, n - m, n);
        let mark_text = string_of_range(&mark, 0, m);
        assert(mark_text@ =~= " (LISTEN)"@);
        if str_eq(tail.as_str(), mark_text.as_str()) {
            return string_of_range(&cs, 0, n - m);
        }
    }
    string_of_range(&cs, 0, n)
}

/// The local port of an endpoint as lsof writes it.
pub fn listen_endpoint_port(endpoint: &str) -> (r: Option<u16>)
    ensures
        r == spec_listen_endpoint_port(endpoint@),
{
    let t = trim_str(endpoint);
    let u = strip_listen_mark(t.as_str());
    let e = trim_str(u.as_str());
    let ecs = chars_of(e.as_str());
    let ghost ev = trim(strip_suffix(trim(endpoint@), " (LISTEN)"@));
    assert(ecs@ == ev);
    let en = ecs.len();
    let socket = match last_pos_of(&ecs, ' ') {
        Some(sp) => string_of_range(&ecs, sp + 1, en),
        None => {
            assert(ecs@.subrange(0, ecs@.len() as int) =~= ecs@);
            string_of_range(&ecs, 0, ecs.len())
        },
    };
    let scs = chars_of(socket.as_str());
    let sn = scs.len();
    match last_pos_of(&scs, ':') {
        None => None,
        Some(colon) => {
            let port = string_of_range(&scs, colon + 1, sn);
            match parse_unsigned_str(port.as_str(), 65535) {
                Some(n) => Some(n as u16),
                None => None,
            }
        },
    }
}


// ---------------------------------------------------------------------
// Grouping by port
// ---------------------------------------------------------------------

/// The local port a process listens on, read from its endpoint.
pub open spec fn process_port(p: ProcessModel) -> Option<u16> {
    match p.endpoint {
        Some(e) => spec_listen_endpoint_port(e),
        None => None,
    }
}

/// The test that keeps the processes listening on `port`.
pub open spec fn on_port(port: u16) -> spec_fn(ProcessModel) -> bool {
    |p: ProcessModel| process_port(p) == Some(port)
}

/// The processes listening on `port`, in their order.
pub open spec fn processes_on(ps: Seq<ProcessModel>, port: u16) -> Seq<ProcessModel> {
    ps.filter(on_port(port))
}

/// `grouped` holds, for each requested port that some process listens on,
/// those processes in their order, and no other port.
pub open spec fn is_grouping_of(
    grouped: Map<u16, LocalPortProcesses>,
    ps: Seq<ProcessModel>,
    ports: Set<u16>,
) -> bool {
    &&& forall|port: u16|
        #[trigger] grouped.contains_key(port) <==> (ports.contains(port) && processes_on(ps, port).len() > 0)
    &&& forall|port: u16| #[trigger] grouped.contains_key(port) ==> grouped[port]@ == processes_on(ps, port)
}

impl LocalPortProcesses {
    /// Adds a process at the end.
    pub fn push(&mut self, process: LocalPortProcess)
        ensures
            final(self)@ == old(self)@.push(process@),
    {
        let ghost before = self.0.deep_view();
        let ghost pv = process@;
        self.0.push(process);
        assert(self.0.deep_view() =~= before.push(pv));
    }
}

/// The processes that listen on the requested local ports, by port.
pub fn group_local_port_processes_by_port(
    processes: LocalPortProcesses,
    local_ports: &HashSet<u16>,
) -> (r: HashMap<u16, LocalPortProcesses>)
    ensures
        is_grouping_of(r@, processes@, local_ports@),
{
    broadcast use vstd::std_specs::hash::group_hash_axioms;

    let ghost ps = processes@;
    let v = processes.0;
    let mut grouped: HashMap<u16, LocalPortProcesses> = HashMap::new();
    let mut i: usize = 0;
    while i < v.len()
        invariant
            ps == v.deep_view(),
            i <= ps.len(),
            is_grouping_of(grouped@, ps.subrange(0, i as int), local_ports@),
        decreases ps.len() - i,
    {
        broadcast use vstd::std_specs::hash::group_hash_axioms;

        reveal_with_fuel(Seq::<_>::filter, 1);
        let ghost prev = ps.subrange(0, i as int);
        let ghost next = ps.subrange(0, i + 1);
        assert(next.drop_last() =~= prev);
        assert(ps[i as int] == v@[i as int]@);
        let port = match &v[i].endpoint {
            Some(e) => listen_endpoint_port(e.as_str()),
            None => None,
        };
        assert forall|q: u16| port != Some(q) implies #[trigger] processes_on(next, q) == processes_on(prev, q) by {
            assert(!on_port(q)(ps[i as int]));
        }
        match port {
            Some(p) => {
                if local_ports.contains(&p) {
                    assert(processes_on(next, p) =~= processes_on(prev, p).push(ps[i as int]));
                    let ghost before = grouped@;
                    let mut group = match grouped.remove(&p) {
                        Some(g) => g,
                        None => LocalPortProcesses::new(Vec::new()),
                    };
                    assert(group@ =~= processes_on(prev, p));
                    group.push(v[i].clone());
                    grouped.insert(p, group);
                    assert forall|q: u16| #[trigger] grouped@.contains_key(q) <==> (local_ports@.contains(q)
                        && processes_on(next, q).len() > 0) by {
                        if q != p {
                            assert(grouped@.contains_key(q) == before.contains_key(q));
                        }
                    }
                    assert forall|q: u16| #[trigger] grouped@.contains_key(q) implies grouped@[q]@ == processes_on(
                        next,
                        q,
                    ) by {
                        if q != p {
                            assert(grouped@[q] == before[q]);
                        }
                    }
                } else {
                    assert(processes_on(next, p) =~= processes_on(prev, p).push(ps[i as int]));
                }
            },
            None => {},
        }
        i += 1;
    }
    assert(ps.subrange(0, i as int) =~= ps);
    grouped
}

// ---------------------------------------------------------------------
// A busy local port
// ---------------------------------------------------------------------

/// `Local endpoint is not available: NAME (HOST:PORT): REASON` and the
/// processes listening there.
pub open spec fn spec_local_endpoint_message(
    name: Seq<char>,
    local_host: Seq<char>,
    local_port: u16,
    reason: Seq<char>,
    ps: Seq<ProcessModel>,
) -> Seq<char> {
    "Local endpoint is not available: "@ + name + " ("@ + local_host + ":"@ + decimal(local_port as nat) + "): "@
        + reason + spec_processes_text(ps)
}

/// The message for a local endpoint that could not be bound: the tunnel,
/// the endpoint, the reason the system gave and the processes listening
/// there.
pub fn local_endpoint_unavailable_message(
    name: &str,
    local_host: &str,
    local_port: u16,
    reason: &str,
    processes: &LocalPortProcesses,
) -> (r: String)
    ensures
        r@ == spec_local_endpoint_message(name@, local_host@, local_port, reason@, processes@),
{
    let a = concat_str("Local endpoint is not available: ", name);
    let b = concat_str(a.as_str(), " (");
    let c = concat_str(b.as_str(), local_host);
    let d = concat_str(c.as_str(), ":");
    let e = concat_str(d.as_str(), decimal_string(local_port as u64).as_str());
    let f = concat_str(e.as_str(), "): ");
    let g = concat_str(f.as_str(), reason);
    concat_str(g.as_str(), processes.to_display_string().as_str())
}

} // verus!
