//! Running engines: what the app makes of QEMU's and RetroArch's answers, the status it
//! reports, the snapshot records it writes and the log it keeps. The app performs the
//! I/O (sockets, processes, files) and hands the results to these functions.
use vstd::prelude::*;
use crate::model::{Machine, MachineStatus, Snapshot, Arch};
use crate::qmp::{Json, JsonV, Message, as_str};
use crate::text::{
    str_eq, trim, trim_range, lower_text, to_lower, has_prefix, has_infix, starts_with, contains_str,
    push_str, push_dec, dec, spec_parse_u32, parse_u32,
};
use crate::paths::{join_path, resolve};

verus! {

/// How many log lines a running machine keeps.
pub const LOG_LINES: usize = 500;

/// A change of a machine's state, as it is reported.
#[derive(Debug, PartialEq, Eq)]
pub struct StatusEvent {
    pub id: String,
    pub state: String,
    pub error: Option<String>,
}

/// A line an engine wrote, as it is reported.
#[derive(Debug, PartialEq, Eq)]
pub struct LogEvent {
    pub id: String,
    pub line: String,
}

/// The status of a machine that does not run.
pub fn stopped_status(id: &str) -> (r: MachineStatus)
    ensures
        r.id@ == id@,
        r.state@ == "stopped"@,
        r.pid is None,
        r.since is None,
        r.error is None,
{
    MachineStatus { id: String::from_str(id), state: String::from_str("stopped"), pid: None, since: None, error: None }
}

/// The state after a QMP event: `STOP` pauses, `RESUME` runs, others leave it.
pub open spec fn state_after_event(state: Seq<char>, name: Seq<char>) -> Seq<char> {
    if name == "STOP"@ {
        "paused"@
    } else if name == "RESUME"@ {
        "running"@
    } else {
        state
    }
}

/// Follows a QMP event in the machine's state.
pub fn handle_event(state: &mut String, name: &str)
    ensures
        final(state)@ == state_after_event(old(state)@, name@),
{
    if str_eq(name, "STOP") {
        *state = String::from_str("paused");
    } else if str_eq(name, "RESUME") {
        *state = String::from_str("running");
    }
}

/// What a received line means to a command waiting for its answer.
pub enum Reply {
    /// The answer (`return`) to the command.
    Answer(Json),
    /// The error answer to the command, with its description.
    Failed(String),
    /// An event, to follow in the state; keep waiting.
    Event(String),
    /// Anything else; keep waiting.
    Other,
}

fn same_id(a: &Option<String>, b: &Option<String>) -> (r: bool)
    ensures
        r == (match (a, b) {
            (Some(x), Some(y)) => x@ == y@,
            (None, None) => true,
            _ => false,
        }),
{
    match (a, b) {
        (Some(x), Some(y)) => str_eq(x.as_str(), y.as_str()),
        (None, None) => true,
        _ => false,
    }
}

/// The ids match (both absent, or the same text).
pub open spec fn ids_match(a: Option<String>, b: Option<String>) -> bool {
    match (a, b) {
        (Some(x), Some(y)) => x@ == y@,
        (None, None) => true,
        _ => false,
    }
}

/// The answer with the awaited id ends the wait with its value, an error with that id
/// ends it with its description; events are followed; everything else is skipped.
pub fn reply_to(msg: Option<Message>, want: &Option<String>) -> (r: Reply)
    ensures
        match msg {
            Some(Message::Return { id, value }) => if ids_match(id, *want) {
                r matches Reply::Answer(v) && v@ == value@
            } else {
                r is Other
            },
            Some(Message::Error { id, desc, .. }) => if ids_match(id, *want) {
                r matches Reply::Failed(d) && d@ == desc@
            } else {
                r is Other
            },
            Some(Message::Event { name, .. }) => r matches Reply::Event(n) && n@ == name@,
            _ => r is Other,
        },
{
    match msg {
        Some(Message::Return { id, value }) => if same_id(&id, want) {
            Reply::Answer(value)
        } else {
            Reply::Other
        },
        Some(Message::Error { id, desc, .. }) => if same_id(&id, want) {
            Reply::Failed(desc)
        } else {
            Reply::Other
        },
        Some(Message::Event { name, .. }) => Reply::Event(name),
        _ => Reply::Other,
    }
}

/// The text of a human-monitor answer (trimmed; empty unless it is a string), failed
/// when it starts with `error` in any case or mentions `failed`.
pub open spec fn hmp_text(v: JsonV) -> Seq<char> {
    trim(match v {
        JsonV::Str(s) => s,
        _ => Seq::empty(),
    })
}

/// A human-monitor answer reports failure.
pub open spec fn hmp_failed(text: Seq<char>) -> bool {
    has_prefix(lower_text(text), "error"@) || has_infix(text, "failed"@)
}

/// Reads the answer to a human-monitor command.
pub fn hmp_outcome(v: &Json) -> (r: Result<String, String>)
    ensures
        match r {
            Ok(t) => t@ == hmp_text(v@) && !hmp_failed(hmp_text(v@)),
            Err(t) => t@ == hmp_text(v@) && hmp_failed(hmp_text(v@)),
        },
{
    let raw: &str = match v {
        Json::Str(s) => s.as_str(),
        _ => "",
    };
    proof {
        reveal_strlit("");
    }
    assert(raw@ =~= (match v@ {
        JsonV::Str(s) => s,
        _ => Seq::<char>::empty(),
    }));
    let n = raw.unicode_len();
    assert(raw@.subrange(0, n as int) =~= raw@);
    let (a, b) = trim_range(raw, 0, n);
    let text = String::from_str(raw.substring_char(a, b));
    let low = to_lower(text.as_str());
    if starts_with(low.as_str(), "error") || contains_str(text.as_str(), "failed") {
        return Err(text);
    }
    Ok(text)
}

/// The machine state after `query-status`: paused-like states pause, ended ones stop,
/// all others run.
pub open spec fn spec_state_from_status(s: Seq<char>) -> Seq<char> {
    if s == "paused"@ || s == "prelaunch"@ || s == "suspended"@ {
        "paused"@
    } else if s == "shutdown"@ || s == "guest-panicked"@ {
        "stopped"@
    } else {
        "running"@
    }
}

/// The machine state after `query-status`.
pub fn state_from_status(s: &str) -> (r: &'static str)
    ensures
        r@ == spec_state_from_status(s@),
{
    if str_eq(s, "paused") || str_eq(s, "prelaunch") || str_eq(s, "suspended") {
        "paused"
    } else if str_eq(s, "shutdown") || str_eq(s, "guest-panicked") {
        "stopped"
    } else {
        "running"
    }
}

/// The state once QMP is connected: paused if QEMU says so, else running.
pub fn state_after_connect(status: &str) -> (r: &'static str)
    ensures
        r@ == (if status@ == "paused"@ { "paused"@ } else { "running"@ }),
{
    if str_eq(status, "paused") { "paused" } else { "running" }
}

/// The QMP endpoint of a machine: a TCP port on localhost where there are no Unix
/// sockets, else the socket `qmp.sock` in the machine folder.
pub open spec fn spec_qmp_endpoint(dir: Seq<char>, tcp_port: Option<u16>) -> Seq<char> {
    match tcp_port {
        Some(p) => "tcp:127.0.0.1:"@ + dec(p as nat),
        None => join_path(dir, "qmp.sock"@),
    }
}

/// The QMP endpoint of a machine.
pub fn qmp_endpoint(dir: &str, tcp_port: Option<u16>) -> (r: String)
    ensures
        r@ == spec_qmp_endpoint(dir@, tcp_port),
{
    match tcp_port {
        Some(p) => {
            let mut s = String::from_str("tcp:127.0.0.1:");
            push_dec(&mut s, p as u64);
            s
        },
        None => resolve(dir, "qmp.sock"),
    }
}

/// The disk that snapshots live in: the first disk, which must be qcow2; its path taken
/// relative to the machine folder.
pub open spec fn spec_first_disk(m: Machine, dir: Seq<char>) -> Result<Seq<char>, Seq<char>> {
    if m.disks@.len() == 0 {
        Err("Maschine hat keine Platte — Snapshots brauchen eine qcow2-Platte"@)
    } else if m.disks@[0].format@ != "qcow2"@ {
        Err("Snapshots brauchen qcow2, die Platte ist "@ + m.disks@[0].format@)
    } else {
        Ok(join_path(dir, m.disks@[0].path@))
    }
}

/// The disk that snapshots live in.
pub fn first_disk(m: &Machine, dir: &str) -> (r: Result<String, String>)
    ensures
        match r {
            Ok(p) => spec_first_disk(*m, dir@) == Ok::<Seq<char>, Seq<char>>(p@),
            Err(e) => spec_first_disk(*m, dir@) == Err::<Seq<char>, Seq<char>>(e@),
        },
{
    if m.disks.len() == 0 {
        return Err(String::from_str("Maschine hat keine Platte — Snapshots brauchen eine qcow2-Platte"));
    }
    let d = &m.disks[0];
    if !str_eq(d.format.as_str(), "qcow2") {
        let mut e = String::from_str("Snapshots brauchen qcow2, die Platte ist ");
        push_str(&mut e, d.format.as_str());
        return Err(e);
    }
    Ok(resolve(dir, d.path.as_str()))
}

/// Size of an empty NVRAM file where no template exists: 64 MiB (the edk2 builds for
/// aarch64), else 540672 bytes.
pub fn nvram_size(arch: Arch) -> (r: u64)
    ensures
        r == (if arch == Arch::Aarch64 { 64 * 1024 * 1024 } else { 540672 }),
{
    if arch == Arch::Aarch64 { 64 * 1024 * 1024 } else { 540672 }
}

/// The name of a new snapshot: the given one trimmed, or the default when it is blank.
pub open spec fn snapshot_name(name: Seq<char>, default_name: Seq<char>) -> Seq<char> {
    if trim(name).len() == 0 { default_name } else { trim(name) }
}

/// A new snapshot record: after the last one listed (its parent), named by the user or
/// by default.
pub fn snapshot_record(
    id: &str,
    machine_id: &str,
    existing: &Vec<Snapshot>,
    name: &str,
    default_name: &str,
    note: &str,
    now: &str,
    kind: &str,
    tag: &str,
) -> (r: Snapshot)
    ensures
        r.id@ == id@,
        r.machine_id@ == machine_id@,
        existing@.len() == 0 ==> r.parent_id is None,
        existing@.len() > 0 ==> (r.parent_id matches Some(p) && p@ == existing@.last().id@),
        r.name@ == snapshot_name(name@, default_name@),
        r.note@ == note@,
        r.created_at@ == now@,
        r.kind@ == kind@,
        r.tag@ == tag@,
{
    let n = name.unicode_len();
    assert(name@.subrange(0, n as int) =~= name@);
    let (a, b) = trim_range(name, 0, n);
    let shown = if a == b { String::from_str(default_name) } else { String::from_str(name.substring_char(a, b)) };
    let parent_id = if existing.len() == 0 { None } else { Some(existing[existing.len() - 1].id.clone()) };
    Snapshot {
        id: String::from_str(id),
        machine_id: String::from_str(machine_id),
        parent_id,
        name: shown,
        note: String::from_str(note),
        created_at: String::from_str(now),
        kind: String::from_str(kind),
        tag: String::from_str(tag),
    }
}

/// The tag of a QEMU snapshot: `vs-` and a short id.
pub fn qemu_snapshot_tag(short_id: &str) -> (r: String)
    ensures
        r@ == "vs-"@ + short_id@,
{
    let mut s = String::from_str("vs-");
    push_str(&mut s, short_id);
    s
}

/// The greatest save-state slot among the snapshot tags that are numbers.
pub open spec fn max_slot(snaps: Seq<Snapshot>) -> Option<u32>
    decreases snaps.len(),
{
    if snaps.len() == 0 {
        None
    } else {
        let rest = max_slot(snaps.drop_last());
        match spec_parse_u32(snaps.last().tag@) {
            Some(v) => match rest {
                Some(m) => Some(if v > m { v } else { m }),
                None => Some(v),
            },
            None => rest,
        }
    }
}

/// The slot for the next save state: one after the greatest numbered slot, wrapping at
/// `u32::MAX`; slot 0 when none is numbered.
pub open spec fn spec_next_slot(snaps: Seq<Snapshot>) -> u32 {
    match max_slot(snaps) {
        Some(m) => if m == u32::MAX { 0 } else { (m + 1) as u32 },
        None => 0,
    }
}

/// The slot for the next save state.
pub fn next_slot(snaps: &Vec<Snapshot>) -> (r: u32)
    ensures
        r == spec_next_slot(snaps@),
{
    let mut best: Option<u32> = None;
    let mut i: usize = 0;
    while i < snaps.len()
        invariant
            i <= snaps@.len(),
            best == max_slot(snaps@.subrange(0, i as int)),
        decreases snaps@.len() - i,
    {
        assert(snaps@.subrange(0, i + 1).drop_last() =~= snaps@.subrange(0, i as int));
        match parse_u32(snaps[i].tag.as_str()) {
            Some(v) => {
                best = match best {
                    Some(m) => Some(if v > m { v } else { m }),
                    None => Some(v),
                };
            },
            None => {},
        }
        i = i + 1;
    }
    assert(snaps@.subrange(0, snaps@.len() as int) =~= snaps@);
    match best {
        Some(m) => m.wrapping_add(1),
        None => 0,
    }
}

/// The default name of a save state: `Slot` and its number.
pub fn slot_name(slot: u32) -> (r: String)
    ensures
        r@ == "Slot "@ + dec(slot as nat),
{
    let mut s = String::from_str("Slot ");
    push_dec(&mut s, slot as u64);
    s
}

/// The index of the snapshot with the id `id`, first from `i` on.
pub open spec fn snapshot_index(snaps: Seq<Snapshot>, id: Seq<char>, i: int) -> Option<int>
    decreases snaps.len() - i,
{
    if i < 0 || i >= snaps.len() {
        None
    } else if snaps[i].id@ == id {
        Some(i)
    } else {
        snapshot_index(snaps, id, i + 1)
    }
}

/// The snapshot with the id `snapshot_id`, taken from the list.
pub fn find_snapshot(snaps: Vec<Snapshot>, snapshot_id: &str) -> (r: Result<Snapshot, String>)
    ensures
        match snapshot_index(snaps@, snapshot_id@, 0) {
            Some(k) => r == Ok::<Snapshot, String>(snaps@[k]),
            None => r matches Err(e) && e@ == "Snapshot nicht gefunden"@,
        },
{
    let mut snaps = snaps;
    let mut i: usize = 0;
    while i < snaps.len() && !str_eq(snaps[i].id.as_str(), snapshot_id)
        invariant
            i <= snaps@.len(),
            snapshot_index(snaps@, snapshot_id@, 0) == snapshot_index(snaps@, snapshot_id@, i as int),
        decreases snaps@.len() - i,
    {
        i = i + 1;
    }
    if i < snaps.len() {
        Ok(snaps.remove(i))
    } else {
        Err(String::from_str("Snapshot nicht gefunden"))
    }
}

/// Snapshots other than the one with the id `id`.
pub open spec fn not_snapshot(id: Seq<char>) -> spec_fn(Snapshot) -> bool {
    |s: Snapshot| s.id@ != id
}

/// The snapshots without the one with the id `snapshot_id`.
pub open spec fn without_snapshot(snaps: Seq<Snapshot>, snapshot_id: Seq<char>) -> Seq<Snapshot> {
    snaps.filter(not_snapshot(snapshot_id))
}

/// Drops the snapshot with the id `snapshot_id` from the list; the others keep their order.
pub fn remove_snapshot(snaps: Vec<Snapshot>, snapshot_id: &str) -> (r: Vec<Snapshot>)
    ensures
        r@ == without_snapshot(snaps@, snapshot_id@),
{
    let mut out: Vec<Snapshot> = Vec::new();
    let mut rest = snaps;
    let ghost all = rest@;
    let total = rest.len();
    let mut i: usize = 0;
    while rest.len() > 0
        invariant
            total == all.len(),
            i + rest@.len() == all.len(),
            rest@ == all.subrange(i as int, all.len() as int),
            out@ == without_snapshot(all.subrange(0, i as int), snapshot_id@),
        decreases rest@.len(),
    {
        let s = rest.remove(0);
        assert(all.subrange(0, i + 1).drop_last() =~= all.subrange(0, i as int));
        assert(all.subrange(0, i + 1).last() == s);
        proof {
            reveal(Seq::filter);
        }
        let keep = !str_eq(s.id.as_str(), snapshot_id);
        if keep {
            out.push(s);
        }
        i = i + 1;
        assert(rest@ =~= all.subrange(i as int, all.len() as int));
    }
    assert(all.subrange(0, all.len() as int) =~= all);
    out
}

/// Keeps the last lines of a running machine's log: at most `LOG_LINES`, the oldest
/// line dropped for a new one once the log is full.
pub fn push_log_line(log: &mut Vec<String>, line: String)
    ensures
        final(log)@ == (if old(log)@.len() >= LOG_LINES { old(log)@.drop_first() } else { old(log)@ }).push(line),
{
    if log.len() >= LOG_LINES {
        log.remove(0);
    }
    log.push(line);
}

/// The error of an engine that ended with a failure right after its start: its exit
/// status and its last (up to five) log lines, joined by ` | `.
pub open spec fn spec_exit_error(status: Seq<char>, log: Seq<String>) -> Seq<char> {
    let tail = if log.len() > 5 { log.subrange(log.len() - 5, log.len() as int) } else { log };
    "Engine beendet mit "@ + status + ": "@ + joined(tail, 0)
}

/// Log lines from `i` on, joined by ` | `.
pub open spec fn joined(lines: Seq<String>, i: int) -> Seq<char>
    decreases lines.len() - i,
{
    if i < 0 || i >= lines.len() {
        Seq::empty()
    } else if i == lines.len() - 1 {
        lines[i]@
    } else {
        lines[i]@ + " | "@ + joined(lines, i + 1)
    }
}

/// The error of an engine that ended with a failure right after its start.
pub fn exit_error(status: &str, log: &Vec<String>) -> (r: String)
    ensures
        r@ == spec_exit_error(status@, log@),
{
    let n = log.len();
    let from = if n > 5 { n - 5 } else { 0 };
    let ghost tail = if log@.len() > 5 { log@.subrange(log@.len() - 5, log@.len() as int) } else { log@ };
    let mut s = String::from_str("Engine beendet mit ");
    push_str(&mut s, status);
    push_str(&mut s, ": ");
    let ghost head = s@;
    let mut i = n;
    let mut acc = String::new();
    while i > from
        invariant
            from <= i <= n,
            n == log@.len(),
            from == (if n > 5 { n - 5 } else { 0 }),
            tail == log@.subrange(from as int, n as int),
            acc@ == joined(tail, i - from),
        decreases i,
    {
        i = i - 1;
        let mut next = String::from_str(log[i].as_str());
        if i + 1 < n {
            push_str(&mut next, " | ");
        }
        push_str(&mut next, acc.as_str());
        assert(tail[i - from] == log@[i as int]);
        assert(next@ =~= joined(tail, i - from));
        acc = next;
    }
    push_str(&mut s, acc.as_str());
    assert(s@ =~= spec_exit_error(status@, log@));
    s
}

/// An end within three seconds of the start, with a failure, is a start error.
pub open spec fn failed_start(success: bool, elapsed_ms: u64) -> bool {
    !success && elapsed_ms < 3000
}

/// How a run ended, as the machine's state reports it: a start error (`error`, with the
/// exit status and the last log lines) or a plain stop.
pub fn run_end(success: bool, elapsed_ms: u64, status: &str, log: &Vec<String>) -> (r: (&'static str, Option<String>))
    ensures
        failed_start(success, elapsed_ms) ==> r.0@ == "error"@ && (r.1 matches Some(e) && e@ == spec_exit_error(status@, log@)),
        !failed_start(success, elapsed_ms) ==> r.0@ == "stopped"@ && r.1 is None,
{
    if !success && elapsed_ms < 3000 {
        ("error", Some(exit_error(status, log)))
    } else {
        ("stopped", None)
    }
}

/// The lines of `text` from `pos` on as `str::lines` gives them: split at `\n`, a
/// `\r` before it dropped, no empty line after a final `\n`.
pub open spec fn lines_from(text: Seq<char>, pos: int) -> Seq<Seq<char>>
    decreases text.len() + 1 - pos,
{
    if pos < 0 || pos >= text.len() {
        Seq::empty()
    } else {
        proof {
            crate::text::lemma_first_index_of_bounds(text.subrange(pos, text.len() as int), '\n');
        }
        let e = match crate::text::first_index_of(text.subrange(pos, text.len() as int), '\n') {
            Some(k) => pos + k,
            None => text.len() as int,
        };
        let raw = text.subrange(pos, e);
        let line = if e < text.len() && raw.len() > 0 && raw.last() == '\r' { raw.drop_last() } else { raw };
        seq![line] + lines_from(text, e + 1)
    }
}

/// The last `LOG_LINES` lines of a stored log.
pub open spec fn spec_log_tail(text: Seq<char>) -> Seq<Seq<char>> {
    let all = lines_from(text, 0);
    if all.len() > LOG_LINES { all.subrange(all.len() - LOG_LINES, all.len() as int) } else { all }
}

/// The last lines of a stored log, as a stopped machine shows them.
pub fn log_tail(text: &str) -> (r: Vec<String>)
    ensures
        crate::detect::views(r@) == spec_log_tail(text@),
{
    let n = text.unicode_len();
    let mut lines: Vec<String> = Vec::new();
    let mut pos: usize = 0;
    while pos < n
        invariant
            n == text@.len(),
            pos <= n,
            crate::detect::views(lines@) + lines_from(text@, pos as int) == lines_from(text@, 0),
        decreases n - pos,
    {
        let e = match crate::text::find_char(text, pos, n, '\n') {
            Some(k) => k,
            None => n,
        };
        let ghost p0 = pos;
        assert(text@.subrange(pos as int, text@.len() as int) =~= text@.subrange(pos as int, n as int));
        let cut = if e < n && e > pos && text.get_char(e - 1) == '\r' { e - 1 } else { e };
        let line = String::from_str(text.substring_char(pos, cut));
        let ghost before = lines@;
        assert(line@ == (if e < text@.len() && text@.subrange(pos as int, e as int).len() > 0 && text@.subrange(pos as int, e as int).last() == '\r' {
            text@.subrange(pos as int, e as int).drop_last()
        } else {
            text@.subrange(pos as int, e as int)
        }));
        assert(lines_from(text@, p0 as int) == seq![line@] + lines_from(text@, e + 1));
        lines.push(line);
        assert(crate::detect::views(lines@) =~= crate::detect::views(before).push(line@));
        if e < n {
            pos = e + 1;
        } else {
            pos = n;
        }
        assert(lines_from(text@, e + 1) == lines_from(text@, pos as int));
        assert(crate::detect::views(lines@) + lines_from(text@, pos as int)
            =~= crate::detect::views(before) + (seq![line@] + lines_from(text@, e + 1)));
    }
    assert(crate::detect::views(lines@) + Seq::<Seq<char>>::empty() =~= crate::detect::views(lines@));
    let total = lines.len();
    if total > LOG_LINES {
        let mut out: Vec<String> = Vec::new();
        let mut i = total - LOG_LINES;
        while i < total
            invariant
                total == lines@.len(),
                total > LOG_LINES,
                total - LOG_LINES <= i <= total,
                crate::detect::views(out@) == crate::detect::views(lines@).subrange(total - LOG_LINES, i as int),
            decreases total - i,
        {
            let ghost prev = out@;
            let x = lines[i].clone();
            assert(x@ == lines@[i as int]@);
            out.push(x);
            i = i + 1;
            assert(crate::detect::views(out@) =~= crate::detect::views(prev).push(lines@[i - 1]@));
            assert(crate::detect::views(out@) =~= crate::detect::views(lines@).subrange(total - LOG_LINES, i as int));
        }
        out
    } else {
        lines
    }
}

} // verus!
