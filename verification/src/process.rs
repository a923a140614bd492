//! The rules of the process manager: restoring records after a restart,
//! retiring finished processes, ownership, listing, launching, output
//! accounting, the final state of a process, and log windows.
use vstd::prelude::*;

use crate::error::RuntimeError;
use crate::text::{
    chars_of, decimal, i64_to_string, lines, signed_decimal, split_lines, split_whitespace, str_eq,
    trim, trim_str, u64_to_string, words,
};
use crate::tools::ProcessManagerConfig;
use vstd::utf8::{decode_utf8, encode_utf8, valid_utf8};
use crate::tools::{parse_process_sequence, process_sequence_spec};

verus! {

/// What the store keeps of a process. `command` is the JSON text of the
/// command value; the paths are file paths.
#[derive(Debug, Clone)]
pub struct ProcessRecord {
    pub id: String,
    pub session_id: Option<String>,
    pub tool_call_id: Option<String>,
    pub pid: Option<i64>,
    pub command: String,
    pub cwd: Option<String>,
    pub status: String,
    pub exit_code: Option<i64>,
    pub signal: Option<i64>,
    pub stdout_path: Option<String>,
    pub stderr_path: Option<String>,
    pub started_at: i64,
    pub ended_at: Option<i64>,
    pub timeout_ms: Option<i64>,
}

/// A row of a process listing.
#[derive(Debug, Clone)]
pub struct ProcessSummary {
    pub process_id: String,
    pub session_id: Option<String>,
    pub pid: Option<i64>,
    pub status: String,
    pub command: String,
    pub cwd: Option<String>,
    pub started_at: i64,
    pub ended_at: Option<i64>,
}

/// Everything known about one process.
#[derive(Debug, Clone)]
pub struct ProcessDetails {
    pub process: ProcessSummary,
    pub exit_code: Option<i64>,
    pub signal: Option<i64>,
    pub timeout_ms: Option<i64>,
    pub stdout_path: Option<String>,
    pub stderr_path: Option<String>,
    pub stdout_bytes: usize,
    pub stderr_bytes: usize,
    pub stdout_truncated: bool,
    pub stderr_truncated: bool,
}

/// The statuses after which a process does not change any more.
pub open spec fn is_terminal_status(s: Seq<char>) -> bool {
    s == "completed"@ || s == "failed"@ || s == "timed_out"@ || s == "killed"@
}

/// The statuses that a restart leaves without a living process.
pub open spec fn is_live_status(s: Seq<char>) -> bool {
    s == "running"@ || s == "queued"@
}

pub fn is_terminal(status: &str) -> (b: bool)
    ensures
        b == is_terminal_status(status@),
        b <==> (status@ == "completed"@ || status@ == "failed"@ || status@ == "timed_out"@
            || status@ == "killed"@),
{
    str_eq(status, "completed") || str_eq(status, "failed") || str_eq(status, "timed_out")
        || str_eq(status, "killed")
}

fn is_live(status: &str) -> (b: bool)
    ensures
        b == is_live_status(status@),
{
    str_eq(status, "running") || str_eq(status, "queued")
}

fn clone_string(s: &String) -> (r: String)
    ensures
        r == *s,
{
    s.clone()
}

fn clone_opt_string(s: &Option<String>) -> (r: Option<String>)
    ensures
        r == *s,
{
    match s {
        Some(v) => Some(v.clone()),
        None => None,
    }
}

/// `restored` is `record` as a restart leaves it at time `now`: a process
/// that was running or queued has failed and ended then.
pub open spec fn restored_record(record: ProcessRecord, restored: ProcessRecord, now: i64) -> bool {
    &&& restored.id == record.id
    &&& restored.session_id == record.session_id
    &&& restored.tool_call_id == record.tool_call_id
    &&& restored.pid == record.pid
    &&& restored.command == record.command
    &&& restored.cwd == record.cwd
    &&& restored.exit_code == record.exit_code
    &&& restored.signal == record.signal
    &&& restored.stdout_path == record.stdout_path
    &&& restored.stderr_path == record.stderr_path
    &&& restored.started_at == record.started_at
    &&& restored.timeout_ms == record.timeout_ms
    &&& if is_live_status(record.status@) {
        restored.status@ == "failed"@ && restored.ended_at == Some(now)
    } else {
        restored.status == record.status && restored.ended_at == record.ended_at
    }
}

/// The highest sequence number among ids of the form `proc_<n>`, or 0.
pub open spec fn highest_sequence(records: Seq<ProcessRecord>) -> u64
    decreases records.len(),
{
    if records.len() == 0 {
        0
    } else {
        let prev = highest_sequence(records.drop_last());
        match process_sequence_spec(records.last().id@) {
            Some(n) => if n > prev {
                n
            } else {
                prev
            },
            None => prev,
        }
    }
}

proof fn lemma_launched_id_reads_back(n: u64)
    ensures
        process_sequence_spec("proc_"@ + decimal(n as nat)) == Some(n),
{
    reveal_strlit("proc_");
    crate::text::lemma_decimal_reads_back(n as nat);
    let id = "proc_"@ + decimal(n as nat);
    assert(id.take(5) =~= "proc_"@);
    assert(id.skip(5) =~= decimal(n as nat));
}

proof fn lemma_highest_sequence_bound(records: Seq<ProcessRecord>, j: int, n: u64)
    requires
        0 <= j < records.len(),
        process_sequence_spec(records[j].id@) == Some(n),
    ensures
        highest_sequence(records) >= n,
    decreases records.len(),
{
    if j < records.len() - 1 {
        lemma_highest_sequence_bound(records.drop_last(), j, n);
    }
}

/// A restart never hands out again the number of a process that was
/// launched before it: when the stored records hold the id that launch
/// number `n` produced, the next number after the restart is above `n`.
pub proof fn lemma_restart_never_reuses_launch_numbers(records: Seq<ProcessRecord>, j: int, n: u64)
    requires
        0 <= j < records.len(),
        records[j].id@ == "proc_"@ + decimal(n as nat),
    ensures
        highest_sequence(records) >= n,
        highest_sequence(records) < u64::MAX ==> highest_sequence(records) + 1 > n,
{
    lemma_launched_id_reads_back(n);
    lemma_highest_sequence_bound(records, j, n);
}

/// Records read back after a restart, and the sequence number that the
/// next process gets.
pub struct RestoredProcesses {
    pub records: Vec<ProcessRecord>,
    /// One past the highest sequence in use; `None` when that would not fit
    /// in a `u64`.
    pub next_sequence: Option<u64>,
    /// The positions of the records that the restart turned into failures,
    /// in order: the records to write back to the store.
    pub recovered: Vec<usize>,
}

/// Restores the records of a previous run at time `now`.
pub fn restore_process_records(records: Vec<ProcessRecord>, now: i64) -> (r: RestoredProcesses)
    ensures
        r.records@.len() == records@.len(),
        forall|i: int|
            0 <= i < records@.len() ==> restored_record(
                #[trigger] records@[i],
                r.records@[i],
                now,
            ),
        highest_sequence(records@) < u64::MAX ==> r.next_sequence == Some(
            (highest_sequence(records@) + 1) as u64,
        ),
        highest_sequence(records@) == u64::MAX ==> r.next_sequence is None,
        forall|k: int| 0 <= k < r.recovered@.len() ==> (#[trigger] r.recovered@[k] as int) < records@.len()
            && is_live_status(records@[r.recovered@[k] as int].status@),
        forall|k: int, l: int| 0 <= k < l < r.recovered@.len() ==> #[trigger] r.recovered@[k] < #[trigger] r.recovered@[l],
        forall|j: int| 0 <= j < records@.len() && is_live_status(#[trigger] records@[j].status@) ==> r.recovered@.contains(j as usize),
{
    let ghost input = records@;
    let mut rest = records;
    let mut out: Vec<ProcessRecord> = Vec::new();
    let mut recovered: Vec<usize> = Vec::new();
    let mut max_seq: u64 = 0;
    let mut i: usize = 0;
    let n = rest.len();
    // Walk the records front to back, taking each out of the input in turn.
    let mut queue: Vec<ProcessRecord> = Vec::new();
    while rest.len() > 0
        invariant
            queue@.len() + rest@.len() == input.len(),
            forall|j: int| 0 <= j < rest@.len() ==> rest@[j] == input[j],
            forall|j: int| 0 <= j < queue@.len() ==> queue@[j] == input[input.len() - 1 - j],
        decreases rest@.len(),
    {
        let x = rest.pop().unwrap();
        queue.push(x);
    }
    while queue.len() > 0
        invariant
            i == out@.len(),
            n == input.len(),
            queue@.len() + out@.len() == input.len(),
            forall|j: int| 0 <= j < queue@.len() ==> queue@[j] == input[input.len() - 1 - j],
            forall|j: int| 0 <= j < out@.len() ==> restored_record(#[trigger] input[j], out@[j], now),
            max_seq == highest_sequence(input.take(i as int)),
            forall|k: int| 0 <= k < recovered@.len() ==> (#[trigger] recovered@[k] as int) < i
                && is_live_status(input[recovered@[k] as int].status@),
            forall|k: int, l: int| 0 <= k < l < recovered@.len() ==> #[trigger] recovered@[k] < #[trigger] recovered@[l],
            forall|j: int| 0 <= j < i && is_live_status(#[trigger] input[j].status@) ==> recovered@.contains(j as usize),
        decreases queue@.len(),
    {
        let mut record = queue.pop().unwrap();
        assert(record == input[i as int]);
        assert(input.take(i + 1).drop_last() =~= input.take(i as int));
        match parse_process_sequence(record.id.as_str()) {
            Some(seq) => {
                if seq > max_seq {
                    max_seq = seq;
                }
            },
            None => {},
        }
        if is_live(record.status.as_str()) {
            record.status = "failed".to_string();
            record.ended_at = Some(now);
            let ghost before = recovered@;
            recovered.push(i);
            assert(recovered@[recovered@.len() - 1] == i);
            assert forall|j: int| 0 <= j < i + 1 && is_live_status(#[trigger] input[j].status@) implies recovered@.contains(j as usize) by {
                if j < i {
                    let k = choose|k: int| 0 <= k < before.len() && before[k] == j as usize;
                    assert(recovered@[k] == j as usize);
                }
            }
        }
        out.push(record);
        i += 1;
    }
    assert(input.take(n as int) =~= input);
    let next_sequence = if max_seq < u64::MAX {
        Some(max_seq + 1)
    } else {
        None
    };
    RestoredProcesses { records: out, next_sequence, recovered }
}

/// Whether a finished record has been kept past the retention period at
/// time `now`.
pub open spec fn is_expired(record: ProcessRecord, now: i64, retention_ms: u64) -> bool {
    &&& is_terminal_status(record.status@)
    &&& record.ended_at matches Some(ended) && saturating_sub_i64(now, ended) >= (retention_ms as i64)
}

pub open spec fn saturating_sub_i64(a: i64, b: i64) -> i64 {
    let d = a - b;
    if d > i64::MAX {
        i64::MAX
    } else if d < i64::MIN {
        i64::MIN
    } else {
        d as i64
    }
}

/// `a - b`, clamped to the range of `i64` (`i64::saturating_sub`).
pub fn saturating_sub(a: i64, b: i64) -> (r: i64)
    ensures
        r == saturating_sub_i64(a, b),
{
    let d: i128 = a as i128 - b as i128;
    if d > i64::MAX as i128 {
        i64::MAX
    } else if d < i64::MIN as i128 {
        i64::MIN
    } else {
        d as i64
    }
}

/// The ids of the expired records, in order.
pub open spec fn expired_ids(records: Seq<ProcessRecord>, now: i64, retention_ms: u64) -> Seq<
    String,
>
    decreases records.len(),
{
    if records.len() == 0 {
        Seq::empty()
    } else {
        let prev = expired_ids(records.drop_last(), now, retention_ms);
        if is_expired(records.last(), now, retention_ms) {
            prev.push(records.last().id)
        } else {
            prev
        }
    }
}

/// Cleanup forgets only finished processes: every id it selects is that of
/// a record in a final status that ended at least the retention period ago.
pub proof fn lemma_cleanup_forgets_only_finished(
    records: Seq<ProcessRecord>,
    now: i64,
    retention_ms: u64,
    k: int,
)
    requires
        0 <= k < expired_ids(records, now, retention_ms).len(),
    ensures
        exists|j: int|
            0 <= j < records.len() && #[trigger] records[j].id == expired_ids(
                records,
                now,
                retention_ms,
            )[k] && is_expired(records[j], now, retention_ms),
{
    let j = expired_id_source(records, now, retention_ms, k);
    assert(records[j].id == expired_ids(records, now, retention_ms)[k]);
}

/// The position of the record whose id is the `k`th expired id.
proof fn expired_id_source(records: Seq<ProcessRecord>, now: i64, retention_ms: u64, k: int) -> (j: int)
    requires
        0 <= k < expired_ids(records, now, retention_ms).len(),
    ensures
        0 <= j < records.len(),
        records[j].id == expired_ids(records, now, retention_ms)[k],
        is_expired(records[j], now, retention_ms),
    decreases records.len(),
{
    let prev = records.drop_last();
    let prev_ids = expired_ids(prev, now, retention_ms);
    if k < prev_ids.len() {
        let j = expired_id_source(prev, now, retention_ms, k);
        assert(records[j] == prev[j]);
        j
    } else {
        (records.len() - 1) as int
    }
}

/// The ids of finished processes to forget at time `now`; none at all when
/// the retention period is zero, which keeps finished processes forever.
pub fn expired_process_ids(records: &Vec<ProcessRecord>, now: i64, retention_ms: u64) -> (ids: Vec<
    String,
>)
    ensures
        retention_ms == 0 ==> ids@.len() == 0,
        retention_ms != 0 ==> ids@ == expired_ids(records@, now, retention_ms),
{
    let mut ids: Vec<String> = Vec::new();
    if retention_ms == 0 {
        return ids;
    }
    let retention = retention_ms as i64;
    let mut i: usize = 0;
    while i < records.len()
        invariant
            i <= records@.len(),
            retention == retention_ms as i64,
            ids@ == expired_ids(records@.take(i as int), now, retention_ms),
        decreases records@.len() - i,
    {
        let r = &records[i];
        assert(records@.take(i + 1).drop_last() =~= records@.take(i as int));
        if is_terminal(r.status.as_str()) {
            match r.ended_at {
                Some(ended) => {
                    if saturating_sub(now, ended) >= retention {
                        ids.push(clone_string(&r.id));
                    }
                },
                None => {},
            }
        }
        i += 1;
    }
    assert(records@.take(records@.len() as int) =~= records@);
    ids
}

/// Whether a caller may act on a process: a caller outside any session may
/// act on every process, a session only on its own.
pub open spec fn owned_by(record_session: Option<String>, caller: Option<Seq<char>>) -> bool {
    match caller {
        None => true,
        Some(c) => record_session matches Some(s) && s@ == c,
    }
}

pub open spec fn opt_view(o: Option<&str>) -> Option<Seq<char>> {
    match o {
        Some(s) => Some(s@),
        None => None,
    }
}

/// Refuses a caller that does not own the process.
pub fn check_ownership(record: &ProcessRecord, caller_session_id: Option<&str>) -> (r: Result<
    (),
    RuntimeError,
>)
    ensures
        owned_by(record.session_id, opt_view(caller_session_id)) ==> r is Ok,
        !owned_by(record.session_id, opt_view(caller_session_id)) ==> (r matches Err(
            RuntimeError::InvalidState(m),
        ) && m@ == "process "@ + record.id@ + " belongs to a different session"@),
{
    let caller = match caller_session_id {
        None => {
            return Ok(());
        },
        Some(c) => c,
    };
    match &record.session_id {
        Some(s) => {
            if str_eq(s.as_str(), caller) {
                return Ok(());
            }
        },
        None => {},
    }
    let mut m = "process ".to_string();
    m.append(record.id.as_str());
    m.append(" belongs to a different session");
    Err(RuntimeError::InvalidState(m))
}

/// The listing row of a record.
pub open spec fn summary_of(r: ProcessRecord) -> ProcessSummary {
    ProcessSummary {
        process_id: r.id,
        session_id: r.session_id,
        pid: r.pid,
        status: r.status,
        command: r.command,
        cwd: r.cwd,
        started_at: r.started_at,
        ended_at: r.ended_at,
    }
}

pub fn summarize(r: &ProcessRecord) -> (s: ProcessSummary)
    ensures
        s == summary_of(*r),
        s.process_id == r.id,
        s.session_id == r.session_id,
        s.pid == r.pid,
        s.status == r.status,
        s.command == r.command,
        s.cwd == r.cwd,
        s.started_at == r.started_at,
        s.ended_at == r.ended_at,
{
    ProcessSummary {
        process_id: clone_string(&r.id),
        session_id: clone_opt_string(&r.session_id),
        pid: r.pid,
        status: clone_string(&r.status),
        command: clone_string(&r.command),
        cwd: clone_opt_string(&r.cwd),
        started_at: r.started_at,
        ended_at: r.ended_at,
    }
}

/// Whether a listing for `caller` shows the record: only the caller's own
/// processes when a caller is named, and finished ones only on request.
pub open spec fn is_listed(r: ProcessRecord, caller: Option<Seq<char>>, include_completed: bool) -> bool {
    owned_by(r.session_id, caller) && (include_completed || !is_terminal_status(r.status@))
}

/// The rows of the listed records, in record order.
pub open spec fn listed_rows(
    records: Seq<ProcessRecord>,
    caller: Option<Seq<char>>,
    include_completed: bool,
) -> Seq<ProcessSummary>
    decreases records.len(),
{
    if records.len() == 0 {
        Seq::empty()
    } else {
        let prev = listed_rows(records.drop_last(), caller, include_completed);
        if is_listed(records.last(), caller, include_completed) {
            prev.push(summary_of(records.last()))
        } else {
            prev
        }
    }
}

/// A listing for a session shows only that session's processes, and
/// unfinished ones unless finished ones are asked for.
pub proof fn lemma_listing_shows_only_own_processes(
    records: Seq<ProcessRecord>,
    caller: Seq<char>,
    include_completed: bool,
)
    ensures
        forall|k: int|
            0 <= k < listed_rows(records, Some(caller), include_completed).len() ==> {
                let row = #[trigger] listed_rows(records, Some(caller), include_completed)[k];
                &&& row.session_id matches Some(s) && s@ == caller
                &&& include_completed || !is_terminal_status(row.status@)
            },
    decreases records.len(),
{
    if records.len() > 0 {
        lemma_listing_shows_only_own_processes(records.drop_last(), caller, include_completed);
    }
}

/// Whether rows are ordered from the most recently started.
pub open spec fn newest_first(rows: Seq<ProcessSummary>) -> bool {
    forall|i: int, j: int| 0 <= i < j < rows.len() ==> #[trigger] rows[i].started_at >= #[trigger] rows[j].started_at
}

/// Puts the same rows in order from the most recently started.
pub fn sort_newest_first(rows: Vec<ProcessSummary>) -> (sorted: Vec<ProcessSummary>)
    ensures
        sorted@.len() == rows@.len(),
        sorted@.to_multiset() == rows@.to_multiset(),
        newest_first(sorted@),
{
    broadcast use vstd::seq_lib::group_to_multiset_ensures, vstd::multiset::group_multiset_axioms;

    let ghost initial = rows@;
    let mut queue: Vec<ProcessSummary> = Vec::new();
    let mut rest = rows;
    while rest.len() > 0
        invariant
            queue@.to_multiset().add(rest@.to_multiset()) == initial.to_multiset(),
            queue@.len() + rest@.len() == initial.len(),
        decreases rest@.len(),
    {
        let ghost before = rest@;
        let x = rest.pop().unwrap();
        let ghost old_queue = queue@;
        queue.push(x);
        proof {
            assert(before =~= rest@.push(x));
            vstd::seq_lib::to_multiset_build(rest@, x);
            vstd::seq_lib::to_multiset_build(old_queue, x);
            assert(queue@.to_multiset().add(rest@.to_multiset()) =~= old_queue.to_multiset().add(
                before.to_multiset(),
            ));
        }
    }
    assert(queue@.to_multiset() =~= initial.to_multiset());
    let mut out: Vec<ProcessSummary> = Vec::new();
    while queue.len() > 0
        invariant
            out@.to_multiset().add(queue@.to_multiset()) == initial.to_multiset(),
            out@.len() + queue@.len() == initial.len(),
            newest_first(out@),
        decreases queue@.len(),
    {
        let ghost before = queue@;
        let x = queue.pop().unwrap();
        let mut p: usize = 0;
        while p < out.len() && out[p].started_at >= x.started_at
            invariant
                p <= out@.len(),
                forall|j: int| 0 <= j < p ==> #[trigger] out@[j].started_at >= x.started_at,
            decreases out@.len() - p,
        {
            p += 1;
        }
        let ghost old_out = out@;
        out.insert(p, x);
        proof {
            assert(before =~= queue@.push(x));
            vstd::seq_lib::to_multiset_insert(old_out, p as int, x);
            vstd::seq_lib::to_multiset_build(queue@, x);
            assert(out@.to_multiset().add(queue@.to_multiset()) =~= old_out.to_multiset().add(
                before.to_multiset(),
            ));
            assert forall|i: int, j: int| 0 <= i < j < out@.len() implies #[trigger] out@[i].started_at
                >= #[trigger] out@[j].started_at by {
                if i < p && j == p {
                } else if i == p && j > p {
                    assert(out@[j] == old_out[j - 1]);
                    if p < old_out.len() {
                        assert(old_out[p as int].started_at < x.started_at);
                    }
                } else if i < p && j > p {
                    assert(old_out[i] == out@[i]);
                    assert(old_out[j - 1] == out@[j]);
                } else if i > p {
                    assert(old_out[i - 1] == out@[i]);
                    assert(old_out[j - 1] == out@[j]);
                } else {
                    assert(old_out[i] == out@[i]);
                    assert(old_out[j] == out@[j]);
                }
            }
        }
    }
    out
}

/// The listing a caller sees: its own processes when it names a session,
/// finished ones only when asked for, the most recently started first.
pub fn list_process_entries(
    records: &Vec<ProcessRecord>,
    caller_session_id: Option<&str>,
    include_completed: bool,
) -> (rows: Vec<ProcessSummary>)
    ensures
        rows@.to_multiset() == listed_rows(
            records@,
            opt_view(caller_session_id),
            include_completed,
        ).to_multiset(),
        newest_first(rows@),
        !include_completed ==> forall|k: int|
            0 <= k < rows@.len() ==> {
                let st = (#[trigger] rows@[k]).status@;
                &&& st != "completed"@
                &&& st != "failed"@
                &&& st != "timed_out"@
                &&& st != "killed"@
            },
{
    let ghost caller = opt_view(caller_session_id);
    let mut rows: Vec<ProcessSummary> = Vec::new();
    let mut i: usize = 0;
    while i < records.len()
        invariant
            i <= records@.len(),
            caller == opt_view(caller_session_id),
            rows@ == listed_rows(records@.take(i as int), caller, include_completed),
        decreases records@.len() - i,
    {
        let r = &records[i];
        assert(records@.take(i + 1).drop_last() =~= records@.take(i as int));
        let owned = check_ownership(r, caller_session_id).is_ok();
        if owned && (include_completed || !is_terminal(r.status.as_str())) {
            rows.push(summarize(r));
        }
        i += 1;
    }
    assert(records@.take(records@.len() as int) =~= records@);
    let ghost listed = rows@;
    let sorted = sort_newest_first(rows);
    proof {
        broadcast use vstd::seq_lib::group_to_multiset_ensures;

        if !include_completed {
            lemma_listing_hides_finished_statuses(records@, caller);
            assert forall|k: int| 0 <= k < sorted@.len() implies {
                let st = (#[trigger] sorted@[k]).status@;
                &&& st != "completed"@
                &&& st != "failed"@
                &&& st != "timed_out"@
                &&& st != "killed"@
            } by {
                let x = sorted@[k];
                assert(sorted@.contains(x));
                assert(listed.to_multiset().count(x) > 0);
                assert(listed.contains(x));
                let i = choose|i: int| 0 <= i < listed.len() && listed[i] == x;
                assert(listed_rows(records@, caller, false)[i] == x);
            }
        }
    }
    sorted
}

/// The error for a process id that names no process.
pub fn process_not_found(process_id: &str) -> (e: RuntimeError)
    ensures
        e matches RuntimeError::NotFound(m) && m@ == "process "@ + process_id@,
{
    let mut m = "process ".to_string();
    m.append(process_id);
    RuntimeError::NotFound(m)
}

/// The error for an operating-system pid that names no process.
pub fn process_pid_not_found(pid: i64) -> (e: RuntimeError)
    ensures
        e matches RuntimeError::NotFound(m) && m@ == "process pid "@ + signed_decimal(pid as int),
{
    let mut m = "process pid ".to_string();
    let digits = i64_to_string(pid);
    m.append(digits.as_str());
    RuntimeError::NotFound(m)
}

/// The position of the first record with operating-system pid `pid`.
pub fn find_by_pid(records: &Vec<ProcessRecord>, pid: i64) -> (r: Option<usize>)
    ensures
        r matches Some(i) ==> i < records@.len() && records@[i as int].pid == Some(pid) && forall|
            j: int,
        | 0 <= j < i ==> records@[j].pid != Some(pid),
        r is None ==> forall|j: int| 0 <= j < records@.len() ==> records@[j].pid != Some(pid),
{
    let mut i: usize = 0;
    while i < records.len()
        invariant
            i <= records@.len(),
            forall|j: int| 0 <= j < i ==> records@[j].pid != Some(pid),
        decreases records@.len() - i,
    {
        if records[i].pid == Some(pid) {
            return Some(i);
        }
        i += 1;
    }
    None
}

/// The details of a process from its record and its output counters.
pub fn process_details(
    record: &ProcessRecord,
    stdout_bytes: usize,
    stderr_bytes: usize,
    stdout_truncated: bool,
    stderr_truncated: bool,
) -> (d: ProcessDetails)
    ensures
        d == (ProcessDetails {
            process: summary_of(*record),
            exit_code: record.exit_code,
            signal: record.signal,
            timeout_ms: record.timeout_ms,
            stdout_path: record.stdout_path,
            stderr_path: record.stderr_path,
            stdout_bytes,
            stderr_bytes,
            stdout_truncated,
            stderr_truncated,
        }),
        d.process.process_id == record.id,
        d.process.pid == record.pid,
        d.process.status == record.status,
        d.process.session_id == record.session_id,
{
    ProcessDetails {
        process: summarize(record),
        exit_code: record.exit_code,
        signal: record.signal,
        timeout_ms: record.timeout_ms,
        stdout_path: clone_opt_string(&record.stdout_path),
        stderr_path: clone_opt_string(&record.stderr_path),
        stdout_bytes,
        stderr_bytes,
        stdout_truncated,
        stderr_truncated,
    }
}

/// A request to run a command as a process.
#[derive(Debug, Clone)]
pub struct ProcessRunRequest {
    pub caller_session_id: Option<String>,
    pub tool_call_id: Option<String>,
    pub command: String,
    pub cwd: Option<String>,
    pub timeout_ms: Option<u64>,
}

/// Checks that processes may run and that the command is not blank, and
/// gives the command without surrounding white space.
pub fn check_run_request(config: &ProcessManagerConfig, request: &ProcessRunRequest) -> (r: Result<
    String,
    RuntimeError,
>)
    ensures
        !config.enabled ==> (r matches Err(RuntimeError::Unsupported(m)) && m@
            == "gg_process tools are disabled"@),
        config.enabled && trim(request.command@).len() == 0 ==> (r matches Err(
            RuntimeError::InvalidState(m),
        ) && m@ == "command cannot be empty"@),
        config.enabled && trim(request.command@).len() > 0 ==> (r matches Ok(c) && c@ == trim(
            request.command@,
        )),
{
    if !config.enabled {
        return Err(RuntimeError::Unsupported("gg_process tools are disabled".to_string()));
    }
    let command = trim_str(request.command.as_str());
    if chars_of(command.as_str()).len() == 0 {
        return Err(RuntimeError::InvalidState("command cannot be empty".to_string()));
    }
    Ok(command)
}

/// `dir` joined with a relative file name the way `Path::join` joins them
/// on Unix; an absolute name replaces the directory.
pub open spec fn join_path(dir: Seq<char>, name: Seq<char>) -> Seq<char> {
    if name.len() > 0 && name[0] == '/' {
        name
    } else if dir.len() == 0 {
        name
    } else if dir.last() == '/' {
        dir + name
    } else {
        dir + seq!['/'] + name
    }
}

pub fn join_path_str(dir: &str, name: &str) -> (p: String)
    ensures
        p@ == join_path(dir@, name@),
{
    let d = chars_of(dir);
    let n = chars_of(name);
    if n.len() > 0 && n[0] == '/' {
        return name.to_string();
    }
    if d.len() == 0 {
        return name.to_string();
    }
    let mut p = dir.to_string();
    if d[d.len() - 1] != '/' {
        p.push('/');
    }
    p.append(name);
    p
}

/// The file name of one output stream of a process.
pub open spec fn log_file_name(process_id: Seq<char>, stream: Seq<char>) -> Seq<char> {
    process_id + "."@ + stream + ".log"@
}

fn log_file_name_str(process_id: &str, stream: &str) -> (n: String)
    ensures
        n@ == log_file_name(process_id@, stream@),
{
    let mut n = process_id.to_string();
    n.append(".");
    n.append(stream);
    n.append(".log");
    n
}

/// How a new process is to be started.
#[derive(Debug)]
pub struct ProcessLaunchPlan {
    pub process_id: String,
    pub program: String,
    pub args: Vec<String>,
    pub cwd: Option<String>,
    pub stdout_path: String,
    pub stderr_path: String,
    pub timeout_ms: i64,
}

/// The working directory of a request: its text without surrounding
/// white space, or none when that is empty.
pub open spec fn requested_cwd(cwd: Option<String>) -> Option<Seq<char>> {
    match cwd {
        Some(c) => if trim(c@).len() > 0 {
            Some(trim(c@))
        } else {
            None
        },
        None => None,
    }
}

pub open spec fn opt_string_view(o: Option<String>) -> Option<Seq<char>> {
    match o {
        Some(s) => Some(s@),
        None => None,
    }
}

/// Plans the start of process number `sequence` for `command` (the checked
/// command of `check_run_request`): the process is `proc_<sequence>`, its
/// output goes to `<id>.stdout.log` and `<id>.stderr.log` in the log
/// directory; a shell runs the command when shells are allowed, otherwise
/// its first word is the program and the other words its arguments.
pub fn plan_process_launch(
    config: &ProcessManagerConfig,
    request: &ProcessRunRequest,
    command: &str,
    sequence: u64,
) -> (r: Result<ProcessLaunchPlan, RuntimeError>)
    ensures
        !config.allow_shell && words(command@).len() == 0 ==> (r matches Err(
            RuntimeError::InvalidState(m),
        ) && m@ == "command cannot be empty"@),
        config.allow_shell || words(command@).len() > 0 ==> (r matches Ok(plan) && {
            let id = "proc_"@ + decimal(sequence as nat);
            &&& plan.process_id@ == id
            &&& plan.stdout_path@ == join_path(config.log_dir@, log_file_name(id, "stdout"@))
            &&& plan.stderr_path@ == join_path(config.log_dir@, log_file_name(id, "stderr"@))
            &&& opt_string_view(plan.cwd) == requested_cwd(request.cwd)
            &&& plan.timeout_ms == (match request.timeout_ms {
                Some(t) => t,
                None => config.default_timeout_ms,
            }) as i64
            &&& config.allow_shell ==> plan.program@ == "sh"@ && plan.args@.len() == 2
                && plan.args@[0]@ == "-lc"@ && plan.args@[1]@ == command@
            &&& !config.allow_shell ==> plan.program@ == words(command@)[0] && plan.args@.len() + 1
                == words(command@).len() && forall|k: int|
                0 <= k < plan.args@.len() ==> #[trigger] plan.args@[k]@ == words(command@)[k + 1]
        }),
{
    let mut process_id = "proc_".to_string();
    let digits = u64_to_string(sequence);
    process_id.append(digits.as_str());
    let stdout_name = log_file_name_str(process_id.as_str(), "stdout");
    let stderr_name = log_file_name_str(process_id.as_str(), "stderr");
    let stdout_path = join_path_str(config.log_dir.as_str(), stdout_name.as_str());
    let stderr_path = join_path_str(config.log_dir.as_str(), stderr_name.as_str());
    let cwd = match &request.cwd {
        Some(c) => {
            let t = trim_str(c.as_str());
            let empty = chars_of(t.as_str()).len() == 0;
            if empty {
                None
            } else {
                Some(t)
            }
        },
        None => None,
    };
    let timeout_ms = match request.timeout_ms {
        Some(t) => t,
        None => config.default_timeout_ms,
    } as i64;
    if config.allow_shell {
        let mut args: Vec<String> = Vec::new();
        args.push("-lc".to_string());
        args.push(command.to_string());
        return Ok(
            ProcessLaunchPlan {
                process_id,
                program: "sh".to_string(),
                args,
                cwd,
                stdout_path,
                stderr_path,
                timeout_ms,
            },
        );
    }
    let mut split = split_whitespace(command);
    if split.len() == 0 {
        return Err(RuntimeError::InvalidState("command cannot be empty".to_string()));
    }
    let ghost w = split@;
    let program = split.remove(0);
    assert(program@ == words(command@)[0]);
    assert forall|k: int| 0 <= k < split@.len() implies #[trigger] split@[k]@ == words(command@)[k
        + 1] by {
        assert(split@[k] == w[k + 1]);
    }
    Ok(
        ProcessLaunchPlan {
            process_id,
            program,
            args: split,
            cwd,
            stdout_path,
            stderr_path,
            timeout_ms,
        },
    )
}

/// The text a JSON string holding `text` prints as (`serde_json::Value::String`
/// written compactly): `text` quoted, with quotes, backslashes and control
/// characters escaped.
pub uninterp spec fn json_string_text(text: Seq<char>) -> Seq<char>;

/// `serde_json::Value::String(text)` written with `Display` (the compact
/// JSON of the string). The contract names the result and claims that it
/// depends on `text` alone; the escaping itself is not stated.
#[verifier::external_body]
fn json_string(text: &str) -> (s: String)
    ensures
        s@ == json_string_text(text@),
{
    serde_json::Value::String(text.to_string()).to_string()
}

/// The JSON object `{"command": <quoted>}` written compactly, where `quoted`
/// is the JSON text of the command string.
pub open spec fn command_record_spec(quoted: Seq<char>) -> Seq<char> {
    "{\"command\":"@ + quoted + "}"@
}

/// The stored command of a process: the object with the single key
/// `command` whose value is the JSON string `quoted`, written compactly.
pub fn command_record_text(quoted: &str) -> (s: String)
    ensures
        s@ == command_record_spec(quoted@),
{
    let mut s = "{\"command\":".to_string();
    s.append(quoted);
    s.append("}");
    s
}

/// The record of a process that has just been started; its command is the
/// JSON object `{"command": <the trimmed command>}`.
pub fn running_record(
    plan: &ProcessLaunchPlan,
    request: &ProcessRunRequest,
    pid: Option<i64>,
    started_at: i64,
) -> (r: ProcessRecord)
    ensures
        r.id == plan.process_id,
        r.session_id == request.caller_session_id,
        r.tool_call_id == request.tool_call_id,
        r.pid == pid,
        r.command@ == command_record_spec(json_string_text(trim(request.command@))),
        r.cwd == plan.cwd,
        r.status@ == "running"@,
        r.exit_code is None,
        r.signal is None,
        r.stdout_path == Some(plan.stdout_path),
        r.stderr_path == Some(plan.stderr_path),
        r.started_at == started_at,
        r.ended_at is None,
        r.timeout_ms == Some(plan.timeout_ms),
{
    let command = trim_str(request.command.as_str());
    let quoted = json_string(command.as_str());
    ProcessRecord {
        id: clone_string(&plan.process_id),
        session_id: clone_opt_string(&request.caller_session_id),
        tool_call_id: clone_opt_string(&request.tool_call_id),
        pid,
        command: command_record_text(quoted.as_str()),
        cwd: clone_opt_string(&plan.cwd),
        status: "running".to_string(),
        exit_code: None,
        signal: None,
        stdout_path: Some(clone_string(&plan.stdout_path)),
        stderr_path: Some(clone_string(&plan.stderr_path)),
        started_at,
        ended_at: None,
        timeout_ms: Some(plan.timeout_ms),
    }
}

/// The log file of a stream: the path the record names, or the stream's
/// file in the log directory.
pub fn stream_log_path(
    recorded: &Option<String>,
    log_dir: &str,
    process_id: &str,
    stream: &str,
) -> (p: String)
    ensures
        recorded matches Some(r) ==> p == r,
        recorded is None ==> p@ == join_path(log_dir@, log_file_name(process_id@, stream@)),
{
    match recorded {
        Some(r) => clone_string(r),
        None => {
            let name = log_file_name_str(process_id, stream);
            join_path_str(log_dir, name.as_str())
        },
    }
}

/// How long a process may run: its own limit or else the default, and at
/// least one millisecond.
pub open spec fn effective_timeout(recorded: Option<i64>, default_timeout_ms: u64) -> u64 {
    let t: u64 = match recorded {
        Some(v) => v as u64,
        None => default_timeout_ms,
    };
    if t < 1 {
        1
    } else {
        t
    }
}

pub fn effective_timeout_ms(recorded: Option<i64>, default_timeout_ms: u64) -> (t: u64)
    ensures
        t == effective_timeout(recorded, default_timeout_ms),
        recorded is Some && recorded->0 >= 1 ==> t == recorded->0,
        recorded is None ==> t == (if default_timeout_ms >= 1 {
            default_timeout_ms
        } else {
            1
        }),
{
    let t: u64 = match recorded {
        Some(v) => v as u64,
        None => default_timeout_ms,
    };
    if t < 1 {
        1
    } else {
        t
    }
}

/// How waiting for a process ended.
#[derive(Debug, Clone, Copy)]
pub enum WaitOutcome {
    /// The process exited with this code, or was ended by this signal.
    Exited { code: Option<i32>, signal: Option<i32> },
    /// Waiting failed, with this operating-system error number.
    WaitFailed { os_error: Option<i32> },
}

/// The final status of a process and how it ended.
#[derive(Debug)]
pub struct ProcessExit {
    pub status: String,
    pub exit_code: Option<i64>,
    pub signal: Option<i64>,
}

pub open spec fn widen(o: Option<i32>) -> Option<i64> {
    match o {
        Some(v) => Some(v as i64),
        None => None,
    }
}

/// The final status: a process that ran out of time has timed out, one that
/// was asked to stop has been killed, one that exited with code 0 has
/// completed, and every other one, and every one that could not be waited
/// for, has failed.
pub open spec fn final_status(outcome: WaitOutcome, timed_out: bool, kill_requested: bool) -> Seq<
    char,
> {
    match outcome {
        WaitOutcome::Exited { code, signal } => if timed_out {
            "timed_out"@
        } else if kill_requested {
            "killed"@
        } else if code == Some(0i32) {
            "completed"@
        } else {
            "failed"@
        },
        WaitOutcome::WaitFailed { .. } => "failed"@,
    }
}

fn widen_exec(o: Option<i32>) -> (r: Option<i64>)
    ensures
        r == widen(o),
{
    match o {
        Some(v) => Some(v as i64),
        None => None,
    }
}

pub fn final_process_state(outcome: WaitOutcome, timed_out: bool, kill_requested: bool) -> (e:
    ProcessExit)
    ensures
        e.status@ == final_status(outcome, timed_out, kill_requested),
        outcome is Exited && timed_out ==> e.status@ == "timed_out"@,
        outcome is Exited && !timed_out && kill_requested ==> e.status@ == "killed"@,
        outcome is Exited && !timed_out && !kill_requested ==> (e.status@ == (if outcome->code
            == Some(0i32) {
            "completed"@
        } else {
            "failed"@
        })),
        outcome is WaitFailed ==> e.status@ == "failed"@,
        outcome matches WaitOutcome::Exited { code, signal } ==> e.exit_code == widen(code)
            && e.signal == widen(signal),
        outcome matches WaitOutcome::WaitFailed { os_error } ==> e.exit_code is None && e.signal
            == widen(os_error),
{
    match outcome {
        WaitOutcome::Exited { code, signal } => {
            let status = if timed_out {
                "timed_out".to_string()
            } else if kill_requested {
                "killed".to_string()
            } else if code == Some(0i32) {
                "completed".to_string()
            } else {
                "failed".to_string()
            };
            ProcessExit { status, exit_code: widen_exec(code), signal: widen_exec(signal) }
        },
        WaitOutcome::WaitFailed { os_error } => ProcessExit {
            status: "failed".to_string(),
            exit_code: None,
            signal: widen_exec(os_error),
        },
    }
}

/// The event that announces a final status.
pub open spec fn completion_event_kind_spec(status: Seq<char>) -> Seq<char> {
    if status == "completed"@ {
        "process.completed"@
    } else if status == "timed_out"@ {
        "process.timed_out"@
    } else if status == "killed"@ {
        "process.killed"@
    } else {
        "process.failed"@
    }
}

pub fn completion_event_kind(status: &str) -> (k: &'static str)
    ensures
        k@ == completion_event_kind_spec(status@),
{
    if str_eq(status, "completed") {
        "process.completed"
    } else if str_eq(status, "timed_out") {
        "process.timed_out"
    } else if str_eq(status, "killed") {
        "process.killed"
    } else {
        "process.failed"
    }
}

/// How much of a chunk of output is kept.
#[derive(Debug, Clone, Copy)]
pub struct ChunkAllowance {
    pub bytes_to_write: usize,
    pub truncated: bool,
}

/// The bytes of a chunk of `chunk_len` bytes that fit under the limit when
/// `used` bytes of the stream are already written.
pub open spec fn allowance(used: nat, max_bytes: nat, chunk_len: nat) -> nat {
    let remaining: nat = if max_bytes > used {
        (max_bytes - used) as nat
    } else {
        0
    };
    if remaining < chunk_len {
        remaining
    } else {
        chunk_len
    }
}

pub fn chunk_allowance(used: usize, max_bytes: usize, chunk_len: usize) -> (a: ChunkAllowance)
    ensures
        a.bytes_to_write == allowance(used as nat, max_bytes as nat, chunk_len as nat),
        a.truncated == (a.bytes_to_write < chunk_len),
{
    let remaining = max_bytes.saturating_sub(used);
    let to_write = if remaining < chunk_len {
        remaining
    } else {
        chunk_len
    };
    ChunkAllowance { bytes_to_write: to_write, truncated: to_write < chunk_len }
}

/// Whether an output event is due after a read.
#[derive(Debug, Clone, Copy)]
pub struct SampleDecision {
    pub emit: bool,
    /// The bytes read since the last output event.
    pub unreported_bytes: usize,
}

/// After reading `read` bytes, with `unreported` bytes read since the last
/// output event: an event is due once at least `sample_bytes` (at least one)
/// bytes are unreported, or when the read was cut short by the limit; the
/// count starts again after an event.
pub fn output_event_decision(
    unreported: usize,
    read: usize,
    sample_bytes: usize,
    truncated: bool,
) -> (d: SampleDecision)
    ensures
        ({
            let sum = unreported + read;
            let seen: nat = if sum > usize::MAX {
                usize::MAX as nat
            } else {
                sum as nat
            };
            let threshold: nat = if sample_bytes < 1 {
                1
            } else {
                sample_bytes as nat
            };
            &&& d.emit == (seen >= threshold || truncated)
            &&& d.emit ==> d.unreported_bytes == 0
            &&& !d.emit ==> d.unreported_bytes == seen
        }),
{
    let threshold = if sample_bytes < 1 {
        1
    } else {
        sample_bytes
    };
    let seen = unreported.saturating_add(read);
    if seen >= threshold || truncated {
        SampleDecision { emit: true, unreported_bytes: 0 }
    } else {
        SampleDecision { emit: false, unreported_bytes: seen }
    }
}

/// The bytes of a stream written after each chunk in `chunks`, starting
/// from none.
pub open spec fn written_after(chunks: Seq<nat>, max_bytes: nat) -> nat
    decreases chunks.len(),
{
    if chunks.len() == 0 {
        0
    } else {
        let before = written_after(chunks.drop_last(), max_bytes);
        before + allowance(before, max_bytes, chunks.last())
    }
}

/// Whether some chunk was cut short.
pub open spec fn any_truncated(chunks: Seq<nat>, max_bytes: nat) -> bool
    decreases chunks.len(),
{
    if chunks.len() == 0 {
        false
    } else {
        let before = written_after(chunks.drop_last(), max_bytes);
        any_truncated(chunks.drop_last(), max_bytes) || allowance(before, max_bytes, chunks.last())
            < chunks.last()
    }
}

pub open spec fn total_len(chunks: Seq<nat>) -> nat
    decreases chunks.len(),
{
    if chunks.len() == 0 {
        0
    } else {
        total_len(chunks.drop_last()) + chunks.last()
    }
}

/// Output accounting keeps exactly the first `max_bytes` bytes of a stream:
/// after any sequence of chunks the bytes written are the smaller of the
/// bytes read and the limit, and a chunk has been cut short exactly when the
/// stream produced more than the limit.
pub proof fn lemma_output_is_capped(chunks: Seq<nat>, max_bytes: nat)
    ensures
        written_after(chunks, max_bytes) == if total_len(chunks) < max_bytes {
            total_len(chunks)
        } else {
            max_bytes
        },
        any_truncated(chunks, max_bytes) == (total_len(chunks) > max_bytes),
    decreases chunks.len(),
{
    if chunks.len() > 0 {
        lemma_output_is_capped(chunks.drop_last(), max_bytes);
    }
}

/// The reason recorded for a kill: the one given, or `requested`.
pub fn kill_reason(reason: Option<String>) -> (r: String)
    ensures
        reason matches Some(x) ==> r == x,
        reason is None ==> r@ == "requested"@,
{
    match reason {
        Some(x) => x,
        None => "requested".to_string(),
    }
}

/// The id of the `n`th event the process manager records for a process.
pub fn process_event_id(process_id: &str, n: u64) -> (id: String)
    ensures
        id@ == "evt_proc_"@ + process_id@ + "_"@ + decimal(n as nat),
{
    let mut id = "evt_proc_".to_string();
    id.append(process_id);
    id.append("_");
    let digits = u64_to_string(n);
    id.append(digits.as_str());
    id
}

/// The text of lines, each followed by a newline.
pub open spec fn joined_lines(ls: Seq<Seq<char>>) -> Seq<char>
    decreases ls.len(),
{
    if ls.len() == 0 {
        Seq::empty()
    } else {
        joined_lines(ls.drop_last()) + ls.last() + seq!['\n']
    }
}

/// Where the tail window starts among `n` lines.
pub open spec fn tail_start(n: nat, tail: nat) -> nat {
    if n > tail {
        (n - tail) as nat
    } else {
        0
    }
}

pub open spec fn min_nat(a: nat, b: nat) -> nat {
    if a < b {
        a
    } else {
        b
    }
}

/// Whether the head and tail windows leave lines out between them.
pub open spec fn window_elided(n: nat, head: nat, tail: nat) -> bool {
    head > 0 && tail_start(n, tail) > head
}

/// The first `head` lines (when `head` is not zero), a `...` line when lines
/// are left out, then the last `tail` lines; every line ends with a newline.
pub open spec fn log_window(ls: Seq<Seq<char>>, head: nat, tail: nat) -> Seq<char> {
    (if head > 0 {
        joined_lines(ls.take(min_nat(head, ls.len()) as int))
    } else {
        Seq::empty()
    }) + (if window_elided(ls.len(), head, tail) {
        "...\n"@
    } else {
        Seq::empty()
    }) + joined_lines(ls.skip(tail_start(ls.len(), tail) as int))
}

/// The text that decoding `bytes` as UTF-8 gives, with U+FFFD for every
/// invalid sequence (`String::from_utf8_lossy`).
pub uninterp spec fn utf8_lossy(bytes: Seq<u8>) -> Seq<char>;

/// `String::from_utf8_lossy`: the text of `bytes`, invalid sequences
/// replaced. The contract names the result and states the documented fact
/// that valid UTF-8 decodes to its characters; how invalid sequences are
/// replaced is not stated.
#[verifier::external_body]
fn from_utf8_lossy(bytes: &[u8]) -> (s: String)
    ensures
        s@ == utf8_lossy(bytes@),
        valid_utf8(bytes@) ==> s@ == decode_utf8(bytes@),
{
    String::from_utf8_lossy(bytes).into_owned()
}

fn push_lines(out: &mut String, ls: &Vec<String>, from: usize, to: usize)
    requires
        from <= to <= ls@.len(),
    ensures
        final(out)@ == old(out)@ + joined_lines(
            ls@.map_values(|l: String| l@).subrange(from as int, to as int),
        ),
{
    let ghost start = out@;
    let ghost views = ls@.map_values(|l: String| l@);
    let mut i = from;
    assert(views.subrange(from as int, from as int) =~= Seq::<Seq<char>>::empty());
    while i < to
        invariant
            from <= i <= to <= ls@.len(),
            views == ls@.map_values(|l: String| l@),
            out@ == start + joined_lines(views.subrange(from as int, i as int)),
        decreases to - i,
    {
        out.append(ls[i].as_str());
        out.push('\n');
        assert(views.subrange(from as int, i + 1).drop_last() =~= views.subrange(
            from as int,
            i as int,
        ));
        assert(out@ =~= start + joined_lines(views.subrange(from as int, i + 1)));
        i += 1;
    }
}

/// The part of a log that a read shows, and whether anything was left out:
/// the head and tail windows of `content`'s lines and, when a byte limit is
/// given and the window is longer, only its last `max_bytes` bytes.
pub fn render_log_window(
    content: &str,
    head_lines: usize,
    tail_lines: usize,
    max_bytes: Option<usize>,
) -> (r: (String, bool))
    ensures
        ({
            let text = log_window(lines(content@), head_lines as nat, tail_lines as nat);
            let bytes = encode_utf8(text);
            let elided = window_elided(lines(content@).len(), head_lines as nat, tail_lines as nat);
            match max_bytes {
                Some(mb) => if bytes.len() > mb {
                    r.0@ == utf8_lossy(bytes.subrange(bytes.len() - mb, bytes.len() as int)) && r.1
                } else {
                    r.0@ == text && r.1 == elided
                },
                None => r.0@ == text && r.1 == elided,
            }
        }),
        max_bytes is None ==> r.1 == (head_lines > 0 && lines(content@).len() > head_lines
            + tail_lines),
{
    let ls = split_lines(content);
    let ghost views = ls@.map_values(|l: String| l@);
    assert(views =~= lines(content@));
    let n = ls.len();
    let mut out = String::new();
    let mut truncated = false;
    if head_lines > 0 {
        let h = if head_lines < n {
            head_lines
        } else {
            n
        };
        push_lines(&mut out, &ls, 0, h);
        assert(views.subrange(0, h as int) =~= views.take(h as int));
    }
    let start = if n > tail_lines {
        n - tail_lines
    } else {
        0
    };
    if head_lines > 0 && start > head_lines {
        truncated = true;
        out.append("...\n");
    }
    push_lines(&mut out, &ls, start, n);
    assert(views.subrange(start as int, n as int) =~= views.skip(start as int));
    assert(out@ =~= log_window(lines(content@), head_lines as nat, tail_lines as nat));
    match max_bytes {
        Some(mb) => {
            let bytes = out.as_str().as_bytes();
            let len = bytes.len();
            if len > mb {
                let suffix = vstd::slice::slice_subrange(bytes, len - mb, len);
                let cut = from_utf8_lossy(suffix);
                return (cut, true);
            }
            (out, truncated)
        },
        None => (out, truncated),
    }
}

/// A request to read the logs of a process.
#[derive(Debug, Clone)]
pub struct ProcessLogReadRequest {
    pub process_id: String,
    pub caller_session_id: Option<String>,
    pub stream: Option<String>,
    pub head_lines: Option<usize>,
    pub tail_lines: Option<usize>,
    pub max_bytes: Option<usize>,
}

/// A stream whose log is to be read.
#[derive(Debug)]
pub struct LogStreamSelection {
    pub stream: String,
    pub path: Option<String>,
    pub truncated: bool,
}

/// The streams a log read covers: the one it names (`stdout` or `stderr`),
/// or both, stdout first, when it names none; any other name is refused.
pub fn select_log_streams(stream: Option<&str>, details: &ProcessDetails) -> (r: Result<
    Vec<LogStreamSelection>,
    RuntimeError,
>)
    ensures
        stream matches Some(s) && s@ == "stdout"@ ==> (r matches Ok(v) && v@.len() == 1
            && v@[0].stream@ == "stdout"@ && v@[0].path == details.stdout_path && v@[0].truncated
            == details.stdout_truncated),
        stream matches Some(s) && s@ == "stderr"@ ==> (r matches Ok(v) && v@.len() == 1
            && v@[0].stream@ == "stderr"@ && v@[0].path == details.stderr_path && v@[0].truncated
            == details.stderr_truncated),
        stream is Some && stream->0@ != "stdout"@ && stream->0@ != "stderr"@ ==> (r matches Err(
            RuntimeError::InvalidState(m),
        ) && m@ == "unsupported stream "@ + stream->0@),
        stream is None ==> (r matches Ok(v) && v@.len() == 2 && v@[0].stream@ == "stdout"@
            && v@[0].path == details.stdout_path && v@[0].truncated == details.stdout_truncated
            && v@[1].stream@ == "stderr"@ && v@[1].path == details.stderr_path && v@[1].truncated
            == details.stderr_truncated),
{
    proof {
        reveal_strlit("stdout");
        reveal_strlit("stderr");
        assert("stdout"@[3] != "stderr"@[3]);
    }
    let mut streams: Vec<LogStreamSelection> = Vec::new();
    match stream {
        Some(s) => {
            if str_eq(s, "stdout") {
                streams.push(
                    LogStreamSelection {
                        stream: "stdout".to_string(),
                        path: clone_opt_string(&details.stdout_path),
                        truncated: details.stdout_truncated,
                    },
                );
            } else if str_eq(s, "stderr") {
                streams.push(
                    LogStreamSelection {
                        stream: "stderr".to_string(),
                        path: clone_opt_string(&details.stderr_path),
                        truncated: details.stderr_truncated,
                    },
                );
            } else {
                let mut m = "unsupported stream ".to_string();
                m.append(s);
                return Err(RuntimeError::InvalidState(m));
            }
        },
        None => {
            streams.push(
                LogStreamSelection {
                    stream: "stdout".to_string(),
                    path: clone_opt_string(&details.stdout_path),
                    truncated: details.stdout_truncated,
                },
            );
            streams.push(
                LogStreamSelection {
                    stream: "stderr".to_string(),
                    path: clone_opt_string(&details.stderr_path),
                    truncated: details.stderr_truncated,
                },
            );
        },
    }
    Ok(streams)
}

/// What a log read returns for one stream.
#[derive(Debug, Clone)]
pub struct ProcessLogsChunk {
    pub process_id: String,
    pub stream: String,
    pub bytes: usize,
    pub content: String,
    pub head_lines: usize,
    pub tail_lines: usize,
    pub truncated: bool,
}

pub open spec fn head_lines_of(head: Option<usize>) -> usize {
    match head {
        Some(h) => h,
        None => 0,
    }
}

pub open spec fn tail_lines_of(tail: Option<usize>) -> usize {
    match tail {
        Some(t) => t,
        None => 80,
    }
}

/// The chunk for one stream whose log file holds `content`: by default no
/// head window and a tail window of 80 lines; `bytes` counts the bytes of
/// the text shown, and the chunk is truncated when the window or the byte
/// limit left something out or the process's output was cut short.
pub fn build_log_chunk(
    process_id: &str,
    selection: &LogStreamSelection,
    content: &str,
    request: &ProcessLogReadRequest,
) -> (c: ProcessLogsChunk)
    ensures
        c.process_id@ == process_id@,
        c.stream == selection.stream,
        c.head_lines == head_lines_of(request.head_lines),
        c.tail_lines == tail_lines_of(request.tail_lines),
        ({
            let ls = lines(content@);
            let text = log_window(ls, c.head_lines as nat, c.tail_lines as nat);
            let bytes = encode_utf8(text);
            let elided = window_elided(ls.len(), c.head_lines as nat, c.tail_lines as nat);
            let mb: nat = match request.max_bytes {
                Some(m) => m as nat,
                None => 0,
            };
            let capped = request.max_bytes is Some && bytes.len() > mb;
            &&& capped ==> c.content@ == utf8_lossy(bytes.subrange(bytes.len() - mb, bytes.len() as int))
                && c.truncated
            &&& !capped ==> c.content@ == text && c.truncated == (elided || selection.truncated)
        }),
        c.bytes == encode_utf8(c.content@).len() as usize,
{
    let head = match request.head_lines {
        Some(h) => h,
        None => 0,
    };
    let tail = match request.tail_lines {
        Some(t) => t,
        None => 80,
    };
    let (out, truncated) = render_log_window(content, head, tail, request.max_bytes);
    let bytes = out.as_str().len();
    ProcessLogsChunk {
        process_id: process_id.to_string(),
        stream: clone_string(&selection.stream),
        bytes,
        content: out,
        head_lines: head,
        tail_lines: tail,
        truncated: truncated || selection.truncated,
    }
}

/// How many processes may run at once: the configured number, and at least
/// one.
pub fn process_slots(max_concurrent: usize) -> (n: usize)
    ensures
        n == if max_concurrent < 1 {
            1
        } else {
            max_concurrent
        },
{
    if max_concurrent < 1 {
        1
    } else {
        max_concurrent
    }
}

/// The launch number that the launch after `taken` earlier ones gets, when
/// counting starts at `start`; `None` once the numbers have run out (or
/// when there was no number to start from).
pub open spec fn nth_launch(start: Option<u64>, taken: nat) -> Option<u64> {
    match start {
        Some(s) => if s + taken <= u64::MAX {
            Some((s + taken) as u64)
        } else {
            None
        },
        None => None,
    }
}

/// The numbers handed to launched processes (`proc_<n>`), counted up one at
/// a time from a start.
pub struct LaunchNumbers {
    next: Option<u64>,
    start: Ghost<Option<u64>>,
    taken: Ghost<nat>,
}

impl LaunchNumbers {
    #[verifier::type_invariant]
    spec fn inv(self) -> bool {
        self.next == nth_launch(self.start@, self.taken@)
    }

    /// The number counting started from.
    pub closed spec fn start(self) -> Option<u64> {
        self.start@
    }

    /// How many numbers have been asked for.
    pub closed spec fn taken(self) -> nat {
        self.taken@
    }

    /// Counting that hands out `start` first; `None` hands out nothing.
    pub fn starting_at(start: Option<u64>) -> (r: Self)
        ensures
            r.start() == start,
            r.taken() == 0,
    {
        LaunchNumbers { next: start, start: Ghost(start), taken: Ghost(0) }
    }

    /// The next launch number, `None` once they have run out.
    pub fn take(&mut self) -> (n: Option<u64>)
        ensures
            n == nth_launch(old(self).start(), old(self).taken()),
            final(self).start() == old(self).start(),
            final(self).taken() == old(self).taken() + 1,
    {
        proof {
            use_type_invariant(&*self);
        }
        let start = self.start;
        let taken = Ghost(self.taken@ + 1);
        match self.next {
            Some(n) => {
                let next = if n < u64::MAX {
                    Some(n + 1)
                } else {
                    None
                };
                *self = LaunchNumbers { next, start, taken };
                Some(n)
            },
            None => {
                *self = LaunchNumbers { next: None, start, taken };
                None
            },
        }
    }
}

/// Launch numbers only grow: of two numbers handed out, the later one is
/// the larger, and a launch that got a number comes after launches that all
/// got one.
pub proof fn lemma_launch_numbers_increase(start: Option<u64>, i: nat, j: nat)
    requires
        i < j,
        nth_launch(start, j) is Some,
    ensures
        nth_launch(start, i) is Some,
        nth_launch(start, i)->0 < nth_launch(start, j)->0,
{
}

/// After a restart, counting starts one past the highest stored launch
/// number (`restore_process_records`), so no launch ever gets the number of
/// a stored process: every number handed out is above it.
pub proof fn lemma_launches_after_restart_are_new(
    records: Seq<ProcessRecord>,
    j: int,
    n: u64,
    taken: nat,
)
    requires
        0 <= j < records.len(),
        records[j].id@ == "proc_"@ + decimal(n as nat),
        highest_sequence(records) < u64::MAX,
        nth_launch(Some((highest_sequence(records) + 1) as u64), taken) is Some,
    ensures
        nth_launch(Some((highest_sequence(records) + 1) as u64), taken)->0 > n,
{
    lemma_restart_never_reuses_launch_numbers(records, j, n);
}

/// The run slots of the process manager: `process_slots` of the configured
/// limit, each held by one running process from its launch until its
/// lifecycle ends. No more processes run than there are slots.
pub struct ProcessSlots {
    total: usize,
    in_use: usize,
}

impl ProcessSlots {
    #[verifier::type_invariant]
    spec fn inv(self) -> bool {
        1 <= self.total && self.in_use <= self.total
    }

    /// How many slots there are.
    pub closed spec fn total(self) -> nat {
        self.total as nat
    }

    /// How many slots running processes hold.
    pub closed spec fn in_use(self) -> nat {
        self.in_use as nat
    }

    /// All slots free, as many as `process_slots(max_concurrent)`.
    pub fn for_limit(max_concurrent: usize) -> (r: Self)
        ensures
            r.total() == (if max_concurrent < 1 {
                1
            } else {
                max_concurrent
            }),
            r.in_use() == 0,
    {
        ProcessSlots { total: process_slots(max_concurrent), in_use: 0 }
    }

    /// How many slots running processes hold; never more than there are.
    pub fn held(&self) -> (n: usize)
        ensures
            n == self.in_use(),
            self.in_use() <= self.total(),
            self.total() >= 1,
    {
        proof {
            use_type_invariant(self);
        }
        self.in_use
    }

    /// Takes a slot for a launch when one is free; when none is, nothing
    /// changes and the launch has to wait for a release.
    pub fn try_acquire(&mut self) -> (got: bool)
        ensures
            got == (old(self).in_use() < old(self).total()),
            final(self).total() == old(self).total(),
            final(self).in_use() == (if got {
                old(self).in_use() + 1
            } else {
                old(self).in_use()
            }),
            final(self).in_use() <= final(self).total(),
    {
        proof {
            use_type_invariant(&*self);
        }
        if self.in_use < self.total {
            *self = ProcessSlots { total: self.total, in_use: self.in_use + 1 };
            true
        } else {
            false
        }
    }

    /// Gives back the slot of a process whose lifecycle ended.
    pub fn release(&mut self)
        ensures
            final(self).total() == old(self).total(),
            final(self).in_use() == (if old(self).in_use() > 0 {
                old(self).in_use() - 1
            } else {
                0
            }),
    {
        proof {
            use_type_invariant(&*self);
        }
        if self.in_use > 0 {
            *self = ProcessSlots { total: self.total, in_use: self.in_use - 1 };
        }
    }
}

/// The page size of an event replay for a process: the requested size, and
/// at least one.
pub fn process_event_page(limit: usize) -> (n: usize)
    ensures
        n == if limit < 1 {
            1
        } else {
            limit
        },
{
    if limit < 1 {
        1
    } else {
        limit
    }
}

/// Milliseconds since the Unix epoch as an `i64` timestamp, the largest
/// `i64` for a time too far in the future.
pub fn millis_to_timestamp(millis: u128) -> (t: i64)
    ensures
        t == if millis > i64::MAX as u128 {
            i64::MAX as int
        } else {
            millis as int
        },
{
    if millis > i64::MAX as u128 {
        i64::MAX
    } else {
        millis as i64
    }
}

/// The final status of a finished process, case by case: one that ran out
/// of time has timed out, whether or not it was also asked to stop; one
/// asked to stop within its time has been killed; otherwise exit code 0 is
/// completion and any other ending, or a failed wait, is failure. Each final
/// status is announced by its own event and counts as finished.
pub proof fn lemma_final_status_cases(outcome: WaitOutcome, timed_out: bool, kill_requested: bool)
    ensures
        ({
            let st = final_status(outcome, timed_out, kill_requested);
            let ev = completion_event_kind_spec(st);
            &&& outcome is Exited && timed_out ==> st == "timed_out"@ && ev == "process.timed_out"@
            &&& outcome is Exited && !timed_out && kill_requested ==> st == "killed"@ && ev
                == "process.killed"@
            &&& outcome is Exited && !timed_out && !kill_requested && outcome->code == Some(0i32)
                ==> st == "completed"@ && ev == "process.completed"@
            &&& outcome is Exited && !timed_out && !kill_requested && outcome->code != Some(0i32)
                ==> st == "failed"@ && ev == "process.failed"@
            &&& outcome is WaitFailed ==> st == "failed"@ && ev == "process.failed"@
            &&& st == "completed"@ || st == "failed"@ || st == "timed_out"@ || st == "killed"@
            &&& is_terminal_status(st)
        }),
{
    reveal_strlit("completed");
    reveal_strlit("failed");
    reveal_strlit("timed_out");
    reveal_strlit("killed");
    assert("timed_out"@[0] != "completed"@[0]);
    assert("killed"@.len() != "completed"@.len());
    assert("killed"@.len() != "timed_out"@.len());
    assert("failed"@[0] != "completed"@[0]);
    assert("failed"@[0] != "timed_out"@[0]);
    assert("failed"@[0] != "killed"@[0]);
}

/// The finished statuses are exactly `completed`, `failed`, `timed_out` and
/// `killed`; a listing that does not ask for finished processes shows no
/// row in any of them.
pub proof fn lemma_listing_hides_finished_statuses(
    records: Seq<ProcessRecord>,
    caller: Option<Seq<char>>,
)
    ensures
        forall|s: Seq<char>|
            #[trigger] is_terminal_status(s) <==> (s == "completed"@ || s == "failed"@ || s
                == "timed_out"@ || s == "killed"@),
        forall|k: int|
            0 <= k < listed_rows(records, caller, false).len() ==> {
                let st = (#[trigger] listed_rows(records, caller, false)[k]).status@;
                &&& st != "completed"@
                &&& st != "failed"@
                &&& st != "timed_out"@
                &&& st != "killed"@
            },
    decreases records.len(),
{
    if records.len() > 0 {
        lemma_listing_hides_finished_statuses(records.drop_last(), caller);
    }
}

/// Cleanup selects every finished record (status `completed`, `failed`,
/// `timed_out` or `killed`) that ended at least the retention period ago.
pub proof fn lemma_cleanup_selects_every_expired_finished(
    records: Seq<ProcessRecord>,
    now: i64,
    retention_ms: u64,
    j: int,
)
    requires
        0 <= j < records.len(),
        records[j].status@ == "completed"@ || records[j].status@ == "failed"@
            || records[j].status@ == "timed_out"@ || records[j].status@ == "killed"@,
        records[j].ended_at is Some,
        retention_ms <= i64::MAX,
        now - records[j].ended_at->0 >= retention_ms,
    ensures
        expired_ids(records, now, retention_ms).contains(records[j].id),
    decreases records.len(),
{
    let prev = records.drop_last();
    if j == records.len() - 1 {
        let ids = expired_ids(records, now, retention_ms);
        assert(is_expired(records.last(), now, retention_ms));
        assert(ids[ids.len() - 1] == records[j].id);
    } else {
        assert(prev[j] == records[j]);
        lemma_cleanup_selects_every_expired_finished(prev, now, retention_ms, j);
        let before = expired_ids(prev, now, retention_ms);
        let i = choose|i: int| 0 <= i < before.len() && before[i] == records[j].id;
        let ids = expired_ids(records, now, retention_ms);
        assert(ids[i] == before[i]);
    }
}

/// The head and tail windows of a log leave lines out exactly when a head
/// is asked for and the log has more lines than the two windows hold
/// together, whatever the tail (none included); the text then shows the
/// head lines, a `...` line, and the tail lines.
pub proof fn lemma_log_window_marks_left_out_lines(ls: Seq<Seq<char>>, head: nat, tail: nat)
    ensures
        window_elided(ls.len(), head, tail) <==> (head > 0 && ls.len() > head + tail),
        head > 0 && ls.len() > head + tail ==> log_window(ls, head, tail) == joined_lines(
            ls.take(head as int),
        ) + "...\n"@ + joined_lines(ls.skip(ls.len() - tail)),
{
}

/// A process may run for the timeout it was started with, whenever it has
/// one of at least 1 ms, whatever the default; only a process started
/// without one runs for the default; and none runs for less than 1 ms.
pub proof fn lemma_own_timeout_wins(recorded: Option<i64>, default_timeout_ms: u64)
    ensures
        recorded is Some && recorded->0 >= 1 ==> effective_timeout(recorded, default_timeout_ms)
            == recorded->0,
        recorded is None ==> effective_timeout(recorded, default_timeout_ms) == (if default_timeout_ms
            >= 1 {
            default_timeout_ms
        } else {
            1
        }),
        effective_timeout(recorded, default_timeout_ms) >= 1,
{
}

/// The summary of a record, in listings and in details, carries each of the
/// record's fields unchanged.
pub proof fn lemma_summary_carries_record_fields(r: ProcessRecord)
    ensures
        summary_of(r).process_id == r.id,
        summary_of(r).session_id == r.session_id,
        summary_of(r).pid == r.pid,
        summary_of(r).status == r.status,
        summary_of(r).command == r.command,
        summary_of(r).cwd == r.cwd,
        summary_of(r).started_at == r.started_at,
        summary_of(r).ended_at == r.ended_at,
{
}

} // verus!
