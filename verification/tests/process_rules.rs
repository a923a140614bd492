use gg_runtime::error::RuntimeError;
use gg_runtime::process::{
    build_log_chunk, check_ownership, chunk_allowance, completion_event_kind,
    effective_timeout_ms, expired_process_ids, final_process_state, find_by_pid, join_path_str,
    kill_reason, list_process_entries, millis_to_timestamp, output_event_decision,
    plan_process_launch, process_details, process_event_id, process_event_page,
    process_not_found, process_pid_not_found, process_slots, render_log_window,
    restore_process_records, running_record, select_log_streams, stream_log_path,
    LaunchNumbers, LogStreamSelection, ProcessLogReadRequest, ProcessSlots, ProcessRecord, ProcessRunRequest, WaitOutcome,
};
use gg_runtime::tools::ProcessManagerConfig;

fn record(id: &str, session: Option<&str>, status: &str, started_at: i64, ended_at: Option<i64>) -> ProcessRecord {
    ProcessRecord {
        id: id.to_string(),
        session_id: session.map(str::to_string),
        tool_call_id: None,
        pid: None,
        command: "{\"command\":\"true\"}".to_string(),
        cwd: None,
        status: status.to_string(),
        exit_code: None,
        signal: None,
        stdout_path: Some(format!("/logs/{id}.stdout.log")),
        stderr_path: Some(format!("/logs/{id}.stderr.log")),
        started_at,
        ended_at,
        timeout_ms: Some(1000),
    }
}

fn config(allow_shell: bool) -> ProcessManagerConfig {
    ProcessManagerConfig {
        enabled: true,
        max_concurrent: 1,
        default_timeout_ms: 60_000,
        max_output_bytes_per_process: 1_000_000,
        allow_shell,
        completed_retention_ms: 60_000,
        output_event_sample_bytes: 1024,
        log_dir: "/tmp/logs".to_string(),
    }
}

fn run_request(command: &str, cwd: Option<&str>, timeout_ms: Option<u64>) -> ProcessRunRequest {
    ProcessRunRequest {
        caller_session_id: Some("sess_test".to_string()),
        tool_call_id: None,
        command: command.to_string(),
        cwd: cwd.map(str::to_string),
        timeout_ms,
    }
}

#[test]
fn restart_fails_processes_that_were_running() {
    let restored = restore_process_records(
        vec![
            record("proc_3", None, "running", 10, None),
            record("proc_12", None, "completed", 5, Some(7)),
            record("proc_7", None, "queued", 8, None),
            record("custom", None, "killed", 1, Some(2)),
        ],
        1_000,
    );
    let statuses: Vec<&str> = restored.records.iter().map(|r| r.status.as_str()).collect();
    assert_eq!(statuses, vec!["failed", "completed", "failed", "killed"]);
    assert_eq!(restored.records[0].ended_at, Some(1_000));
    assert_eq!(restored.records[1].ended_at, Some(7));
    assert_eq!(restored.records[2].ended_at, Some(1_000));
    assert_eq!(restored.next_sequence, Some(13));
    assert_eq!(restored.recovered, vec![0, 2]);
}

#[test]
fn restart_numbering_passes_launched_ids() {
    let request = run_request("true", None, None);
    let plan = plan_process_launch(&config(true), &request, "true", 41).unwrap();
    let record = running_record(&plan, &request, None, 0);
    let restored = restore_process_records(vec![record], 5);
    assert_eq!(restored.next_sequence, Some(42));
}

#[test]
fn restart_numbering_starts_at_one_and_reports_overflow() {
    assert_eq!(restore_process_records(vec![], 0).next_sequence, Some(1));
    let full = restore_process_records(
        vec![record("proc_18446744073709551615", None, "completed", 0, Some(0))],
        0,
    );
    assert_eq!(full.next_sequence, None);
}

#[test]
fn expired_processes_are_selected_after_retention() {
    let records = vec![
        record("a", None, "completed", 0, Some(1_000)),
        record("b", None, "failed", 0, Some(50_000)),
        record("c", None, "running", 0, Some(0)),
        record("d", None, "timed_out", 0, None),
        record("e", None, "killed", 0, Some(40_000)),
    ];
    assert_eq!(expired_process_ids(&records, 100_000, 60_000), vec!["a".to_string(), "e".to_string()]);
    assert!(expired_process_ids(&records, 100_000, 0).is_empty());
}

#[test]
fn ownership_is_checked_against_the_caller_session() {
    let r = record("proc_1", Some("sess_a"), "running", 0, None);
    assert!(check_ownership(&r, None).is_ok());
    assert!(check_ownership(&r, Some("sess_a")).is_ok());
    assert_eq!(
        check_ownership(&r, Some("sess_b")),
        Err(RuntimeError::InvalidState("process proc_1 belongs to a different session".to_string()))
    );
    let orphan = record("proc_2", None, "running", 0, None);
    assert!(check_ownership(&orphan, Some("sess_a")).is_err());
}

#[test]
fn listing_shows_own_processes_newest_first() {
    let records = vec![
        record("p1", Some("s"), "running", 10, None),
        record("p2", Some("s"), "completed", 30, Some(40)),
        record("p3", Some("other"), "running", 50, None),
        record("p4", Some("s"), "running", 20, None),
    ];
    let ids = |rows: Vec<gg_runtime::process::ProcessSummary>| -> Vec<String> {
        rows.into_iter().map(|r| r.process_id).collect()
    };
    assert_eq!(ids(list_process_entries(&records, Some("s"), false)), vec!["p4", "p1"]);
    assert_eq!(ids(list_process_entries(&records, Some("s"), true)), vec!["p2", "p4", "p1"]);
    assert_eq!(ids(list_process_entries(&records, None, true)), vec!["p3", "p2", "p4", "p1"]);
}

#[test]
fn processes_are_found_by_pid() {
    let mut a = record("a", None, "running", 0, None);
    a.pid = Some(100);
    let mut b = record("b", None, "running", 0, None);
    b.pid = Some(200);
    let records = vec![a, b];
    assert_eq!(find_by_pid(&records, 200), Some(1));
    assert_eq!(find_by_pid(&records, 300), None);
    assert_eq!(process_pid_not_found(300), RuntimeError::NotFound("process pid 300".to_string()));
    assert_eq!(process_not_found("proc_9"), RuntimeError::NotFound("process proc_9".to_string()));
}

#[test]
fn run_requests_are_checked() {
    let mut disabled = config(true);
    disabled.enabled = false;
    assert_eq!(
        gg_runtime::process::check_run_request(&disabled, &run_request("ls", None, None)),
        Err(RuntimeError::Unsupported("gg_process tools are disabled".to_string()))
    );
    assert_eq!(
        gg_runtime::process::check_run_request(&config(true), &run_request("  \t ", None, None)),
        Err(RuntimeError::InvalidState("command cannot be empty".to_string()))
    );
    assert_eq!(
        gg_runtime::process::check_run_request(&config(true), &run_request("  sleep 5 ", None, None)),
        Ok("sleep 5".to_string())
    );
}

#[test]
fn launch_through_a_shell() {
    let plan = plan_process_launch(&config(true), &run_request("sleep 5", Some("  /work "), None), "sleep 5", 7)
        .expect("plan");
    assert_eq!(plan.process_id, "proc_7");
    assert_eq!(plan.program, "sh");
    assert_eq!(plan.args, vec!["-lc".to_string(), "sleep 5".to_string()]);
    assert_eq!(plan.cwd.as_deref(), Some("/work"));
    assert_eq!(plan.stdout_path, "/tmp/logs/proc_7.stdout.log");
    assert_eq!(plan.stderr_path, "/tmp/logs/proc_7.stderr.log");
    assert_eq!(plan.timeout_ms, 60_000);
}

#[test]
fn launch_without_a_shell_splits_words() {
    let plan = plan_process_launch(&config(false), &run_request("ls  -la /tmp", Some("   "), Some(5)), "ls  -la /tmp", 1)
        .expect("plan");
    assert_eq!(plan.program, "ls");
    assert_eq!(plan.args, vec!["-la".to_string(), "/tmp".to_string()]);
    assert_eq!(plan.cwd, None);
    assert_eq!(plan.timeout_ms, 5);
    assert!(plan_process_launch(&config(false), &run_request("", None, None), "", 2).is_err());
}

#[test]
fn a_started_process_is_recorded_as_running() {
    let request = run_request("sleep 5", None, None);
    let plan = plan_process_launch(&config(true), &request, "sleep 5", 4).unwrap();
    let r = running_record(&plan, &request, Some(4242), 99);
    assert_eq!(r.id, "proc_4");
    assert_eq!(r.command, "{\"command\":\"sleep 5\"}");
    assert_eq!(r.status, "running");
    assert_eq!(r.session_id.as_deref(), Some("sess_test"));
    assert_eq!(r.pid, Some(4242));
    assert_eq!(r.stdout_path.as_deref(), Some("/tmp/logs/proc_4.stdout.log"));
    assert_eq!(r.timeout_ms, Some(60_000));
    let d = process_details(&r, 10, 0, false, true);
    assert_eq!(d.process.process_id, "proc_4");
    assert_eq!(d.stdout_bytes, 10);
    assert!(d.stderr_truncated);
}

#[test]
fn paths_join_like_path_join() {
    assert_eq!(join_path_str("/tmp/logs", "a.log"), "/tmp/logs/a.log");
    assert_eq!(join_path_str("/tmp/logs/", "a.log"), "/tmp/logs/a.log");
    assert_eq!(join_path_str("", "a.log"), "a.log");
    assert_eq!(join_path_str("/tmp", "/abs.log"), "/abs.log");
    assert_eq!(stream_log_path(&None, "/l", "proc_1", "stderr"), "/l/proc_1.stderr.log");
    assert_eq!(stream_log_path(&Some("/x.log".to_string()), "/l", "proc_1", "stdout"), "/x.log");
}

#[test]
fn final_state_of_a_process() {
    let exited = |code| WaitOutcome::Exited { code, signal: None };
    assert_eq!(final_process_state(exited(Some(0)), false, false).status, "completed");
    assert_eq!(final_process_state(exited(Some(2)), false, false).status, "failed");
    assert_eq!(final_process_state(exited(Some(0)), true, true).status, "timed_out");
    assert_eq!(final_process_state(exited(None), false, true).status, "killed");
    let killed = final_process_state(WaitOutcome::Exited { code: None, signal: Some(9) }, false, false);
    assert_eq!(killed.status, "failed");
    assert_eq!(killed.signal, Some(9));
    let lost = final_process_state(WaitOutcome::WaitFailed { os_error: Some(10) }, false, false);
    assert_eq!((lost.status.as_str(), lost.exit_code, lost.signal), ("failed", None, Some(10)));
    assert_eq!(completion_event_kind("completed"), "process.completed");
    assert_eq!(completion_event_kind("timed_out"), "process.timed_out");
    assert_eq!(completion_event_kind("killed"), "process.killed");
    assert_eq!(completion_event_kind("failed"), "process.failed");
}

#[test]
fn timeouts_default_and_are_at_least_one() {
    assert_eq!(effective_timeout_ms(None, 60_000), 60_000);
    assert_eq!(effective_timeout_ms(Some(250), 60_000), 250);
    assert_eq!(effective_timeout_ms(Some(0), 60_000), 1);
    assert_eq!(effective_timeout_ms(None, 0), 1);
}

#[test]
fn output_is_capped_at_the_limit() {
    // 6 + 6 bytes against a limit of 10: the second chunk is cut to 4.
    let first = chunk_allowance(0, 10, 6);
    assert_eq!((first.bytes_to_write, first.truncated), (6, false));
    let second = chunk_allowance(6, 10, 6);
    assert_eq!((second.bytes_to_write, second.truncated), (4, true));
    let third = chunk_allowance(10, 10, 3);
    assert_eq!((third.bytes_to_write, third.truncated), (0, true));
}

#[test]
fn output_events_are_sampled() {
    let d = output_event_decision(0, 100, 1024, false);
    assert!(!d.emit);
    assert_eq!(d.unreported_bytes, 100);
    let d = output_event_decision(1000, 100, 1024, false);
    assert!(d.emit);
    assert_eq!(d.unreported_bytes, 0);
    assert!(output_event_decision(0, 1, 1024, true).emit);
    assert!(output_event_decision(0, 1, 0, false).emit);
    assert!(output_event_decision(usize::MAX, 5, usize::MAX, false).emit);
}

#[test]
fn log_windows() {
    let content = "l1\nl2\nl3\nl4\nl5\n";
    assert_eq!(render_log_window(content, 0, 80, None), (content.to_string(), false));
    assert_eq!(render_log_window(content, 0, 2, None), ("l4\nl5\n".to_string(), false));
    assert_eq!(render_log_window(content, 1, 2, None), ("l1\n...\nl4\nl5\n".to_string(), true));
    assert_eq!(render_log_window(content, 3, 3, None), ("l1\nl2\nl3\nl3\nl4\nl5\n".to_string(), false));
    assert_eq!(render_log_window(content, 0, 80, Some(6)), ("l4\nl5\n".to_string(), true));
    assert_eq!(render_log_window("", 0, 80, None), (String::new(), false));
    // A cut inside a multi-byte character leaves a replacement character.
    assert_eq!(render_log_window("é\n", 0, 80, Some(2)), ("\u{fffd}\n".to_string(), true));
}

#[test]
fn log_chunks_and_stream_selection() {
    let r = record("proc_1", Some("s"), "completed", 0, Some(1));
    let details = process_details(&r, 3, 0, true, false);
    let both = select_log_streams(None, &details).unwrap();
    assert_eq!(both.len(), 2);
    assert_eq!(both[0].stream, "stdout");
    assert!(both[0].truncated);
    assert_eq!(both[1].path.as_deref(), Some("/logs/proc_1.stderr.log"));
    let err = select_log_streams(Some("stdin"), &details).unwrap_err();
    assert_eq!(err, RuntimeError::InvalidState("unsupported stream stdin".to_string()));
    assert_eq!(select_log_streams(Some("stderr"), &details).unwrap()[0].stream, "stderr");

    let request = ProcessLogReadRequest {
        process_id: "proc_1".to_string(),
        caller_session_id: None,
        stream: None,
        head_lines: None,
        tail_lines: Some(1),
        max_bytes: None,
    };
    let selection = LogStreamSelection { stream: "stdout".to_string(), path: None, truncated: true };
    let chunk = build_log_chunk("proc_1", &selection, "a\nbb\n", &request);
    assert_eq!(chunk.content, "bb\n");
    assert_eq!(chunk.bytes, 3);
    assert_eq!((chunk.head_lines, chunk.tail_lines), (0, 1));
    assert!(chunk.truncated);
}

#[test]
fn small_process_rules() {
    assert_eq!(kill_reason(None), "requested");
    assert_eq!(kill_reason(Some("gg_process_kill".to_string())), "gg_process_kill");
    assert_eq!(process_event_id("proc_3", 12), "evt_proc_proc_3_12");
    assert_eq!(process_slots(0), 1);
    assert_eq!(process_slots(4), 4);
    assert_eq!(process_event_page(0), 1);
    assert_eq!(process_event_page(50), 50);
    assert_eq!(millis_to_timestamp(1_700_000_000_000), 1_700_000_000_000);
    assert_eq!(millis_to_timestamp(u128::MAX), i64::MAX);
}

#[test]
fn launch_numbers_count_up_from_the_restored_start() {
    let restored = restore_process_records(
        vec![record("proc_41", None, "completed", 1, Some(2)), record("proc_7", None, "running", 1, None)],
        100,
    );
    assert_eq!(restored.next_sequence, Some(42));
    let mut numbers = LaunchNumbers::starting_at(restored.next_sequence);
    assert_eq!(numbers.take(), Some(42));
    assert_eq!(numbers.take(), Some(43));
    let mut last = LaunchNumbers::starting_at(Some(u64::MAX));
    assert_eq!(last.take(), Some(u64::MAX));
    assert_eq!(last.take(), None);
    assert_eq!(last.take(), None);
    let mut none = LaunchNumbers::starting_at(None);
    assert_eq!(none.take(), None);
}

#[test]
fn run_slots_bound_the_running_processes() {
    let mut slots = ProcessSlots::for_limit(0);
    assert!(slots.try_acquire());
    assert!(!slots.try_acquire());
    assert_eq!(slots.held(), 1);
    slots.release();
    assert_eq!(slots.held(), 0);
    slots.release();
    assert_eq!(slots.held(), 0);
    let mut two = ProcessSlots::for_limit(2);
    assert!(two.try_acquire());
    assert!(two.try_acquire());
    assert!(!two.try_acquire());
    assert_eq!(two.held(), 2);
    two.release();
    assert!(two.try_acquire());
}

#[test]
fn the_stored_command_is_its_json_object() {
    let request = run_request("  echo \"hi\"\\n  ", None, None);
    let plan = plan_process_launch(&config(true), &request, "echo \"hi\"\\n", 3).unwrap();
    let r = running_record(&plan, &request, None, 0);
    assert_eq!(r.command, "{\"command\":\"echo \\\"hi\\\"\\\\n\"}");
    assert_eq!(gg_runtime::process::command_record_text("\"x\""), "{\"command\":\"x\"}");
}
