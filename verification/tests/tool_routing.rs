use gg_runtime::error::RuntimeError;
use gg_runtime::tool_gateway::{
    plan_process_tool, process_tool_answer, process_tool_names, ProcessToolAnswer, ProcessToolOutput, route_tool_request, tool_failure,
    unsupported_tool_error, ProcessToolCall, ProcessToolRefusal, ToolArgs, ToolRoute,
};
use gg_runtime::tools::{
    namespace_matches_tool, parse_process_sequence, StubTeamCommsService, StubWorktreeService,
    TeamCommsConfig, WorktreeServiceConfig,
};

fn no_args() -> ToolArgs {
    ToolArgs {
        command: None,
        cwd: None,
        timeout_ms: None,
        process_id: None,
        pid: None,
        stream: None,
        head_lines: None,
        tail_lines: None,
    }
}

#[test]
fn namespaces_match_their_tools() {
    assert!(namespace_matches_tool(" gg_process ", "gg_process_run"));
    assert!(!namespace_matches_tool("gg_process", "gg_team_send"));
    assert!(!namespace_matches_tool("gg_team", "gg_process_run"));
}

#[test]
fn process_sequences_are_read_from_ids() {
    assert_eq!(parse_process_sequence("proc_42"), Some(42));
    assert_eq!(parse_process_sequence("proc_"), None);
    assert_eq!(parse_process_sequence("proc_x"), None);
    assert_eq!(parse_process_sequence("process_1"), None);
    assert_eq!(parse_process_sequence("proc_+7"), Some(7));
}

#[test]
fn stub_services_health() {
    let on = StubTeamCommsService::new(TeamCommsConfig { enabled: true, max_pending_deliveries: 10 });
    assert!(on.healthcheck().is_ok());
    let off = StubTeamCommsService::new(TeamCommsConfig { enabled: false, max_pending_deliveries: 10 });
    assert_eq!(
        off.healthcheck(),
        Err(RuntimeError::Bootstrap("team comms service is disabled".to_string()))
    );
    let worktrees = StubWorktreeService::new(WorktreeServiceConfig {
        enabled: false,
        root_dir: "/w".to_string(),
        init_script_path: "none".to_string(),
        deletion_policy_default: "retain".to_string(),
    });
    assert!(worktrees.healthcheck().is_ok());
}

#[test]
fn tool_requests_are_routed() {
    assert_eq!(
        route_tool_request("  ", None, "gg_process_run"),
        Err(RuntimeError::InvalidState("caller_session_id is required".to_string()))
    );
    assert_eq!(
        route_tool_request("s", Some("gg_team"), "gg_process_run"),
        Err(RuntimeError::InvalidState("namespace does not match tool_name".to_string()))
    );
    assert_eq!(route_tool_request("s", Some("gg_process"), "gg_process_run"), Ok(ToolRoute::Process));
    assert_eq!(route_tool_request("s", None, "gg_process_x"), Ok(ToolRoute::Process));
    assert_eq!(route_tool_request("s", None, "web_search"), Ok(ToolRoute::Unsupported));
    let body = unsupported_tool_error("web_search");
    assert_eq!((body.code.as_str(), body.message.as_str()), ("bad_request", "Unsupported tool name: web_search"));
    let failed = tool_failure(&RuntimeError::NotFound("process proc_1".to_string()));
    assert_eq!((failed.code.as_str(), failed.message.as_str()), ("tool_failed", "not found: process proc_1"));
    assert_eq!(
        process_tool_names(),
        vec!["gg_process_run", "gg_process_status", "gg_process_logs", "gg_process_kill"]
    );
}

#[test]
fn run_tool_becomes_a_run_request() {
    let mut args = no_args();
    args.command = Some("sleep 1".to_string());
    args.timeout_ms = Some(500);
    match plan_process_tool(" gg_process_run ", Some(args), "sess", Some("call_1".to_string())) {
        Ok(ProcessToolCall::Run(q)) => {
            assert_eq!(q.command, "sleep 1");
            assert_eq!(q.caller_session_id.as_deref(), Some("sess"));
            assert_eq!(q.tool_call_id.as_deref(), Some("call_1"));
            assert_eq!(q.timeout_ms, Some(500));
        }
        other => panic!("unexpected {other:?}"),
    }
    match plan_process_tool("gg_process_run", Some(no_args()), "sess", None) {
        Ok(ProcessToolCall::Run(q)) => assert_eq!(q.command, ""),
        other => panic!("unexpected {other:?}"),
    }
}

#[test]
fn status_tool_prefers_id_then_pid_then_listing() {
    let mut by_id = no_args();
    by_id.process_id = Some("proc_1".to_string());
    by_id.pid = Some(5);
    assert!(matches!(
        plan_process_tool("gg_process_status", Some(by_id), "s", None),
        Ok(ProcessToolCall::Status(q)) if q.process_id == "proc_1"
    ));
    let mut by_pid = no_args();
    by_pid.pid = Some(5);
    assert!(matches!(
        plan_process_tool("gg_process_status", Some(by_pid), "s", None),
        Ok(ProcessToolCall::StatusByPid { pid: 5, .. })
    ));
    assert!(matches!(
        plan_process_tool("gg_process_status", Some(no_args()), "s", None),
        Ok(ProcessToolCall::ListRunning(q)) if !q.include_completed
    ));
}

#[test]
fn logs_and_kill_tools() {
    let mut args = no_args();
    args.process_id = Some("proc_2".to_string());
    args.stream = Some("stderr".to_string());
    args.tail_lines = Some(10);
    match plan_process_tool("gg_process_logs", Some(args), "s", None) {
        Ok(ProcessToolCall::ReadLogs(q)) => {
            assert_eq!(q.process_id, "proc_2");
            assert_eq!(q.stream.as_deref(), Some("stderr"));
            assert_eq!((q.head_lines, q.tail_lines, q.max_bytes), (None, Some(10), None));
        }
        other => panic!("unexpected {other:?}"),
    }
    match plan_process_tool("gg_process_kill", Some(no_args()), "s", None) {
        Ok(ProcessToolCall::Kill(q)) => {
            assert_eq!(q.process_id, "");
            assert_eq!(q.reason.as_deref(), Some("gg_process_kill"));
        }
        other => panic!("unexpected {other:?}"),
    }
}

#[test]
fn process_tool_refusals() {
    match plan_process_tool("gg_process_run", None, "s", None) {
        Err(refusal @ ProcessToolRefusal::ArgsNotObject) => {
            let body = refusal.error_body();
            assert_eq!(body.code, "bad_request");
            assert_eq!(body.message, "tool args must be an object");
        }
        other => panic!("unexpected {other:?}"),
    }
    match plan_process_tool("gg_process_nope ", Some(no_args()), "s", None) {
        Err(ProcessToolRefusal::Failed(e)) => {
            assert_eq!(e, RuntimeError::Unsupported("Unsupported gg_process tool: gg_process_nope".to_string()));
            assert_eq!(e.message(), "unsupported: Unsupported gg_process tool: gg_process_nope");
        }
        other => panic!("unexpected {other:?}"),
    }
}

#[test]
fn process_tool_answers_wrap_listings_and_logs() {
    match process_tool_answer(Ok(ProcessToolOutput::Running(Vec::new()))) {
        ProcessToolAnswer::Succeeded { result_key, output: ProcessToolOutput::Running(rows) } => {
            assert_eq!(result_key, Some("running"));
            assert!(rows.is_empty());
        }
        other => panic!("unexpected answer {other:?}"),
    }
    match process_tool_answer(Ok(ProcessToolOutput::Logs(Vec::new()))) {
        ProcessToolAnswer::Succeeded { result_key, output: ProcessToolOutput::Logs(_) } => {
            assert_eq!(result_key, Some("logs"));
        }
        other => panic!("unexpected answer {other:?}"),
    }
    match process_tool_answer(Err(RuntimeError::NotFound("process proc_9".to_string()))) {
        ProcessToolAnswer::Failed(body) => {
            assert_eq!(body.code, "tool_failed");
            assert_eq!(body.message, "not found: process proc_9");
        }
        other => panic!("unexpected answer {other:?}"),
    }
}
