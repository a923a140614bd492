//! Routing of tool invocations and the reading of `gg_process_*` tool
//! calls into process-manager requests.
use vstd::prelude::*;

use crate::error::RuntimeError;
use crate::process::{
    ProcessDetails, ProcessLogReadRequest, ProcessLogsChunk, ProcessRunRequest, ProcessSummary,
};
use crate::text::{is_blank, starts_with, str_eq, trim, trim_str};
use crate::tools::{has_process_prefix, namespace_matches_tool, namespace_matches_tool_spec};

verus! {

/// A request for the details of one process.
#[derive(Debug, Clone)]
pub struct ProcessGetRequest {
    pub process_id: String,
    pub caller_session_id: Option<String>,
}

/// A request for a listing of processes.
#[derive(Debug, Clone)]
pub struct ProcessListRequest {
    pub caller_session_id: Option<String>,
    pub include_completed: bool,
}

/// A request to stop a process.
#[derive(Debug, Clone)]
pub struct ProcessKillRequest {
    pub process_id: String,
    pub caller_session_id: Option<String>,
    pub reason: Option<String>,
}

/// Where a tool invocation goes.
#[derive(Debug, Clone, Copy, PartialEq, Eq, Structural)]
pub enum ToolRoute {
    /// One of the `gg_process_*` tools.
    Process,
    /// A tool this gateway does not provide.
    Unsupported,
}

/// Routes an invocation: the caller's session must be named, a namespace,
/// when given, must match the tool, and `gg_process_*` tools go to the
/// process tools.
pub fn route_tool_request(caller_session_id: &str, namespace: Option<&str>, tool_name: &str) -> (r:
    Result<ToolRoute, RuntimeError>)
    ensures
        trim(caller_session_id@).len() == 0 ==> (r matches Err(RuntimeError::InvalidState(m)) && m@
            == "caller_session_id is required"@),
        trim(caller_session_id@).len() > 0 && namespace is Some && !namespace_matches_tool_spec(
            namespace->0@,
            tool_name@,
        ) ==> (r matches Err(RuntimeError::InvalidState(m)) && m@
            == "namespace does not match tool_name"@),
        trim(caller_session_id@).len() > 0 && (namespace is None || namespace_matches_tool_spec(
            namespace->0@,
            tool_name@,
        )) ==> r == if has_process_prefix(tool_name@) {
            Ok::<ToolRoute, RuntimeError>(ToolRoute::Process)
        } else {
            Ok::<ToolRoute, RuntimeError>(ToolRoute::Unsupported)
        },
{
    if is_blank(caller_session_id) {
        return Err(RuntimeError::InvalidState("caller_session_id is required".to_string()));
    }
    match namespace {
        Some(ns) => {
            if !namespace_matches_tool(ns, tool_name) {
                return Err(
                    RuntimeError::InvalidState("namespace does not match tool_name".to_string()),
                );
            }
        },
        None => {},
    }
    if starts_with(tool_name, "gg_process_") {
        Ok(ToolRoute::Process)
    } else {
        Ok(ToolRoute::Unsupported)
    }
}

/// The error part of a tool answer that reports a failure.
#[derive(Debug, Clone)]
pub struct ToolErrorBody {
    pub code: String,
    pub message: String,
}

/// The answer to a tool this gateway does not provide.
pub fn unsupported_tool_error(tool_name: &str) -> (e: ToolErrorBody)
    ensures
        e.code@ == "bad_request"@,
        e.message@ == "Unsupported tool name: "@ + tool_name@,
{
    let mut m = "Unsupported tool name: ".to_string();
    m.append(tool_name);
    ToolErrorBody { code: "bad_request".to_string(), message: m }
}

/// The answer to a tool call that failed with `error`.
pub fn tool_failure(error: &RuntimeError) -> (e: ToolErrorBody)
    ensures
        e.code@ == "tool_failed"@,
        e.message@ == error.spec_message(),
{
    ToolErrorBody { code: "tool_failed".to_string(), message: error.message() }
}

/// The names of the process tools.
pub fn process_tool_names() -> (v: Vec<String>)
    ensures
        v@.len() == 4,
        v@[0]@ == "gg_process_run"@,
        v@[1]@ == "gg_process_status"@,
        v@[2]@ == "gg_process_logs"@,
        v@[3]@ == "gg_process_kill"@,
{
    let mut v: Vec<String> = Vec::new();
    v.push("gg_process_run".to_string());
    v.push("gg_process_status".to_string());
    v.push("gg_process_logs".to_string());
    v.push("gg_process_kill".to_string());
    v
}

/// The arguments of a process tool call that the tools read: each is
/// present when the argument object has that key with a value of that
/// type (a string, an unsigned or a signed integer).
#[derive(Debug, Clone)]
pub struct ToolArgs {
    pub command: Option<String>,
    pub cwd: Option<String>,
    pub timeout_ms: Option<u64>,
    pub process_id: Option<String>,
    pub pid: Option<i64>,
    pub stream: Option<String>,
    pub head_lines: Option<u64>,
    pub tail_lines: Option<u64>,
}

/// A process tool call, read as a request to the process manager.
#[derive(Debug)]
pub enum ProcessToolCall {
    Run(ProcessRunRequest),
    Status(ProcessGetRequest),
    /// The status of the process with this operating-system pid.
    StatusByPid { pid: i64, caller_session_id: String },
    ListRunning(ProcessListRequest),
    ReadLogs(ProcessLogReadRequest),
    Kill(ProcessKillRequest),
}

/// Why a process tool call is answered without reaching the manager.
#[derive(Debug)]
pub enum ProcessToolRefusal {
    /// The arguments are not a JSON object.
    ArgsNotObject,
    /// The call failed with this error.
    Failed(RuntimeError),
}

impl ProcessToolRefusal {
    /// The answer to a refused call: arguments that are not an object are a
    /// bad request, any other refusal a failed call.
    pub fn error_body(&self) -> (e: ToolErrorBody)
        ensures
            self matches ProcessToolRefusal::ArgsNotObject ==> e.code@ == "bad_request"@ && e.message@
                == "tool args must be an object"@,
            self matches ProcessToolRefusal::Failed(error) ==> e.code@ == "tool_failed"@ && e.message@
                == error.spec_message(),
    {
        match self {
            ProcessToolRefusal::ArgsNotObject => ToolErrorBody {
                code: "bad_request".to_string(),
                message: "tool args must be an object".to_string(),
            },
            ProcessToolRefusal::Failed(error) => tool_failure(error),
        }
    }
}

pub open spec fn view_is(o: Option<String>, s: Seq<char>) -> bool {
    o matches Some(x) && x@ == s
}

pub open spec fn text_or_empty(o: Option<String>) -> Seq<char> {
    match o {
        Some(x) => x@,
        None => Seq::empty(),
    }
}

pub open spec fn as_usize(o: Option<u64>) -> Option<usize> {
    match o {
        Some(v) => Some(v as usize),
        None => None,
    }
}

fn string_or_empty(o: Option<String>) -> (s: String)
    ensures
        s@ == text_or_empty(o),
{
    match o {
        Some(x) => x,
        None => String::new(),
    }
}

fn to_usize(o: Option<u64>) -> (r: Option<usize>)
    ensures
        r == as_usize(o),
{
    match o {
        Some(v) => Some(v as usize),
        None => None,
    }
}

/// Reads a `gg_process_*` call (the tool name is trimmed first) made from
/// session `caller_session_id`. `gg_process_run` runs the `command`
/// argument (empty when missing) in `cwd` with `timeout_ms`;
/// `gg_process_status` asks for the process named by `process_id`, else by
/// `pid`, else for the caller's running processes; `gg_process_logs` reads
/// the logs of `process_id` with the `stream`, `head_lines` and
/// `tail_lines` given; `gg_process_kill` stops `process_id`. Every request
/// is made on behalf of the caller's session.
pub fn plan_process_tool(
    tool_name: &str,
    args: Option<ToolArgs>,
    caller_session_id: &str,
    invocation_id: Option<String>,
) -> (r: Result<ProcessToolCall, ProcessToolRefusal>)
    ensures
        ({
            let t = trim(tool_name@);
            let caller = caller_session_id@;
            match args {
                None => r matches Err(ProcessToolRefusal::ArgsNotObject),
                Some(a) => if t == "gg_process_run"@ {
                    r matches Ok(ProcessToolCall::Run(q)) && view_is(q.caller_session_id, caller)
                        && q.tool_call_id == invocation_id && q.command@ == text_or_empty(a.command)
                        && q.cwd == a.cwd && q.timeout_ms == a.timeout_ms
                } else if t == "gg_process_status"@ {
                    if a.process_id is Some {
                        r matches Ok(ProcessToolCall::Status(q)) && q.process_id == a.process_id->0
                            && view_is(q.caller_session_id, caller)
                    } else if a.pid is Some {
                        r matches Ok(ProcessToolCall::StatusByPid { pid, caller_session_id: c })
                            && pid == a.pid->0 && c@ == caller
                    } else {
                        r matches Ok(ProcessToolCall::ListRunning(q)) && view_is(
                            q.caller_session_id,
                            caller,
                        ) && !q.include_completed
                    }
                } else if t == "gg_process_logs"@ {
                    r matches Ok(ProcessToolCall::ReadLogs(q)) && q.process_id@ == text_or_empty(
                        a.process_id,
                    ) && view_is(q.caller_session_id, caller) && q.stream == a.stream
                        && q.head_lines == as_usize(a.head_lines) && q.tail_lines == as_usize(
                        a.tail_lines,
                    ) && q.max_bytes is None
                } else if t == "gg_process_kill"@ {
                    r matches Ok(ProcessToolCall::Kill(q)) && q.process_id@ == text_or_empty(
                        a.process_id,
                    ) && view_is(q.caller_session_id, caller) && view_is(
                        q.reason,
                        "gg_process_kill"@,
                    )
                } else {
                    r matches Err(ProcessToolRefusal::Failed(RuntimeError::Unsupported(m))) && m@
                        == "Unsupported gg_process tool: "@ + t
                },
            }
        }),
{
    let name = trim_str(tool_name);
    let a = match args {
        None => {
            return Err(ProcessToolRefusal::ArgsNotObject);
        },
        Some(a) => a,
    };
    let caller = caller_session_id.to_string();
    if str_eq(name.as_str(), "gg_process_run") {
        Ok(
            ProcessToolCall::Run(
                ProcessRunRequest {
                    caller_session_id: Some(caller),
                    tool_call_id: invocation_id,
                    command: string_or_empty(a.command),
                    cwd: a.cwd,
                    timeout_ms: a.timeout_ms,
                },
            ),
        )
    } else if str_eq(name.as_str(), "gg_process_status") {
        match a.process_id {
            Some(process_id) => Ok(
                ProcessToolCall::Status(
                    ProcessGetRequest { process_id, caller_session_id: Some(caller) },
                ),
            ),
            None => match a.pid {
                Some(pid) => Ok(ProcessToolCall::StatusByPid { pid, caller_session_id: caller }),
                None => Ok(
                    ProcessToolCall::ListRunning(
                        ProcessListRequest {
                            caller_session_id: Some(caller),
                            include_completed: false,
                        },
                    ),
                ),
            },
        }
    } else if str_eq(name.as_str(), "gg_process_logs") {
        Ok(
            ProcessToolCall::ReadLogs(
                ProcessLogReadRequest {
                    process_id: string_or_empty(a.process_id),
                    caller_session_id: Some(caller),
                    stream: a.stream,
                    head_lines: to_usize(a.head_lines),
                    tail_lines: to_usize(a.tail_lines),
                    max_bytes: None,
                },
            ),
        )
    } else if str_eq(name.as_str(), "gg_process_kill") {
        Ok(
            ProcessToolCall::Kill(
                ProcessKillRequest {
                    process_id: string_or_empty(a.process_id),
                    caller_session_id: Some(caller),
                    reason: Some("gg_process_kill".to_string()),
                },
            ),
        )
    } else {
        let mut m = "Unsupported gg_process tool: ".to_string();
        m.append(name.as_str());
        Err(ProcessToolRefusal::Failed(RuntimeError::Unsupported(m)))
    }
}

/// What the process manager gave back for a process tool call: the details
/// of one process (run, status, kill), the caller's running processes, or
/// log chunks.
#[derive(Debug)]
pub enum ProcessToolOutput {
    Details(ProcessDetails),
    Running(Vec<ProcessSummary>),
    Logs(Vec<ProcessLogsChunk>),
}

/// The answer to a process tool call that reached the manager, before it is
/// written as JSON: `{"ok": true, "result": ...}`, where the result is the
/// output itself or, under `result_key`, an object that holds it; or
/// `{"ok": false, "error": ...}`.
#[derive(Debug)]
pub enum ProcessToolAnswer {
    Succeeded { result_key: Option<&'static str>, output: ProcessToolOutput },
    Failed(ToolErrorBody),
}

/// Answers a process tool call from what the manager returned: details are
/// the result as they are, a listing goes under `running`, log chunks under
/// `logs`, and an error is a failed call (`tool_failure`).
pub fn process_tool_answer(outcome: Result<ProcessToolOutput, RuntimeError>) -> (a:
    ProcessToolAnswer)
    ensures
        match outcome {
            Ok(ProcessToolOutput::Details(d)) => a matches ProcessToolAnswer::Succeeded {
                result_key: None,
                output: ProcessToolOutput::Details(d2),
            } && d2 == d,
            Ok(ProcessToolOutput::Running(rows)) => a matches ProcessToolAnswer::Succeeded {
                result_key: Some(k),
                output: ProcessToolOutput::Running(r2),
            } && k@ == "running"@ && r2 == rows,
            Ok(ProcessToolOutput::Logs(chunks)) => a matches ProcessToolAnswer::Succeeded {
                result_key: Some(k),
                output: ProcessToolOutput::Logs(c2),
            } && k@ == "logs"@ && c2 == chunks,
            Err(e) => a matches ProcessToolAnswer::Failed(body) && body.code@ == "tool_failed"@
                && body.message@ == e.spec_message(),
        },
{
    match outcome {
        Ok(ProcessToolOutput::Details(d)) => ProcessToolAnswer::Succeeded {
            result_key: None,
            output: ProcessToolOutput::Details(d),
        },
        Ok(ProcessToolOutput::Running(rows)) => ProcessToolAnswer::Succeeded {
            result_key: Some("running"),
            output: ProcessToolOutput::Running(rows),
        },
        Ok(ProcessToolOutput::Logs(chunks)) => ProcessToolAnswer::Succeeded {
            result_key: Some("logs"),
            output: ProcessToolOutput::Logs(chunks),
        },
        Err(e) => ProcessToolAnswer::Failed(tool_failure(&e)),
    }
}

} // verus!
