//! Tool services: the team-comms and worktree stand-ins, the process
//! records the process manager keeps, and the rules it applies to them.
use vstd::prelude::*;

use crate::error::RuntimeError;
use crate::text::{parse_u64, parse_u64_spec, starts_with, str_eq, trim, trim_str};

verus! {

#[derive(Debug, Clone)]
pub struct ProcessManagerConfig {
    pub enabled: bool,
    pub max_concurrent: usize,
    pub default_timeout_ms: u64,
    pub max_output_bytes_per_process: usize,
    pub allow_shell: bool,
    pub completed_retention_ms: u64,
    pub output_event_sample_bytes: usize,
    /// A directory path.
    pub log_dir: String,
}

#[derive(Debug, Clone)]
pub struct TeamCommsConfig {
    pub enabled: bool,
    pub max_pending_deliveries: usize,
}

#[derive(Debug, Clone)]
pub struct WorktreeServiceConfig {
    pub enabled: bool,
    pub root_dir: String,
    pub init_script_path: String,
    pub deletion_policy_default: String,
}

#[derive(Debug)]
pub struct StubTeamCommsService {
    config: TeamCommsConfig,
}

#[derive(Debug)]
pub struct StubWorktreeService {
    config: WorktreeServiceConfig,
}

impl StubTeamCommsService {
    pub closed spec fn config(&self) -> TeamCommsConfig {
        self.config
    }

    pub fn new(config: TeamCommsConfig) -> (r: Self)
        ensures
            r.config() == config,
    {
        StubTeamCommsService { config }
    }

    /// Healthy exactly when team comms are enabled.
    pub fn healthcheck(&self) -> (r: Result<(), RuntimeError>)
        ensures
            self.config().enabled ==> r is Ok,
            !self.config().enabled ==> (r matches Err(RuntimeError::Bootstrap(m)) && m@
                == "team comms service is disabled"@),
    {
        if self.config.enabled {
            return Ok(());
        }
        Err(RuntimeError::Bootstrap("team comms service is disabled".to_string()))
    }
}

impl StubWorktreeService {
    pub closed spec fn config(&self) -> WorktreeServiceConfig {
        self.config
    }

    pub fn new(config: WorktreeServiceConfig) -> (r: Self)
        ensures
            r.config() == config,
    {
        StubWorktreeService { config }
    }

    /// Always healthy, enabled or not.
    pub fn healthcheck(&self) -> (r: Result<(), RuntimeError>)
        ensures
            r is Ok,
    {
        Ok(())
    }
}

/// Whether a tool name is one of the `gg_process_*` tools.
pub open spec fn has_process_prefix(tool_name: Seq<char>) -> bool {
    "gg_process_"@.len() <= tool_name.len() && tool_name.take("gg_process_"@.len() as int)
        == "gg_process_"@
}

/// Whether a tool name belongs to the namespace named (after trimming): the
/// `gg_process` namespace holds the `gg_process_*` tools, and no other
/// namespace holds any tool here.
pub open spec fn namespace_matches_tool_spec(namespace: Seq<char>, tool_name: Seq<char>) -> bool {
    trim(namespace) == "gg_process"@ && has_process_prefix(tool_name)
}

pub fn namespace_matches_tool(namespace: &str, tool_name: &str) -> (r: bool)
    ensures
        r == namespace_matches_tool_spec(namespace@, tool_name@),
{
    let trimmed = trim_str(namespace);
    if str_eq(trimmed.as_str(), "gg_process") {
        starts_with(tool_name, "gg_process_")
    } else {
        false
    }
}

/// The sequence number of an id of the form `proc_<n>`.
pub open spec fn process_sequence_spec(id: Seq<char>) -> Option<u64> {
    if "proc_"@.len() <= id.len() && id.take("proc_"@.len() as int) == "proc_"@ {
        parse_u64_spec(id.skip("proc_"@.len() as int))
    } else {
        None
    }
}

pub fn parse_process_sequence(process_id: &str) -> (r: Option<u64>)
    ensures
        r == process_sequence_spec(process_id@),
{
    proof {
        reveal_strlit("proc_");
    }
    if !starts_with(process_id, "proc_") {
        return None;
    }
    let v = crate::text::chars_of(process_id);
    let rest = crate::text::string_of(&v, 5, v.len());
    assert(rest@ =~= process_id@.skip("proc_"@.len() as int));
    parse_u64(rest.as_str())
}

} // verus!
