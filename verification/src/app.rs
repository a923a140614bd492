//! The runtime application: its providers, its services and its limits,
//! checked when the application is built, and the order in which its
//! services are brought up.
use std::sync::Arc;
use vstd::prelude::*;

use crate::error::RuntimeError;
use crate::provider_registry::ProviderRegistry;

verus! {

#[derive(Debug, Clone)]
pub struct EventQueueLimits {
    pub live_queue_capacity: usize,
    pub critical_queue_capacity: usize,
    pub team_queue_capacity: usize,
}

#[derive(Debug, Clone)]
pub struct ProcessLimits {
    pub max_concurrent: usize,
    pub default_timeout_ms: u64,
    pub max_output_bytes_per_process: usize,
}

#[derive(Debug, Clone)]
pub struct WorktreeSettings {
    pub enabled: bool,
    pub root_dir: String,
    pub init_script_path: String,
    pub deletion_policy_default: String,
}

/// The services the runtime drives, one value per role.
#[derive(Clone)]
pub struct RuntimeServices<St, Tg, Pm, Tc, Wt> {
    pub store: St,
    pub tool_gateway: Tg,
    pub process_manager: Pm,
    pub team_comms: Tc,
    pub worktrees: Wt,
}

#[derive(Clone)]
pub struct RuntimeApp<P, S> {
    pub provider_registry: Arc<ProviderRegistry<P>>,
    pub services: S,
    pub event_queue_limits: EventQueueLimits,
    pub process_limits: ProcessLimits,
    pub worktree_settings: WorktreeSettings,
}

/// The configuration problem that the first failing check of
/// `RuntimeApp::new` reports, or `None` when every check passes: a provider
/// must be registered, every event queue must have room, and at least one
/// process must be allowed to run.
pub open spec fn app_config_problem(
    provider_count: nat,
    limits: EventQueueLimits,
    process_limits: ProcessLimits,
) -> Option<Seq<char>> {
    if provider_count == 0 {
        Some("at least one provider must be configured"@)
    } else if limits.live_queue_capacity == 0 || limits.critical_queue_capacity == 0
        || limits.team_queue_capacity == 0 {
        Some("event queue capacities must be greater than zero"@)
    } else if process_limits.max_concurrent == 0 {
        Some("process max_concurrent must be greater than zero"@)
    } else {
        None
    }
}

impl<P, S> RuntimeApp<P, S> {
    /// Builds the application, or refuses a configuration with a
    /// `Configuration` error that names the first problem found.
    pub fn new(
        provider_registry: Arc<ProviderRegistry<P>>,
        services: S,
        event_queue_limits: EventQueueLimits,
        process_limits: ProcessLimits,
        worktree_settings: WorktreeSettings,
    ) -> (r: Result<Self, RuntimeError>)
        ensures
            ({
                let problem = app_config_problem(
                    provider_registry.entries().len(),
                    event_queue_limits,
                    process_limits,
                );
                &&& problem matches Some(msg) ==> (r matches Err(RuntimeError::Configuration(m))
                    && m@ == msg)
                &&& problem is None ==> (r matches Ok(app) && app.provider_registry
                    == provider_registry && app.services == services && app.event_queue_limits
                    == event_queue_limits && app.process_limits == process_limits
                    && app.worktree_settings == worktree_settings)
            }),
    {
        if provider_registry.is_empty() {
            return Err(
                RuntimeError::Configuration("at least one provider must be configured".to_string()),
            );
        }
        if event_queue_limits.live_queue_capacity == 0
            || event_queue_limits.critical_queue_capacity == 0
            || event_queue_limits.team_queue_capacity == 0 {
            return Err(
                RuntimeError::Configuration(
                    "event queue capacities must be greater than zero".to_string(),
                ),
            );
        }
        if process_limits.max_concurrent == 0 {
            return Err(
                RuntimeError::Configuration(
                    "process max_concurrent must be greater than zero".to_string(),
                ),
            );
        }
        Ok(RuntimeApp {
            provider_registry,
            services,
            event_queue_limits,
            process_limits,
            worktree_settings,
        })
    }
}

/// The checks that bring the runtime up, in the order they run.
#[derive(Debug, Clone, Copy, PartialEq, Eq, Structural)]
pub enum InitCheck {
    StoreInitialize,
    StoreHealthcheck,
    ToolGatewayHealthcheck,
    ProcessManagerHealthcheck,
    TeamCommsHealthcheck,
    WorktreeHealthcheck,
}

/// What bringing the runtime up does next.
#[derive(Debug)]
pub enum InitStep {
    /// Run this check and report its outcome.
    Run(InitCheck),
    /// Bringing up has ended with this result.
    Finished(Result<(), RuntimeError>),
}

/// The order in which the checks run.
pub open spec fn init_order() -> Seq<InitCheck> {
    seq![
        InitCheck::StoreInitialize,
        InitCheck::StoreHealthcheck,
        InitCheck::ToolGatewayHealthcheck,
        InitCheck::ProcessManagerHealthcheck,
        InitCheck::TeamCommsHealthcheck,
        InitCheck::WorktreeHealthcheck,
    ]
}

impl InitCheck {
    /// The position of the check in `init_order()`.
    pub open spec fn position(self) -> int {
        match self {
            InitCheck::StoreInitialize => 0,
            InitCheck::StoreHealthcheck => 1,
            InitCheck::ToolGatewayHealthcheck => 2,
            InitCheck::ProcessManagerHealthcheck => 3,
            InitCheck::TeamCommsHealthcheck => 4,
            InitCheck::WorktreeHealthcheck => 5,
        }
    }

    /// The check that runs first.
    pub fn first() -> (c: InitCheck)
        ensures
            c == init_order()[0],
    {
        InitCheck::StoreInitialize
    }

    /// The next step once this check has reported `outcome`: the first
    /// failure ends bringing up with that failure; a success runs the next
    /// check in order, and after the last one bringing up has succeeded.
    pub open spec fn next_step(self, outcome: Result<(), RuntimeError>) -> InitStep {
        if outcome is Err {
            InitStep::Finished(outcome)
        } else if self.position() + 1 < init_order().len() {
            InitStep::Run(init_order()[self.position() + 1])
        } else {
            InitStep::Finished(Ok(()))
        }
    }

    pub fn after(self, outcome: Result<(), RuntimeError>) -> (s: InitStep)
        ensures
            s == self.next_step(outcome),
    {
        if outcome.is_err() {
            return InitStep::Finished(outcome);
        }
        match self {
            InitCheck::StoreInitialize => InitStep::Run(InitCheck::StoreHealthcheck),
            InitCheck::StoreHealthcheck => InitStep::Run(InitCheck::ToolGatewayHealthcheck),
            InitCheck::ToolGatewayHealthcheck => InitStep::Run(InitCheck::ProcessManagerHealthcheck),
            InitCheck::ProcessManagerHealthcheck => InitStep::Run(InitCheck::TeamCommsHealthcheck),
            InitCheck::TeamCommsHealthcheck => InitStep::Run(InitCheck::WorktreeHealthcheck),
            InitCheck::WorktreeHealthcheck => InitStep::Finished(Ok(())),
        }
    }
}

/// Runs the checks from position `pos` on, check `i` reporting
/// `outcomes[i]`: the position of the check that ended bringing up, and the
/// result it ended with.
pub open spec fn run_checks(outcomes: Seq<Result<(), RuntimeError>>, pos: nat) -> (nat, Result<
    (),
    RuntimeError,
>)
    decreases 6 - pos,
{
    if pos >= 6 {
        (pos, Ok(()))
    } else {
        match init_order()[pos as int].next_step(outcomes[pos as int]) {
            InitStep::Finished(r) => (pos, r),
            InitStep::Run(_) => run_checks(outcomes, pos + 1),
        }
    }
}

/// Bringing the runtime up runs the checks in order, from the first, until
/// one fails: it succeeds exactly when all six checks succeed, and
/// otherwise ends at the first failing check with that check's error.
pub proof fn lemma_init_stops_at_first_failure(outcomes: Seq<Result<(), RuntimeError>>, pos: nat)
    requires
        outcomes.len() == 6,
        pos <= 6,
    ensures
        ({
            let (last, result) = run_checks(outcomes, pos);
            &&& result is Ok <==> (forall|i: int| pos <= i < 6 ==> #[trigger] outcomes[i] is Ok)
            &&& result is Err ==> pos <= last < 6 && result == outcomes[last as int] && forall|i: int|
                pos <= i < last ==> #[trigger] outcomes[i] is Ok
        }),
    decreases 6 - pos,
{
    if pos < 6 {
        lemma_init_stops_at_first_failure(outcomes, pos + 1);
        let c = init_order()[pos as int];
        assert(c.position() == pos);
    }
}

} // verus!
