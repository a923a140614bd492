use std::sync::Arc;

use gg_runtime::app::{
    EventQueueLimits, InitCheck, InitStep, ProcessLimits, RuntimeApp, RuntimeServices,
    WorktreeSettings,
};
use gg_runtime::error::RuntimeError;
use gg_runtime::provider_registry::ProviderRegistry;

fn limits(live: usize, critical: usize, team: usize) -> EventQueueLimits {
    EventQueueLimits {
        live_queue_capacity: live,
        critical_queue_capacity: critical,
        team_queue_capacity: team,
    }
}

fn process_limits(max_concurrent: usize) -> ProcessLimits {
    ProcessLimits {
        max_concurrent,
        default_timeout_ms: 60_000,
        max_output_bytes_per_process: 100_000,
    }
}

fn worktrees() -> WorktreeSettings {
    WorktreeSettings {
        enabled: false,
        root_dir: "/tmp/worktrees".to_string(),
        init_script_path: "none".to_string(),
        deletion_policy_default: "retain".to_string(),
    }
}

fn services() -> RuntimeServices<u8, u8, u8, u8, u8> {
    RuntimeServices {
        store: 1,
        tool_gateway: 2,
        process_manager: 3,
        team_comms: 4,
        worktrees: 5,
    }
}

fn registry(n: usize) -> Arc<ProviderRegistry<u8>> {
    let mut r = ProviderRegistry::new();
    if n > 0 {
        r.register_as(gg_runtime::provider::ProviderKind::Codex, 0).unwrap();
    }
    Arc::new(r)
}

fn config_error(r: Result<RuntimeApp<u8, RuntimeServices<u8, u8, u8, u8, u8>>, RuntimeError>) -> String {
    match r {
        Err(RuntimeError::Configuration(m)) => m,
        Err(other) => panic!("unexpected error {other:?}"),
        Ok(_) => panic!("expected a configuration error"),
    }
}

#[test]
fn app_needs_a_provider() {
    let r = RuntimeApp::new(registry(0), services(), limits(1, 1, 1), process_limits(1), worktrees());
    assert_eq!(config_error(r), "at least one provider must be configured");
}

#[test]
fn app_needs_room_in_every_event_queue() {
    for l in [limits(0, 1, 1), limits(1, 0, 1), limits(1, 1, 0)] {
        let r = RuntimeApp::new(registry(1), services(), l, process_limits(1), worktrees());
        assert_eq!(config_error(r), "event queue capacities must be greater than zero");
    }
}

#[test]
fn app_needs_a_process_slot() {
    let r = RuntimeApp::new(registry(1), services(), limits(512, 512, 512), process_limits(0), worktrees());
    assert_eq!(config_error(r), "process max_concurrent must be greater than zero");
}

#[test]
fn provider_check_comes_first() {
    let r = RuntimeApp::new(registry(0), services(), limits(0, 0, 0), process_limits(0), worktrees());
    assert_eq!(config_error(r), "at least one provider must be configured");
}

#[test]
fn app_keeps_what_it_was_given() {
    let app = RuntimeApp::new(registry(1), services(), limits(512, 256, 128), process_limits(3), worktrees())
        .expect("valid configuration");
    assert_eq!(app.provider_registry.len(), 1);
    assert_eq!(app.services.worktrees, 5);
    assert_eq!(app.event_queue_limits.critical_queue_capacity, 256);
    assert_eq!(app.process_limits.max_concurrent, 3);
    assert_eq!(app.worktree_settings.deletion_policy_default, "retain");
}

fn run(outcomes: &[Result<(), RuntimeError>]) -> (Vec<InitCheck>, Result<(), RuntimeError>) {
    let mut ran = Vec::new();
    let mut check = InitCheck::first();
    loop {
        ran.push(check);
        match check.after(outcomes[ran.len() - 1].clone()) {
            InitStep::Run(next) => check = next,
            InitStep::Finished(result) => return (ran, result),
        }
    }
}

#[test]
fn initialization_runs_every_check_in_order() {
    let (ran, result) = run(&[Ok(()), Ok(()), Ok(()), Ok(()), Ok(()), Ok(())]);
    assert_eq!(
        ran,
        vec![
            InitCheck::StoreInitialize,
            InitCheck::StoreHealthcheck,
            InitCheck::ToolGatewayHealthcheck,
            InitCheck::ProcessManagerHealthcheck,
            InitCheck::TeamCommsHealthcheck,
            InitCheck::WorktreeHealthcheck,
        ]
    );
    assert!(result.is_ok());
}

#[test]
fn initialization_stops_at_the_first_failure() {
    let failure = RuntimeError::Bootstrap("team comms service is disabled".to_string());
    let (ran, result) = run(&[
        Ok(()),
        Ok(()),
        Ok(()),
        Ok(()),
        Err(failure.clone()),
        Err(RuntimeError::Io("never reached".to_string())),
    ]);
    assert_eq!(ran.len(), 5);
    assert_eq!(ran[4], InitCheck::TeamCommsHealthcheck);
    assert_eq!(result, Err(failure));
}
