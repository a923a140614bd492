//! The Anthropic and Codex provider adapters, as configured stand-ins that
//! report their kind, their metadata and whether they are enabled.
use vstd::prelude::*;

use crate::error::RuntimeError;
use crate::provider::{ProviderKind, ProviderMetadata, RuntimeProvider};

verus! {

/// Settings of the Anthropic adapter; the directory is a path.
#[derive(Debug, Clone)]
pub struct ClaudeProviderConfig {
    pub enabled: bool,
    pub config_dir: String,
    pub bridge_command: String,
    pub max_bridges: usize,
    pub max_sessions_per_bridge: usize,
}

#[derive(Debug)]
pub struct ClaudeProviderStub {
    config: ClaudeProviderConfig,
}

impl ClaudeProviderStub {
    pub closed spec fn config(&self) -> ClaudeProviderConfig {
        self.config
    }

    pub fn new(config: ClaudeProviderConfig) -> (r: Self)
        ensures
            r.config() == config,
    {
        ClaudeProviderStub { config }
    }
}

impl RuntimeProvider for ClaudeProviderStub {
    fn kind(&self) -> (k: ProviderKind)
        ensures
            k == ProviderKind::Claude,
    {
        ProviderKind::Claude
    }

    fn metadata(&self) -> (m: ProviderMetadata)
        ensures
            m.kind == ProviderKind::Claude,
            m.display_name@ == "Anthropic"@,
            m.enabled == self.config().enabled,
    {
        ProviderMetadata {
            kind: ProviderKind::Claude,
            display_name: "Anthropic".to_string(),
            enabled: self.config.enabled,
        }
    }

    /// Healthy exactly when the adapter is enabled.
    fn healthcheck(&self) -> (r: Result<(), RuntimeError>)
        ensures
            self.config().enabled ==> r is Ok,
            !self.config().enabled ==> (r matches Err(RuntimeError::Bootstrap(m))
                && m@ == "anthropic provider disabled"@),
    {
        if self.config.enabled {
            return Ok(());
        }
        Err(RuntimeError::Bootstrap("anthropic provider disabled".to_string()))
    }
}

/// Settings of the Codex adapter; the home directory is a path.
#[derive(Debug, Clone)]
pub struct CodexProviderConfig {
    pub enabled: bool,
    pub home_dir: String,
    pub max_transports: usize,
    pub max_sessions_per_transport: usize,
}

#[derive(Debug)]
pub struct CodexProviderStub {
    config: CodexProviderConfig,
}

impl CodexProviderStub {
    pub closed spec fn config(&self) -> CodexProviderConfig {
        self.config
    }

    pub fn new(config: CodexProviderConfig) -> (r: Self)
        ensures
            r.config() == config,
    {
        CodexProviderStub { config }
    }
}

impl RuntimeProvider for CodexProviderStub {
    fn kind(&self) -> (k: ProviderKind)
        ensures
            k == ProviderKind::Codex,
    {
        ProviderKind::Codex
    }

    fn metadata(&self) -> (m: ProviderMetadata)
        ensures
            m.kind == ProviderKind::Codex,
            m.display_name@ == "Codex"@,
            m.enabled == self.config().enabled,
    {
        ProviderMetadata {
            kind: ProviderKind::Codex,
            display_name: "Codex".to_string(),
            enabled: self.config.enabled,
        }
    }

    /// Healthy exactly when the adapter is enabled.
    fn healthcheck(&self) -> (r: Result<(), RuntimeError>)
        ensures
            self.config().enabled ==> r is Ok,
            !self.config().enabled ==> (r matches Err(RuntimeError::Bootstrap(m))
                && m@ == "codex provider disabled"@),
    {
        if self.config.enabled {
            return Ok(());
        }
        Err(RuntimeError::Bootstrap("codex provider disabled".to_string()))
    }
}

} // verus!
