//! The runtime's error type and the text each error displays.
use vstd::prelude::*;

verus! {

/// Errors raised by the runtime's services.
#[derive(Debug, Clone, PartialEq, Eq)]
pub enum RuntimeError {
    Configuration(String),
    ProviderAlreadyRegistered(String),
    ProviderNotRegistered(String),
    Bootstrap(String),
    Io(String),
    NotFound(String),
    InvalidState(String),
    ProtocolViolation(String),
    Unsupported(String),
}

impl RuntimeError {
    /// The text that the error carries.
    pub open spec fn detail(self) -> Seq<char> {
        match self {
            RuntimeError::Configuration(m) => m@,
            RuntimeError::ProviderAlreadyRegistered(m) => m@,
            RuntimeError::ProviderNotRegistered(m) => m@,
            RuntimeError::Bootstrap(m) => m@,
            RuntimeError::Io(m) => m@,
            RuntimeError::NotFound(m) => m@,
            RuntimeError::InvalidState(m) => m@,
            RuntimeError::ProtocolViolation(m) => m@,
            RuntimeError::Unsupported(m) => m@,
        }
    }

    /// The text that the error displays.
    pub open spec fn spec_message(self) -> Seq<char> {
        match self {
            RuntimeError::Configuration(m) => "configuration error: "@ + m@,
            RuntimeError::ProviderAlreadyRegistered(m) => "provider '"@ + m@
                + "' is already registered"@,
            RuntimeError::ProviderNotRegistered(m) => "provider '"@ + m@ + "' is not registered"@,
            RuntimeError::Bootstrap(m) => "bootstrap error: "@ + m@,
            RuntimeError::Io(m) => "io error: "@ + m@,
            RuntimeError::NotFound(m) => "not found: "@ + m@,
            RuntimeError::InvalidState(m) => "invalid state: "@ + m@,
            RuntimeError::ProtocolViolation(m) => "protocol violation: "@ + m@,
            RuntimeError::Unsupported(m) => "unsupported: "@ + m@,
        }
    }

    /// The text that the error displays.
    pub fn message(&self) -> (s: String)
        ensures
            s@ == self.spec_message(),
    {
        match self {
            RuntimeError::Configuration(m) => {
                let mut s = "configuration error: ".to_string();
                s.append(m.as_str());
                s
            },
            RuntimeError::ProviderAlreadyRegistered(m) => {
                let mut s = "provider '".to_string();
                s.append(m.as_str());
                s.append("' is already registered");
                s
            },
            RuntimeError::ProviderNotRegistered(m) => {
                let mut s = "provider '".to_string();
                s.append(m.as_str());
                s.append("' is not registered");
                s
            },
            RuntimeError::Bootstrap(m) => {
                let mut s = "bootstrap error: ".to_string();
                s.append(m.as_str());
                s
            },
            RuntimeError::Io(m) => {
                let mut s = "io error: ".to_string();
                s.append(m.as_str());
                s
            },
            RuntimeError::NotFound(m) => {
                let mut s = "not found: ".to_string();
                s.append(m.as_str());
                s
            },
            RuntimeError::InvalidState(m) => {
                let mut s = "invalid state: ".to_string();
                s.append(m.as_str());
                s
            },
            RuntimeError::ProtocolViolation(m) => {
                let mut s = "protocol violation: ".to_string();
                s.append(m.as_str());
                s
            },
            RuntimeError::Unsupported(m) => {
                let mut s = "unsupported: ".to_string();
                s.append(m.as_str());
                s
            },
        }
    }
}

} // verus!
