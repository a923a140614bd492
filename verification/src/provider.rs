//! Provider kinds, their metadata, and the interface a provider adapter
//! implements.
use std::sync::Arc;
use vstd::prelude::*;

use crate::error::RuntimeError;
use crate::text::str_eq;

verus! {

/// The provider families the runtime can host.
#[derive(Debug, Clone, Copy, PartialEq, Eq, Hash, Structural)]
pub enum ProviderKind {
    Codex,
    /// The bridge-based adapter, named on the wire and to users by its
    /// vendor: `anthropic`, `Anthropic`.
    Claude,
}

impl ProviderKind {
    /// The wire name of the kind.
    pub open spec fn name(self) -> Seq<char> {
        match self {
            ProviderKind::Codex => "codex"@,
            ProviderKind::Claude => "anthropic"@,
        }
    }

    /// The kind whose wire name is `s`, if any.
    pub open spec fn from_name(s: Seq<char>) -> Option<ProviderKind> {
        if s == "codex"@ {
            Some(ProviderKind::Codex)
        } else if s == "anthropic"@ {
            Some(ProviderKind::Claude)
        } else {
            None
        }
    }

    pub fn as_str(self) -> (s: &'static str)
        ensures
            s@ == self.name(),
    {
        match self {
            ProviderKind::Codex => "codex",
            ProviderKind::Claude => "anthropic",
        }
    }

    /// Reads a kind from its wire name; `None` for any other text.
    pub fn from_str(value: &str) -> (r: Option<ProviderKind>)
        ensures
            r == Self::from_name(value@),
    {
        if str_eq(value, "codex") {
            Some(ProviderKind::Codex)
        } else if str_eq(value, "anthropic") {
            Some(ProviderKind::Claude)
        } else {
            None
        }
    }
}

/// Reading the name of a kind gives the kind back, and a name that reads as
/// a kind is that kind's name.
pub proof fn lemma_provider_kind_name_round_trip(kind: ProviderKind, s: Seq<char>)
    ensures
        ProviderKind::from_name(kind.name()) == Some(kind),
        ProviderKind::from_name(s) matches Some(k) ==> k.name() == s,
{
    reveal_strlit("codex");
    reveal_strlit("anthropic");
    assert("codex"@.len() != "anthropic"@.len());
}

/// What a provider reports about itself.
#[derive(Debug, Clone)]
pub struct ProviderMetadata {
    pub kind: ProviderKind,
    pub display_name: String,
    pub enabled: bool,
}

/// A provider adapter hosted by the runtime.
pub trait RuntimeProvider: Send + Sync {
    fn kind(&self) -> ProviderKind;

    fn metadata(&self) -> ProviderMetadata;

    fn healthcheck(&self) -> Result<(), RuntimeError>;
}

/// A shared provider answers each question as the provider it shares: every
/// result is one that the inner provider's own method returns for it.
impl<T: RuntimeProvider + ?Sized> RuntimeProvider for Arc<T> {
    fn kind(&self) -> (k: ProviderKind)
        ensures
            call_ensures(T::kind, (&**self,), k),
    {
        (**self).kind()
    }

    fn metadata(&self) -> (m: ProviderMetadata)
        ensures
            call_ensures(T::metadata, (&**self,), m),
    {
        (**self).metadata()
    }

    fn healthcheck(&self) -> (r: Result<(), RuntimeError>)
        ensures
            call_ensures(T::healthcheck, (&**self,), r),
    {
        (**self).healthcheck()
    }
}

} // verus!
