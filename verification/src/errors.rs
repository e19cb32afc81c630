//! Error taxonomy of the policy layer.
//!
//! `ConfigError` is fatal at application-configuration time, `ResolveError`
//! is surfaced during variable resolution, `ValidationError` aggregates the
//! pre-flight findings, and `HostParseError` rejects a malformed allow-list
//! entry. `HostsError` is the cached per-instance outcome combining the two
//! failure sources of an allow-list computation.

use vstd::prelude::*;

verus! {

/// Malformed configuration: a declared name that is not a valid key, one
/// declared twice, or a network range that does not parse.
#[derive(Debug, Clone)]
pub enum ConfigError {
    InvalidName(String),
    DuplicateName(String),
    InvalidNetwork(String),
}

/// Why a provider backend failed to answer a lookup.
#[derive(Debug, Clone)]
pub struct ProviderError {
    pub message: String,
}

/// Why a variable or a template could not be resolved.
#[derive(Debug, Clone)]
pub enum ResolveError {
    /// The key is not in the declared-variable table.
    Undeclared(String),
    /// No provider answered and the declaration has no default.
    Undefined(String),
    /// A provider reported a backend failure; resolution stops at once.
    ProviderFailed(String),
    /// The template text has a placeholder that does not parse.
    InvalidTemplate(String),
}

/// Why pre-flight validation rejected the configuration.
#[derive(Debug, Clone)]
pub enum ValidationError {
    /// Every declared variable that neither a default, nor a dynamic
    /// provider, nor a static provider value covers.
    Missing(Vec<String>),
    /// A static provider reported a backend failure while being queried.
    ProviderFailed(String),
}

/// A malformed allow-list entry; the whole parse fails, never part of it.
#[derive(Debug, Clone)]
pub enum HostParseError {
    InvalidEntry(String, String),
}

/// The cached outcome of computing an instance's allow-list.
#[derive(Debug, Clone)]
pub enum HostsError {
    Resolve(ResolveError),
    Parse(HostParseError),
}

/// The view of a resolution error: the variant, with its text.
pub enum ResolveErrorView {
    Undeclared(Seq<char>),
    Undefined(Seq<char>),
    ProviderFailed(Seq<char>),
    InvalidTemplate(Seq<char>),
}

impl View for ResolveError {
    type V = ResolveErrorView;

    open spec fn view(&self) -> ResolveErrorView {
        match self {
            ResolveError::Undeclared(s) => ResolveErrorView::Undeclared(s@),
            ResolveError::Undefined(s) => ResolveErrorView::Undefined(s@),
            ResolveError::ProviderFailed(s) => ResolveErrorView::ProviderFailed(s@),
            ResolveError::InvalidTemplate(s) => ResolveErrorView::InvalidTemplate(s@),
        }
    }
}

/// The view of an allow-list outcome error: the failure source, with the
/// entry and reason texts for a parse failure.
pub enum HostsErrorView {
    Resolve(ResolveErrorView),
    Parse(Seq<char>, Seq<char>),
}

impl View for HostsError {
    type V = HostsErrorView;

    open spec fn view(&self) -> HostsErrorView {
        match self {
            HostsError::Resolve(e) => HostsErrorView::Resolve(e@),
            HostsError::Parse(HostParseError::InvalidEntry(entry, reason)) => HostsErrorView::Parse(
                entry@,
                reason@,
            ),
        }
    }
}

} // verus!
