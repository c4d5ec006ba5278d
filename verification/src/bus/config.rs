//! Schema of the webhook configuration: adapters, their rules, what a rule
//! matches and what it publishes, and the four priority levels.
use std::collections::BTreeMap;

use vstd::prelude::*;

verus! {

/// The whole webhook configuration: one entry per adapter.
#[derive(Debug, Clone, Default)]
pub struct HooksConfig {
    pub adapters: BTreeMap<String, AdapterConfig>,
}

/// One adapter's rules, matched in declaration order (first hit wins).
#[derive(Debug, Clone, Default)]
pub struct AdapterConfig {
    pub rules: Vec<Rule>,
}

/// A transform rule: a name, the predicates a request must satisfy and what
/// to publish when they do.
#[derive(Debug, Clone)]
pub struct Rule {
    pub name: String,
    pub matcher: Match,
    pub publish: PublishSpec,
}

/// Match predicates: an optional event name and equalities on extracted
/// fields.
#[derive(Debug, Clone, Default)]
pub struct Match {
    pub event: Option<String>,
    pub field: BTreeMap<String, String>,
}

/// What a matching rule publishes.
#[derive(Debug, Clone)]
pub struct PublishSpec {
    pub topic: String,
    pub priority: Priority,
    pub title: String,
    pub body: String,
}

/// Message priority, from silent to emergency.
#[derive(Debug, Clone, Copy, PartialEq, Eq, Structural)]
pub enum Priority {
    Min,
    Default,
    High,
    Urgent,
}

impl Default for Priority {
    fn default() -> (p: Self)
        ensures
            p == Priority::Default,
    {
        Priority::Default
    }
}

/// The `X-Priority` level a priority maps to.
pub open spec fn ntfy_level(p: Priority) -> Seq<char> {
    match p {
        Priority::Min => "1"@,
        Priority::Default => "3"@,
        Priority::High => "4"@,
        Priority::Urgent => "5"@,
    }
}

impl Priority {
    /// The `X-Priority` header value: 1, 3, 4 or 5.
    pub fn ntfy_header(self) -> (h: &'static str)
        ensures
            h@ == ntfy_level(self),
    {
        match self {
            Priority::Min => "1",
            Priority::Default => "3",
            Priority::High => "4",
            Priority::Urgent => "5",
        }
    }
}

/// Why the webhook configuration could not be had.
#[derive(Debug, Clone, PartialEq, Eq)]
pub enum ConfigError {
    /// No file at the configured path.
    Missing(String),
    /// The file could not be read.
    Io(String),
    /// The YAML was rejected.
    Parse(String),
}

} // verus!
