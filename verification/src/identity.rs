//! Identities of the durable things that the runtime speaks about.
use vstd::prelude::*;
use crate::text::same;

verus! {

/// An agent of a session. The root agent is number zero.
#[derive(Clone, Copy, Debug, PartialEq, Eq, PartialOrd, Ord, Hash, Structural)]
pub struct AgentId(pub u64);

/// A durable task.
#[derive(Clone, Copy, Debug, PartialEq, Eq, PartialOrd, Ord, Hash, Structural)]
pub struct TaskId(pub u64);

/// One run of a PTC program.
#[derive(Clone, Copy, Debug, PartialEq, Eq, PartialOrd, Ord, Hash, Structural)]
pub struct ExecutionId(pub u64);

/// A background process.
#[derive(Clone, Copy, Debug, PartialEq, Eq, PartialOrd, Ord, Hash, Structural)]
pub struct ProcessId(pub u64);

/// A private workspace of a delegated worker.
#[derive(Clone, Copy, Debug, PartialEq, Eq, PartialOrd, Ord, Hash, Structural)]
pub struct IsolatedWorkspaceId(pub u64);

/// A workspace checkpoint.
#[derive(Clone, Copy, Debug, PartialEq, Eq, PartialOrd, Ord, Hash, Structural)]
pub struct CheckpointId(pub u64);

/// A stored tool result.
#[derive(Clone, Copy, Debug, PartialEq, Eq, PartialOrd, Ord, Hash, Structural)]
pub struct ResultId(pub u64);

/// A revision of the workspace content.
#[derive(Debug, PartialEq, Eq)]
pub struct RevisionId(pub String);

/// The content identity of a prelude.
#[derive(Debug, PartialEq, Eq)]
pub struct PreludeId(pub String);

impl AgentId {
    /// The root agent.
    pub fn root() -> (r: AgentId)
        ensures
            r.0 == 0,
    {
        AgentId(0)
    }

    /// Whether this is the root agent.
    pub fn is_root(self) -> (r: bool)
        ensures
            r == (self.0 == 0),
    {
        self.0 == 0
    }
}

impl Clone for RevisionId {
    fn clone(&self) -> (r: Self)
        ensures
            r == *self,
    {
        RevisionId(self.0.clone())
    }
}

impl RevisionId {
    /// Whether two revisions are the same.
    pub fn same(&self, other: &RevisionId) -> (r: bool)
        ensures
            r == (self.0@ == other.0@),
    {
        same(self.0.as_str(), other.0.as_str())
    }
}

impl Clone for PreludeId {
    fn clone(&self) -> (r: Self)
        ensures
            r == *self,
    {
        PreludeId(self.0.clone())
    }
}

/// Whether two optional prelude identities agree: both absent, or both present
/// with the same text.
pub open spec fn same_prelude_spec(a: Option<PreludeId>, b: Option<PreludeId>) -> bool {
    match (a, b) {
        (Some(x), Some(y)) => x.0@ == y.0@,
        (None, None) => true,
        _ => false,
    }
}

/// Whether two optional prelude identities agree.
pub fn same_prelude(a: &Option<PreludeId>, b: &Option<PreludeId>) -> (r: bool)
    ensures
        r == same_prelude_spec(*a, *b),
{
    match (a, b) {
        (Some(x), Some(y)) => same(x.0.as_str(), y.0.as_str()),
        (None, None) => true,
        _ => false,
    }
}

/// A copy of an optional revision.
pub fn copy_revision(r: &Option<RevisionId>) -> (c: Option<RevisionId>)
    ensures
        c == *r,
{
    match r {
        Some(x) => Some(x.clone()),
        None => None,
    }
}

/// A copy of an optional prelude identity.
pub fn copy_prelude(r: &Option<PreludeId>) -> (c: Option<PreludeId>)
    ensures
        c == *r,
{
    match r {
        Some(x) => Some(x.clone()),
        None => None,
    }
}

/// A copy of an optional string.
pub fn copy_text(r: &Option<String>) -> (c: Option<String>)
    ensures
        c == *r,
{
    match r {
        Some(x) => Some(x.clone()),
        None => None,
    }
}

/// An identity that is a plain number.
pub trait Numbered {
    spec fn number(&self) -> u64;

    fn get_number(&self) -> (r: u64)
        ensures
            r == self.number(),
    ;
}

impl Numbered for u64 {
    open spec fn number(&self) -> u64 {
        *self
    }

    fn get_number(&self) -> (r: u64) {
        *self
    }
}

impl Numbered for AgentId {
    open spec fn number(&self) -> u64 {
        self.0
    }

    fn get_number(&self) -> (r: u64) {
        self.0
    }
}

impl Numbered for ProcessId {
    open spec fn number(&self) -> u64 {
        self.0
    }

    fn get_number(&self) -> (r: u64) {
        self.0
    }
}

impl Numbered for ExecutionId {
    open spec fn number(&self) -> u64 {
        self.0
    }

    fn get_number(&self) -> (r: u64) {
        self.0
    }
}

} // verus!
