//! The line to the host over which workers are delegated, and the history of what
//! was asked over it.
use vstd::prelude::*;
use crate::delegation::{AgentSpawnOptions, AgentStatus, DelegateResult, DelegationHost};
use crate::identity::{AgentId, RevisionId};
use crate::ptc::runtime::PtcExecution;

verus! {

/// One request to the host, and what it was answered.
pub enum DelegationCall {
    Spawn {
        parent: PtcExecution,
        revision: RevisionId,
        options: AgentSpawnOptions,
        answer: Result<AgentStatus, String>,
    },
    Join { agent: AgentId, answer: Result<DelegateResult, String> },
}

/// A line to the host. Whoever holds it reaches the host through it alone, so its
/// history is what was asked, in order.
pub struct HostLine<'a, H: DelegationHost> {
    host: &'a H,
    calls: Ghost<Seq<DelegationCall>>,
}

impl<'a, H: DelegationHost> HostLine<'a, H> {
    /// The host at the other end.
    pub closed spec fn host(self) -> H {
        *self.host
    }

    /// What was asked so far, in order, with the answers.
    pub closed spec fn history(self) -> Seq<DelegationCall> {
        self.calls@
    }

    /// A line over which nothing was asked yet.
    pub fn new(host: &'a H) -> (r: HostLine<'a, H>)
        ensures
            r.host() == *host,
            r.history() == Seq::<DelegationCall>::empty(),
    {
        HostLine { host, calls: Ghost(Seq::empty()) }
    }

    /// Asks the host to start a worker.
    pub fn spawn(
        &mut self,
        parent: &PtcExecution,
        revision: &RevisionId,
        options: AgentSpawnOptions,
    ) -> (r: Result<AgentStatus, String>)
        ensures
            final(self).host() == old(self).host(),
            final(self).history() == old(self).history().push(
                DelegationCall::Spawn { parent: *parent, revision: *revision, options, answer: r },
            ),
            old(self).host().may_spawn(*parent, *revision, options, r),
    {
        let answer = self.host.agent_spawn(parent, revision, options);
        self.calls = Ghost(
            self.calls@.push(
                DelegationCall::Spawn { parent: *parent, revision: *revision, options, answer },
            ),
        );
        answer
    }

    /// Asks the host to wait for a worker.
    pub fn join(&mut self, agent: AgentId) -> (r: Result<DelegateResult, String>)
        ensures
            final(self).host() == old(self).host(),
            final(self).history() == old(self).history().push(
                DelegationCall::Join { agent, answer: r },
            ),
            old(self).host().may_join(agent, r),
    {
        let answer = self.host.agent_join(agent);
        self.calls = Ghost(self.calls@.push(DelegationCall::Join { agent, answer }));
        answer
    }
}

} // verus!
