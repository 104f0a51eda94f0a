//! The runtime's services: worker registry, slots and numbers, and the reports
//! and requests that go through the journal.
use vstd::prelude::*;
use vstd::string::StringExecFns;
use crate::delegation::{copy_answer, same_answer, same_result, AgentAccess, AgentState, AgentStatus, DelegateResult, DelegationBudget};
use crate::goal::{titles, titles_of, Blocker, TaskStatus};
use crate::identity::{copy_text, AgentId, IsolatedWorkspaceId, ProcessId, RevisionId, TaskId};
use crate::json::Json;
use crate::process::{ProcessSnapshot, ProcessState};
use crate::session::{AgentRecord, ProcessRecord, SessionError, SessionEvent, TaskView};
use crate::text::{byte_count, byte_len, copy_strings, decimal, decimal_text, opt_view, size_text, text, views};

verus! {

/// Live processes allowed per session.
pub const MAX_LIVE_PROCESSES: usize = 8;

/// The name of a process state in the journal.
pub open spec fn state_name(state: ProcessState) -> Seq<char> {
    match state {
        ProcessState::Running => "running"@,
        ProcessState::Exited => "exited"@,
        ProcessState::Killed => "killed"@,
        ProcessState::Failed => "failed"@,
        ProcessState::Orphaned => "orphaned"@,
    }
}

/// The name of a process state in the journal.
pub fn process_state_label(state: ProcessState) -> (r: String)
    ensures
        r@ == state_name(state),
{
    match state {
        ProcessState::Running => text("running"),
        ProcessState::Exited => text("exited"),
        ProcessState::Killed => text("killed"),
        ProcessState::Failed => text("failed"),
        ProcessState::Orphaned => text("orphaned"),
    }
}

/// Whether an event records the state of a process for a task.
pub open spec fn records_state(
    event: SessionEvent,
    task: TaskId,
    snapshot: ProcessSnapshot,
    alive: Option<bool>,
) -> bool {
    &&& event matches SessionEvent::ProcessStateChanged {
        task_id,
        process,
        state,
        exit_code,
        pid_alive,
    }
    &&& task_id == task
    &&& process == snapshot.id
    &&& state@ == state_name(snapshot.state)
    &&& exit_code == snapshot.exit_code
    &&& pid_alive == alive
}

/// The event that records the state of a process for a task.
pub fn record_process_state(task_id: TaskId, snapshot: &ProcessSnapshot) -> (r: SessionEvent)
    ensures
        records_state(r, task_id, *snapshot, snapshot.pid_alive),
{
    SessionEvent::ProcessStateChanged {
        task_id,
        process: snapshot.id,
        state: process_state_label(snapshot.state),
        exit_code: snapshot.exit_code,
        pid_alive: snapshot.pid_alive,
    }
}

/// The events that record recovered processes, each for its own task.
pub fn recover_processes(recovered: &Vec<ProcessSnapshot>) -> (r: Vec<SessionEvent>)
    ensures
        r@.len() == recovered@.len(),
        forall|i: int|
            0 <= i < r@.len() ==> records_state(
                #[trigger] r@[i],
                recovered@[i].owner_task,
                recovered@[i],
                recovered@[i].pid_alive,
            ),
{
    let mut out: Vec<SessionEvent> = Vec::new();
    let mut i: usize = 0;
    while i < recovered.len()
        invariant
            i <= recovered.len(),
            out@.len() == i,
            forall|j: int|
                0 <= j < i ==> records_state(
                    #[trigger] out@[j],
                    recovered@[j].owner_task,
                    recovered@[j],
                    recovered@[j].pid_alive,
                ),
        decreases recovered.len() - i,
    {
        out.push(record_process_state(recovered[i].owner_task, &recovered[i]));
        i = i + 1;
    }
    out
}

/// The events that record the processes killed when a task ends.
pub fn shutdown_task_processes(task_id: TaskId, killed: &Vec<ProcessSnapshot>) -> (r: Vec<
    SessionEvent,
>)
    ensures
        r@.len() == killed@.len(),
        forall|i: int|
            0 <= i < r@.len() ==> records_state(#[trigger] r@[i], task_id, killed@[i], None),
{
    let mut out: Vec<SessionEvent> = Vec::new();
    let mut i: usize = 0;
    while i < killed.len()
        invariant
            i <= killed.len(),
            out@.len() == i,
            forall|j: int|
                0 <= j < i ==> records_state(#[trigger] out@[j], task_id, killed@[j], None),
        decreases killed.len() - i,
    {
        out.push(
            SessionEvent::ProcessStateChanged {
                task_id,
                process: killed[i].id,
                state: process_state_label(killed[i].state),
                exit_code: killed[i].exit_code,
                pid_alive: None,
            },
        );
        i = i + 1;
    }
    out
}

/// One delegated worker.
#[derive(Debug, PartialEq, Eq)]
pub struct Worker {
    pub agent: AgentId,
    pub task_id: TaskId,
    pub objective: String,
    pub access: AgentAccess,
    pub profile: Option<String>,
    /// Cancellation private to this worker: cancelling one must not disturb its
    /// siblings or the root agent.
    pub cancelled: bool,
    pub state: AgentState,
    pub result: Option<DelegateResult>,
    /// Whether its thread was attached and not reaped yet.
    pub has_thread: bool,
}

impl Worker {
    /// The state in which a worker settles with a result.
    pub open spec fn settled_state(self, result: DelegateResult) -> AgentState {
        if result.ok {
            AgentState::Completed
        } else if self.cancelled {
            AgentState::Cancelled
        } else {
            AgentState::Failed
        }
    }

    /// The worker after it settled.
    pub open spec fn settled(self, result: DelegateResult) -> Worker {
        Worker { state: self.settled_state(result), result: Some(result), ..self }
    }

    /// Whether `s` says what the worker is.
    pub open spec fn shown_by(self, s: WorkerSnapshot) -> bool {
        &&& s.agent == self.agent
        &&& s.task_id == self.task_id
        &&& s.objective == self.objective
        &&& s.access == self.access
        &&& s.profile == self.profile
        &&& s.state == self.state
        &&& same_answer(s.result, self.result)
    }

    /// What the worker is.
    pub fn snapshot(&self) -> (r: WorkerSnapshot)
        ensures
            self.shown_by(r),
    {
        WorkerSnapshot {
            agent: self.agent,
            task_id: self.task_id,
            objective: self.objective.clone(),
            access: self.access,
            profile: copy_text(&self.profile),
            state: self.state,
            result: copy_answer(&self.result),
        }
    }
}

/// Live view of a worker.
#[derive(Clone, Debug, PartialEq, Eq)]
pub struct WorkerSnapshot {
    pub agent: AgentId,
    pub task_id: TaskId,
    pub objective: String,
    pub access: AgentAccess,
    pub profile: Option<String>,
    pub state: AgentState,
    pub result: Option<DelegateResult>,
}

impl WorkerSnapshot {
    /// Combines the live worker with its durable task state into the status a
    /// program sees.
    pub fn status(&self, view: &TaskView) -> (r: AgentStatus)
        ensures
            r.agent == self.agent,
            r.task_id == self.task_id,
            r.state == self.state,
            r.objective == self.objective,
            r.access == self.access,
            r.profile == self.profile,
            r.done == self.state.terminal(),
            r.window == view.window,
            r.turns_in_window == view.turns_in_window,
            same_answer(r.result, self.result),
            views(r.pending@) == titles_of(view.goal.pending_work@),
            r.next_actions@ == view.goal.next_actions@,
            r.current_revision == Some(view.goal.current_revision),
    {
        AgentStatus {
            agent: self.agent,
            task_id: self.task_id,
            state: self.state,
            objective: self.objective.clone(),
            access: self.access,
            profile: copy_text(&self.profile),
            done: self.state.is_terminal(),
            window: view.window,
            turns_in_window: view.turns_in_window,
            result: copy_answer(&self.result),
            pending: titles(&view.goal.pending_work),
            next_actions: copy_strings(&view.goal.next_actions),
            current_revision: Some(view.goal.current_revision.clone()),
        }
    }
}

/// What a join finds.
#[derive(Clone, Debug, PartialEq, Eq)]
pub enum JoinStep {
    /// The worker has not settled.
    Wait,
    /// The worker settled with this result; where `reap`, its thread is still to
    /// be joined.
    Done { result: DelegateResult, reap: bool },
}

/// The delegated workers of a session, by agent.
#[derive(Debug, PartialEq, Eq)]
pub struct WorkerRegistry {
    pub workers: Vec<Worker>,
}

/// Whether workers are in the order of their agents, none of them twice.
pub open spec fn by_agent(workers: Seq<Worker>) -> bool {
    forall|i: int, j: int|
        0 <= i < j < workers.len() ==> (#[trigger] workers[i]).agent.0 < (
        #[trigger] workers[j]).agent.0
}

/// Whether the worker of an agent stands at a place.
pub open spec fn worker_at(workers: Seq<Worker>, agent: u64, i: int) -> bool {
    0 <= i < workers.len() && workers[i].agent.0 == agent
}

/// The agents whose threads are attached, in order.
pub open spec fn threads_of(workers: Seq<Worker>) -> Seq<AgentId>
    decreases workers.len(),
{
    if workers.len() == 0 {
        Seq::empty()
    } else if workers.last().has_thread {
        threads_of(workers.drop_last()).push(workers.last().agent)
    } else {
        threads_of(workers.drop_last())
    }
}

/// The workers by the numbers of their agents.
pub open spec fn worker_map(workers: Seq<Worker>) -> Map<u64, Worker> {
    Map::new(
        |agent: u64| exists|i: int| worker_at(workers, agent, i),
        |agent: u64| workers[choose|i: int| worker_at(workers, agent, i)],
    )
}

/// The refusal of an agent that is not registered.
pub open spec fn unknown_agent(agent: AgentId) -> Seq<char> {
    "unknown agent "@ + decimal(agent.0 as nat)
}

fn unknown_agent_text(agent: AgentId) -> (r: String)
    ensures
        r@ == unknown_agent(agent),
{
    let mut s = text("unknown agent ");
    s.append(decimal_text(agent.0).as_str());
    s
}

proof fn lemma_worker_at(workers: Seq<Worker>, i: int)
    requires
        by_agent(workers),
        0 <= i < workers.len(),
    ensures
        worker_map(workers).contains_key(workers[i].agent.0),
        worker_map(workers)[workers[i].agent.0] == workers[i],
{
    let agent = workers[i].agent.0;
    assert(worker_at(workers, agent, i));
    let k = choose|k: int| worker_at(workers, agent, k);
    assert(worker_at(workers, agent, k));
    if k < i {
        assert(workers[k].agent.0 < workers[i].agent.0);
    } else if i < k {
        assert(workers[i].agent.0 < workers[k].agent.0);
    }
}

proof fn lemma_worker_update(workers: Seq<Worker>, i: int, w: Worker)
    requires
        by_agent(workers),
        0 <= i < workers.len(),
        w.agent.0 == workers[i].agent.0,
    ensures
        by_agent(workers.update(i, w)),
        worker_map(workers.update(i, w)) == worker_map(workers).insert(w.agent.0, w),
{
    let now = workers.update(i, w);
    assert forall|a: int, b: int| 0 <= a < b < now.len() implies (#[trigger] now[a]).agent.0 < (
    #[trigger] now[b]).agent.0 by {
        assert(now[a].agent.0 == workers[a].agent.0);
        assert(now[b].agent.0 == workers[b].agent.0);
    }
    assert forall|agent: u64|
        worker_map(now).contains_key(agent) == worker_map(workers).insert(
            w.agent.0,
            w,
        ).contains_key(agent) by {
        if worker_map(now).contains_key(agent) {
            let k = choose|k: int| worker_at(now, agent, k);
            assert(worker_at(workers, agent, k));
        }
        if worker_map(workers).contains_key(agent) {
            let k = choose|k: int| worker_at(workers, agent, k);
            assert(worker_at(now, agent, k));
        }
        assert(worker_at(now, w.agent.0, i));
    }
    assert forall|agent: u64| worker_map(now).contains_key(agent) implies worker_map(now)[agent]
        == worker_map(workers).insert(w.agent.0, w)[agent] by {
        let k = choose|k: int| worker_at(now, agent, k);
        lemma_worker_at(now, k);
        lemma_worker_at(workers, k);
        if k != i {
            lemma_worker_at(now, i);
        }
    }
    assert(worker_map(now) =~= worker_map(workers).insert(w.agent.0, w));
}

impl View for WorkerRegistry {
    type V = Map<u64, Worker>;

    open spec fn view(&self) -> Map<u64, Worker> {
        worker_map(self.workers@)
    }
}

impl WorkerRegistry {
    /// Whether the workers are in order.
    pub open spec fn wf(self) -> bool {
        by_agent(self.workers@)
    }

    /// No workers.
    pub fn new() -> (r: WorkerRegistry)
        ensures
            r.wf(),
            r@ == Map::<u64, Worker>::empty(),
    {
        let r = WorkerRegistry { workers: Vec::new() };
        proof {
            assert(r@ =~= Map::<u64, Worker>::empty());
        }
        r
    }

    /// The place of the worker of an agent.
    fn find(&self, agent: AgentId) -> (r: Option<usize>)
        requires
            self.wf(),
        ensures
            match r {
                Some(i) => i < self.workers@.len() && self.workers@[i as int].agent == agent
                    && self@.contains_key(agent.0) && self@[agent.0] == self.workers@[i as int],
                None => !self@.contains_key(agent.0),
            },
    {
        let mut i: usize = 0;
        while i < self.workers.len()
            invariant
                self.wf(),
                i <= self.workers.len(),
                forall|j: int| 0 <= j < i ==> !worker_at(self.workers@, agent.0, j),
            decreases self.workers.len() - i,
        {
            if self.workers[i].agent.0 == agent.0 {
                proof {
                    lemma_worker_at(self.workers@, i as int);
                }
                return Some(i);
            }
            i = i + 1;
        }
        None
    }

    /// Registers a worker before its thread starts, so that a poll never
    /// observes a spawned worker that is unknown.
    pub fn register(
        &mut self,
        agent: AgentId,
        task_id: TaskId,
        objective: String,
        access: AgentAccess,
        profile: Option<String>,
    )
        requires
            old(self).wf(),
        ensures
            final(self).wf(),
            final(self)@ == old(self)@.insert(
                agent.0,
                (Worker {
                    agent,
                    task_id,
                    objective,
                    access,
                    profile,
                    cancelled: false,
                    state: AgentState::Queued,
                    result: None,
                    has_thread: false,
                }),
            ),
    {
        let worker = Worker {
            agent,
            task_id,
            objective,
            access,
            profile,
            cancelled: false,
            state: AgentState::Queued,
            result: None,
            has_thread: false,
        };
        let ghost w = worker;
        let ghost was = self.workers@;
        match self.find(agent) {
            Some(i) => {
                self.workers.set(i, worker);
                proof {
                    lemma_worker_update(was, i as int, w);
                    assert(self.workers@ =~= was.update(i as int, w));
                }
            },
            None => {
                let mut i: usize = 0;
                while i < self.workers.len() && self.workers[i].agent.0 < agent.0
                    invariant
                        self.workers@ == was,
                        by_agent(was),
                        i <= self.workers.len(),
                        forall|j: int| 0 <= j < i ==> (#[trigger] was[j]).agent.0 < agent.0,
                    decreases self.workers.len() - i,
                {
                    i = i + 1;
                }
                proof {
                    assert forall|j: int| i <= j < was.len() implies (#[trigger] was[j]).agent.0
                        > agent.0 by {
                        lemma_worker_at(was, i as int);
                        if j > i {
                            assert(was[i as int].agent.0 < was[j].agent.0);
                        }
                    }
                }
                self.workers.insert(i, worker);
                proof {
                    let now = self.workers@;
                    let at = i as int;
                    assert(now =~= was.insert(at, w));
                    assert forall|a: int, b: int| 0 <= a < b < now.len() implies (
                    #[trigger] now[a]).agent.0 < (#[trigger] now[b]).agent.0 by {
                        if b < at {
                            assert(now[a] == was[a] && now[b] == was[b]);
                        } else if b == at {
                            assert(now[a] == was[a]);
                        } else if a < at {
                            assert(now[a] == was[a] && now[b] == was[b - 1]);
                        } else if a == at {
                            assert(now[b] == was[b - 1]);
                        } else {
                            assert(now[a] == was[a - 1] && now[b] == was[b - 1]);
                        }
                    }
                    assert forall|key: u64|
                        worker_map(now).contains_key(key) == worker_map(was).insert(
                            agent.0,
                            w,
                        ).contains_key(key) by {
                        assert(worker_at(now, agent.0, at));
                        if worker_map(now).contains_key(key) {
                            let k = choose|k: int| worker_at(now, key, k);
                            if k < at {
                                assert(now[k] == was[k]);
                                assert(worker_at(was, key, k));
                            } else if k > at {
                                assert(now[k] == was[k - 1]);
                                assert(worker_at(was, key, k - 1));
                            }
                        }
                        if worker_map(was).contains_key(key) {
                            let k = choose|k: int| worker_at(was, key, k);
                            if k < at {
                                assert(now[k] == was[k]);
                                assert(worker_at(now, key, k));
                            } else {
                                assert(now[k + 1] == was[k]);
                                assert(worker_at(now, key, k + 1));
                            }
                        }
                    }
                    assert forall|key: u64| worker_map(now).contains_key(key) implies worker_map(
                        now,
                    )[key] == worker_map(was).insert(agent.0, w)[key] by {
                        let k = choose|k: int| worker_at(now, key, k);
                        lemma_worker_at(now, k);
                        if k < at {
                            assert(now[k] == was[k]);
                            lemma_worker_at(was, k);
                        } else if k > at {
                            assert(now[k] == was[k - 1]);
                            lemma_worker_at(was, k - 1);
                        }
                    }
                    assert(worker_map(now) =~= worker_map(was).insert(agent.0, w));
                }
            },
        }
    }

    /// Notes that the thread of a worker runs.
    pub fn attach_thread(&mut self, agent: AgentId)
        requires
            old(self).wf(),
        ensures
            final(self).wf(),
            final(self)@ == if old(self)@.contains_key(agent.0) {
                old(self)@.insert(agent.0, (Worker { has_thread: true, ..old(self)@[agent.0] }))
            } else {
                old(self)@
            },
    {
        let ghost was = self.workers@;
        match self.find(agent) {
            Some(i) => {
                self.workers[i].has_thread = true;
                proof {
                    let w = Worker { has_thread: true, ..was[i as int] };
                    lemma_worker_update(was, i as int, w);
                    assert(self.workers@ =~= was.update(i as int, w));
                }
            },
            None => {},
        }
    }

    /// Moves a worker to a state.
    pub fn set_state(&mut self, agent: AgentId, state: AgentState)
        requires
            old(self).wf(),
        ensures
            final(self).wf(),
            final(self)@ == if old(self)@.contains_key(agent.0) {
                old(self)@.insert(agent.0, (Worker { state, ..old(self)@[agent.0] }))
            } else {
                old(self)@
            },
    {
        let ghost was = self.workers@;
        match self.find(agent) {
            Some(i) => {
                self.workers[i].state = state;
                proof {
                    let w = Worker { state, ..was[i as int] };
                    lemma_worker_update(was, i as int, w);
                    assert(self.workers@ =~= was.update(i as int, w));
                }
            },
            None => {},
        }
    }

    /// Records the outcome of a worker.
    pub fn settle(&mut self, agent: AgentId, result: DelegateResult)
        requires
            old(self).wf(),
        ensures
            final(self).wf(),
            final(self)@ == if old(self)@.contains_key(agent.0) {
                old(self)@.insert(agent.0, old(self)@[agent.0].settled(result))
            } else {
                old(self)@
            },
    {
        let ghost was = self.workers@;
        match self.find(agent) {
            Some(i) => {
                let ghost w = was[i as int].settled(result);
                self.workers[i].state = if result.ok {
                    AgentState::Completed
                } else if self.workers[i].cancelled {
                    AgentState::Cancelled
                } else {
                    AgentState::Failed
                };
                self.workers[i].result = Some(result);
                proof {
                    lemma_worker_update(was, i as int, w);
                    assert(self.workers@ =~= was.update(i as int, w));
                }
            },
            None => {},
        }
    }

    /// Cancels one worker.
    pub fn cancel(&mut self, agent: AgentId) -> (r: Result<(), String>)
        requires
            old(self).wf(),
        ensures
            final(self).wf(),
            match r {
                Ok(_) => old(self)@.contains_key(agent.0) && final(self)@ == old(self)@.insert(
                    agent.0,
                    (Worker { cancelled: true, ..old(self)@[agent.0] }),
                ),
                Err(message) => !old(self)@.contains_key(agent.0) && final(self)@ == old(self)@
                    && message@ == unknown_agent(agent),
            },
    {
        let ghost was = self.workers@;
        match self.find(agent) {
            Some(i) => {
                self.workers[i].cancelled = true;
                proof {
                    let w = Worker { cancelled: true, ..was[i as int] };
                    lemma_worker_update(was, i as int, w);
                    assert(self.workers@ =~= was.update(i as int, w));
                }
                Ok(())
            },
            None => Err(unknown_agent_text(agent)),
        }
    }

    /// Cancels every worker, as on an interrupt of the user.
    pub fn cancel_all(&mut self)
        requires
            old(self).wf(),
        ensures
            final(self).wf(),
            final(self).workers@.len() == old(self).workers@.len(),
            forall|i: int|
                0 <= i < final(self).workers@.len() ==> #[trigger] final(self).workers@[i] == (
                Worker { cancelled: true, ..old(self).workers@[i] }),
    {
        let ghost was = self.workers@;
        let mut i: usize = 0;
        while i < self.workers.len()
            invariant
                i <= self.workers.len(),
                self.workers@.len() == was.len(),
                forall|j: int|
                    0 <= j < i ==> #[trigger] self.workers@[j] == (Worker {
                        cancelled: true,
                        ..was[j]
                    }),
                forall|j: int| i <= j < was.len() ==> #[trigger] self.workers@[j] == was[j],
            decreases self.workers.len() - i,
        {
            self.workers[i].cancelled = true;
            i = i + 1;
        }
        proof {
            let now = self.workers@;
            assert forall|a: int, b: int| 0 <= a < b < now.len() implies (
            #[trigger] now[a]).agent.0 < (#[trigger] now[b]).agent.0 by {
                assert(now[a].agent == was[a].agent);
                assert(now[b].agent == was[b].agent);
            }
        }
    }

    /// Takes the thread of every worker that still has one; these are joined when
    /// a task ends.
    pub fn join_all(&mut self) -> (r: Vec<AgentId>)
        requires
            old(self).wf(),
        ensures
            final(self).wf(),
            final(self).workers@.len() == old(self).workers@.len(),
            forall|i: int|
                0 <= i < final(self).workers@.len() ==> #[trigger] final(self).workers@[i] == (
                Worker { has_thread: false, ..old(self).workers@[i] }),
            r@ == threads_of(old(self).workers@),
    {
        let ghost was = self.workers@;
        let mut out: Vec<AgentId> = Vec::new();
        let mut i: usize = 0;
        proof {
            assert(out@ =~= threads_of(was.take(0)));
        }
        while i < self.workers.len()
            invariant
                i <= self.workers.len(),
                self.workers@.len() == was.len(),
                out@ == threads_of(was.take(i as int)),
                forall|j: int|
                    0 <= j < i ==> #[trigger] self.workers@[j] == (Worker {
                        has_thread: false,
                        ..was[j]
                    }),
                forall|j: int| i <= j < was.len() ==> #[trigger] self.workers@[j] == was[j],
            decreases self.workers.len() - i,
        {
            proof {
                assert(was.take(i + 1).drop_last() =~= was.take(i as int));
                assert(was.take(i + 1).last() == was[i as int]);
            }
            if self.workers[i].has_thread {
                out.push(self.workers[i].agent);
            }
            self.workers[i].has_thread = false;
            i = i + 1;
        }
        proof {
            assert(was.take(i as int) =~= was);
            let now = self.workers@;
            assert forall|a: int, b: int| 0 <= a < b < now.len() implies (
            #[trigger] now[a]).agent.0 < (#[trigger] now[b]).agent.0 by {
                assert(now[a].agent == was[a].agent);
                assert(now[b].agent == was[b].agent);
            }
        }
        out
    }

    /// What a worker is, where it is registered.
    pub fn snapshot(&self, agent: AgentId) -> (r: Option<WorkerSnapshot>)
        requires
            self.wf(),
        ensures
            match r {
                Some(s) => self@.contains_key(agent.0) && self@[agent.0].shown_by(s),
                None => !self@.contains_key(agent.0),
            },
    {
        match self.find(agent) {
            Some(i) => Some(self.workers[i].snapshot()),
            None => None,
        }
    }

    /// What every worker is, in the order of their agents.
    pub fn list(&self) -> (r: Vec<WorkerSnapshot>)
        ensures
            r@.len() == self.workers@.len(),
            forall|i: int|
                0 <= i < r@.len() ==> self.workers@[i].shown_by(#[trigger] r@[i]),
    {
        let mut out: Vec<WorkerSnapshot> = Vec::new();
        let mut i: usize = 0;
        while i < self.workers.len()
            invariant
                i <= self.workers.len(),
                out@.len() == i,
                forall|j: int| 0 <= j < i ==> self.workers@[j].shown_by(#[trigger] out@[j]),
            decreases self.workers.len() - i,
        {
            out.push(self.workers[i].snapshot());
            i = i + 1;
        }
        out
    }

    /// Whether a worker is registered and cancelled.
    pub fn is_cancelled(&self, agent: AgentId) -> (r: bool)
        requires
            self.wf(),
        ensures
            r == (self@.contains_key(agent.0) && self@[agent.0].cancelled),
    {
        match self.find(agent) {
            Some(i) => self.workers[i].cancelled,
            None => false,
        }
    }

    /// Looks whether a worker has settled. A join of one that has takes its
    /// thread, so that a joined worker leaks nothing.
    pub fn join(&mut self, agent: AgentId) -> (r: Result<JoinStep, String>)
        requires
            old(self).wf(),
        ensures
            final(self).wf(),
            match r {
                Err(message) => !old(self)@.contains_key(agent.0) && final(self)@ == old(self)@
                    && message@ == unknown_agent(agent),
                Ok(JoinStep::Wait) => old(self)@.contains_key(agent.0) && old(
                    self,
                )@[agent.0].result is None && final(self)@ == old(self)@,
                Ok(JoinStep::Done { result, reap }) => old(self)@.contains_key(agent.0) && (old(
                    self,
                )@[agent.0].result matches Some(x) && same_result(result, x)) && reap == old(
                    self,
                )@[agent.0].has_thread && final(self)@ == old(self)@.insert(
                    agent.0,
                    (Worker { has_thread: false, ..old(self)@[agent.0] }),
                ),
            },
    {
        let ghost was = self.workers@;
        match self.find(agent) {
            None => Err(unknown_agent_text(agent)),
            Some(i) => {
                let settled = match &self.workers[i].result {
                    None => None,
                    Some(result) => Some(result.clone()),
                };
                match settled {
                    None => Ok(JoinStep::Wait),
                    Some(result) => {
                        let reap = self.workers[i].has_thread;
                        self.workers[i].has_thread = false;
                        proof {
                            let w = Worker { has_thread: false, ..was[i as int] };
                            lemma_worker_update(was, i as int, w);
                            assert(self.workers@ =~= was.update(i as int, w));
                        }
                        Ok(JoinStep::Done { result, reap })
                    },
                }
            },
        }
    }
}

impl Default for WorkerRegistry {
    fn default() -> (r: WorkerRegistry)
        ensures
            r.wf(),
            r@ == Map::<u64, Worker>::empty(),
    {
        WorkerRegistry::new()
    }
}

/// Cancelling one worker touches no other: not its siblings, and not what the
/// cancelled worker is besides.
pub proof fn law_cancellation_is_private(workers: Map<u64, Worker>, agent: u64, other: u64)
    requires
        workers.contains_key(agent),
        other != agent,
    ensures
        ({
            let now = workers.insert(agent, (Worker { cancelled: true, ..workers[agent] }));
            &&& now[agent].cancelled
            &&& now[agent].state == workers[agent].state
            &&& now[agent].result == workers[agent].result
            &&& now.contains_key(other) == workers.contains_key(other)
            &&& workers.contains_key(other) ==> now[other] == workers[other]
        }),
{
}

/// A cancelled worker that did not succeed settles as cancelled, one that was
/// not cancelled as failed, and success is success either way. Settled is
/// terminal.
pub proof fn law_settled_state(worker: Worker, result: DelegateResult)
    ensures
        worker.settled(result).state.terminal(),
        result.ok ==> worker.settled(result).state is Completed,
        !result.ok && worker.cancelled ==> worker.settled(result).state is Cancelled,
        !result.ok && !worker.cancelled ==> worker.settled(result).state is Failed,
        worker.settled(result).result == Some(result),
{
}

/// Slots and numbers that workers are given out.
#[derive(Clone, Copy, Debug, PartialEq, Eq)]
pub struct Slots {
    pub next_workspace: u64,
    pub workers_started: usize,
}

/// How many workers a budget lets live at once: no more than its children, and no
/// more than its children in parallel.
pub open spec fn worker_limit(budget: DelegationBudget) -> usize {
    if budget.max_parallel_children < budget.max_children {
        budget.max_parallel_children
    } else {
        budget.max_children
    }
}

/// The refusal of a worker beyond the budget.
pub open spec fn slots_refusal(max: usize) -> Seq<char> {
    "delegation child budget exceeded ("@ + decimal(max as nat) + " children)"@
}

impl Slots {
    /// No worker started yet.
    pub fn new(next_workspace: u64) -> (r: Slots)
        ensures
            r.next_workspace == next_workspace,
            r.workers_started == 0,
    {
        Slots { next_workspace, workers_started: 0 }
    }

    /// The next isolated workspace.
    pub fn allocate_workspace(&mut self) -> (r: IsolatedWorkspaceId)
        ensures
            r.0 == old(self).next_workspace,
            final(self).next_workspace == old(self).next_workspace.wrapping_add(1),
            final(self).workers_started == old(self).workers_started,
    {
        let id = IsolatedWorkspaceId(self.next_workspace);
        self.next_workspace = self.next_workspace.wrapping_add(1);
        id
    }

    /// Reserves one slot against the budget of children. A refusal takes none, so
    /// that the workers that live at once stay within the budget.
    pub fn reserve_worker_slot(&mut self, budget: &DelegationBudget) -> (r: Result<(), String>)
        ensures
            final(self).next_workspace == old(self).next_workspace,
            match r {
                Ok(_) => old(self).workers_started < worker_limit(*budget)
                    && final(self).workers_started == old(self).workers_started + 1,
                Err(message) => old(self).workers_started >= worker_limit(*budget)
                    && final(self).workers_started == old(self).workers_started && message@
                    == slots_refusal(worker_limit(*budget)),
            },
    {
        let limit: usize = if budget.max_parallel_children < budget.max_children {
            budget.max_parallel_children
        } else {
            budget.max_children
        };
        if self.workers_started >= limit {
            let mut message = text("delegation child budget exceeded (");
            message.append(size_text(limit).as_str());
            message.append(" children)");
            return Err(message);
        }
        self.workers_started = self.workers_started + 1;
        Ok(())
    }

    /// Gives a slot back.
    pub fn release_worker_slot(&mut self)
        ensures
            final(self).next_workspace == old(self).next_workspace,
            final(self).workers_started == old(self).workers_started.wrapping_sub(1),
    {
        self.workers_started = self.workers_started.wrapping_sub(1);
    }
}

/// A durable task as it is reported.
#[derive(Clone, Debug, PartialEq, Eq)]
pub struct TaskReport {
    pub task_id: TaskId,
    pub agent: AgentId,
    pub objective: String,
    pub status: TaskStatus,
    pub window: u32,
    pub revision: RevisionId,
    pub workers: Vec<(AgentId, AgentState, String)>,
    pub processes: Vec<(ProcessId, String, Vec<String>)>,
    pub pending: Vec<String>,
    pub blockers: Vec<String>,
    pub cancel_requested: bool,
    /// Steering appended but not yet applied by a running loop.
    pub pending_steering: Vec<String>,
    pub last_message: Option<String>,
}

/// The summaries of blockers.
pub open spec fn summaries(blockers: Seq<Blocker>) -> Seq<Seq<char>> {
    blockers.map_values(|b: Blocker| b.summary@)
}

/// The summaries of blockers.
pub fn blocker_texts(blockers: &Vec<Blocker>) -> (r: Vec<String>)
    ensures
        views(r@) == summaries(blockers@),
{
    let mut out: Vec<String> = Vec::new();
    let mut i: usize = 0;
    while i < blockers.len()
        invariant
            i <= blockers.len(),
            out@.len() == i,
            forall|j: int| 0 <= j < i ==> (#[trigger] out@[j])@ == blockers@[j].summary@,
        decreases blockers.len() - i,
    {
        out.push(blockers[i].summary.clone());
        i = i + 1;
    }
    proof {
        assert(views(out@) =~= summaries(blockers@));
    }
    out
}

/// Whether the entry of a report says what is recorded of a worker.
pub open spec fn reports_worker(entry: (AgentId, AgentState, String), record: AgentRecord) -> bool {
    entry.0 == record.agent && entry.1 == record.state && entry.2@ == record.objective@
}

/// Whether the entry of a report says what is recorded of a process.
pub open spec fn reports_process(
    entry: (ProcessId, String, Vec<String>),
    record: ProcessRecord,
) -> bool {
    entry.0 == record.process && entry.1@ == record.state@ && views(entry.2@) == views(
        record.argv@,
    )
}

/// Whether a report says what the journal says of a task.
pub open spec fn reports_task(report: TaskReport, view: TaskView) -> bool {
    &&& report.task_id == view.task_id
    &&& report.agent == view.agent
    &&& report.objective@ == view.goal.objective@
    &&& report.status == view.goal.status
    &&& report.window == view.window
    &&& report.revision == view.goal.current_revision
    &&& report.workers@.len() == view.agents@.len()
    &&& forall|i: int|
        0 <= i < view.agents@.len() ==> reports_worker(
            #[trigger] report.workers@[i],
            view.agents@[i],
        )
    &&& report.processes@.len() == view.processes@.len()
    &&& forall|i: int|
        0 <= i < view.processes@.len() ==> reports_process(
            #[trigger] report.processes@[i],
            view.processes@[i],
        )
    &&& views(report.pending@) == titles_of(view.goal.pending_work@)
    &&& views(report.blockers@) == summaries(view.goal.blockers@)
    &&& report.cancel_requested == view.cancel_requested
    &&& views(report.pending_steering@) == views(view.pending_steering@)
    &&& opt_view(report.last_message) == opt_view(view.latest_user_message)
}

/// What the journal says of a task, as it is reported.
pub fn task_report(view: &TaskView) -> (r: TaskReport)
    ensures
        reports_task(r, *view),
{
    let mut workers: Vec<(AgentId, AgentState, String)> = Vec::new();
    let mut i: usize = 0;
    while i < view.agents.len()
        invariant
            i <= view.agents.len(),
            workers@.len() == i,
            forall|j: int|
                0 <= j < i ==> reports_worker(#[trigger] workers@[j], view.agents@[j]),
        decreases view.agents.len() - i,
    {
        let record = &view.agents[i];
        workers.push((record.agent, record.state, record.objective.clone()));
        i = i + 1;
    }
    let mut processes: Vec<(ProcessId, String, Vec<String>)> = Vec::new();
    let mut k: usize = 0;
    while k < view.processes.len()
        invariant
            k <= view.processes.len(),
            processes@.len() == k,
            forall|j: int|
                0 <= j < k ==> reports_process(#[trigger] processes@[j], view.processes@[j]),
        decreases view.processes.len() - k,
    {
        let record = &view.processes[k];
        processes.push((record.process, record.state.clone(), copy_strings(&record.argv)));
        k = k + 1;
    }
    TaskReport {
        task_id: view.task_id,
        agent: view.agent,
        objective: view.goal.objective.clone(),
        status: view.goal.status,
        window: view.window,
        revision: view.goal.current_revision.clone(),
        workers,
        processes,
        pending: titles(&view.goal.pending_work),
        blockers: blocker_texts(&view.goal.blockers),
        cancel_requested: view.cancel_requested,
        pending_steering: copy_strings(&view.pending_steering),
        last_message: copy_text(&view.latest_user_message),
    }
}

/// The reports of tasks, in their order.
pub fn task_reports(tasks: &Vec<TaskView>) -> (r: Vec<TaskReport>)
    ensures
        r@.len() == tasks@.len(),
        forall|i: int| 0 <= i < r@.len() ==> reports_task(#[trigger] r@[i], tasks@[i]),
{
    let mut out: Vec<TaskReport> = Vec::new();
    let mut i: usize = 0;
    while i < tasks.len()
        invariant
            i <= tasks.len(),
            out@.len() == i,
            forall|j: int| 0 <= j < i ==> reports_task(#[trigger] out@[j], tasks@[j]),
        decreases tasks.len() - i,
    {
        out.push(task_report(&tasks[i]));
        i = i + 1;
    }
    out
}

/// The task a journal command speaks of: the one it names, else the root task.
pub fn chosen_task(named: Option<TaskId>, root: Option<TaskId>) -> (r: Option<TaskId>)
    ensures
        r == if named is Some {
            named
        } else {
            root
        },
{
    match named {
        Some(task) => Some(task),
        None => root,
    }
}

/// Whether a target is a given task.
pub open spec fn speaks_of(target: Option<(TaskId, TaskStatus)>, task: TaskId) -> bool {
    match target {
        Some((t, _)) => t == task,
        None => false,
    }
}

/// The refusal of a journal command, where it is refused: there is no task, or
/// it has settled.
pub open spec fn refusal(target: Option<(TaskId, TaskStatus)>, verb: Seq<char>) -> Option<Seq<char>> {
    match target {
        None => Some("no task to "@ + verb),
        Some((task, status)) => if status.active() {
            None
        } else {
            Some(
                "cannot "@ + verb + " task "@ + decimal(task.0 as nat) + ": already "@
                    + status.name(),
            )
        },
    }
}

/// Whether `e` is the refusal of a journal command.
pub open spec fn is_refusal(
    e: SessionError,
    target: Option<(TaskId, TaskStatus)>,
    verb: Seq<char>,
) -> bool {
    e matches SessionError::State(message) && refusal(target, verb) == Some(message@)
}

/// Resolves the task of a journal command, given with its status, and refuses a
/// settled one.
pub fn resolve_active(target: Option<(TaskId, TaskStatus)>, verb: &str) -> (r: Result<
    TaskId,
    SessionError,
>)
    ensures
        match r {
            Ok(task) => refusal(target, verb@) is None && speaks_of(target, task),
            Err(e) => is_refusal(e, target, verb@),
        },
{
    match target {
        None => {
            let mut message = text("no task to ");
            message.append(verb);
            Err(SessionError::State(message))
        },
        Some((task, status)) => {
            if status.is_active() {
                Ok(task)
            } else {
                let mut message = text("cannot ");
                message.append(verb);
                message.append(" task ");
                message.append(decimal_text(task.0).as_str());
                message.append(": already ");
                message.append(status.label());
                Err(SessionError::State(message))
            }
        },
    }
}

/// Durable steering for a task. A settled task is refused rather than
/// accumulating steering that nothing will ever read.
pub fn steer_task(target: Option<(TaskId, TaskStatus)>, message: &str) -> (r: Result<
    SessionEvent,
    SessionError,
>)
    ensures
        match r {
            Ok(event) => refusal(target, "steer"@) is None && (event matches
                SessionEvent::SteeringQueued { task_id, content } && speaks_of(target, task_id)
                && content@ == message@),
            Err(e) => is_refusal(e, target, "steer"@),
        },
{
    match resolve_active(target, "steer") {
        Ok(task_id) => Ok(SessionEvent::SteeringQueued { task_id, content: text(message) }),
        Err(e) => Err(e),
    }
}

/// A durable request to cancel a task.
pub fn cancel_task(target: Option<(TaskId, TaskStatus)>) -> (r: Result<SessionEvent, SessionError>)
    ensures
        match r {
            Ok(event) => refusal(target, "cancel"@) is None && (event matches
                SessionEvent::TaskCancelRequested { task_id } && speaks_of(target, task_id)),
            Err(e) => is_refusal(e, target, "cancel"@),
        },
{
    match resolve_active(target, "cancel") {
        Ok(task_id) => Ok(SessionEvent::TaskCancelRequested { task_id }),
        Err(e) => Err(e),
    }
}

/// A settled task takes neither steering nor a request to cancel it.
pub proof fn law_settled_tasks_take_no_requests(task: TaskId, status: TaskStatus, verb: Seq<char>)
    ensures
        refusal(Some((task, status)), verb) is None <==> status.active(),
{
}

/// What stands for a context that is too large.
pub open spec fn too_large(bytes: nat) -> Seq<char> {
    "{\"bytes\":"@ + decimal(bytes) + ",\"truncated\":true}"@
}

/// Keeps a context that a parent supplied within a bound, measured in the bytes
/// of its compact form; a larger one is replaced by a marker.
pub fn bounded_context(value: Json, max_bytes: usize) -> (r: Json)
    ensures
        byte_len(value.compact()) <= max_bytes ==> r == value,
        byte_len(value.compact()) > max_bytes ==> r.text@ == too_large(byte_len(value.compact())),
{
    let encoded = value.compact_text();
    let bytes: usize = byte_count(encoded.as_str());
    if bytes <= max_bytes {
        return value;
    }
    let mut s = text("{\"bytes\":");
    s.append(size_text(bytes).as_str());
    s.append(",\"truncated\":true}");
    Json { text: s }
}

} // verus!
