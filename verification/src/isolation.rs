//! Isolated workspaces of delegated workers, and the integration of what they
//! changed into the parent workspace.
use vstd::prelude::*;
use vstd::string::StringExecFns;
use crate::identity::{ExecutionId, IsolatedWorkspaceId, RevisionId, TaskId};
use crate::laws::integration::{law_every_change_is_a_changed_path, starts};
use crate::paths::{ancestors, ascending, components, deepest_first, holds, holds_path, overlap, paths_overlap, removal_order, safe, safe_relative, same_path, sorted_paths, Component, EntryProbe};
use crate::ptc::prelude::{below, join_path};
use crate::text::{decimal, decimal_text, number_of, parse_u64, text};

verus! {

/// What is recorded of an isolated workspace.
#[derive(Clone, Debug, PartialEq, Eq)]
pub struct IsolatedWorkspaceRecord {
    pub id: IsolatedWorkspaceId,
    pub owner_task_id: TaskId,
    pub owner_execution_id: ExecutionId,
    pub path: String,
    pub base_revision: RevisionId,
    pub final_revision: RevisionId,
    pub changed_paths: Vec<String>,
}

/// What an integration came to.
#[derive(Clone, Debug, PartialEq, Eq)]
pub enum IntegrationResult {
    Applied {
        previous_revision: RevisionId,
        current_revision: RevisionId,
        changed_paths: Vec<String>,
    },
    Conflict { child_base: RevisionId, parent_current: RevisionId, paths: Vec<String> },
}

/// Why an operation on isolated workspaces failed.
#[derive(Clone, Debug, PartialEq, Eq)]
pub enum IsolationError {
    Io { operation: String, path: String, message: String },
    Git { operation: String, path: String, message: String },
    Workspace(String),
    UnsupportedWorkspace { path: String, operation: String },
    NotFound(IsolatedWorkspaceId),
    AlreadyExists(IsolatedWorkspaceId),
    RevisionMismatch { path: String, expected: RevisionId, actual: RevisionId },
    InvalidRecord { path: String, message: String },
}

impl IsolationError {
    /// The message of the error.
    pub open spec fn text(self) -> Seq<char> {
        match self {
            IsolationError::Io { operation, path, message } => operation@ + " failed at "@ + path@
                + ": "@ + message@,
            IsolationError::Git { operation, path, message } => "git "@ + operation@
                + " failed in "@ + path@ + ": "@ + message@,
            IsolationError::Workspace(error) => "workspace operation failed: "@ + error@,
            IsolationError::UnsupportedWorkspace { path, operation } => "isolated write operation "@
                + operation@ + " requires a Git-root workspace: "@ + path@,
            IsolationError::NotFound(id) => "isolated workspace "@ + decimal(id.0 as nat)
                + " was not found"@,
            IsolationError::AlreadyExists(id) => "isolated workspace "@ + decimal(id.0 as nat)
                + " already exists"@,
            IsolationError::RevisionMismatch { path, expected, actual } =>
            "workspace revision mismatch at "@ + path@ + ": expected "@ + expected.0@ + ", found "@
                + actual.0@,
            IsolationError::InvalidRecord { path, message } => "invalid isolated workspace record "@
                + path@ + ": "@ + message@,
        }
    }

    /// The message of the error.
    pub fn message(&self) -> (r: String)
        ensures
            r@ == self.text(),
    {
        match self {
            IsolationError::Io { operation, path, message } => {
                let mut s = operation.clone();
                s.append(" failed at ");
                s.append(path.as_str());
                s.append(": ");
                s.append(message.as_str());
                s
            },
            IsolationError::Git { operation, path, message } => {
                let mut s = text("git ");
                s.append(operation.as_str());
                s.append(" failed in ");
                s.append(path.as_str());
                s.append(": ");
                s.append(message.as_str());
                s
            },
            IsolationError::Workspace(error) => {
                let mut s = text("workspace operation failed: ");
                s.append(error.as_str());
                s
            },
            IsolationError::UnsupportedWorkspace { path, operation } => {
                let mut s = text("isolated write operation ");
                s.append(operation.as_str());
                s.append(" requires a Git-root workspace: ");
                s.append(path.as_str());
                s
            },
            IsolationError::NotFound(id) => {
                let mut s = text("isolated workspace ");
                s.append(decimal_text(id.0).as_str());
                s.append(" was not found");
                s
            },
            IsolationError::AlreadyExists(id) => {
                let mut s = text("isolated workspace ");
                s.append(decimal_text(id.0).as_str());
                s.append(" already exists");
                s
            },
            IsolationError::RevisionMismatch { path, expected, actual } => {
                let mut s = text("workspace revision mismatch at ");
                s.append(path.as_str());
                s.append(": expected ");
                s.append(expected.0.as_str());
                s.append(", found ");
                s.append(actual.0.as_str());
                s
            },
            IsolationError::InvalidRecord { path, message } => {
                let mut s = text("invalid isolated workspace record ");
                s.append(path.as_str());
                s.append(": ");
                s.append(message.as_str());
                s
            },
        }
    }
}

/// What lies between two revisions of a workspace.
#[derive(Clone, Debug, PartialEq, Eq)]
pub struct WorkspaceDelta {
    pub added: Vec<String>,
    pub modified: Vec<String>,
    pub deleted: Vec<String>,
}

impl WorkspaceDelta {
    /// Whether a path was added, modified or deleted.
    pub open spec fn touches(self, key: Seq<Component>) -> bool {
        holds(self.added@, key) || holds(self.modified@, key) || holds(self.deleted@, key)
    }

    /// Every path that was added, modified or deleted, in order, once.
    pub fn changed_paths(&self) -> (r: Vec<String>)
        ensures
            ascending(r@),
            forall|k: Seq<Component>| #[trigger] holds(r@, k) <==> self.touches(k),
            forall|i: int|
                0 <= i < self.added@.len() ==> holds(r@, components((#[trigger] self.added@[i])@)),
            forall|i: int|
                0 <= i < self.modified@.len() ==> holds(
                    r@,
                    components((#[trigger] self.modified@[i])@),
                ),
            forall|i: int|
                0 <= i < self.deleted@.len() ==> holds(
                    r@,
                    components((#[trigger] self.deleted@[i])@),
                ),
    {
        let mut all: Vec<String> = Vec::new();
        proof {
            assert forall|k: Seq<Component>| !#[trigger] holds(all@, k) by {}
        }
        extend_paths(&mut all, &self.added);
        extend_paths(&mut all, &self.modified);
        extend_paths(&mut all, &self.deleted);
        let r = sorted_paths(&all);
        proof {
            assert forall|i: int| 0 <= i < self.added@.len() implies holds(
                r@,
                components((#[trigger] self.added@[i])@),
            ) by {
                law_every_change_is_a_changed_path(*self, r@, i, components(self.added@[i]@));
            }
            assert forall|i: int| 0 <= i < self.modified@.len() implies holds(
                r@,
                components((#[trigger] self.modified@[i])@),
            ) by {
                law_every_change_is_a_changed_path(*self, r@, i, components(self.modified@[i]@));
            }
            assert forall|i: int| 0 <= i < self.deleted@.len() implies holds(
                r@,
                components((#[trigger] self.deleted@[i])@),
            ) by {
                law_every_change_is_a_changed_path(*self, r@, i, components(self.deleted@[i]@));
            }
        }
        r
    }
}

/// Appends the paths of a list.
fn extend_paths(out: &mut Vec<String>, more: &Vec<String>)
    ensures
        forall|k: Seq<Component>| #[trigger]
            holds(final(out)@, k) <==> holds(old(out)@, k) || holds(more@, k),
{
    let ghost start = out@;
    let mut i: usize = 0;
    proof {
        assert(start + more@.take(0) =~= start);
    }
    while i < more.len()
        invariant
            i <= more.len(),
            out@ == start + more@.take(i as int),
        decreases more.len() - i,
    {
        out.push(more[i].clone());
        proof {
            assert(start + more@.take(i + 1) =~= (start + more@.take(i as int)).push(
                more@[i as int],
            ));
        }
        i = i + 1;
    }
    proof {
        assert(more@.take(i as int) =~= more@);
        let now = out@;
        assert forall|k: Seq<Component>| #[trigger] holds(now, k) <==> holds(start, k) || holds(
            more@,
            k,
        ) by {
            if holds(start, k) {
                let j = choose|j: int|
                    0 <= j < start.len() && components((#[trigger] start[j])@) == k;
                assert(now[j] == start[j]);
            }
            if holds(more@, k) {
                let j = choose|j: int|
                    0 <= j < more@.len() && components((#[trigger] more@[j])@) == k;
                assert(now[start.len() + j] == more@[j]);
            }
            if holds(now, k) {
                let j = choose|j: int| 0 <= j < now.len() && components((#[trigger] now[j])@) == k;
                if j < start.len() {
                    assert(start[j] == now[j]);
                } else {
                    assert(more@[j - start.len()] == now[j]);
                }
            }
        }
    }
}

/// Whether a path overlaps one of a list.
pub open spec fn overlaps_any(path: Seq<char>, others: Seq<String>) -> bool {
    exists|j: int| 0 <= j < others.len() && overlap(path, (#[trigger] others[j])@)
}

/// Whether a path overlaps one of a list.
pub fn overlaps_one_of(path: &str, others: &Vec<String>) -> (r: bool)
    ensures
        r == overlaps_any(path@, others@),
{
    let mut j: usize = 0;
    while j < others.len()
        invariant
            j <= others.len(),
            forall|k: int| 0 <= k < j ==> !overlap(path@, (#[trigger] others@[k])@),
        decreases others.len() - j,
    {
        if paths_overlap(path, others[j].as_str()) {
            return true;
        }
        j = j + 1;
    }
    false
}

/// The paths of the child that overlap a path of the parent, in order.
pub open spec fn conflicts(child: Seq<String>, parent: Seq<String>) -> Seq<String> {
    child.filter(|p: String| overlaps_any(p@, parent))
}

/// The paths of the child that overlap a path the parent changed too.
pub fn conflicting_child_paths(child: &Vec<String>, parent: &Vec<String>) -> (r: Vec<String>)
    ensures
        r@ == conflicts(child@, parent@),
{
    let mut out: Vec<String> = Vec::new();
    let mut i: usize = 0;
    let ghost pred = |p: String| overlaps_any(p@, parent@);
    proof {
        reveal_with_fuel(Seq::filter, 1);
        assert(out@ =~= conflicts(child@.take(0), parent@));
    }
    while i < child.len()
        invariant
            i <= child.len(),
            pred == (|p: String| overlaps_any(p@, parent@)),
            out@ == conflicts(child@.take(i as int), parent@),
        decreases child.len() - i,
    {
        proof {
            let done = child@.take(i as int);
            assert(child@.take(i + 1) =~= done.push(child@[i as int]));
            done.lemma_filter_push(child@[i as int], pred);
        }
        if overlaps_one_of(child[i].as_str(), parent) {
            out.push(child[i].clone());
        }
        i = i + 1;
    }
    proof {
        assert(child@.take(i as int) =~= child@);
    }
    out
}

/// What was found at the place of a record.
#[derive(Clone, Debug, PartialEq, Eq)]
pub enum RecordProbe {
    Missing,
    Unreadable(String),
    Invalid(String),
    Record(IsolatedWorkspaceRecord),
}

/// Where the isolated workspaces of a parent workspace lie.
#[derive(Clone, Debug, PartialEq, Eq)]
pub struct IsolationStore {
    pub parent: String,
    pub root: String,
}

impl IsolationStore {
    /// The store of a workspace that is the root of a Git repository.
    pub fn open(parent: &str, git_root: Option<String>) -> (r: Result<
        IsolationStore,
        IsolationError,
    >)
        ensures
            match git_root {
                Some(root) if components(root@) == components(parent@) => r matches Ok(store) && store.parent@ == parent@
                    && store.root@ == below(parent@, ".mh/workspaces"@),
                _ => r matches Err(IsolationError::UnsupportedWorkspace { path, operation })
                    && path@ == parent@ && operation@ == "open"@,
            },
    {
        match git_root {
            Some(root) => {
                if same_path(root.as_str(), parent) {
                    return Ok(
                        IsolationStore {
                            parent: text(parent),
                            root: join_path(parent, ".mh/workspaces"),
                        },
                    );
                }
            },
            None => {},
        }
        Err(IsolationError::UnsupportedWorkspace { path: text(parent), operation: text("open") })
    }

    /// The directory of an isolated workspace.
    pub open spec fn dir(self, id: IsolatedWorkspaceId) -> Seq<char> {
        below(self.root@, decimal(id.0 as nat))
    }

    /// The directory of an isolated workspace.
    pub fn workspace_dir(&self, id: IsolatedWorkspaceId) -> (r: String)
        ensures
            r@ == self.dir(id),
    {
        join_path(self.root.as_str(), decimal_text(id.0).as_str())
    }

    /// The place of the record of an isolated workspace.
    pub fn record_path(&self, id: IsolatedWorkspaceId) -> (r: String)
        ensures
            r@ == below(self.dir(id), "record.json"@),
    {
        join_path(self.workspace_dir(id).as_str(), "record.json")
    }

    /// The working tree of an isolated workspace.
    pub fn worktree_path(&self, id: IsolatedWorkspaceId) -> (r: String)
        ensures
            r@ == below(self.dir(id), "worktree"@),
    {
        join_path(self.workspace_dir(id).as_str(), "worktree")
    }

    /// Whether an isolated workspace may be made: it must be new, and the
    /// parent must stand at the requested revision.
    pub fn check_create(
        &self,
        id: IsolatedWorkspaceId,
        exists: bool,
        base: &RevisionId,
        current: &RevisionId,
    ) -> (r: Result<(), IsolationError>)
        ensures
            exists ==> r == Err::<(), IsolationError>(IsolationError::AlreadyExists(id)),
            !exists && base.0@ != current.0@ ==> (r matches Err(
                IsolationError::RevisionMismatch { path, expected, actual },
            ) && path == self.parent && expected == *base && actual == *current),
            !exists && base.0@ == current.0@ ==> r is Ok,
    {
        if exists {
            return Err(IsolationError::AlreadyExists(id));
        }
        if !current.same(base) {
            return Err(
                IsolationError::RevisionMismatch {
                    path: self.parent.clone(),
                    expected: base.clone(),
                    actual: current.clone(),
                },
            );
        }
        Ok(())
    }

    /// The record of a workspace that was made. It must have materialized at
    /// exactly the parent's revision.
    pub fn create(
        &self,
        id: IsolatedWorkspaceId,
        owner_task_id: TaskId,
        owner_execution_id: ExecutionId,
        current: &RevisionId,
        child: RevisionId,
    ) -> (r: Result<IsolatedWorkspaceRecord, IsolationError>)
        ensures
            child.0@ != current.0@ ==> (r matches Err(
                IsolationError::RevisionMismatch { path, expected, actual },
            ) && path@ == below(self.dir(id), "worktree"@) && expected == *current && actual
                == child),
            child.0@ == current.0@ ==> (r matches Ok(record) && record.id == id
                && record.owner_task_id == owner_task_id && record.owner_execution_id
                == owner_execution_id && record.path@ == below(self.dir(id), "worktree"@)
                && record.base_revision == child && record.final_revision == child
                && record.changed_paths@.len() == 0),
    {
        let path = self.worktree_path(id);
        if !child.same(current) {
            return Err(
                IsolationError::RevisionMismatch {
                    path,
                    expected: current.clone(),
                    actual: child,
                },
            );
        }
        Ok(
            IsolatedWorkspaceRecord {
                id,
                owner_task_id,
                owner_execution_id,
                path,
                base_revision: child.clone(),
                final_revision: child,
                changed_paths: Vec::new(),
            },
        )
    }

    /// Whether a record belongs where it was found: it is that of the workspace,
    /// and its path is that of the working tree, component by component.
    pub open spec fn is_at_home(self, id: IsolatedWorkspaceId, record: IsolatedWorkspaceRecord) -> bool {
        record.id == id && components(record.path@) == components(
            below(self.dir(id), "worktree"@),
        )
    }

    /// Whether `error` is why what was found is not the record of a workspace.
    pub open spec fn refuses(
        self,
        id: IsolatedWorkspaceId,
        probe: RecordProbe,
        error: IsolationError,
    ) -> bool {
        match probe {
            RecordProbe::Missing => error == IsolationError::NotFound(id),
            RecordProbe::Unreadable(why) => error matches IsolationError::Io {
                operation,
                path,
                message,
            } && operation@ == "read isolated workspace record"@ && path@ == below(
                self.dir(id),
                "record.json"@,
            ) && message == why,
            RecordProbe::Invalid(why) => error matches IsolationError::InvalidRecord {
                path,
                message,
            } && path@ == below(self.dir(id), "record.json"@) && message == why,
            RecordProbe::Record(record) => !self.is_at_home(id, record) && (error matches
                IsolationError::InvalidRecord { path, message } && path@ == below(
                self.dir(id),
                "record.json"@,
            ) && message@ == "record identity or workspace path does not match its location"@),
        }
    }

    /// Whether `r` is what a load comes to: the record that was found, where it
    /// belongs there, else why not.
    pub open spec fn loads(
        self,
        id: IsolatedWorkspaceId,
        probe: RecordProbe,
        r: Result<IsolatedWorkspaceRecord, IsolationError>,
    ) -> bool {
        match r {
            Ok(record) => probe == RecordProbe::Record(record) && self.is_at_home(id, record),
            Err(error) => self.refuses(id, probe, error),
        }
    }

    /// The record that was found. One that is missing, unreadable or not JSON
    /// is an error, and so is one that belongs elsewhere.
    pub fn load(&self, id: IsolatedWorkspaceId, probe: RecordProbe) -> (r: Result<
        IsolatedWorkspaceRecord,
        IsolationError,
    >)
        ensures
            self.loads(id, probe, r),
    {
        match probe {
            RecordProbe::Missing => Err(IsolationError::NotFound(id)),
            RecordProbe::Unreadable(message) => Err(
                IsolationError::Io {
                    operation: text("read isolated workspace record"),
                    path: self.record_path(id),
                    message,
                },
            ),
            RecordProbe::Invalid(message) => Err(
                IsolationError::InvalidRecord { path: self.record_path(id), message },
            ),
            RecordProbe::Record(record) => {
                if record.id.0 != id.0 || !same_path(
                    record.path.as_str(),
                    self.worktree_path(id).as_str(),
                ) {
                    return Err(
                        IsolationError::InvalidRecord {
                            path: self.record_path(id),
                            message: text(
                                "record identity or workspace path does not match its location",
                            ),
                        },
                    );
                }
                Ok(record)
            },
        }
    }

    /// The record of a settled worker: where its workspace stands now, and what
    /// it changed.
    pub fn finalize(
        &self,
        record: IsolatedWorkspaceRecord,
        revision: RevisionId,
        delta: &WorkspaceDelta,
    ) -> (r: IsolatedWorkspaceRecord)
        ensures
            r.id == record.id,
            r.owner_task_id == record.owner_task_id,
            r.owner_execution_id == record.owner_execution_id,
            r.path == record.path,
            r.base_revision == record.base_revision,
            r.final_revision == revision,
            ascending(r.changed_paths@),
            forall|k: Seq<Component>| #[trigger] holds(r.changed_paths@, k) <==> delta.touches(k),
    {
        IsolatedWorkspaceRecord {
            id: record.id,
            owner_task_id: record.owner_task_id,
            owner_execution_id: record.owner_execution_id,
            path: record.path,
            base_revision: record.base_revision,
            final_revision: revision,
            changed_paths: delta.changed_paths(),
        }
    }

    /// Starts to integrate a workspace. Where the parent changed a path that
    /// overlaps one of the child's, nothing is done but to report those paths.
    pub fn integrate(
        &self,
        record: IsolatedWorkspaceRecord,
        parent_current: RevisionId,
        parent_delta: &WorkspaceDelta,
    ) -> (r: IntegrationProgress)
        ensures
            parent_conflicts(record.changed_paths@, *parent_delta) ==> (r matches
                IntegrationProgress::Finished(Ok(IntegrationResult::Conflict {
                child_base,
                parent_current: at,
                paths,
            })) && child_base == record.base_revision && at == parent_current && paths@
                == record.changed_paths@.filter(|p: String| overlaps_delta(p@, *parent_delta))),
            !parent_conflicts(record.changed_paths@, *parent_delta) ==> (r matches
                IntegrationProgress::Continue(i) && i.record == record && i.previous
                == parent_current && i.parent == self.parent && i.phase is ReadChild),
            starts(record, parent_current, *parent_delta, r),
    {
        let parent_paths = parent_delta.changed_paths();
        let found = conflicting_child_paths(&record.changed_paths, &parent_paths);
        proof {
            assert forall|p: Seq<char>| #[trigger] overlaps_any(p, parent_paths@)
                == overlaps_delta(p, *parent_delta) by {
                lemma_overlap_by_components(p, parent_paths@, *parent_delta);
            }
            let pred = |p: String| overlaps_any(p@, parent_paths@);
            let hit = |p: String| overlaps_delta(p@, *parent_delta);
            let child = record.changed_paths@;
            assert(pred =~= hit);
            if parent_conflicts(child, *parent_delta) {
                let k = choose|k: int|
                    0 <= k < child.len() && overlaps_delta((#[trigger] child[k])@, *parent_delta);
                child.lemma_filter_contains(hit, k);
            } else if found@.len() > 0 {
                child.lemma_filter_pred(hit, 0);
                child.lemma_filter_contains_rev(hit, found@[0]);
                let k = choose|k: int| 0 <= k < child.len() && child[k] == found@[0];
                assert(overlaps_delta(child[k]@, *parent_delta));
            }
        }
        if !found.is_empty() {
            return IntegrationProgress::Finished(
                Ok(
                    IntegrationResult::Conflict {
                        child_base: record.base_revision,
                        parent_current,
                        paths: found,
                    },
                ),
            );
        }
        IntegrationProgress::Continue(
            Integration {
                parent: self.parent.clone(),
                record,
                previous: parent_current,
                phase: IntegrationPhase::ReadChild,
            },
        )
    }

    /// Whether `r` is what a discard comes to: where the record loads, its path
    /// and the directory of the workspace are to go.
    pub open spec fn discards(
        self,
        id: IsolatedWorkspaceId,
        probe: RecordProbe,
        r: Result<(String, String), IsolationError>,
    ) -> bool {
        match r {
            Ok((worktree, dir)) => {
                &&& probe matches RecordProbe::Record(record) && self.is_at_home(id, record)
                    && worktree == record.path
                &&& dir@ == self.dir(id)
            },
            Err(error) => self.refuses(id, probe, error),
        }
    }

    /// What is removed to discard a workspace: the working tree of its record,
    /// then the directory that holds the two. Without its record nothing is.
    pub fn discard(&self, id: IsolatedWorkspaceId, probe: RecordProbe) -> (r: Result<
        (String, String),
        IsolationError,
    >)
        ensures
            self.discards(id, probe, r),
    {
        match self.load(id, probe) {
            Ok(record) => Ok((record.path, self.workspace_dir(id))),
            Err(error) => Err(error),
        }
    }
}

/// Whether a path overlaps one that a delta touches.
pub open spec fn overlaps_delta(path: Seq<char>, delta: WorkspaceDelta) -> bool {
    overlaps_any(path, delta.added@) || overlaps_any(path, delta.modified@) || overlaps_any(
        path,
        delta.deleted@,
    )
}

/// Whether the parent changed a path that overlaps one of the child's.
pub open spec fn parent_conflicts(child: Seq<String>, delta: WorkspaceDelta) -> bool {
    exists|i: int| 0 <= i < child.len() && overlaps_delta((#[trigger] child[i])@, delta)
}

proof fn lemma_overlap_by_components(p: Seq<char>, paths: Seq<String>, delta: WorkspaceDelta)
    requires
        forall|k: Seq<Component>| #[trigger] holds(paths, k) <==> delta.touches(k),
    ensures
        overlaps_any(p, paths) == overlaps_delta(p, delta),
{
    if overlaps_any(p, paths) {
        let j = choose|j: int| 0 <= j < paths.len() && overlap(p, (#[trigger] paths[j])@);
        let k = components(paths[j]@);
        assert(holds(paths, k));
        assert(delta.touches(k));
        if holds(delta.added@, k) {
            lemma_overlap_of_key(p, paths[j]@, delta.added@, k);
        } else if holds(delta.modified@, k) {
            lemma_overlap_of_key(p, paths[j]@, delta.modified@, k);
        } else {
            lemma_overlap_of_key(p, paths[j]@, delta.deleted@, k);
        }
    }
    if overlaps_delta(p, delta) {
        let list = if overlaps_any(p, delta.added@) {
            delta.added@
        } else if overlaps_any(p, delta.modified@) {
            delta.modified@
        } else {
            delta.deleted@
        };
        let j = choose|j: int| 0 <= j < list.len() && overlap(p, (#[trigger] list[j])@);
        let k = components(list[j]@);
        assert(holds(list, k));
        assert(delta.touches(k));
        assert(holds(paths, k));
        lemma_overlap_of_key(p, list[j]@, paths, k);
    }
}

proof fn lemma_overlap_of_key(p: Seq<char>, q: Seq<char>, list: Seq<String>, k: Seq<Component>)
    requires
        overlap(p, q),
        components(q) == k,
        holds(list, k),
    ensures
        overlaps_any(p, list),
{
    let j = choose|j: int| 0 <= j < list.len() && components((#[trigger] list[j])@) == k;
    assert(overlap(p, list[j]@));
}

/// What is done next in an integration.
#[derive(Clone, Debug, PartialEq, Eq)]
pub enum IntegrationPhase {
    /// Read the revision of the child workspace.
    ReadChild,
    /// Read what the child holds, check the destinations, and keep what the
    /// parent holds there.
    Prepare,
    /// Write the child's changes into the parent.
    Apply,
    /// Read the revision of the parent.
    ReadParent,
    /// Remove the isolated workspace; the parent stands at this revision.
    Discard(RevisionId),
    /// Put back what the parent held, because of this error. Where the removal
    /// of the workspace failed, a failure to put back is reported with it.
    RollBack { error: IsolationError, cleanup: bool },
}

/// What the step of a phase came to.
#[derive(Debug, PartialEq, Eq)]
pub enum StepResult {
    Revision(Result<RevisionId, IsolationError>),
    Step(Result<(), IsolationError>),
}

/// An integration that is under way.
#[derive(Debug, PartialEq, Eq)]
pub struct Integration {
    pub parent: String,
    pub record: IsolatedWorkspaceRecord,
    /// The revision of the parent before it.
    pub previous: RevisionId,
    pub phase: IntegrationPhase,
}

/// An integration after a step.
#[derive(Debug, PartialEq, Eq)]
pub enum IntegrationProgress {
    Continue(Integration),
    Finished(Result<IntegrationResult, IsolationError>),
}

/// Whether a result is of the kind that a phase waits for.
pub open spec fn fits(phase: IntegrationPhase, result: StepResult) -> bool {
    match phase {
        IntegrationPhase::ReadChild | IntegrationPhase::ReadParent => result is Revision,
        _ => result is Step,
    }
}

/// What is reported where neither the removal of the workspace nor putting the
/// parent back succeeded.
pub open spec fn double_failure(error: IsolationError, rollback: IsolationError) -> Seq<char> {
    "workspace cleanup failed ("@ + error.text() + "); rollback also failed ("@ + rollback.text()
        + ")"@
}

/// Whether `p` continues the integration `i` in the given phase.
pub open spec fn goes_on(i: Integration, p: IntegrationProgress, phase: IntegrationPhase) -> bool {
    p matches IntegrationProgress::Continue(n) && n.parent == i.parent && n.record == i.record
        && n.previous == i.previous && n.phase == phase
}

/// Whether `p` ends with the given error.
pub open spec fn fails(p: IntegrationProgress, error: IsolationError) -> bool {
    p == IntegrationProgress::Finished(Err(error))
}

/// Whether `p` is what follows from a step's result.
pub open spec fn follows(i: Integration, result: StepResult, p: IntegrationProgress) -> bool {
    match (i.phase, result) {
        (IntegrationPhase::ReadChild, StepResult::Revision(Err(e))) => fails(p, e),
        (IntegrationPhase::ReadChild, StepResult::Revision(Ok(actual))) => if actual.0@
            == i.record.final_revision.0@ {
            goes_on(i, p, IntegrationPhase::Prepare)
        } else {
            p matches IntegrationProgress::Finished(Err(IsolationError::RevisionMismatch {
                path,
                expected,
                actual: found,
            })) && path == i.record.path && expected == i.record.final_revision && found == actual
        },
        (IntegrationPhase::Prepare, StepResult::Step(Err(e))) => fails(p, e),
        (IntegrationPhase::Prepare, StepResult::Step(Ok(_))) => goes_on(
            i,
            p,
            IntegrationPhase::Apply,
        ),
        (IntegrationPhase::Apply, StepResult::Step(Err(e))) => goes_on(
            i,
            p,
            IntegrationPhase::RollBack { error: e, cleanup: false },
        ),
        (IntegrationPhase::Apply, StepResult::Step(Ok(_))) => goes_on(
            i,
            p,
            IntegrationPhase::ReadParent,
        ),
        (IntegrationPhase::ReadParent, StepResult::Revision(Err(e))) => goes_on(
            i,
            p,
            IntegrationPhase::RollBack { error: e, cleanup: false },
        ),
        (IntegrationPhase::ReadParent, StepResult::Revision(Ok(revision))) => goes_on(
            i,
            p,
            IntegrationPhase::Discard(revision),
        ),
        (IntegrationPhase::Discard(_), StepResult::Step(Err(e))) => goes_on(
            i,
            p,
            IntegrationPhase::RollBack { error: e, cleanup: true },
        ),
        (IntegrationPhase::Discard(revision), StepResult::Step(Ok(_))) => p matches
            IntegrationProgress::Finished(Ok(IntegrationResult::Applied {
            previous_revision,
            current_revision,
            changed_paths,
        })) && previous_revision == i.previous && current_revision == revision && changed_paths
            == i.record.changed_paths,
        (IntegrationPhase::RollBack { error, cleanup }, StepResult::Step(Err(e))) => if cleanup {
            p matches IntegrationProgress::Finished(Err(IsolationError::InvalidRecord {
                path,
                message,
            })) && path == i.parent && message@ == double_failure(error, e)
        } else {
            fails(p, error)
        },
        (IntegrationPhase::RollBack { error, .. }, StepResult::Step(Ok(_))) => fails(p, error),
        _ => true,
    }
}

impl Integration {
    /// What follows from the result of the present step.
    pub fn next(self, result: StepResult) -> (p: IntegrationProgress)
        requires
            fits(self.phase, result),
        ensures
            follows(self, result, p),
    {
        let Integration { parent, record, previous, phase } = self;
        let next_phase = match (phase, result) {
            (IntegrationPhase::ReadChild, StepResult::Revision(found)) => {
                match found {
                    Err(e) => {
                        return IntegrationProgress::Finished(Err(e));
                    },
                    Ok(actual) => {
                        if !actual.same(&record.final_revision) {
                            return IntegrationProgress::Finished(
                                Err(
                                    IsolationError::RevisionMismatch {
                                        path: record.path,
                                        expected: record.final_revision,
                                        actual,
                                    },
                                ),
                            );
                        }
                        IntegrationPhase::Prepare
                    },
                }
            },
            (IntegrationPhase::Prepare, StepResult::Step(done)) => {
                match done {
                    Err(e) => {
                        return IntegrationProgress::Finished(Err(e));
                    },
                    Ok(_) => IntegrationPhase::Apply,
                }
            },
            (IntegrationPhase::Apply, StepResult::Step(done)) => {
                match done {
                    Err(e) => IntegrationPhase::RollBack { error: e, cleanup: false },
                    Ok(_) => IntegrationPhase::ReadParent,
                }
            },
            (IntegrationPhase::ReadParent, StepResult::Revision(found)) => {
                match found {
                    Err(e) => IntegrationPhase::RollBack { error: e, cleanup: false },
                    Ok(revision) => IntegrationPhase::Discard(revision),
                }
            },
            (IntegrationPhase::Discard(revision), StepResult::Step(done)) => {
                match done {
                    Err(e) => IntegrationPhase::RollBack { error: e, cleanup: true },
                    Ok(_) => {
                        return IntegrationProgress::Finished(
                            Ok(
                                IntegrationResult::Applied {
                                    previous_revision: previous,
                                    current_revision: revision,
                                    changed_paths: record.changed_paths,
                                },
                            ),
                        );
                    },
                }
            },
            (IntegrationPhase::RollBack { error, cleanup }, StepResult::Step(done)) => {
                match done {
                    Err(e) => {
                        if cleanup {
                            let mut message = text("workspace cleanup failed (");
                            message.append(error.message().as_str());
                            message.append("); rollback also failed (");
                            message.append(e.message().as_str());
                            message.append(")");
                            return IntegrationProgress::Finished(
                                Err(IsolationError::InvalidRecord { path: parent, message }),
                            );
                        }
                        return IntegrationProgress::Finished(Err(error));
                    },
                    Ok(_) => {
                        return IntegrationProgress::Finished(Err(error));
                    },
                }
            },
            (other, _) => other,
        };
        IntegrationProgress::Continue(Integration { parent, record, previous, phase: next_phase })
    }
}

/// Whether the parent may differ from what it was when a phase begins.
pub open spec fn parent_changed(phase: IntegrationPhase) -> bool {
    phase is ReadParent || phase is Discard || phase is RollBack
}

/// Once the parent was written, a failure is reported only after the attempt to
/// put back what it held: a failure ends the integration from one of the two
/// phases before the parent is written, or from the one that puts it back.
pub proof fn law_failed_integration_rolls_back(
    i: Integration,
    result: StepResult,
    p: IntegrationProgress,
)
    requires
        fits(i.phase, result),
        follows(i, result, p),
        p matches IntegrationProgress::Finished(Err(_)),
    ensures
        i.phase is ReadChild || i.phase is Prepare || i.phase is RollBack,
        parent_changed(i.phase) ==> i.phase is RollBack,
{
}

/// The parent is written only after the child was found at the revision it was
/// recorded with and the destinations were prepared.
pub proof fn law_integration_writes_only_after_preparation(
    i: Integration,
    result: StepResult,
    n: Integration,
)
    requires
        fits(i.phase, result),
        follows(i, result, IntegrationProgress::Continue(n)),
        n.phase is Apply,
    ensures
        i.phase is Prepare,
        result matches StepResult::Step(Ok(_)),
{
}

/// An integration ends as applied only where every step succeeded, at the
/// revision that the parent was then read at.
pub proof fn law_applied_only_after_discard(
    i: Integration,
    result: StepResult,
    done: IntegrationResult,
)
    requires
        fits(i.phase, result),
        follows(i, result, IntegrationProgress::Finished(Ok(done))),
    ensures
        done is Applied,
        i.phase == IntegrationPhase::Discard(done->current_revision),
        done->previous_revision == i.previous,
{
}

/// Whether these removals and writes bring a child's changes over: a changed path
/// that the child does not hold is removed, and one that it holds is written.
pub open spec fn brings_over(
    changed: Seq<String>,
    child: Seq<String>,
    removals: Seq<String>,
    writes: Seq<String>,
) -> bool {
    &&& forall|k: Seq<Component>| #[trigger]
        holds(removals, k) <==> holds(changed, k) && !holds(child, k)
    &&& writes == changed.filter(|p: String| holds(child, components(p@)))
}

/// Whether these removals and writes put a workspace back: every changed path is
/// removed, and everything that was kept is written.
pub open spec fn puts_back(
    changed: Seq<String>,
    backup: Seq<String>,
    removals: Seq<String>,
    writes: Seq<String>,
) -> bool {
    &&& forall|k: Seq<Component>| #[trigger] holds(removals, k) <==> holds(changed, k)
    &&& forall|k: Seq<Component>| #[trigger] holds(writes, k) <==> holds(backup, k)
}

/// The changed paths that the child still holds, in order, and the others in
/// the order of removal.
pub fn apply_plan(changed: &Vec<String>, child: &Vec<String>) -> (r: (Vec<String>, Vec<String>))
    ensures
        deepest_first(r.0@),
        forall|k: Seq<Component>| #[trigger]
            holds(r.0@, k) <==> holds(changed@, k) && !holds(child@, k),
        r.1@ == changed@.filter(|p: String| holds(child@, components(p@))),
        brings_over(changed@, child@, r.0@, r.1@),
{
    let mut deletions: Vec<String> = Vec::new();
    let mut restores: Vec<String> = Vec::new();
    let ghost kept = |p: String| holds(child@, components(p@));
    let ghost gone = |p: String| !holds(child@, components(p@));
    let mut i: usize = 0;
    proof {
        reveal_with_fuel(Seq::filter, 1);
        assert(restores@ =~= changed@.take(0).filter(kept));
        assert(deletions@ =~= changed@.take(0).filter(gone));
    }
    while i < changed.len()
        invariant
            i <= changed.len(),
            kept == (|p: String| holds(child@, components(p@))),
            gone == (|p: String| !holds(child@, components(p@))),
            restores@ == changed@.take(i as int).filter(kept),
            deletions@ == changed@.take(i as int).filter(gone),
        decreases changed.len() - i,
    {
        proof {
            let done = changed@.take(i as int);
            assert(changed@.take(i + 1) =~= done.push(changed@[i as int]));
            done.lemma_filter_push(changed@[i as int], kept);
            done.lemma_filter_push(changed@[i as int], gone);
        }
        if holds_path(child, changed[i].as_str()) {
            restores.push(changed[i].clone());
        } else {
            deletions.push(changed[i].clone());
        }
        i = i + 1;
    }
    proof {
        assert(changed@.take(i as int) =~= changed@);
        assert(deletions@ =~= gone_paths(changed@, child@));
        lemma_filter_holds(changed@, child@);
    }
    let ordered = removal_order(&deletions);
    proof {
        assert forall|k: Seq<Component>| #[trigger] holds(ordered@, k) <==> holds(changed@, k)
            && !holds(child@, k) by {
            assert(holds(ordered@, k) <==> holds(gone_paths(changed@, child@), k));
        }
    }
    (ordered, restores)
}

/// The changed paths that the child does not hold, in order.
pub open spec fn gone_paths(changed: Seq<String>, child: Seq<String>) -> Seq<String> {
    changed.filter(|p: String| !holds(child, components(p@)))
}

proof fn lemma_filter_holds(changed: Seq<String>, child: Seq<String>)
    ensures
        forall|k: Seq<Component>| #[trigger]
            holds(gone_paths(changed, child), k) <==> holds(changed, k) && !holds(child, k),
{
    let gone = |p: String| !holds(child, components(p@));
    let left = gone_paths(changed, child);
    assert forall|k: Seq<Component>| #[trigger] holds(left, k) <==> holds(changed, k) && !holds(
        child,
        k,
    ) by {
        if holds(left, k) {
            let j = choose|j: int| 0 <= j < left.len() && components((#[trigger] left[j])@) == k;
            changed.lemma_filter_pred(gone, j);
            changed.lemma_filter_contains_rev(gone, left[j]);
            let m = choose|m: int| 0 <= m < changed.len() && changed[m] == left[j];
            assert(components(changed[m]@) == k);
        }
        if holds(changed, k) && !holds(child, k) {
            let j = choose|j: int|
                0 <= j < changed.len() && components((#[trigger] changed[j])@) == k;
            changed.lemma_filter_contains(gone, j);
            let m = choose|m: int| 0 <= m < left.len() && left[m] == changed[j];
            assert(components(left[m]@) == k);
        }
    }
}

/// What is removed where a workspace is made to hold exactly the desired paths:
/// the present paths that are not desired, in the order of removal.
pub fn replace_workspace_entries(current: &Vec<String>, desired: &Vec<String>) -> (r: Vec<String>)
    ensures
        deepest_first(r@),
        forall|k: Seq<Component>| #[trigger]
            holds(r@, k) <==> holds(current@, k) && !holds(desired@, k),
{
    apply_plan(current, desired).0
}

/// How a workspace is put back: every changed path is removed, in the order of
/// removal, and what was kept is written in the order of its paths.
pub fn restore_delta(changed: &Vec<String>, backup: &Vec<String>) -> (r: (Vec<String>, Vec<String>))
    ensures
        deepest_first(r.0@),
        forall|k: Seq<Component>| #[trigger] holds(r.0@, k) <==> holds(changed@, k),
        ascending(r.1@),
        forall|k: Seq<Component>| #[trigger] holds(r.1@, k) <==> holds(backup@, k),
        puts_back(changed@, backup@, r.0@, r.1@),
{
    (removal_order(changed), sorted_paths(backup))
}

/// Whether the walk down to a destination stops at what was found: nothing, or
/// something that is no directory, has nothing below it.
pub open spec fn stops(found: EntryProbe) -> bool {
    found is Missing || found is Other
}

/// Whether `r` is the judgement on the ancestors of a destination, from `i` on.
pub open spec fn judged(
    ancestors: Seq<String>,
    found: Seq<EntryProbe>,
    i: int,
    r: Result<(), IsolationError>,
) -> bool
    decreases ancestors.len() - i,
{
    if i < 0 || i >= ancestors.len() || stops(found[i]) {
        r is Ok
    } else {
        match found[i] {
            EntryProbe::Symlink => r matches Err(IsolationError::InvalidRecord { path, message })
                && path == ancestors[i] && message@ == "destination ancestor is a symlink"@,
            EntryProbe::Unreadable(why) => r matches Err(
                IsolationError::Io { operation, path, message },
            ) && operation@ == "inspect destination ancestor"@ && path == ancestors[i] && message
                == why,
            _ => judged(ancestors, found, i + 1, r),
        }
    }
}

/// Judges what was found at the ancestors of a destination, from the top: no
/// symbolic link may stand between the workspace and what is written.
pub fn validate_ancestors(ancestors: &Vec<String>, found: &Vec<EntryProbe>) -> (r: Result<
    (),
    IsolationError,
>)
    requires
        ancestors@.len() == found@.len(),
    ensures
        judged(ancestors@, found@, 0, r),
{
    let mut i: usize = 0;
    while i < ancestors.len()
        invariant
            i <= ancestors.len(),
            ancestors@.len() == found@.len(),
            forall|r: Result<(), IsolationError>| #[trigger]
                judged(ancestors@, found@, 0, r) == judged(ancestors@, found@, i as int, r),
        decreases ancestors.len() - i,
    {
        match &found[i] {
            EntryProbe::Missing => {
                return Ok(());
            },
            EntryProbe::Other => {
                return Ok(());
            },
            EntryProbe::Symlink => {
                return Err(
                    IsolationError::InvalidRecord {
                        path: ancestors[i].clone(),
                        message: text("destination ancestor is a symlink"),
                    },
                );
            },
            EntryProbe::Unreadable(why) => {
                return Err(
                    IsolationError::Io {
                        operation: text("inspect destination ancestor"),
                        path: ancestors[i].clone(),
                        message: why.clone(),
                    },
                );
            },
            EntryProbe::Directory => {},
        }
        i = i + 1;
    }
    Ok(())
}

/// Whether a changed path may be written at all.
pub fn validate_destination(path: &str) -> (r: Result<(), IsolationError>)
    ensures
        safe(path@) ==> r is Ok,
        !safe(path@) ==> (r matches Err(IsolationError::InvalidRecord { path: p, message }) && p@
            == path@ && message@ == "unsafe changed path"@),
{
    if safe_relative(path) {
        Ok(())
    } else {
        Err(IsolationError::InvalidRecord { path: text(path), message: text("unsafe changed path") })
    }
}

/// Whether an entry may be put back at its path.
pub fn validate_entry(path: &str) -> (r: Result<(), IsolationError>)
    ensures
        safe(path@) ==> r is Ok,
        !safe(path@) ==> (r matches Err(IsolationError::InvalidRecord { path: p, message }) && p@
            == path@ && message@ == "unsafe workspace path"@),
{
    if safe_relative(path) {
        Ok(())
    } else {
        Err(
            IsolationError::InvalidRecord {
                path: text(path),
                message: text("unsafe workspace path"),
            },
        )
    }
}

/// What is done about one directory above a destination.
#[derive(Clone, Copy, Debug, PartialEq, Eq, Structural)]
pub enum ParentStep {
    Keep,
    Create,
}

/// What is done about one directory above a destination: a real directory is
/// kept, a missing one is made, and anything else is refused.
pub fn parent_step(path: &str, found: &EntryProbe) -> (r: Result<ParentStep, IsolationError>)
    ensures
        match *found {
            EntryProbe::Directory => r == Ok::<ParentStep, IsolationError>(ParentStep::Keep),
            EntryProbe::Missing => r == Ok::<ParentStep, IsolationError>(ParentStep::Create),
            EntryProbe::Unreadable(why) => r matches Err(
                IsolationError::Io { operation, path: p, message },
            ) && operation@ == "inspect workspace path ancestor"@ && p@ == path@ && message == why,
            _ => r matches Err(IsolationError::InvalidRecord { path: p, message }) && p@ == path@
                && message@ == "workspace path ancestor is not a real directory"@,
        },
{
    match found {
        EntryProbe::Directory => Ok(ParentStep::Keep),
        EntryProbe::Missing => Ok(ParentStep::Create),
        EntryProbe::Unreadable(why) => Err(
            IsolationError::Io {
                operation: text("inspect workspace path ancestor"),
                path: text(path),
                message: why.clone(),
            },
        ),
        _ => Err(
            IsolationError::InvalidRecord {
                path: text(path),
                message: text("workspace path ancestor is not a real directory"),
            },
        ),
    }
}

/// The isolated workspace that a directory name stands for.
pub fn workspace_of_name(name: &str) -> (r: Option<IsolatedWorkspaceId>)
    ensures
        match number_of(name@) {
            Ok(n) => r matches Some(id) && id.0 == n,
            Err(_) => r is None,
        },
{
    match parse_u64(name) {
        Ok(n) => Some(IsolatedWorkspaceId(n)),
        Err(_) => None,
    }
}

/// Whether an attempt to load a record ends the search for owned ones.
pub open spec fn blocks(loaded: Result<IsolatedWorkspaceRecord, IsolationError>) -> bool {
    loaded matches Err(e) && !(e is NotFound)
}

/// Whether a loaded record belongs to a task.
pub open spec fn owned_by(loaded: Result<IsolatedWorkspaceRecord, IsolationError>, task: TaskId) -> bool {
    loaded matches Ok(record) && record.owner_task_id == task
}

impl IsolationStore {
    /// The records of a task among those that were loaded, in order: these are
    /// discarded. A record that vanished is passed over; any other failure is
    /// returned, and nothing is discarded.
    pub fn cleanup_owner(
        &self,
        loaded: Vec<Result<IsolatedWorkspaceRecord, IsolationError>>,
        task_id: TaskId,
    ) -> (r: Result<Vec<IsolatedWorkspaceRecord>, IsolationError>)
        ensures
            match r {
                Ok(records) => {
                    &&& forall|i: int| 0 <= i < loaded@.len() ==> !blocks(#[trigger] loaded@[i])
                    &&& records@ == loaded@.filter(
                        |l: Result<IsolatedWorkspaceRecord, IsolationError>| owned_by(l, task_id),
                    ).map_values(|l: Result<IsolatedWorkspaceRecord, IsolationError>| l->Ok_0)
                },
                Err(error) => exists|i: int|
                    0 <= i < loaded@.len() && #[trigger] loaded@[i] == Err::<
                        IsolatedWorkspaceRecord,
                        IsolationError,
                    >(error) && blocks(loaded@[i]) && forall|j: int|
                        0 <= j < i ==> !blocks(#[trigger] loaded@[j]),
            },
    {
        let ghost all = loaded@;
        let ghost mine = |l: Result<IsolatedWorkspaceRecord, IsolationError>| owned_by(l, task_id);
        let ghost pick = |l: Result<IsolatedWorkspaceRecord, IsolationError>| l->Ok_0;
        let mut out: Vec<IsolatedWorkspaceRecord> = Vec::new();
        proof {
            reveal_with_fuel(Seq::filter, 1);
            assert(out@ =~= all.take(0).filter(mine).map_values(pick));
        }
        for entry in iter: loaded
            invariant
                iter.seq() == all,
                mine == (|l: Result<IsolatedWorkspaceRecord, IsolationError>| owned_by(l, task_id)),
                pick == (|l: Result<IsolatedWorkspaceRecord, IsolationError>| l->Ok_0),
                forall|j: int| 0 <= j < iter.index() ==> !blocks(#[trigger] all[j]),
                out@ == all.take(iter.index() as int).filter(mine).map_values(pick),
        {
            proof {
                let done = all.take(iter.index() as int);
                assert(all[iter.index() as int] == entry);
                assert(all.take(iter.index() + 1) =~= done.push(entry));
                done.lemma_filter_push(entry, mine);
                done.filter(mine).lemma_push_map_commute(pick, entry);
            }
            match entry {
                Ok(record) => {
                    if record.owner_task_id.0 == task_id.0 {
                        out.push(record);
                    }
                },
                Err(IsolationError::NotFound(_)) => {},
                Err(error) => {
                    return Err(error);
                },
            }
        }
        proof {
            assert(all.take(all.len() as int) =~= all);
        }
        Ok(out)
    }
}

/// What of the parent is kept before the child's changes are written: every path
/// that overlaps a changed one, in order.
pub fn read_overlapping_entries(present: &Vec<String>, changed: &Vec<String>) -> (r: Vec<String>)
    ensures
        r@ == present@.filter(|p: String| overlaps_any(p@, changed@)),
        r@ == conflicts(present@, changed@),
{
    conflicting_child_paths(present, changed)
}

} // verus!
