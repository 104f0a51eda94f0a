//! Workspace checkpoints: what is recorded, and when one may be restored.
use vstd::prelude::*;
use vstd::string::StringExecFns;
use crate::digest::{hash_text, sha256_hex};
use crate::identity::{copy_prelude, same_prelude, same_prelude_spec, CheckpointId, PreludeId, RevisionId, TaskId};
use crate::isolation::ParentStep;
use crate::paths::{components, holds, holds_path, safe, safe_relative, EntryProbe};
use crate::ptc::prelude::{below, join_path};
use crate::restore::{Restoration, RestorePhase};
use crate::text::{decimal, decimal_text, hex, hex16, number_of, parse_u64, same, text, trim, trimmed};

verus! {

/// The most that a checkpoint may hold, in bytes.
pub const DEFAULT_BYTE_CAP: u64 = 536870912;

/// A handle on a checkpoint.
#[derive(Debug, PartialEq, Eq)]
pub struct Checkpoint {
    pub id: CheckpointId,
    pub revision: RevisionId,
    pub backend: CheckpointBackend,
}

/// What backs a checkpoint.
#[derive(Debug, PartialEq, Eq)]
pub enum CheckpointBackend {
    Git { tree: String },
    Filesystem,
}

impl Clone for CheckpointBackend {
    fn clone(&self) -> (r: Self)
        ensures
            r == *self,
    {
        match self {
            CheckpointBackend::Git { tree } => CheckpointBackend::Git { tree: tree.clone() },
            CheckpointBackend::Filesystem => CheckpointBackend::Filesystem,
        }
    }
}

impl Clone for Checkpoint {
    fn clone(&self) -> (r: Self)
        ensures
            r == *self,
    {
        Checkpoint {
            id: self.id,
            revision: self.revision.clone(),
            backend: self.backend.clone(),
        }
    }
}

/// A handle as plain values.
#[verifier::ext_equal]
pub struct Handle {
    pub id: CheckpointId,
    pub revision: Seq<char>,
    pub tree: Option<Seq<char>>,
}

impl View for Checkpoint {
    type V = Handle;

    open spec fn view(&self) -> Handle {
        Handle {
            id: self.id,
            revision: self.revision.0@,
            tree: match self.backend {
                CheckpointBackend::Git { tree } => Some(tree@),
                CheckpointBackend::Filesystem => None,
            },
        }
    }
}

impl Checkpoint {
    /// Whether two handles are the same.
    pub fn same(&self, other: &Checkpoint) -> (r: bool)
        ensures
            r == (self@ == other@),
    {
        self.id.0 == other.id.0 && self.revision.same(&other.revision) && match (
            &self.backend,
            &other.backend,
        ) {
            (CheckpointBackend::Git { tree: a }, CheckpointBackend::Git { tree: b }) => same(
                a.as_str(),
                b.as_str(),
            ),
            (CheckpointBackend::Filesystem, CheckpointBackend::Filesystem) => true,
            _ => false,
        }
    }
}

/// What an entry of a workspace is.
#[derive(Clone, Copy, Debug, PartialEq, Eq, Structural)]
pub enum EntryKind {
    File,
    Symlink,
}

/// One entry of a workspace.
#[derive(Clone, Debug, PartialEq, Eq)]
pub struct ManifestEntry {
    pub path: String,
    pub kind: EntryKind,
    pub executable: bool,
    pub size: u64,
    pub content_hash: String,
}

/// An entry and the name of the blob that holds its content.
#[derive(Clone, Debug, PartialEq, Eq)]
pub struct StoredEntry {
    pub manifest: ManifestEntry,
    pub blob: String,
}

/// What is recorded of a checkpoint.
#[derive(Clone, Debug, PartialEq, Eq)]
pub struct StoredCheckpoint {
    pub checkpoint: Checkpoint,
    pub task_id: TaskId,
    pub head: Option<String>,
    /// The prelude that was active.
    pub prelude: Option<PreludeId>,
    pub entries: Vec<StoredEntry>,
}

/// Why a checkpoint was not made or not restored.
#[derive(Clone, Debug, PartialEq, Eq)]
pub enum CheckpointError {
    Workspace(String),
    Io { path: String, message: String },
    Git { operation: String, message: String },
    SizeLimitExceeded { limit: u64, actual: u64 },
    NotFound { task_id: TaskId, checkpoint_id: CheckpointId },
    TaskMismatch { expected: TaskId, actual: TaskId },
    InvalidCheckpoint { path: String, message: String },
    RevisionMismatch { expected: RevisionId, actual: RevisionId },
    /// The checkpoint was recorded in another tool environment.
    PreludeMismatch { recorded: Option<PreludeId>, active: Option<PreludeId> },
}

/// A prelude identity, or a word for its absence.
pub open spec fn prelude_name(prelude: Option<PreludeId>) -> Seq<char> {
    match prelude {
        Some(id) => id.0@,
        None => "none"@,
    }
}

fn push_prelude(out: &mut String, prelude: &Option<PreludeId>)
    ensures
        final(out)@ == old(out)@ + prelude_name(*prelude),
{
    match prelude {
        Some(id) => out.append(id.0.as_str()),
        None => out.append("none"),
    }
}

impl CheckpointError {
    /// The message of the error.
    pub open spec fn text(self) -> Seq<char> {
        match self {
            CheckpointError::Workspace(error) => "workspace error: "@ + error@,
            CheckpointError::Io { path, message } => "checkpoint I/O error at "@ + path@ + ": "@
                + message@,
            CheckpointError::Git { operation, message } => "git "@ + operation@ + " failed: "@
                + message@,
            CheckpointError::SizeLimitExceeded { limit, actual } => "checkpoint size "@ + decimal(
                actual as nat,
            ) + " exceeds byte cap "@ + decimal(limit as nat),
            CheckpointError::NotFound { task_id, checkpoint_id } => "checkpoint "@ + decimal(
                checkpoint_id.0 as nat,
            ) + " for task "@ + decimal(task_id.0 as nat) + " was not found"@,
            CheckpointError::TaskMismatch { expected, actual } => "checkpoint belongs to task "@
                + decimal(actual.0 as nat) + ", not task "@ + decimal(expected.0 as nat),
            CheckpointError::InvalidCheckpoint { path, message } => "invalid checkpoint "@ + path@
                + ": "@ + message@,
            CheckpointError::RevisionMismatch { expected, actual } => "restored revision "@
                + actual.0@ + " does not match checkpoint revision "@ + expected.0@,
            CheckpointError::PreludeMismatch { recorded, active } =>
            "prelude mismatch: checkpoint recorded under "@ + prelude_name(recorded)
                + ", active prelude is "@ + prelude_name(active),
        }
    }

    /// The message of the error.
    pub fn message(&self) -> (r: String)
        ensures
            r@ == self.text(),
    {
        match self {
            CheckpointError::Workspace(error) => {
                let mut s = text("workspace error: ");
                s.append(error.as_str());
                s
            },
            CheckpointError::Io { path, message } => {
                let mut s = text("checkpoint I/O error at ");
                s.append(path.as_str());
                s.append(": ");
                s.append(message.as_str());
                s
            },
            CheckpointError::Git { operation, message } => {
                let mut s = text("git ");
                s.append(operation.as_str());
                s.append(" failed: ");
                s.append(message.as_str());
                s
            },
            CheckpointError::SizeLimitExceeded { limit, actual } => {
                let mut s = text("checkpoint size ");
                s.append(decimal_text(*actual).as_str());
                s.append(" exceeds byte cap ");
                s.append(decimal_text(*limit).as_str());
                s
            },
            CheckpointError::NotFound { task_id, checkpoint_id } => {
                let mut s = text("checkpoint ");
                s.append(decimal_text(checkpoint_id.0).as_str());
                s.append(" for task ");
                s.append(decimal_text(task_id.0).as_str());
                s.append(" was not found");
                s
            },
            CheckpointError::TaskMismatch { expected, actual } => {
                let mut s = text("checkpoint belongs to task ");
                s.append(decimal_text(actual.0).as_str());
                s.append(", not task ");
                s.append(decimal_text(expected.0).as_str());
                s
            },
            CheckpointError::InvalidCheckpoint { path, message } => {
                let mut s = text("invalid checkpoint ");
                s.append(path.as_str());
                s.append(": ");
                s.append(message.as_str());
                s
            },
            CheckpointError::RevisionMismatch { expected, actual } => {
                let mut s = text("restored revision ");
                s.append(actual.0.as_str());
                s.append(" does not match checkpoint revision ");
                s.append(expected.0.as_str());
                s
            },
            CheckpointError::PreludeMismatch { recorded, active } => {
                let mut s = text("prelude mismatch: checkpoint recorded under ");
                push_prelude(&mut s, recorded);
                s.append(", active prelude is ");
                push_prelude(&mut s, active);
                s
            },
        }
    }
}

/// What the entries take together.
pub open spec fn total_size(entries: Seq<ManifestEntry>) -> nat
    decreases entries.len(),
{
    if entries.len() == 0 {
        0
    } else {
        total_size(entries.drop_last()) + entries.last().size as nat
    }
}

proof fn lemma_total_size_prefix(entries: Seq<ManifestEntry>, k: int)
    requires
        0 <= k <= entries.len(),
    ensures
        total_size(entries.take(k)) <= total_size(entries),
    decreases entries.len(),
{
    if k == entries.len() {
        assert(entries.take(k) =~= entries);
    } else {
        lemma_total_size_prefix(entries.drop_last(), k);
        assert(entries.drop_last().take(k) =~= entries.take(k));
    }
}

/// Whether `r` is what is recorded of a checkpoint of the given entries. Each
/// entry's content is held by the blob named after its place.
pub open spec fn is_record(
    r: StoredCheckpoint,
    task_id: TaskId,
    id: CheckpointId,
    revision: RevisionId,
    head: Option<String>,
    tree: String,
    prelude: Option<PreludeId>,
    entries: Seq<ManifestEntry>,
) -> bool {
    &&& r.checkpoint.id == id
    &&& r.checkpoint.revision == revision
    &&& match head {
        Some(_) => r.checkpoint.backend == (CheckpointBackend::Git { tree }),
        None => r.checkpoint.backend is Filesystem,
    }
    &&& r.task_id == task_id
    &&& r.head == head
    &&& r.prelude == prelude
    &&& r.entries@.len() == entries.len()
    &&& forall|i: int|
        0 <= i < entries.len() ==> (#[trigger] r.entries@[i]).manifest == entries[i]
            && r.entries@[i].blob@ == hex(i as nat, 16)
}

/// What was found at the place of a checkpoint's metadata.
#[derive(Clone, Debug, PartialEq, Eq)]
pub enum MetadataProbe {
    Missing,
    Unreadable(String),
    Invalid(String),
    Stored(StoredCheckpoint),
}

/// What was found at the place of a blob.
#[derive(Clone, Debug, PartialEq, Eq)]
pub enum BlobProbe {
    Unreadable(String),
    Bytes(Vec<u8>),
}

/// Where the checkpoints of a workspace lie, and how much one may hold.
#[derive(Clone, Debug, PartialEq, Eq)]
pub struct CheckpointStore {
    pub workspace: String,
    pub root: String,
    pub byte_cap: u64,
}

impl CheckpointStore {
    /// The store of a workspace.
    pub fn open(workspace: &str) -> (r: CheckpointStore)
        ensures
            r.workspace@ == workspace@,
            r.root@ == below(workspace@, ".mh/checkpoints"@),
            r.byte_cap == DEFAULT_BYTE_CAP,
    {
        CheckpointStore {
            workspace: text(workspace),
            root: join_path(workspace, ".mh/checkpoints"),
            byte_cap: DEFAULT_BYTE_CAP,
        }
    }

    /// The directory of a task's checkpoints.
    pub open spec fn task_place(self, task_id: TaskId) -> Seq<char> {
        below(self.root@, decimal(task_id.0 as nat))
    }

    /// The directory of a checkpoint.
    pub open spec fn place(self, task_id: TaskId, id: CheckpointId) -> Seq<char> {
        below(self.task_place(task_id), decimal(id.0 as nat))
    }

    /// The directory of a task's checkpoints.
    pub fn task_dir(&self, task_id: TaskId) -> (r: String)
        ensures
            r@ == self.task_place(task_id),
    {
        join_path(self.root.as_str(), decimal_text(task_id.0).as_str())
    }

    /// The directory of a checkpoint.
    pub fn checkpoint_dir(&self, task_id: TaskId, id: CheckpointId) -> (r: String)
        ensures
            r@ == self.place(task_id, id),
    {
        join_path(self.task_dir(task_id).as_str(), decimal_text(id.0).as_str())
    }

    /// What the entries take together, where that is within the cap.
    pub fn check_size(&self, entries: &Vec<ManifestEntry>) -> (r: Result<u64, CheckpointError>)
        ensures
            total_size(entries@) > u64::MAX ==> r == Err::<u64, CheckpointError>(
                CheckpointError::SizeLimitExceeded { limit: self.byte_cap, actual: u64::MAX },
            ),
            self.byte_cap < total_size(entries@) <= u64::MAX ==> (r matches Err(
                CheckpointError::SizeLimitExceeded { limit, actual },
            ) && limit == self.byte_cap && actual == total_size(entries@)),
            total_size(entries@) <= self.byte_cap ==> (r matches Ok(n) && n == total_size(
                entries@,
            )),
    {
        let mut total: u64 = 0;
        let mut i: usize = 0;
        while i < entries.len()
            invariant
                i <= entries.len(),
                total == total_size(entries@.take(i as int)),
            decreases entries.len() - i,
        {
            proof {
                assert(entries@.take(i + 1).drop_last() =~= entries@.take(i as int));
                lemma_total_size_prefix(entries@, i + 1);
            }
            match total.checked_add(entries[i].size) {
                Some(sum) => {
                    total = sum;
                },
                None => {
                    return Err(
                        CheckpointError::SizeLimitExceeded {
                            limit: self.byte_cap,
                            actual: u64::MAX,
                        },
                    );
                },
            }
            i = i + 1;
        }
        proof {
            assert(entries@.take(i as int) =~= entries@);
        }
        if total > self.byte_cap {
            return Err(
                CheckpointError::SizeLimitExceeded { limit: self.byte_cap, actual: total },
            );
        }
        Ok(total)
    }

    /// The next checkpoint number of a task, and what the counter then holds.
    /// A task without a counter starts at one.
    pub fn next_id(&self, task_id: TaskId, counter: Option<String>) -> (r: Result<
        (CheckpointId, String),
        CheckpointError,
    >)
        ensures
            match counter {
                None => r matches Ok((id, next)) && id.0 == 1 && next@ == decimal(2),
                Some(value) => match number_of(trimmed(value@)) {
                    Ok(n) => r matches Ok((id, next)) && id.0 == n && next@ == decimal(
                        if n < u64::MAX {
                            n + 1
                        } else {
                            n
                        },
                    ),
                    Err(fault) => r matches Err(
                        CheckpointError::InvalidCheckpoint { path, message },
                    ) && path@ == below(self.task_place(task_id), "next-id"@) && message@
                        == fault.text(),
                },
            },
    {
        let next: u64 = match counter {
            None => 1,
            Some(value) => match parse_u64(trim(value.as_str()).as_str()) {
                Ok(n) => n,
                Err(fault) => {
                    return Err(
                        CheckpointError::InvalidCheckpoint {
                            path: join_path(self.task_dir(task_id).as_str(), "next-id"),
                            message: fault.message(),
                        },
                    );
                },
            },
        };
        Ok((CheckpointId(next), decimal_text(next.saturating_add(1))))
    }

    /// What is recorded of a checkpoint. Each entry's content is held by the
    /// blob named after its place.
    pub fn create(
        &self,
        task_id: TaskId,
        id: CheckpointId,
        revision: RevisionId,
        head: Option<String>,
        tree: String,
        prelude: Option<PreludeId>,
        entries: Vec<ManifestEntry>,
    ) -> (r: StoredCheckpoint)
        ensures
            is_record(r, task_id, id, revision, head, tree, prelude, entries@),
    {
        let ghost all = entries@;
        let backend = match &head {
            Some(_) => CheckpointBackend::Git { tree },
            None => CheckpointBackend::Filesystem,
        };
        let mut stored: Vec<StoredEntry> = Vec::new();
        for manifest in iter: entries
            invariant
                iter.seq() == all,
                stored@.len() == iter.index(),
                forall|i: int|
                    0 <= i < stored@.len() ==> (#[trigger] stored@[i]).manifest == all[i]
                        && stored@[i].blob@ == hex(i as nat, 16),
        {
            let n: usize = stored.len();
            stored.push(StoredEntry { manifest, blob: hex16(n as u64) });
        }
        StoredCheckpoint {
            checkpoint: Checkpoint { id, revision, backend },
            task_id,
            head,
            prelude,
            entries: stored,
        }
    }

    /// The place of a checkpoint's metadata.
    pub open spec fn metadata_place(self, task_id: TaskId, id: CheckpointId) -> Seq<char> {
        below(self.place(task_id, id), "checkpoint.json"@)
    }

    /// Whether the repository moved since the checkpoint.
    pub open spec fn head_moved(stored: StoredCheckpoint, actual: Seq<char>) -> bool {
        match stored.head {
            Some(expected) => expected@ != actual,
            None => false,
        }
    }

    /// Whether `r` is the judgement on a restore. The checkpoint must exist, be
    /// readable, belong to the task, match the handle, have been recorded under
    /// the active prelude, and, in a repository, at the present `HEAD`.
    pub open spec fn restore_judged(
        self,
        task_id: TaskId,
        handle: Checkpoint,
        probe: MetadataProbe,
        active: Option<PreludeId>,
        actual_head: Seq<char>,
        r: Result<StoredCheckpoint, CheckpointError>,
    ) -> bool {
        match probe {
            MetadataProbe::Missing => r == Err::<StoredCheckpoint, CheckpointError>(
                CheckpointError::NotFound { task_id, checkpoint_id: handle.id },
            ),
            MetadataProbe::Unreadable(why) => r matches Err(
                CheckpointError::Io { path, message },
            ) && path@ == self.metadata_place(task_id, handle.id) && message == why,
            MetadataProbe::Invalid(why) => r matches Err(
                CheckpointError::InvalidCheckpoint { path, message },
            ) && path@ == self.metadata_place(task_id, handle.id) && message == why,
            MetadataProbe::Stored(stored) => if stored.task_id != task_id {
                r == Err::<StoredCheckpoint, CheckpointError>(
                    CheckpointError::TaskMismatch {
                        expected: task_id,
                        actual: stored.task_id,
                    },
                )
            } else if stored.checkpoint@ != handle@ {
                r matches Err(CheckpointError::InvalidCheckpoint { path, message }) && path@
                    == self.metadata_place(task_id, handle.id) && message@
                    == "checkpoint metadata does not match supplied handle"@
            } else if !same_prelude_spec(stored.prelude, active) {
                r matches Err(CheckpointError::PreludeMismatch { recorded, active: a })
                    && recorded == stored.prelude && a == active
            } else if Self::head_moved(stored, actual_head) {
                r matches Err(CheckpointError::InvalidCheckpoint { path, message }) && path@
                    == self.place(task_id, handle.id) && message@ == "Git HEAD changed from "@
                    + stored.head->0@ + " to "@ + actual_head
            } else {
                r == Ok::<StoredCheckpoint, CheckpointError>(stored)
            },
        }
    }

    /// Whether a checkpoint may be restored, and what it holds. It must exist,
    /// be readable, belong to the task, match the handle, have been recorded
    /// under the active prelude, and, in a repository, at the present `HEAD`.
    pub fn check_restore(
        &self,
        task_id: TaskId,
        handle: &Checkpoint,
        probe: MetadataProbe,
        active: &Option<PreludeId>,
        actual_head: &str,
    ) -> (r: Result<StoredCheckpoint, CheckpointError>)
        ensures
            self.restore_judged(task_id, *handle, probe, *active, actual_head@, r),
    {
        let dir = self.checkpoint_dir(task_id, handle.id);
        let metadata_path = join_path(dir.as_str(), "checkpoint.json");
        let stored = match probe {
            MetadataProbe::Missing => {
                return Err(CheckpointError::NotFound { task_id, checkpoint_id: handle.id });
            },
            MetadataProbe::Unreadable(message) => {
                return Err(CheckpointError::Io { path: metadata_path, message });
            },
            MetadataProbe::Invalid(message) => {
                return Err(CheckpointError::InvalidCheckpoint { path: metadata_path, message });
            },
            MetadataProbe::Stored(stored) => stored,
        };
        if stored.task_id.0 != task_id.0 {
            return Err(
                CheckpointError::TaskMismatch { expected: task_id, actual: stored.task_id },
            );
        }
        if !stored.checkpoint.same(handle) {
            return Err(
                CheckpointError::InvalidCheckpoint {
                    path: metadata_path,
                    message: text("checkpoint metadata does not match supplied handle"),
                },
            );
        }
        if !same_prelude(&stored.prelude, active) {
            return Err(
                CheckpointError::PreludeMismatch {
                    recorded: stored.prelude,
                    active: copy_prelude(active),
                },
            );
        }
        match &stored.head {
            Some(expected) => {
                if !same(expected.as_str(), actual_head) {
                    let mut message = text("Git HEAD changed from ");
                    message.append(expected.as_str());
                    message.append(" to ");
                    message.append(actual_head);
                    return Err(CheckpointError::InvalidCheckpoint { path: dir, message });
                }
            },
            None => {},
        }
        Ok(stored)
    }

    /// Whether `r` is how a restore begins: at the blobs of the checkpoint, where
    /// it may be restored, else not at all.
    pub open spec fn restore_begun(
        self,
        task_id: TaskId,
        handle: Checkpoint,
        probe: MetadataProbe,
        active: Option<PreludeId>,
        actual_head: Seq<char>,
        r: Result<Restoration, CheckpointError>,
    ) -> bool {
        match r {
            Ok(begun) => {
                &&& self.restore_judged(
                    task_id,
                    handle,
                    probe,
                    active,
                    actual_head,
                    Ok(begun.stored),
                )
                &&& begun.wf()
                &&& begun.workspace@ == self.workspace@
                &&& begun.dir@ == self.place(task_id, handle.id)
                &&& begun.byte_cap == self.byte_cap
                &&& begun.stale@.len() == 0
                &&& begun.phase is ReadBlobs
            },
            Err(e) => self.restore_judged(task_id, handle, probe, active, actual_head, Err(e)),
        }
    }

    /// Begins to restore a checkpoint, where it may be restored. Its blobs are
    /// read first.
    pub fn restore(
        &self,
        task_id: TaskId,
        handle: &Checkpoint,
        probe: MetadataProbe,
        active: &Option<PreludeId>,
        actual_head: &str,
    ) -> (r: Result<Restoration, CheckpointError>)
        ensures
            self.restore_begun(task_id, *handle, probe, *active, actual_head@, r),
    {
        match self.check_restore(task_id, handle, probe, active, actual_head) {
            Err(e) => Err(e),
            Ok(stored) => Ok(
                Restoration {
                    workspace: self.workspace.clone(),
                    dir: self.checkpoint_dir(task_id, handle.id),
                    byte_cap: self.byte_cap,
                    stored,
                    stale: Vec::new(),
                    phase: RestorePhase::ReadBlobs,
                },
            ),
        }
    }
}

/// The place of a blob.
pub open spec fn blob_place(dir: Seq<char>, blob: Seq<char>) -> Seq<char> {
    below(below(dir, "blobs"@), blob)
}

/// Whether a blob holds what its entry says.
pub open spec fn blob_matches(entry: StoredEntry, bytes: Seq<u8>) -> bool {
    sha256_hex(bytes) == entry.manifest.content_hash@ && bytes.len() == entry.manifest.size
}

/// Whether `r` is the verdict on the blobs from `i` on, those before them
/// holding `total` bytes.
pub open spec fn blobs_judged(
    dir: Seq<char>,
    entries: Seq<StoredEntry>,
    blobs: Seq<BlobProbe>,
    limit: u64,
    i: int,
    total: nat,
    r: Result<(), CheckpointError>,
) -> bool
    decreases entries.len() - i,
{
    if i < 0 || i >= entries.len() {
        r is Ok
    } else if !safe(entries[i].manifest.path@) {
        r matches Err(CheckpointError::InvalidCheckpoint { path, message }) && path@ == dir
            && message@ == "unsafe path "@ + entries[i].manifest.path@
    } else {
        match blobs[i] {
            BlobProbe::Unreadable(why) => r matches Err(CheckpointError::Io { path, message })
                && path@ == blob_place(dir, entries[i].blob@) && message == why,
            BlobProbe::Bytes(bytes) => {
                let sum = total + bytes@.len();
                if sum > limit {
                    r matches Err(CheckpointError::SizeLimitExceeded { limit: l, actual }) && l
                        == limit && actual == if sum > u64::MAX {
                        u64::MAX as nat
                    } else {
                        sum
                    }
                } else if !blob_matches(entries[i], bytes@) {
                    r matches Err(CheckpointError::InvalidCheckpoint { path, message }) && path@
                        == blob_place(dir, entries[i].blob@) && message@
                        == "blob content hash or size mismatch"@
                } else {
                    blobs_judged(dir, entries, blobs, limit, i + 1, sum, r)
                }
            },
        }
    }
}

/// Judges the blobs of a checkpoint, in order: each path must be safe, the
/// content must be readable and within the limit, and it must have the hash and
/// size that were recorded.
pub fn validate_blobs(
    dir: &str,
    entries: &Vec<StoredEntry>,
    blobs: &Vec<BlobProbe>,
    limit: u64,
) -> (r: Result<(), CheckpointError>)
    requires
        entries@.len() == blobs@.len(),
    ensures
        blobs_judged(dir@, entries@, blobs@, limit, 0, 0, r),
{
    let mut total: u64 = 0;
    let mut i: usize = 0;
    while i < entries.len()
        invariant
            i <= entries.len(),
            entries@.len() == blobs@.len(),
            total <= limit,
            forall|r: Result<(), CheckpointError>| #[trigger]
                blobs_judged(dir@, entries@, blobs@, limit, 0, 0, r) == blobs_judged(
                    dir@,
                    entries@,
                    blobs@,
                    limit,
                    i as int,
                    total as nat,
                    r,
                ),
        decreases entries.len() - i,
    {
        let entry = &entries[i];
        if !safe_relative(entry.manifest.path.as_str()) {
            let mut message = text("unsafe path ");
            message.append(entry.manifest.path.as_str());
            return Err(CheckpointError::InvalidCheckpoint { path: text(dir), message });
        }
        let path = join_path(join_path(dir, "blobs").as_str(), entry.blob.as_str());
        match &blobs[i] {
            BlobProbe::Unreadable(why) => {
                return Err(CheckpointError::Io { path, message: why.clone() });
            },
            BlobProbe::Bytes(bytes) => {
                let size: u64 = bytes.len() as u64;
                total =
                match total.checked_add(size) {
                    Some(sum) => sum,
                    None => {
                        return Err(
                            CheckpointError::SizeLimitExceeded { limit, actual: u64::MAX },
                        );
                    },
                };
                if total > limit {
                    return Err(CheckpointError::SizeLimitExceeded { limit, actual: total });
                }
                let hash = hash_text(bytes.as_slice());
                if !same(hash.as_str(), entry.manifest.content_hash.as_str()) || size
                    != entry.manifest.size {
                    return Err(
                        CheckpointError::InvalidCheckpoint {
                            path,
                            message: text("blob content hash or size mismatch"),
                        },
                    );
                }
            },
        }
        i = i + 1;
    }
    Ok(())
}

/// Blobs pass only where every path is safe and every content has the recorded
/// hash and size.
pub proof fn law_valid_blobs_are_intact(
    dir: Seq<char>,
    entries: Seq<StoredEntry>,
    blobs: Seq<BlobProbe>,
    limit: u64,
    i: int,
    total: nat,
    k: int,
)
    requires
        entries.len() == blobs.len(),
        0 <= i <= k < entries.len(),
        blobs_judged(dir, entries, blobs, limit, i, total, Ok(())),
    ensures
        safe(entries[k].manifest.path@),
        blobs[k] matches BlobProbe::Bytes(bytes) && blob_matches(entries[k], bytes@),
    decreases entries.len() - i,
{
    if i < k {
        match blobs[i] {
            BlobProbe::Bytes(bytes) => {
                law_valid_blobs_are_intact(
                    dir,
                    entries,
                    blobs,
                    limit,
                    i + 1,
                    total + bytes@.len(),
                    k,
                );
            },
            _ => {},
        }
    }
}

/// Whether `r` is the judgement on the ancestors of a restored path, from `i` on.
pub open spec fn ancestors_judged(
    ancestors: Seq<String>,
    found: Seq<EntryProbe>,
    i: int,
    r: Result<(), CheckpointError>,
) -> bool
    decreases ancestors.len() - i,
{
    if i < 0 || i >= ancestors.len() {
        r is Ok
    } else {
        match found[i] {
            EntryProbe::Missing => r is Ok,
            EntryProbe::Directory => ancestors_judged(ancestors, found, i + 1, r),
            EntryProbe::Unreadable(why) => r matches Err(CheckpointError::Io { path, message })
                && path == ancestors[i] && message == why,
            _ => r matches Err(CheckpointError::InvalidCheckpoint { path, message }) && path
                == ancestors[i] && message@ == "restore path ancestor is not a real directory"@,
        }
    }
}

/// Judges what was found at the ancestors of a restored path, from the top:
/// only real directories may stand there, down to where nothing does.
pub fn validate_restore_ancestors(ancestors: &Vec<String>, found: &Vec<EntryProbe>) -> (r: Result<
    (),
    CheckpointError,
>)
    requires
        ancestors@.len() == found@.len(),
    ensures
        ancestors_judged(ancestors@, found@, 0, r),
{
    let mut i: usize = 0;
    while i < ancestors.len()
        invariant
            i <= ancestors.len(),
            ancestors@.len() == found@.len(),
            forall|r: Result<(), CheckpointError>| #[trigger]
                ancestors_judged(ancestors@, found@, 0, r) == ancestors_judged(
                    ancestors@,
                    found@,
                    i as int,
                    r,
                ),
        decreases ancestors.len() - i,
    {
        match &found[i] {
            EntryProbe::Missing => {
                return Ok(());
            },
            EntryProbe::Directory => {},
            EntryProbe::Unreadable(why) => {
                return Err(
                    CheckpointError::Io { path: ancestors[i].clone(), message: why.clone() },
                );
            },
            _ => {
                return Err(
                    CheckpointError::InvalidCheckpoint {
                        path: ancestors[i].clone(),
                        message: text("restore path ancestor is not a real directory"),
                    },
                );
            },
        }
        i = i + 1;
    }
    Ok(())
}

/// What is done about one directory above a restored path: a real directory is
/// kept, a missing one is made, and anything else is refused.
pub fn create_safe_parents(path: &str, found: &EntryProbe) -> (r: Result<
    ParentStep,
    CheckpointError,
>)
    ensures
        match *found {
            EntryProbe::Directory => r == Ok::<ParentStep, CheckpointError>(ParentStep::Keep),
            EntryProbe::Missing => r == Ok::<ParentStep, CheckpointError>(ParentStep::Create),
            EntryProbe::Unreadable(why) => r matches Err(CheckpointError::Io { path: p, message })
                && p@ == path@ && message == why,
            _ => r matches Err(CheckpointError::InvalidCheckpoint { path: p, message }) && p@
                == path@ && message@ == "restore path ancestor is not a real directory"@,
        },
{
    match found {
        EntryProbe::Directory => Ok(ParentStep::Keep),
        EntryProbe::Missing => Ok(ParentStep::Create),
        EntryProbe::Unreadable(why) => Err(
            CheckpointError::Io { path: text(path), message: why.clone() },
        ),
        _ => Err(
            CheckpointError::InvalidCheckpoint {
                path: text(path),
                message: text("restore path ancestor is not a real directory"),
            },
        ),
    }
}

/// The present paths that a checkpoint does not hold, in order: those are
/// removed where it is restored.
pub fn stale_paths(current: &Vec<String>, desired: &Vec<String>) -> (r: Vec<String>)
    ensures
        r@ == current@.filter(|p: String| !holds(desired@, components(p@))),
{
    let mut out: Vec<String> = Vec::new();
    let ghost stale = |p: String| !holds(desired@, components(p@));
    let mut i: usize = 0;
    proof {
        reveal_with_fuel(Seq::filter, 1);
        assert(out@ =~= current@.take(0).filter(stale));
    }
    while i < current.len()
        invariant
            i <= current.len(),
            stale == (|p: String| !holds(desired@, components(p@))),
            out@ == current@.take(i as int).filter(stale),
        decreases current.len() - i,
    {
        proof {
            let done = current@.take(i as int);
            assert(current@.take(i + 1) =~= done.push(current@[i as int]));
            done.lemma_filter_push(current@[i as int], stale);
        }
        if !holds_path(desired, current[i].as_str()) {
            out.push(current[i].clone());
        }
        i = i + 1;
    }
    proof {
        assert(current@.take(i as int) =~= current@);
    }
    out
}

/// A checkpoint that was made can be restored: by its own task, with its handle,
/// under the prelude it was made under and, in a repository, at the same `HEAD`.
pub proof fn law_made_checkpoints_can_be_restored(
    store: CheckpointStore,
    task_id: TaskId,
    id: CheckpointId,
    revision: RevisionId,
    head: Option<String>,
    tree: String,
    prelude: Option<PreludeId>,
    entries: Seq<ManifestEntry>,
    stored: StoredCheckpoint,
    active: Option<PreludeId>,
    actual_head: Seq<char>,
    r: Result<StoredCheckpoint, CheckpointError>,
)
    requires
        is_record(stored, task_id, id, revision, head, tree, prelude, entries),
        same_prelude_spec(prelude, active),
        head matches Some(h) ==> h@ == actual_head,
        store.restore_judged(
            task_id,
            stored.checkpoint,
            MetadataProbe::Stored(stored),
            active,
            actual_head,
            r,
        ),
    ensures
        r == Ok::<StoredCheckpoint, CheckpointError>(stored),
{
}

/// A checkpoint made in another tool environment is never restored.
pub proof fn law_restore_needs_the_same_prelude(
    store: CheckpointStore,
    task_id: TaskId,
    handle: Checkpoint,
    stored: StoredCheckpoint,
    active: Option<PreludeId>,
    actual_head: Seq<char>,
    r: Result<StoredCheckpoint, CheckpointError>,
)
    requires
        !same_prelude_spec(stored.prelude, active),
        store.restore_judged(
            task_id,
            handle,
            MetadataProbe::Stored(stored),
            active,
            actual_head,
            r,
        ),
    ensures
        r is Err,
{
}

/// What the entries from a place on take together.
pub open spec fn size_from(entries: Seq<StoredEntry>, i: int) -> nat
    decreases entries.len() - i,
{
    if i < 0 || i >= entries.len() {
        0
    } else {
        entries[i].manifest.size as nat + size_from(entries, i + 1)
    }
}

/// Blobs that hold what was captured pass, as long as they are within the limit.
pub proof fn law_intact_blobs_pass(
    dir: Seq<char>,
    entries: Seq<StoredEntry>,
    blobs: Seq<BlobProbe>,
    limit: u64,
    i: int,
    total: nat,
    r: Result<(), CheckpointError>,
)
    requires
        entries.len() == blobs.len(),
        0 <= i <= entries.len(),
        total + size_from(entries, i) <= limit,
        forall|k: int|
            i <= k < entries.len() ==> safe((#[trigger] entries[k]).manifest.path@) && (
            blobs[k] matches BlobProbe::Bytes(bytes) && blob_matches(entries[k], bytes@)),
        blobs_judged(dir, entries, blobs, limit, i, total, r),
    ensures
        r is Ok,
    decreases entries.len() - i,
{
    if i < entries.len() {
        assert(safe(entries[i].manifest.path@));
        match blobs[i] {
            BlobProbe::Bytes(bytes) => {
                law_intact_blobs_pass(dir, entries, blobs, limit, i + 1, total + bytes@.len(), r);
            },
            _ => {},
        }
    }
}

} // verus!
