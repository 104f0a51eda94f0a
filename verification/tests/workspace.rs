use std::collections::BTreeMap;

use mh::checkpoint::{
    create_safe_parents, stale_paths, validate_blobs, validate_restore_ancestors, BlobProbe,
    CheckpointError, CheckpointStore, EntryKind, ManifestEntry, MetadataProbe,
    StoredCheckpoint, StoredEntry,
};
use mh::digest::hash_text;
use mh::identity::{
    CheckpointId, ExecutionId, IsolatedWorkspaceId, PreludeId, RevisionId, TaskId,
};
use mh::isolation::{
    apply_plan, conflicting_child_paths, parent_step, read_overlapping_entries,
    replace_workspace_entries, restore_delta, validate_ancestors, validate_destination,
    validate_entry, workspace_of_name, Integration, IntegrationPhase, IntegrationProgress, IntegrationResult,
    IsolatedWorkspaceRecord, IsolationError, IsolationStore, ParentStep, RecordProbe, StepResult,
    WorkspaceDelta,
};
use mh::paths::{
    ancestor_paths, executable_mode, path_depth, paths_overlap, removal_order, safe_relative,
    same_path, sorted_paths, EntryProbe,
};
use mh::restore::{Above, Restoration, RestorePhase, RestoreProgress, RestoreStep};

fn revision(id: &str) -> RevisionId {
    RevisionId(id.to_string())
}

fn strings(items: &[&str]) -> Vec<String> {
    items.iter().map(|i| i.to_string()).collect()
}

fn store() -> IsolationStore {
    IsolationStore::open("/ws", Some("/ws".to_string())).unwrap()
}

fn record(id: u64, changed: &[&str]) -> IsolatedWorkspaceRecord {
    IsolatedWorkspaceRecord {
        id: IsolatedWorkspaceId(id),
        owner_task_id: TaskId(1),
        owner_execution_id: ExecutionId(2),
        path: format!("/ws/.mh/workspaces/{id}/worktree"),
        base_revision: revision("r1"),
        final_revision: revision("r2"),
        changed_paths: strings(changed),
    }
}

#[test]
fn isolation_needs_a_git_root() {
    assert_eq!(store().root, "/ws/.mh/workspaces");
    for root in [None, Some("/".to_string())] {
        let error = IsolationStore::open("/ws", root).unwrap_err();
        assert!(matches!(&error, IsolationError::UnsupportedWorkspace { .. }));
        assert!(error.message().contains("requires a Git-root workspace"));
    }
}

#[test]
fn a_workspace_materializes_at_the_parents_revision() {
    let store = store();
    let id = IsolatedWorkspaceId(3);
    assert_eq!(store.check_create(id, false, &revision("r1"), &revision("r1")), Ok(()));
    assert_eq!(
        store.check_create(id, true, &revision("r1"), &revision("r1")),
        Err(IsolationError::AlreadyExists(id))
    );
    let error = store.check_create(id, false, &revision("r1"), &revision("r2")).unwrap_err();
    assert_eq!(
        error.message(),
        "workspace revision mismatch at /ws: expected r1, found r2"
    );
    let made = store
        .create(id, TaskId(1), ExecutionId(2), &revision("r1"), revision("r1"))
        .unwrap();
    assert_eq!(made.path, "/ws/.mh/workspaces/3/worktree");
    assert!(made.changed_paths.is_empty());
    assert!(store
        .create(id, TaskId(1), ExecutionId(2), &revision("r1"), revision("r9"))
        .is_err());
}

#[test]
fn the_path_of_a_record_is_compared_by_components() {
    let store = store();
    let id = IsolatedWorkspaceId(3);
    for path in ["/ws/.mh/workspaces//3/worktree", "/ws/./.mh/workspaces/3/./worktree/"] {
        assert!(same_path(path, &store.worktree_path(id)));
        let other = IsolatedWorkspaceRecord { path: path.to_string(), ..record(3, &[]) };
        assert_eq!(store.load(id, RecordProbe::Record(other.clone())), Ok(other.clone()));
        assert_eq!(
            store.discard(id, RecordProbe::Record(other)),
            Ok((path.to_string(), "/ws/.mh/workspaces/3".to_string()))
        );
    }
    for path in ["/ws/.mh/workspaces/3", "/ws/.mh/workspaces/3/worktree/a", "worktree", ""] {
        assert!(!same_path(path, &store.worktree_path(id)));
        let other = IsolatedWorkspaceRecord { path: path.to_string(), ..record(3, &[]) };
        assert!(matches!(
            store.load(id, RecordProbe::Record(other)),
            Err(IsolationError::InvalidRecord { .. })
        ));
    }
}

/// What lies at the place of a record.
fn lying(
    records: &BTreeMap<String, IsolatedWorkspaceRecord>,
    store: &IsolationStore,
    id: IsolatedWorkspaceId,
) -> RecordProbe {
    match records.get(&store.record_path(id)) {
        Some(record) => RecordProbe::Record(record.clone()),
        None => RecordProbe::Missing,
    }
}

fn remove_below(records: &mut BTreeMap<String, IsolatedWorkspaceRecord>, dir: &str) {
    records.retain(|path, _| !path.starts_with(&format!("{dir}/")));
}

#[test]
fn a_workspace_that_is_gone_is_not_found() {
    let store = store();
    let mut records = BTreeMap::new();
    for id in [1, 2, 12] {
        records.insert(store.record_path(IsolatedWorkspaceId(id)), record(id, &["a"]));
    }
    let one = IsolatedWorkspaceId(1);
    let (_, dir) = store.discard(one, lying(&records, &store, one)).unwrap();
    remove_below(&mut records, &dir);
    assert_eq!(
        store.load(one, lying(&records, &store, one)),
        Err(IsolationError::NotFound(one))
    );
    assert_eq!(
        store.discard(one, lying(&records, &store, one)),
        Err(IsolationError::NotFound(one))
    );
    let twelve = IsolatedWorkspaceId(12);
    assert_eq!(store.load(twelve, lying(&records, &store, twelve)), Ok(record(12, &["a"])));

    let two = IsolatedWorkspaceId(2);
    let loaded = store.load(two, lying(&records, &store, two)).unwrap();
    let delta = WorkspaceDelta { added: vec![], modified: vec![], deleted: vec![] };
    let mut progress = store.integrate(loaded, revision("r1"), &delta);
    let end = loop {
        progress = match progress {
            IntegrationProgress::Finished(end) => break end,
            IntegrationProgress::Continue(at) => {
                assert!(store.load(two, lying(&records, &store, two)).is_ok());
                let result = match &at.phase {
                    IntegrationPhase::ReadChild => StepResult::Revision(Ok(revision("r2"))),
                    IntegrationPhase::ReadParent => StepResult::Revision(Ok(revision("r3"))),
                    IntegrationPhase::Discard(_) => {
                        remove_below(&mut records, &store.workspace_dir(at.record.id));
                        StepResult::Step(Ok(()))
                    }
                    _ => StepResult::Step(Ok(())),
                };
                at.next(result)
            }
        };
    };
    assert!(matches!(end, Ok(IntegrationResult::Applied { .. })));
    assert_eq!(
        store.load(two, lying(&records, &store, two)),
        Err(IsolationError::NotFound(two))
    );
    assert_eq!(store.load(twelve, lying(&records, &store, twelve)), Ok(record(12, &["a"])));
    records.insert(store.record_path(two), record(2, &[]));
    assert_eq!(store.load(two, lying(&records, &store, two)), Ok(record(2, &[])));
}

#[test]
fn a_record_must_lie_where_it_belongs() {
    let store = store();
    let id = IsolatedWorkspaceId(3);
    let good = record(3, &[]);
    assert_eq!(store.load(id, RecordProbe::Record(good.clone())), Ok(good.clone()));
    assert_eq!(store.load(id, RecordProbe::Missing), Err(IsolationError::NotFound(id)));
    assert!(matches!(
        store.load(IsolatedWorkspaceId(4), RecordProbe::Record(good.clone())),
        Err(IsolationError::InvalidRecord { .. })
    ));
    assert!(matches!(
        store.load(id, RecordProbe::Unreadable("denied".to_string())),
        Err(IsolationError::Io { .. })
    ));
    assert!(matches!(
        store.load(id, RecordProbe::Invalid("bad".to_string())),
        Err(IsolationError::InvalidRecord { .. })
    ));
    assert_eq!(
        store.discard(id, RecordProbe::Record(good)),
        Ok(("/ws/.mh/workspaces/3/worktree".to_string(), "/ws/.mh/workspaces/3".to_string()))
    );
    assert_eq!(store.discard(id, RecordProbe::Missing), Err(IsolationError::NotFound(id)));
}

#[test]
fn a_settled_worker_is_recorded_with_its_changes() {
    let delta = WorkspaceDelta {
        added: strings(&["b"]),
        modified: strings(&["a", "b"]),
        deleted: strings(&["c"]),
    };
    let done = store().finalize(record(3, &[]), revision("r5"), &delta);
    assert_eq!(done.final_revision, revision("r5"));
    assert_eq!(done.changed_paths, strings(&["a", "b", "c"]));
}

fn delta(modified: &[&str]) -> WorkspaceDelta {
    WorkspaceDelta { added: vec![], modified: strings(modified), deleted: vec![] }
}

#[test]
fn a_diverged_parent_is_a_conflict_and_nothing_is_applied() {
    let child = record(3, &["src/b", "src/a.rs", "docs"]);
    let progress = store().integrate(child, revision("r4"), &delta(&["src/b/deep.rs", "docs"]));
    assert_eq!(
        progress,
        IntegrationProgress::Finished(Ok(IntegrationResult::Conflict {
            child_base: revision("r1"),
            parent_current: revision("r4"),
            paths: strings(&["src/b", "docs"]),
        }))
    );
}

fn go_on(progress: IntegrationProgress, phase: IntegrationPhase) -> Integration {
    match progress {
        IntegrationProgress::Continue(i) => {
            assert_eq!(i.phase, phase);
            i
        }
        other => panic!("the integration goes on: {other:?}"),
    }
}

#[test]
fn an_integration_runs_to_its_end() {
    let start = store().integrate(record(3, &["a"]), revision("r4"), &delta(&["z"]));
    let i = go_on(start, IntegrationPhase::ReadChild);
    let i = go_on(i.next(StepResult::Revision(Ok(revision("r2")))), IntegrationPhase::Prepare);
    let i = go_on(i.next(StepResult::Step(Ok(()))), IntegrationPhase::Apply);
    let i = go_on(i.next(StepResult::Step(Ok(()))), IntegrationPhase::ReadParent);
    let i = go_on(
        i.next(StepResult::Revision(Ok(revision("r9")))),
        IntegrationPhase::Discard(revision("r9")),
    );
    assert_eq!(
        i.next(StepResult::Step(Ok(()))),
        IntegrationProgress::Finished(Ok(IntegrationResult::Applied {
            previous_revision: revision("r4"),
            current_revision: revision("r9"),
            changed_paths: strings(&["a"]),
        }))
    );
}

#[test]
fn a_failed_integration_is_rolled_back() {
    let failure = || IsolationError::NotFound(IsolatedWorkspaceId(3));
    let at = |phase: IntegrationPhase| Integration {
        parent: "/ws".to_string(),
        record: record(3, &["a"]),
        previous: revision("r4"),
        phase,
    };
    let i = go_on(
        at(IntegrationPhase::Apply).next(StepResult::Step(Err(failure()))),
        IntegrationPhase::RollBack { error: failure(), cleanup: false },
    );
    assert_eq!(
        i.next(StepResult::Step(Ok(()))),
        IntegrationProgress::Finished(Err(failure()))
    );
    let i = go_on(
        at(IntegrationPhase::Discard(revision("r9"))).next(StepResult::Step(Err(failure()))),
        IntegrationPhase::RollBack { error: failure(), cleanup: true },
    );
    match i.next(StepResult::Step(Err(IsolationError::AlreadyExists(IsolatedWorkspaceId(4))))) {
        IntegrationProgress::Finished(Err(error)) => assert_eq!(
            error.message(),
            "invalid isolated workspace record /ws: workspace cleanup failed (isolated workspace \
             3 was not found); rollback also failed (isolated workspace 4 already exists)"
        ),
        other => panic!("both failures are reported: {other:?}"),
    }
    assert!(matches!(
        at(IntegrationPhase::ReadChild).next(StepResult::Revision(Ok(revision("r3")))),
        IntegrationProgress::Finished(Err(IsolationError::RevisionMismatch { .. }))
    ));
}

#[test]
fn deltas_are_applied_and_undone_in_order() {
    let (deletions, writes) =
        apply_plan(&strings(&["a", "d/x", "d", "b"]), &strings(&["b", "a", "other"]));
    assert_eq!(deletions, strings(&["d/x", "d"]));
    assert_eq!(writes, strings(&["a", "b"]));
    let (removals, writes) = restore_delta(&strings(&["a", "d/x"]), &strings(&["d/x", "a"]));
    assert_eq!(removals, strings(&["d/x", "a"]));
    assert_eq!(writes, strings(&["a", "d/x"]));
    assert_eq!(
        replace_workspace_entries(&strings(&["a", "d/e", "z"]), &strings(&["a"])),
        strings(&["d/e", "z"])
    );
    assert_eq!(
        read_overlapping_entries(&strings(&["a", "d/e", "z"]), &strings(&["d", "z"])),
        strings(&["d/e", "z"])
    );
    assert_eq!(
        conflicting_child_paths(&strings(&["a/b", "c"]), &strings(&["a"])),
        strings(&["a/b"])
    );
}

#[test]
fn nothing_is_written_through_a_symlink() {
    let above = ancestor_paths("/ws", "a/b/c.rs");
    assert_eq!(above, strings(&["/ws/a", "/ws/a/b"]));
    let link = vec![EntryProbe::Directory, EntryProbe::Symlink];
    assert!(matches!(
        validate_ancestors(&above, &link),
        Err(IsolationError::InvalidRecord { path, .. }) if path == "/ws/a/b"
    ));
    let missing = vec![EntryProbe::Missing, EntryProbe::Symlink];
    assert_eq!(validate_ancestors(&above, &missing), Ok(()));
    assert!(validate_restore_ancestors(&above, &link).is_err());
    assert_eq!(validate_destination("src/a.rs"), Ok(()));
    for path in ["../a", "/a", ".git/config", ".mh/x", ""] {
        assert!(!safe_relative(path), "{path}");
        assert!(matches!(
            validate_destination(path),
            Err(IsolationError::InvalidRecord { path: p, message })
                if p == path && message == "unsafe changed path"
        ));
        assert!(matches!(
            validate_entry(path),
            Err(IsolationError::InvalidRecord { path: p, message })
                if p == path && message == "unsafe workspace path"
        ));
    }
    assert_eq!(validate_entry("src/a.rs"), Ok(()));
    assert_eq!(parent_step("/ws/a", &EntryProbe::Missing), Ok(ParentStep::Create));
    assert_eq!(parent_step("/ws/a", &EntryProbe::Directory), Ok(ParentStep::Keep));
    assert!(parent_step("/ws/a", &EntryProbe::Symlink).is_err());
    assert!(create_safe_parents("/ws/a", &EntryProbe::Other).is_err());
}

#[test]
fn paths_are_compared_by_components() {
    assert!(paths_overlap("a/b", "a"));
    assert!(paths_overlap("a", "a/b"));
    assert!(paths_overlap("a//b/", "a/./b"));
    assert!(!paths_overlap("ab", "a"));
    assert_eq!(path_depth("a/b/c"), 3);
    assert_eq!(removal_order(&strings(&["a", "a/b", "c"])), strings(&["a/b", "c", "a"]));
    assert_eq!(sorted_paths(&strings(&["b", "a/z", "a"])), strings(&["a", "a/z", "b"]));
    assert_eq!(executable_mode(0o644, true), 0o755);
    assert_eq!(executable_mode(0o755, false), 0o644);
}

#[test]
fn owned_workspaces_are_cleaned_up_together() {
    let store = store();
    let mut other = record(4, &[]);
    other.owner_task_id = TaskId(9);
    let loaded = vec![
        Ok(record(3, &[])),
        Err(IsolationError::NotFound(IsolatedWorkspaceId(8))),
        Ok(other),
        Ok(record(5, &[])),
    ];
    let owned = store.cleanup_owner(loaded, TaskId(1)).unwrap();
    let ids: Vec<u64> = owned.iter().map(|r| r.id.0).collect();
    assert_eq!(ids, vec![3, 5]);
    let damaged = IsolationError::InvalidRecord {
        path: "p".to_string(),
        message: "bad".to_string(),
    };
    assert_eq!(
        store.cleanup_owner(vec![Ok(record(3, &[])), Err(damaged.clone())], TaskId(1)),
        Err(damaged)
    );
    assert_eq!(workspace_of_name("12"), Some(IsolatedWorkspaceId(12)));
    assert_eq!(workspace_of_name("x"), None);
}

fn entry(path: &str, bytes: &[u8]) -> ManifestEntry {
    ManifestEntry {
        path: path.to_string(),
        kind: EntryKind::File,
        executable: false,
        size: bytes.len() as u64,
        content_hash: hash_text(bytes),
    }
}

#[test]
fn checkpoints_are_numbered_by_task() {
    let store = CheckpointStore::open("/ws");
    let (id, counter) = store.next_id(TaskId(1), None).unwrap();
    assert_eq!(id, CheckpointId(1));
    let (next, _) = store.next_id(TaskId(1), Some(counter)).unwrap();
    assert_eq!(next, CheckpointId(2));
    assert!(store.next_id(TaskId(1), Some("x".to_string())).is_err());
    assert!(store.checkpoint_dir(TaskId(1), id).starts_with(&store.task_dir(TaskId(1))));
}

#[test]
fn a_checkpoint_is_restored_under_its_own_prelude_only() {
    let store = CheckpointStore::open("/ws");
    let prelude = Some(PreludeId("sha256:p".to_string()));
    let stored = store.create(
        TaskId(1),
        CheckpointId(1),
        revision("r1"),
        Some("head".to_string()),
        "tree".to_string(),
        prelude.clone(),
        vec![entry("a", b"x")],
    );
    let handle = stored.checkpoint.clone();
    let probe = || MetadataProbe::Stored(stored.clone());
    assert!(store.check_restore(TaskId(1), &handle, probe(), &prelude, "head").is_ok());
    let other = Some(PreludeId("sha256:q".to_string()));
    assert!(matches!(
        store.check_restore(TaskId(1), &handle, probe(), &other, "head"),
        Err(CheckpointError::PreludeMismatch { .. })
    ));
    assert!(store.check_restore(TaskId(2), &handle, probe(), &prelude, "head").is_err());
    assert!(store.check_restore(TaskId(1), &handle, probe(), &prelude, "moved").is_err());
    assert!(store
        .check_restore(TaskId(1), &handle, MetadataProbe::Missing, &prelude, "head")
        .is_err());
    assert!(store.restore(TaskId(1), &handle, probe(), &other, "head").is_err());
    let begun = store.restore(TaskId(1), &handle, probe(), &prelude, "head").unwrap();
    assert_eq!(begun.phase, RestorePhase::ReadBlobs);
    assert_eq!(begun.dir, store.checkpoint_dir(TaskId(1), CheckpointId(1)));
}

fn stored_pair(store: &CheckpointStore) -> StoredCheckpoint {
    store.create(
        TaskId(1),
        CheckpointId(1),
        revision("r1"),
        None,
        String::new(),
        None,
        vec![entry("a", b"x"), entry("d/b", b"yy")],
    )
}

fn begun() -> Restoration {
    let store = CheckpointStore::open("/ws");
    let stored = stored_pair(&store);
    let handle = stored.checkpoint.clone();
    store.restore(TaskId(1), &handle, MetadataProbe::Stored(stored), &None, "").unwrap()
}

fn go(r: Restoration, step: RestoreStep) -> Restoration {
    match r.next(step) {
        RestoreProgress::Continue(next) => next,
        RestoreProgress::Finished(end) => panic!("{end:?}"),
    }
}

fn end(r: Restoration, step: RestoreStep) -> Result<RevisionId, CheckpointError> {
    match r.next(step) {
        RestoreProgress::Continue(next) => panic!("{next:?}"),
        RestoreProgress::Finished(end) => end,
    }
}

fn blobs(first: &[u8]) -> RestoreStep {
    RestoreStep::Blobs(vec![BlobProbe::Bytes(first.to_vec()), BlobProbe::Bytes(b"yy".to_vec())])
}

fn above(found: EntryProbe) -> RestoreStep {
    RestoreStep::Above(vec![
        Above { ancestors: ancestor_paths("/ws", "a"), found: vec![] },
        Above { ancestors: ancestor_paths("/ws", "d/b"), found: vec![found] },
    ])
}

#[test]
fn a_restore_removes_writes_and_compares() {
    let r = go(begun(), blobs(b"x"));
    assert_eq!(r.phase, RestorePhase::LookAbove);
    let r = go(r, above(EntryProbe::Missing));
    assert_eq!(r.phase, RestorePhase::ListPaths);
    let r = go(r, RestoreStep::Paths(Ok(strings(&["a", "c", "e/f"]))));
    assert_eq!(r.stale, strings(&["c", "e/f"]));
    assert_eq!(r.phase, RestorePhase::Remove(0));
    let r = go(r, RestoreStep::Changed(Ok(())));
    assert_eq!(r.phase, RestorePhase::Remove(1));
    let r = go(r, RestoreStep::Changed(Ok(())));
    assert_eq!(r.phase, RestorePhase::Write(0));
    let r = go(r, RestoreStep::Changed(Ok(())));
    let r = go(r, RestoreStep::Changed(Ok(())));
    assert_eq!(r.phase, RestorePhase::ReadRevision);
    assert_eq!(end(r, RestoreStep::Revision(Ok(revision("r1")))), Ok(revision("r1")));
}

type Files = BTreeMap<String, (EntryKind, bool, Vec<u8>)>;

fn put(files: &mut Files, path: &str, held: (EntryKind, bool, Vec<u8>)) {
    files.retain(|p, _| p != path && !p.starts_with(&format!("{path}/")));
    files.insert(path.to_string(), held);
}

#[test]
fn a_restore_leaves_what_was_captured() {
    let mut files = Files::new();
    put(&mut files, "kept", (EntryKind::File, false, b"same".to_vec()));
    put(&mut files, "run.sh", (EntryKind::File, true, b"old".to_vec()));
    put(&mut files, "d/gone", (EntryKind::File, false, b"back".to_vec()));
    put(&mut files, "link", (EntryKind::Symlink, false, b"kept".to_vec()));
    let saved = files.clone();
    let store = CheckpointStore::open("/ws");
    let entries: Vec<ManifestEntry> = saved
        .iter()
        .map(|(path, (kind, executable, bytes))| ManifestEntry {
            path: path.clone(),
            kind: *kind,
            executable: *executable,
            size: bytes.len() as u64,
            content_hash: hash_text(bytes),
        })
        .collect();
    let contents: Vec<Vec<u8>> = saved.values().map(|held| held.2.clone()).collect();
    let stored = store.create(
        TaskId(1),
        CheckpointId(1),
        revision("r1"),
        None,
        String::new(),
        None,
        entries,
    );
    put(&mut files, "run.sh", (EntryKind::File, false, b"new".to_vec()));
    files.remove("d/gone");
    put(&mut files, "link/below", (EntryKind::File, false, b"added".to_vec()));
    files.remove("link");
    put(&mut files, "more", (EntryKind::File, false, b"added".to_vec()));

    let edited = files.clone();
    let handle = stored.checkpoint.clone();
    let probe = || MetadataProbe::Stored(stored.clone());
    let mut other = handle.clone();
    other.revision = revision("r2");
    assert!(matches!(
        store.restore(TaskId(1), &other, probe(), &None, ""),
        Err(CheckpointError::InvalidCheckpoint { .. })
    ));
    assert!(matches!(
        store.restore(TaskId(1), &handle, MetadataProbe::Missing, &None, ""),
        Err(CheckpointError::NotFound { .. })
    ));
    assert_eq!(files, edited);

    let mut at = store.restore(TaskId(1), &handle, probe(), &None, "").unwrap();
    let end = loop {
        let step = match at.phase {
            RestorePhase::ReadBlobs => RestoreStep::Blobs(
                contents.iter().map(|bytes| BlobProbe::Bytes(bytes.clone())).collect(),
            ),
            RestorePhase::LookAbove => RestoreStep::Above(
                at.stored
                    .entries
                    .iter()
                    .map(|entry| {
                        let ancestors = ancestor_paths("/ws", &entry.manifest.path);
                        let found = ancestors.iter().map(|_| EntryProbe::Directory).collect();
                        Above { ancestors, found }
                    })
                    .collect(),
            ),
            RestorePhase::ListPaths => RestoreStep::Paths(Ok(files.keys().cloned().collect())),
            RestorePhase::Remove(i) => {
                files.remove(&at.stale[i]);
                RestoreStep::Changed(Ok(()))
            }
            RestorePhase::Write(i) => {
                let entry = &at.stored.entries[i].manifest;
                let held = (entry.kind, entry.executable, contents[i].clone());
                put(&mut files, &entry.path, held);
                RestoreStep::Changed(Ok(()))
            }
            RestorePhase::ReadRevision => RestoreStep::Revision(Ok(revision("r1"))),
        };
        match at.next(step) {
            RestoreProgress::Continue(next) => at = next,
            RestoreProgress::Finished(end) => break end,
        }
    };
    assert_eq!(end, Ok(revision("r1")));
    assert_eq!(files, saved);
}

#[test]
fn a_restore_stops_at_the_first_fault() {
    assert!(matches!(
        end(begun(), blobs(b"z")),
        Err(CheckpointError::InvalidCheckpoint { message, .. })
            if message == "blob content hash or size mismatch"
    ));
    let looking = go(begun(), blobs(b"x"));
    assert!(matches!(
        end(looking, above(EntryProbe::Symlink)),
        Err(CheckpointError::InvalidCheckpoint { path, .. }) if path == "/ws/d"
    ));
    let listing = || go(go(begun(), blobs(b"x")), above(EntryProbe::Directory));
    let denied = || CheckpointError::Workspace("denied".to_string());
    assert_eq!(end(listing(), RestoreStep::Paths(Err(denied()))), Err(denied()));
    let writing = || go(listing(), RestoreStep::Paths(Ok(strings(&["a"]))));
    assert_eq!(writing().phase, RestorePhase::Write(0));
    assert_eq!(end(writing(), RestoreStep::Changed(Err(denied()))), Err(denied()));
    let reading = || {
        let next = go(writing(), RestoreStep::Changed(Ok(())));
        go(next, RestoreStep::Changed(Ok(())))
    };
    assert!(matches!(
        end(reading(), RestoreStep::Revision(Ok(revision("r2")))),
        Err(CheckpointError::RevisionMismatch { .. })
    ));
    assert_eq!(end(reading(), RestoreStep::Revision(Err(denied()))), Err(denied()));
}

#[test]
fn damaged_blobs_are_not_restored() {
    let stored = vec![StoredEntry { manifest: entry("a", b"x"), blob: "0".to_string() }];
    let limit = 1024;
    assert_eq!(
        validate_blobs("/c", &stored, &vec![BlobProbe::Bytes(b"x".to_vec())], limit),
        Ok(())
    );
    assert!(validate_blobs("/c", &stored, &vec![BlobProbe::Bytes(b"y".to_vec())], limit).is_err());
    let unreadable = vec![BlobProbe::Unreadable("denied".to_string())];
    assert!(validate_blobs("/c", &stored, &unreadable, limit).is_err());
    assert!(validate_blobs("/c", &stored, &vec![BlobProbe::Bytes(b"x".to_vec())], 0).is_err());
    assert_eq!(stale_paths(&strings(&["a", "b/c"]), &strings(&["a"])), strings(&["b/c"]));
}

#[test]
fn a_workspace_that_is_too_large_is_not_captured() {
    let mut store = CheckpointStore::open("/ws");
    assert_eq!(store.check_size(&vec![entry("a", b"xy"), entry("b", b"z")]), Ok(3));
    store.byte_cap = 2;
    assert!(matches!(
        store.check_size(&vec![entry("a", b"xy"), entry("b", b"z")]),
        Err(CheckpointError::SizeLimitExceeded { limit: 2, actual: 3 })
    ));
}
