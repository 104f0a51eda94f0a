//! Prelude trust decisions.
//!
//! Trust is confirmed once per prelude content, and the record lives in the
//! user's configuration directory, never in a workspace.
use vstd::prelude::*;
use vstd::string::StringExecFns;
use crate::identity::PreludeId;
use crate::ptc::prelude::{config_file, identity_of, user_config_file, Prelude};
use crate::text::{before, is_before, lemma_before_irreflexive, lemma_before_total, lemma_before_transitive, opt_view, same, text};

verus! {

/// What the operator decided about one prelude.
#[derive(Clone, Copy, Debug, PartialEq, Eq, Structural)]
pub enum TrustDecision {
    Trusted,
    Rejected,
}

/// Whether a prelude may run, and why.
#[derive(Clone, Copy, Debug, PartialEq, Eq, Structural)]
pub enum Trust {
    /// Already confirmed for exactly this content.
    Trusted,
    /// Never seen: the caller must confirm before the prelude runs.
    Unknown,
    /// Previously rejected for exactly this content.
    Rejected,
}

/// Why trust could not be established or recorded.
#[derive(Clone, Debug, PartialEq, Eq)]
pub enum TrustError {
    Io { path: String, message: String },
    Corrupt { path: String, message: String },
    /// No user configuration directory, so no tamper-proof place to record trust.
    NoConfigDirectory,
}

impl TrustError {
    /// The message of the error.
    pub open spec fn text(self) -> Seq<char> {
        match self {
            TrustError::Io { path, message } => "prelude trust store "@ + path@ + ": "@ + message@,
            TrustError::Corrupt { path, message } => "invalid prelude trust store "@ + path@ + ": "@
                + message@,
            TrustError::NoConfigDirectory =>
            "cannot record prelude trust: no user config directory (set XDG_CONFIG_HOME or HOME)"@,
        }
    }

    /// The message of the error.
    pub fn message(&self) -> (r: String)
        ensures
            r@ == self.text(),
    {
        match self {
            TrustError::Io { path, message } => {
                let mut s = text("prelude trust store ");
                s.append(path.as_str());
                s.append(": ");
                s.append(message.as_str());
                s
            },
            TrustError::Corrupt { path, message } => {
                let mut s = text("invalid prelude trust store ");
                s.append(path.as_str());
                s.append(": ");
                s.append(message.as_str());
                s
            },
            TrustError::NoConfigDirectory => text(
                "cannot record prelude trust: no user config directory (set XDG_CONFIG_HOME or HOME)",
            ),
        }
    }
}

/// One recorded decision. The path and the time are kept for auditing; trust is
/// keyed by content.
#[derive(Clone, Debug, PartialEq, Eq)]
pub struct TrustEntry {
    pub id: String,
    pub decision: TrustDecision,
    pub path: String,
    pub decided_at_ms: u64,
}

/// What was found at the place of the store.
#[derive(Clone, Debug, PartialEq, Eq)]
pub enum StoreProbe {
    Missing,
    Unreadable(String),
    Corrupt(String),
    Entries(Vec<TrustEntry>),
}

/// Records prelude trust decisions outside every workspace.
#[derive(Clone, Debug, PartialEq, Eq)]
pub struct TrustStore {
    path: String,
    entries: Vec<TrustEntry>,
}

/// The last of the entries for an identity.
pub open spec fn entry_of(entries: Seq<TrustEntry>, id: Seq<char>) -> Option<TrustEntry>
    decreases entries.len(),
{
    if entries.len() == 0 {
        None
    } else if entries.last().id@ == id {
        Some(entries.last())
    } else {
        entry_of(entries.drop_last(), id)
    }
}

/// The decision that an entry holds.
pub open spec fn decided(entry: Option<TrustEntry>) -> Option<TrustDecision> {
    match entry {
        Some(entry) => Some(entry.decision),
        None => None,
    }
}

/// What a recorded decision says of trust.
pub open spec fn trust_of(decision: Option<TrustDecision>) -> Trust {
    match decision {
        Some(TrustDecision::Trusted) => Trust::Trusted,
        Some(TrustDecision::Rejected) => Trust::Rejected,
        None => Trust::Unknown,
    }
}

/// Whether no identity is recorded twice, and they are in order.
pub open spec fn in_order(entries: Seq<TrustEntry>) -> bool {
    forall|i: int, j: int|
        0 <= i < j < entries.len() ==> before(
            (#[trigger] entries[i]).id@,
            (#[trigger] entries[j]).id@,
        )
}

proof fn lemma_entry_at(entries: Seq<TrustEntry>, i: int)
    requires
        in_order(entries),
        0 <= i < entries.len(),
    ensures
        entry_of(entries, entries[i].id@) == Some(entries[i]),
    decreases entries.len(),
{
    if i < entries.len() - 1 {
        let init = entries.drop_last();
        assert(before(entries[i].id@, entries.last().id@));
        lemma_before_irreflexive(entries[i].id@);
        assert forall|a: int, b: int| 0 <= a < b < init.len() implies before(
            (#[trigger] init[a]).id@,
            (#[trigger] init[b]).id@,
        ) by {
            assert(before(entries[a].id@, entries[b].id@));
        }
        assert(init[i] == entries[i]);
        lemma_entry_at(init, i);
    }
}

proof fn lemma_entry_absent(entries: Seq<TrustEntry>, id: Seq<char>)
    requires
        forall|i: int| 0 <= i < entries.len() ==> (#[trigger] entries[i]).id@ != id,
    ensures
        entry_of(entries, id) is None,
    decreases entries.len(),
{
    if entries.len() > 0 {
        let init = entries.drop_last();
        assert forall|i: int| 0 <= i < init.len() implies (#[trigger] init[i]).id@ != id by {
            assert(init[i] == entries[i]);
        }
        lemma_entry_absent(init, id);
    }
}

proof fn lemma_entry_present(entries: Seq<TrustEntry>, id: Seq<char>)
    ensures
        entry_of(entries, id) is Some ==> exists|i: int|
            0 <= i < entries.len() && (#[trigger] entries[i]).id@ == id && entry_of(entries, id)
                == Some(entries[i]),
    decreases entries.len(),
{
    if entries.len() > 0 {
        if entries.last().id@ == id {
            assert(entries[entries.len() - 1].id@ == id);
        } else {
            lemma_entry_present(entries.drop_last(), id);
            if entry_of(entries.drop_last(), id) is Some {
                let init = entries.drop_last();
                let i = choose|i: int|
                    0 <= i < init.len() && (#[trigger] init[i]).id@ == id && entry_of(init, id)
                        == Some(init[i]);
                assert(entries[i] == init[i]);
            }
        }
    }
}

/// Two orderly records that hold the same entries at other identities agree
/// there.
proof fn lemma_same_elsewhere(a: Seq<TrustEntry>, b: Seq<TrustEntry>, id: Seq<char>, k: Seq<char>)
    requires
        in_order(a),
        in_order(b),
        k != id,
        forall|i: int|
            0 <= i < a.len() && (#[trigger] a[i]).id@ != id ==> b.contains(a[i]),
        forall|i: int|
            0 <= i < b.len() && (#[trigger] b[i]).id@ != id ==> a.contains(b[i]),
    ensures
        entry_of(a, k) == entry_of(b, k),
{
    lemma_entry_present(a, k);
    lemma_entry_present(b, k);
    if entry_of(a, k) is Some {
        let i = choose|i: int|
            0 <= i < a.len() && (#[trigger] a[i]).id@ == k && entry_of(a, k) == Some(a[i]);
        assert(b.contains(a[i]));
        let j = choose|j: int| 0 <= j < b.len() && b[j] == a[i];
        lemma_entry_at(b, j);
    } else if entry_of(b, k) is Some {
        let i = choose|i: int|
            0 <= i < b.len() && (#[trigger] b[i]).id@ == k && entry_of(b, k) == Some(b[i]);
        assert(a.contains(b[i]));
        let j = choose|j: int| 0 <= j < a.len() && a[j] == b[i];
        lemma_entry_at(a, j);
    }
}

/// Records an entry in its place; an earlier one of the same identity gives way.
fn put(entries: &mut Vec<TrustEntry>, entry: TrustEntry)
    requires
        in_order(old(entries)@),
    ensures
        in_order(final(entries)@),
        entry_of(final(entries)@, entry.id@) == Some(entry),
        forall|k: Seq<char>|
            k != entry.id@ ==> #[trigger] entry_of(final(entries)@, k) == entry_of(
                old(entries)@,
                k,
            ),
{
    let ghost was = entries@;
    let ghost id = entry.id@;
    let mut i: usize = 0;
    while i < entries.len() && is_before(entries[i].id.as_str(), entry.id.as_str())
        invariant
            entries@ == was,
            in_order(was),
            i <= entries.len(),
            id == entry.id@,
            forall|j: int| 0 <= j < i ==> before((#[trigger] was[j]).id@, id),
        decreases entries.len() - i,
    {
        i = i + 1;
    }
    proof {
        if i < was.len() {
            lemma_before_total(was[i as int].id@, id);
            assert forall|j: int| i < j < was.len() implies before(id, (#[trigger] was[j]).id@) by {
                if before(id, was[i as int].id@) {
                    lemma_before_transitive(id, was[i as int].id@, was[j].id@);
                }
            }
        }
    }
    if i < entries.len() && same(entries[i].id.as_str(), entry.id.as_str()) {
        entries.set(i, entry);
        proof {
            let now = entries@;
            assert forall|a: int, b: int| 0 <= a < b < now.len() implies before(
                (#[trigger] now[a]).id@,
                (#[trigger] now[b]).id@,
            ) by {
                assert(now[a].id@ == was[a].id@);
                assert(now[b].id@ == was[b].id@);
            }
            assert forall|j: int| 0 <= j < was.len() && (#[trigger] was[j]).id@ != id implies now.contains(
                was[j],
            ) by {
                assert(now[j] == was[j]);
            }
            assert forall|j: int| 0 <= j < now.len() && (#[trigger] now[j]).id@ != id implies was.contains(
                now[j],
            ) by {
                assert(was[j] == now[j]);
            }
        }
    } else {
        entries.insert(i, entry);
        proof {
            let now = entries@;
            assert(now =~= was.insert(i as int, entry));
            assert forall|a: int, b: int| 0 <= a < b < now.len() implies before(
                (#[trigger] now[a]).id@,
                (#[trigger] now[b]).id@,
            ) by {
                let x = if a < i {
                    a
                } else {
                    a - 1
                };
                let y = if b < i {
                    b
                } else {
                    b - 1
                };
                if a != i && b != i {
                    assert(now[a] == was[x]);
                    assert(now[b] == was[y]);
                } else if a == i {
                    assert(now[b] == was[y]);
                } else {
                    assert(now[a] == was[x]);
                }
            }
            assert forall|j: int| 0 <= j < was.len() && (#[trigger] was[j]).id@ != id implies now.contains(
                was[j],
            ) by {
                if j < i {
                    assert(now[j] == was[j]);
                } else {
                    assert(now[j + 1] == was[j]);
                }
            }
            assert forall|j: int| 0 <= j < now.len() && (#[trigger] now[j]).id@ != id implies was.contains(
                now[j],
            ) by {
                if j < i {
                    assert(was[j] == now[j]);
                } else {
                    assert(was[j - 1] == now[j]);
                }
            }
        }
    }
    proof {
        let now = entries@;
        assert(now[i as int].id@ == id);
        lemma_entry_at(now, i as int);
        assert forall|k: Seq<char>| k != id implies #[trigger] entry_of(now, k) == entry_of(
            was,
            k,
        ) by {
            lemma_same_elsewhere(was, now, id, k);
        }
    }
}

impl TrustStore {
    /// Whether no identity is recorded twice.
    pub closed spec fn wf(self) -> bool {
        in_order(self.entries@)
    }

    /// The entry recorded for an identity.
    pub closed spec fn entry(self, id: Seq<char>) -> Option<TrustEntry> {
        entry_of(self.entries@, id)
    }

    /// The decision recorded for an identity.
    pub open spec fn decision(self, id: Seq<char>) -> Option<TrustDecision> {
        decided(self.entry(id))
    }

    /// Where the store lies.
    pub closed spec fn place(self) -> Seq<char> {
        self.path@
    }

    /// An empty store at the conventional user location, given
    /// `XDG_CONFIG_HOME` and `HOME`.
    pub fn user(xdg: &Option<String>, home: &Option<String>) -> (r: Result<TrustStore, TrustError>)
        ensures
            match config_file(opt_view(*xdg), opt_view(*home), "prelude-trust.json"@) {
                Some(path) => r matches Ok(store) && store.wf() && store.place() == path
                    && forall|id: Seq<char>| #[trigger] store.entry(id) is None,
                None => r matches Err(TrustError::NoConfigDirectory),
            },
    {
        match user_trust_path(xdg, home) {
            Some(path) => Ok(TrustStore::at(path.as_str())),
            None => Err(TrustError::NoConfigDirectory),
        }
    }

    /// An empty store at an explicit path.
    pub fn at(path: &str) -> (r: TrustStore)
        ensures
            r.wf(),
            r.place() == path@,
            forall|id: Seq<char>| #[trigger] r.entry(id) is None,
    {
        TrustStore { path: text(path), entries: Vec::new() }
    }

    /// The store that was found at a path. A missing one is empty; one that
    /// cannot be read, or is damaged, is an error and not an empty store.
    pub fn load(path: &str, probe: StoreProbe) -> (r: Result<TrustStore, TrustError>)
        ensures
            match probe {
                StoreProbe::Missing => r matches Ok(store) && store.wf() && store.place() == path@
                    && forall|id: Seq<char>| #[trigger] store.entry(id) is None,
                StoreProbe::Unreadable(why) => r matches Err(TrustError::Io { path: p, message })
                    && p@ == path@ && message == why,
                StoreProbe::Corrupt(why) => r matches Err(
                    TrustError::Corrupt { path: p, message },
                ) && p@ == path@ && message == why,
                StoreProbe::Entries(entries) => r matches Ok(store) && store.wf() && store.place()
                    == path@ && forall|id: Seq<char>| #[trigger]
                    store.entry(id) == entry_of(entries@, id),
            },
    {
        match probe {
            StoreProbe::Missing => Ok(TrustStore::at(path)),
            StoreProbe::Unreadable(message) => Err(TrustError::Io { path: text(path), message }),
            StoreProbe::Corrupt(message) => Err(TrustError::Corrupt { path: text(path), message }),
            StoreProbe::Entries(entries) => {
                let ghost all = entries@;
                let mut store = TrustStore { path: text(path), entries: Vec::new() };
                proof {
                    assert(all.take(0) =~= store.entries@);
                }
                for entry in iter: entries
                    invariant
                        iter.seq() == all,
                        in_order(store.entries@),
                        store.path@ == path@,
                        forall|id: Seq<char>| #[trigger]
                            entry_of(store.entries@, id) == entry_of(
                                all.take(iter.index() as int),
                                id,
                            ),
                {
                    let ghost done = all.take(iter.index() as int);
                    let ghost next = all.take(iter.index() + 1);
                    let ghost given = entry;
                    proof {
                        assert(next.drop_last() =~= done);
                        assert(next.last() == entry);
                    }
                    put(&mut store.entries, entry);
                    proof {
                        assert forall|id: Seq<char>| #[trigger]
                            entry_of(store.entries@, id) == entry_of(next, id) by {
                            assert(entry_of(done, id) == entry_of(next.drop_last(), id));
                        }
                    }
                }
                proof {
                    assert(all.take(all.len() as int) =~= all);
                }
                Ok(store)
            },
        }
    }

    /// Where the store lies.
    pub fn path(&self) -> (r: &str)
        ensures
            r@ == self.place(),
    {
        self.path.as_str()
    }

    /// The recorded entries, in the order of their identities.
    pub fn entries(&self) -> (r: &Vec<TrustEntry>)
        requires
            self.wf(),
        ensures
            in_order(r@),
            forall|id: Seq<char>| #[trigger] self.entry(id) == entry_of(r@, id),
    {
        &self.entries
    }

    /// Whether a prelude may run: what was decided for exactly its content.
    pub fn status(&self, prelude: &Prelude) -> (r: Trust)
        requires
            self.wf(),
        ensures
            r == trust_of(self.decision(identity_of(prelude.source@))),
    {
        let id = prelude.identity();
        let mut i: usize = 0;
        while i < self.entries.len()
            invariant
                i <= self.entries.len(),
                in_order(self.entries@),
                id.0@ == identity_of(prelude.source@),
                forall|j: int| 0 <= j < i ==> (#[trigger] self.entries@[j]).id@ != id.0@,
            decreases self.entries.len() - i,
        {
            if same(self.entries[i].id.as_str(), id.0.as_str()) {
                proof {
                    lemma_entry_at(self.entries@, i as int);
                }
                return match self.entries[i].decision {
                    TrustDecision::Trusted => Trust::Trusted,
                    TrustDecision::Rejected => Trust::Rejected,
                };
            }
            i = i + 1;
        }
        proof {
            lemma_entry_absent(self.entries@, id.0@);
        }
        Trust::Unknown
    }

    /// Records a decision for exactly this prelude content. Decisions on other
    /// content stand.
    pub fn record(&mut self, prelude: &Prelude, decision: TrustDecision, now_ms: u64) -> (r:
        PreludeId)
        requires
            old(self).wf(),
        ensures
            final(self).wf(),
            final(self).place() == old(self).place(),
            r.0@ == identity_of(prelude.source@),
            recorded(*old(self), *final(self), identity_of(prelude.source@), decision),
            final(self).entry(identity_of(prelude.source@)) matches Some(e) && e.path@
                == prelude.path@ && e.decided_at_ms == now_ms,
    {
        let id = prelude.identity();
        put(
            &mut self.entries,
            TrustEntry {
                id: id.0.clone(),
                decision,
                path: prelude.path.clone(),
                decided_at_ms: now_ms,
            },
        );
        id
    }
}

/// The conventional trust store path, given `XDG_CONFIG_HOME` and `HOME`.
pub fn user_trust_path(xdg: &Option<String>, home: &Option<String>) -> (r: Option<String>)
    ensures
        opt_view(r) == config_file(opt_view(*xdg), opt_view(*home), "prelude-trust.json"@),
{
    user_config_file(xdg, home, "prelude-trust.json")
}

/// Whether one store is another with a decision for one content recorded.
pub open spec fn recorded(
    before: TrustStore,
    after: TrustStore,
    id: Seq<char>,
    decision: TrustDecision,
) -> bool {
    &&& after.decision(id) == Some(decision)
    &&& forall|k: Seq<char>| k != id ==> #[trigger] after.entry(k) == before.entry(k)
}

/// A decision is remembered, a refusal as well as consent, and it is remembered
/// for its content alone: an edited prelude that nothing was decided for is asked
/// about, whatever was decided before the edit.
pub proof fn law_decisions_are_remembered(
    before: TrustStore,
    after: TrustStore,
    prelude: Prelude,
    edited: Prelude,
    decision: TrustDecision,
)
    requires
        recorded(before, after, identity_of(prelude.source@), decision),
        identity_of(edited.source@) != identity_of(prelude.source@),
    ensures
        trust_of(after.decision(identity_of(prelude.source@))) == trust_of(Some(decision)),
        decision is Trusted ==> trust_of(Some(decision)) is Trusted,
        decision is Rejected ==> trust_of(Some(decision)) is Rejected,
        before.decision(identity_of(edited.source@)) is None ==> trust_of(
            after.decision(identity_of(edited.source@)),
        ) is Unknown,
{
}

/// Trust follows content, not location: preludes of the same source stand the
/// same in every store.
pub proof fn law_trust_follows_content(store: TrustStore, a: Prelude, b: Prelude)
    requires
        a.source@ == b.source@,
    ensures
        trust_of(store.decision(identity_of(a.source@))) == trust_of(
            store.decision(identity_of(b.source@)),
        ),
{
}

} // verus!
