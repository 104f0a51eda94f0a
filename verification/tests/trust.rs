use mh::ptc::prelude::{Prelude, PreludeOrigin};
use mh::ptc::trust::{
    user_trust_path, StoreProbe, Trust, TrustDecision, TrustEntry, TrustError, TrustStore,
};

fn prelude(source: &str) -> Prelude {
    Prelude {
        path: "/ws/.mh/prelude.js".to_string(),
        source: source.to_string(),
        origin: PreludeOrigin::Workspace,
    }
}

#[test]
fn an_unseen_prelude_is_unknown_and_a_recorded_one_is_not() {
    let mut store = TrustStore::at("/config/trust.json");
    let prelude = prelude("function a() {}");

    assert_eq!(store.status(&prelude), Trust::Unknown);
    store.record(&prelude, TrustDecision::Trusted, 5);
    assert_eq!(store.status(&prelude), Trust::Trusted);

    // Reopening reads the same decision from what was stored.
    let stored = StoreProbe::Entries(store.entries().clone());
    let reopened = TrustStore::load(store.path(), stored).unwrap();
    assert_eq!(reopened.status(&prelude), Trust::Trusted);
    assert_eq!(reopened.entries()[0].decided_at_ms, 5);
    assert_eq!(reopened.entries()[0].path, "/ws/.mh/prelude.js");
}

#[test]
fn editing_a_trusted_prelude_requires_fresh_confirmation() {
    let mut store = TrustStore::at("/config/trust.json");
    let original = prelude("function a() {}");
    store.record(&original, TrustDecision::Trusted, 1);

    let edited = prelude("function a() {} function b() {}");
    assert_eq!(
        store.status(&edited),
        Trust::Unknown,
        "trust is keyed by content, so an edit is a new decision"
    );
    assert_eq!(store.status(&original), Trust::Trusted);
}

#[test]
fn a_rejection_is_remembered_and_not_re_prompted() {
    let mut store = TrustStore::at("/config/trust.json");
    let prelude = prelude("function evil() {}");

    store.record(&prelude, TrustDecision::Rejected, 1);
    assert_eq!(store.status(&prelude), Trust::Rejected);
}

#[test]
fn trust_follows_content_not_location() {
    let mut store = TrustStore::at("/config/trust.json");
    let here = Prelude {
        path: "/a/.mh/prelude.js".to_string(),
        source: "function a() {}".to_string(),
        origin: PreludeOrigin::Workspace,
    };
    let moved = Prelude {
        path: "/b/.mh/prelude.js".to_string(),
        source: "function a() {}".to_string(),
        origin: PreludeOrigin::Workspace,
    };
    store.record(&here, TrustDecision::Trusted, 1);

    assert_eq!(store.status(&moved), Trust::Trusted);
}

#[test]
fn recording_preserves_other_decisions() {
    let mut store = TrustStore::at("/config/trust.json");
    let first = prelude("function a() {}");
    let second = prelude("function b() {}");

    store.record(&first, TrustDecision::Trusted, 1);
    store.record(&second, TrustDecision::Rejected, 2);

    assert_eq!(store.status(&first), Trust::Trusted);
    assert_eq!(store.status(&second), Trust::Rejected);
}

#[test]
fn a_corrupt_store_is_reported_rather_than_treated_as_empty() {
    let why = serde_json::from_str::<serde_json::Value>("{ not json").unwrap_err().to_string();
    let error = TrustStore::load("/config/trust.json", StoreProbe::Corrupt(why)).unwrap_err();
    assert!(
        matches!(error, TrustError::Corrupt { .. }),
        "a damaged store must not silently re-trust everything, got {}",
        error.message()
    );
}

#[test]
fn the_trust_store_never_lives_inside_a_workspace() {
    let path = user_trust_path(&Some("/config".to_string()), &None).expect("XDG path resolves");
    assert_eq!(path, "/config/mh/prelude-trust.json");
    assert!(
        !path.split('/').any(|component| component == ".mh"),
        "a workspace-local record would be shipped by the repository it authorizes"
    );
}

#[test]
fn a_later_decision_replaces_an_earlier_one() {
    let mut store = TrustStore::at("/config/trust.json");
    let prelude = prelude("function a() {}");
    store.record(&prelude, TrustDecision::Rejected, 1);
    store.record(&prelude, TrustDecision::Trusted, 2);
    assert_eq!(store.status(&prelude), Trust::Trusted);
    assert_eq!(store.entries().len(), 1);
}

#[test]
fn stored_entries_are_kept_in_order_and_once() {
    let entry = |id: &str, decision: TrustDecision, at: u64| TrustEntry {
        id: id.to_string(),
        decision,
        path: "p".to_string(),
        decided_at_ms: at,
    };
    let store = TrustStore::load(
        "t",
        StoreProbe::Entries(vec![
            entry("b", TrustDecision::Trusted, 1),
            entry("a", TrustDecision::Trusted, 2),
            entry("b", TrustDecision::Rejected, 3),
        ]),
    )
    .unwrap();
    let seen: Vec<(&str, u64)> =
        store.entries().iter().map(|e| (e.id.as_str(), e.decided_at_ms)).collect();
    assert_eq!(seen, vec![("a", 2), ("b", 3)]);
}

#[test]
fn a_store_needs_a_place_and_must_be_readable() {
    let error = TrustStore::user(&None, &None).unwrap_err();
    assert!(matches!(error, TrustError::NoConfigDirectory), "{}", error.message());
    let store = TrustStore::user(&None, &Some("/home/u".to_string())).unwrap();
    assert_eq!(store.path(), "/home/u/.config/mh/prelude-trust.json");
    let error = TrustStore::load("t", StoreProbe::Unreadable("denied".to_string())).unwrap_err();
    assert!(matches!(&error, TrustError::Io { .. }));
    assert!(error.message().contains("denied"));
    assert!(TrustStore::load("t", StoreProbe::Missing).unwrap().entries().is_empty());
}
