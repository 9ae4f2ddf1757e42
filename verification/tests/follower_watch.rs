use follower_watch::account::User;
use follower_watch::diff::diff;
use follower_watch::events::EventKind;
use follower_watch::events::EventRecorder;
use follower_watch::reconcile::adopt_credential;
use follower_watch::reconcile::plan_credential;
use follower_watch::reconcile::reconcile;
use follower_watch::reconcile::CredentialPlan;
use follower_watch::reconcile::RunError;
use follower_watch::reconcile::Snapshot;
use follower_watch::registry::pids_unique;
use follower_watch::registry::AccountRegistry;
use follower_watch::token::Credential;
use follower_watch::token::TokenCache;

fn user(id: i64, twitter_id: i64, screenname: &str, name: &str) -> User {
    User {
        id,
        twitter_id,
        screenname: screenname.to_string(),
        name: name.to_string(),
    }
}

fn candidate(twitter_id: i64, screenname: &str, name: &str) -> User {
    user(0, twitter_id, screenname, name)
}

#[test]
fn diff_scenario_a() {
    let (joined, left) = diff(&vec![2, 3, 4], &vec![1, 2, 3]);
    assert_eq!(joined.len(), 1);
    assert!(joined.contains(&4));
    assert_eq!(left.len(), 1);
    assert!(left.contains(&1));
}

#[test]
fn diff_scenario_b_first_run() {
    let (joined, left) = diff(&vec![5, 6], &vec![]);
    assert_eq!(joined.len(), 2);
    assert!(joined.contains(&5));
    assert!(joined.contains(&6));
    assert_eq!(left.len(), 0);
}

#[test]
fn diff_scenario_c_everyone_departed() {
    let (joined, left) = diff(&vec![], &vec![5, 6]);
    assert_eq!(joined.len(), 0);
    assert_eq!(left.len(), 2);
    assert!(left.contains(&5));
    assert!(left.contains(&6));
}

#[test]
fn diff_no_change() {
    let (joined, left) = diff(&vec![7, 8, 9], &vec![7, 8, 9]);
    assert_eq!(joined.len(), 0);
    assert_eq!(left.len(), 0);
}

#[test]
fn diff_outputs_disjoint_and_complete() {
    let current = vec![1, 2, 5, 9];
    let previous = vec![2, 3, 5, 7];
    let (joined, left) = diff(&current, &previous);
    for x in &joined {
        assert!(!left.contains(x));
        assert!(current.contains(x));
        assert!(!previous.contains(x));
    }
    for x in &left {
        assert!(previous.contains(x));
        assert!(!current.contains(x));
    }
    // every current id is continuing or joined; every previous id is
    // continuing or departed
    for x in &current {
        assert!(previous.contains(x) || joined.contains(x));
    }
    for x in &previous {
        assert!(current.contains(x) || left.contains(x));
    }
}

#[test]
fn registry_scenario_d_idempotent() {
    let mut reg = AccountRegistry::new();
    let first = reg.resolve_or_create(&candidate(42, "alpha", "Alpha"));
    let second = reg.resolve_or_create(&candidate(42, "renamed", "Alpha Renamed"));
    assert_eq!(first, second);
    assert_eq!(reg.accounts.len(), 1);
    assert_eq!(reg.accounts[0].twitter_id, 42);
    assert_eq!(reg.accounts[0].id, first);
}

#[test]
fn registry_assigns_fresh_ids_once() {
    let mut reg = AccountRegistry::new();
    let a = reg.resolve_or_create(&candidate(10, "a", "A"));
    let b = reg.resolve_or_create(&candidate(11, "b", "B"));
    let a_again = reg.resolve_or_create(&candidate(10, "a2", "A2"));
    assert_ne!(a, b);
    assert_eq!(a, a_again);
    assert_eq!(reg.accounts.len(), 2);
    assert_eq!(reg.next_id, 3);
}

#[test]
fn registry_batch_preserves_order() {
    let mut reg = AccountRegistry::new();
    reg.resolve_or_create(&candidate(20, "known", "Known"));
    let batch = vec![
        candidate(30, "new1", "New One"),
        candidate(20, "known", "Known"),
        candidate(31, "new2", "New Two"),
    ];
    let resolved = reg.resolve_or_create_many(&batch);
    assert_eq!(resolved.len(), 3);
    assert_eq!(resolved[0].twitter_id, 30);
    assert_eq!(resolved[1].twitter_id, 20);
    assert_eq!(resolved[2].twitter_id, 31);
    // the known account keeps its internal id, the new ones get fresh ones
    assert_eq!(resolved[1].id, reg.accounts[0].id);
    assert_ne!(resolved[0].id, resolved[2].id);
    assert_eq!(reg.accounts.len(), 3);
}

#[test]
fn registry_from_rows_round_trip() {
    let rows = vec![user(1, 101, "one", "One"), user(5, 105, "five", "Five")];
    let mut reg = AccountRegistry::from_rows(rows).unwrap();
    assert_eq!(reg.next_id, 6);
    // an already persisted account keeps its id, a new one gets the next
    assert_eq!(reg.resolve_or_create(&candidate(105, "five", "Five")), 5);
    assert_eq!(reg.resolve_or_create(&candidate(200, "new", "New")), 6);
}

#[test]
fn registry_from_rows_rejects_duplicate_platform_id() {
    let rows = vec![user(1, 101, "one", "One"), user(2, 101, "again", "Again")];
    assert!(AccountRegistry::from_rows(rows).is_none());
}

#[test]
fn registry_from_rows_rejects_bad_internal_id() {
    let rows = vec![user(0, 101, "one", "One")];
    assert!(AccountRegistry::from_rows(rows).is_none());
    let dup = vec![user(3, 101, "one", "One"), user(3, 102, "two", "Two")];
    assert!(AccountRegistry::from_rows(dup).is_none());
}

#[test]
fn pids_unique_detects_duplicates() {
    assert!(pids_unique(&vec![user(1, 101, "a", "A"), user(2, 102, "b", "B")]));
    assert!(!pids_unique(&vec![user(1, 101, "a", "A"), user(2, 101, "b", "B")]));
    assert!(pids_unique(&vec![]));
}

#[test]
fn recorder_counts_and_kinds() {
    let mut rec = EventRecorder::new();
    let comes = vec![user(1, 100, "a", "A"), user(2, 101, "b", "B")];
    let leaves = vec![user(3, 102, "c", "C")];
    rec.record(&comes, &leaves, 777);
    assert_eq!(rec.events.len(), 3);
    for e in &rec.events {
        assert_eq!(e.founddate, 777);
    }
    assert_eq!(rec.events[0].user_id, 1);
    assert_eq!(rec.events[0].kind, EventKind::Joined);
    assert_eq!(rec.events[1].user_id, 2);
    assert_eq!(rec.events[1].kind, EventKind::Joined);
    assert_eq!(rec.events[2].user_id, 3);
    assert_eq!(rec.events[2].kind, EventKind::Left);
}

#[test]
fn recorder_appends_across_runs() {
    let mut rec = EventRecorder::new();
    rec.record(&vec![user(1, 100, "a", "A")], &vec![], 1000);
    rec.record(&vec![], &vec![user(1, 100, "a", "A")], 2000);
    assert_eq!(rec.events.len(), 2);
    assert_eq!(rec.events[0].founddate, 1000);
    assert_eq!(rec.events[0].kind, EventKind::Joined);
    assert_eq!(rec.events[1].founddate, 2000);
    assert_eq!(rec.events[1].kind, EventKind::Left);
}

#[test]
fn event_kind_codes() {
    assert_eq!(EventKind::Joined.code(), 1);
    assert_eq!(EventKind::Left.code(), 0);
}

#[test]
fn token_cache_overwrites() {
    let mut cache = TokenCache::new();
    assert!(cache.lookup().is_none());
    cache.store(Credential { key: "k1".to_string(), secret: "s1".to_string() });
    cache.store(Credential { key: "k2".to_string(), secret: "s2".to_string() });
    let held = cache.lookup().as_ref().unwrap();
    assert_eq!(held.key, "k2");
    assert_eq!(held.secret, "s2");
}

#[test]
fn credential_plan_uses_cache() {
    let cached = Some(Credential { key: "k".to_string(), secret: "s".to_string() });
    match plan_credential(cached) {
        CredentialPlan::UseCached(c) => {
            assert_eq!(c.key, "k");
            assert_eq!(c.secret, "s");
        }
        CredentialPlan::Authorize => panic!("cached credential must be used"),
    }
}

#[test]
fn credential_plan_authorizes_when_empty() {
    assert!(matches!(plan_credential(None), CredentialPlan::Authorize));
}

#[test]
fn adopt_credential_accepts_handshake_result() {
    let fresh = Some(Credential { key: "nk".to_string(), secret: "ns".to_string() });
    let adopted = adopt_credential(fresh).unwrap();
    assert_eq!(adopted.key, "nk");
}

#[test]
fn adopt_credential_fails_without_handshake_result() {
    assert_eq!(adopt_credential(None).unwrap_err(), RunError::AuthorizationFailed);
}

#[test]
fn reconcile_full_run() {
    let mut reg = AccountRegistry::new();
    let previous = vec![
        user(1, 101, "one", "One"),
        user(2, 102, "two", "Two"),
        user(3, 103, "three", "Three"),
    ];
    for p in &previous {
        reg.resolve_or_create(p);
    }
    let mut rec = EventRecorder::new();
    let snapshot = Snapshot::Complete(vec![
        candidate(102, "two", "Two"),
        candidate(103, "three", "Three"),
        candidate(104, "four", "Four"),
    ]);
    let report = reconcile(snapshot, Some(previous), &mut reg, &mut rec, 555).unwrap();
    assert_eq!(report.joined.len(), 1);
    assert_eq!(report.joined[0].twitter_id, 104);
    assert_eq!(report.joined[0].id, 4);
    assert_eq!(report.left.len(), 1);
    assert_eq!(report.left[0].twitter_id, 101);
    assert_eq!(reg.accounts.len(), 4);
    assert_eq!(rec.events.len(), 2);
    assert_eq!(rec.events[0].user_id, 4);
    assert_eq!(rec.events[0].kind, EventKind::Joined);
    assert_eq!(rec.events[1].user_id, report.left[0].id);
    assert_eq!(rec.events[1].kind, EventKind::Left);
    for e in &rec.events {
        assert_eq!(e.founddate, 555);
    }
}

#[test]
fn reconcile_fetch_failure_is_fatal() {
    let mut reg = AccountRegistry::new();
    reg.resolve_or_create(&candidate(101, "one", "One"));
    let mut rec = EventRecorder::new();
    let out = reconcile(
        Snapshot::Failed,
        Some(vec![user(1, 101, "one", "One")]),
        &mut reg,
        &mut rec,
        9,
    );
    assert_eq!(out.unwrap_err(), RunError::FetchFailed);
    // nothing was recorded or upserted
    assert_eq!(reg.accounts.len(), 1);
    assert_eq!(rec.events.len(), 0);
}

#[test]
fn reconcile_storage_unavailable_is_fatal() {
    let mut reg = AccountRegistry::new();
    let mut rec = EventRecorder::new();
    let out = reconcile(Snapshot::Complete(vec![]), None, &mut reg, &mut rec, 9);
    assert_eq!(out.unwrap_err(), RunError::StorageUnavailable);
    assert_eq!(rec.events.len(), 0);
}

#[test]
fn reconcile_empty_snapshot_is_not_a_failure() {
    let mut reg = AccountRegistry::new();
    let previous = vec![user(1, 105, "five", "Five"), user(2, 106, "six", "Six")];
    for p in &previous {
        reg.resolve_or_create(p);
    }
    let mut rec = EventRecorder::new();
    let report = reconcile(
        Snapshot::Complete(vec![]),
        Some(previous),
        &mut reg,
        &mut rec,
        321,
    )
    .unwrap();
    assert_eq!(report.joined.len(), 0);
    assert_eq!(report.left.len(), 2);
    assert_eq!(report.left[0].twitter_id, 105);
    assert_eq!(report.left[1].twitter_id, 106);
    assert_eq!(rec.events.len(), 2);
    assert!(rec.events.iter().all(|e| e.kind == EventKind::Left && e.founddate == 321));
}

#[test]
fn user_equality_is_by_platform_id() {
    let a = user(1, 500, "old_handle", "Old");
    let b = user(9, 500, "new_handle", "New");
    let c = user(1, 501, "old_handle", "Old");
    assert_eq!(a, b);
    assert_ne!(a, c);
}
