use vstd::prelude::*;

use crate::account::User;
use crate::diff::contains_id;
use crate::diff::joined_of;
use crate::diff::left_of;
use crate::events::EventKind;
use crate::events::EventRecorder;
use crate::events::events_for;
use crate::registry::AccountRegistry;
use crate::registry::pids_distinct;
use crate::registry::resolve_many;
use crate::token::Credential;

verus! {

/// Why a run aborts. Fatal conditions stop the run cleanly; nothing done so
/// far is rolled back.
#[derive(Clone, Copy, PartialEq, Eq, Structural, Debug)]
pub enum RunError {
    /// No credential was cached and the authorization handshake failed.
    AuthorizationFailed,
    /// The follower fetch reported an error. Never used for a successful
    /// fetch that found zero followers.
    FetchFailed,
    /// The previously recorded follower state could not be read.
    StorageUnavailable,
}

/// What the follower fetch produced: a complete snapshot, possibly empty, or
/// an explicit error. A fetch that succeeded with zero followers is
/// `Complete` of an empty vector, never `Failed`; the two abort or proceed
/// differently and must not be conflated.
pub enum Snapshot {
    Complete(Vec<User>),
    Failed,
}

/// The first credential decision: use what the cache holds, or run the
/// authorization handshake.
pub enum CredentialPlan {
    UseCached(Credential),
    Authorize,
}

/// Phase 1, first step: a cached credential is used as it is; only when the
/// cache is empty does the run ask for the external handshake.
pub fn plan_credential(cached: Option<Credential>) -> (r: CredentialPlan)
    ensures
        cached matches Some(c) ==> r == CredentialPlan::UseCached(c),
        cached is None ==> r == CredentialPlan::Authorize,
{
    match cached {
        Some(c) => CredentialPlan::UseCached(c),
        None => CredentialPlan::Authorize,
    }
}

/// Phase 1, second step: adopt what the authorization handshake produced. A
/// failed handshake is fatal and aborts the run before any diff or storage
/// work.
pub fn adopt_credential(fresh: Option<Credential>) -> (r: Result<Credential, RunError>)
    ensures
        fresh matches Some(c) ==> r == Result::<Credential, RunError>::Ok(c),
        fresh is None ==> r == Result::<Credential, RunError>::Err(RunError::AuthorizationFailed),
{
    match fresh {
        Some(c) => Ok(c),
        None => Err(RunError::AuthorizationFailed),
    }
}

/// The platform ids of `s`, in order.
pub open spec fn pids(s: Seq<User>) -> Seq<i64>
    decreases s.len(),
{
    if s.len() == 0 {
        Seq::<i64>::empty()
    } else {
        pids(s.drop_last()).push(s.last().twitter_id)
    }
}

/// The accounts of `s`, in order, whose platform id does not occur in `ids`.
pub open spec fn absent_from(s: Seq<User>, ids: Seq<i64>) -> Seq<User>
    decreases s.len(),
{
    if s.len() == 0 {
        Seq::<User>::empty()
    } else if ids.contains(s.last().twitter_id) {
        absent_from(s.drop_last(), ids)
    } else {
        absent_from(s.drop_last(), ids).push(s.last())
    }
}

/// The platform ids of `users`, in order.
fn ids_of(users: &Vec<User>) -> (r: Vec<i64>)
    ensures
        r@ == pids(users@),
{
    let mut out: Vec<i64> = Vec::new();
    let mut i: usize = 0;
    while i < users.len()
        invariant
            0 <= i <= users@.len(),
            out@ == pids(users@.take(i as int)),
        decreases users@.len() - i,
    {
        out.push(users[i].twitter_id);
        proof {
            assert(users@.take(i + 1).drop_last() =~= users@.take(i as int));
            assert(users@.take(i + 1).last() == users@[i as int]);
        }
        i = i + 1;
    }
    proof {
        assert(users@.take(users@.len() as int) =~= users@);
    }
    out
}

/// The accounts of `users`, in order, whose platform id does not occur in
/// `ids`.
fn users_not_in(users: &Vec<User>, ids: &Vec<i64>) -> (r: Vec<User>)
    ensures
        r@ == absent_from(users@, ids@),
        r@.len() <= users@.len(),
{
    let mut out: Vec<User> = Vec::new();
    let mut i: usize = 0;
    while i < users.len()
        invariant
            0 <= i <= users@.len(),
            out@ == absent_from(users@.take(i as int), ids@),
            out@.len() <= i,
        decreases users@.len() - i,
    {
        if !contains_id(ids, users[i].twitter_id) {
            out.push(users[i].clone());
        }
        proof {
            assert(users@.take(i + 1).drop_last() =~= users@.take(i as int));
            assert(users@.take(i + 1).last() == users@[i as int]);
        }
        i = i + 1;
    }
    proof {
        assert(users@.take(users@.len() as int) =~= users@);
    }
    out
}

/// The platform ids of a sequence, read off position by position.
proof fn lemma_pids_index(s: Seq<User>)
    ensures
        pids(s).len() == s.len(),
        forall|k: int| 0 <= k < s.len() ==> pids(s)[k] == s[k].twitter_id,
    decreases s.len(),
{
    if s.len() == 0 {
    } else {
        lemma_pids_index(s.drop_last());
    }
}

/// Membership in the filtered accounts' platform ids, element by element: an
/// id is kept exactly when it occurs in `s` and not in `ids`.
proof fn lemma_pids_absent_contains(s: Seq<User>, ids: Seq<i64>, x: i64)
    ensures
        pids(absent_from(s, ids)).contains(x) <==> (pids(s).contains(x) && !ids.contains(x)),
    decreases s.len(),
{
    broadcast use vstd::seq_lib::group_seq_properties;

    if s.len() == 0 {
    } else {
        let b = s.drop_last();
        let last = s.last();
        lemma_pids_absent_contains(b, ids, x);
        assert(pids(s) == pids(b).push(last.twitter_id));
        if !ids.contains(last.twitter_id) {
            assert(absent_from(s, ids) == absent_from(b, ids).push(last));
            assert(absent_from(b, ids).push(last).drop_last() =~= absent_from(b, ids));
            assert(pids(absent_from(s, ids)) == pids(absent_from(b, ids)).push(last.twitter_id));
        }
    }
}

/// Selecting the accounts whose platform id is absent from `ids` selects
/// exactly the ids of the set difference — the diff engine's partition rule.
/// Applied with the snapshot and the previous ids it yields the joined
/// accounts; applied the other way round it yields the departed ones.
pub proof fn lemma_absent_from_is_diff(s: Seq<User>, ids: Seq<i64>)
    ensures
        pids(absent_from(s, ids)).to_set() == joined_of(pids(s).to_set(), ids.to_set()),
{
    broadcast use vstd::set::group_set_axioms;

    assert forall|x: i64|
        pids(absent_from(s, ids)).to_set().contains(x) == joined_of(
            pids(s).to_set(),
            ids.to_set(),
        ).contains(x) by {
        lemma_pids_absent_contains(s, ids, x);
    }
    assert(pids(absent_from(s, ids)).to_set() =~= joined_of(pids(s).to_set(), ids.to_set()));
}

/// The outcome of a successful run: the newly joined accounts as persisted
/// (internal ids assigned by the registry) and the departed accounts as
/// previously recorded. Both are handed to the reporting collaborator.
#[derive(Debug)]
pub struct RunReport {
    pub joined: Vec<User>,
    pub left: Vec<User>,
}

/// Everything one successful run guarantees, relating the snapshot `cur`, the
/// previously recorded accounts `prev` and the starting registry and recorder
/// states to the final states and the report: the joined candidates are the
/// current accounts not previously recorded, resolved through the registry in
/// snapshot order; the departed accounts are the previously recorded ones
/// absent from the snapshot; and the recorder gains exactly one event per
/// account of the report, all stamped `run_time`.
pub open spec fn reconciled(
    cur: Seq<User>,
    prev: Seq<User>,
    reg0: AccountRegistry,
    rec0: EventRecorder,
    reg1: AccountRegistry,
    rec1: EventRecorder,
    rep: RunReport,
    run_time: i64,
) -> bool {
    let joined_candidates = absent_from(cur, pids(prev));
    let resolved = resolve_many(reg0.accounts@, reg0.next_id as int, joined_candidates);
    let departed = absent_from(prev, pids(cur));
    &&& rep.joined@ == resolved.2
    &&& rep.left@ == departed
    &&& reg1.accounts@ == resolved.0
    &&& reg1.next_id as int == resolved.1
    &&& rec1.events@ == rec0.events@ + events_for(resolved.2, run_time, EventKind::Joined)
        + events_for(departed, run_time, EventKind::Left)
}

/// Reconciler, phases 2 and 3: diff the fetched snapshot against the
/// previously recorded follower accounts, upsert the newly joined accounts,
/// and append one follow event per change, all sharing `run_time`. An
/// explicit fetch error or unreadable previous state is fatal and leaves the
/// registry and the event log untouched; a successful fetch of zero followers
/// is an ordinary run in which every previously recorded account departs.
pub fn reconcile(
    snapshot: Snapshot,
    previous: Option<Vec<User>>,
    registry: &mut AccountRegistry,
    recorder: &mut EventRecorder,
    run_time: i64,
) -> (r: Result<RunReport, RunError>)
    requires
        old(registry).wf(),
        snapshot matches Snapshot::Complete(cur) ==> pids_distinct(cur@) && old(
            registry,
        ).next_id + cur@.len() <= i64::MAX,
        previous matches Some(prev) ==> pids_distinct(prev@),
    ensures
        final(registry).wf(),
        snapshot is Failed ==> r == Result::<RunReport, RunError>::Err(RunError::FetchFailed)
            && *final(registry) == *old(registry) && *final(recorder) == *old(recorder),
        snapshot is Complete && previous is None ==> r == Result::<RunReport, RunError>::Err(
            RunError::StorageUnavailable,
        ) && *final(registry) == *old(registry) && *final(recorder) == *old(recorder),
        snapshot matches Snapshot::Complete(cur) ==> previous matches Some(prev) ==> (r matches Ok(
            rep,
        ) && reconciled(
            cur@,
            prev@,
            *old(registry),
            *old(recorder),
            *final(registry),
            *final(recorder),
            rep,
            run_time,
        ) && pids(rep.joined@).to_set() == joined_of(pids(cur@).to_set(), pids(prev@).to_set())
            && pids(rep.left@).to_set() == left_of(pids(cur@).to_set(), pids(prev@).to_set())),
{
    match snapshot {
        Snapshot::Failed => Err(RunError::FetchFailed),
        Snapshot::Complete(current) => {
            match previous {
                None => Err(RunError::StorageUnavailable),
                Some(prev) => {
                    let current_ids = ids_of(&current);
                    let previous_ids = ids_of(&prev);
                    let joined_candidates = users_not_in(&current, &previous_ids);
                    let departed = users_not_in(&prev, &current_ids);
                    let materialized = registry.resolve_or_create_many(&joined_candidates);
                    recorder.record(&materialized, &departed, run_time);
                    proof {
                        lemma_pids_index(materialized@);
                        lemma_pids_index(joined_candidates@);
                        assert(pids(materialized@) =~= pids(joined_candidates@));
                        lemma_absent_from_is_diff(current@, previous_ids@);
                        lemma_absent_from_is_diff(prev@, current_ids@);
                    }
                    Ok(RunReport { joined: materialized, left: departed })
                },
            }
        },
    }
}

} // verus!
