use vstd::prelude::*;

use crate::account::User;

verus! {

/// What a follow event records: the account newly follows, or it no longer
/// follows.
#[derive(Clone, Copy, PartialEq, Eq, Structural, Debug)]
pub enum EventKind {
    Joined,
    Left,
}

impl EventKind {
    /// The stored encoding of the kind: 1 for a new follower, 0 for a
    /// departed one.
    pub fn code(&self) -> (c: i64)
        ensures
            c == if *self is Joined {
                1int
            } else {
                0int
            },
    {
        match self {
            EventKind::Joined => 1,
            EventKind::Left => 0,
        }
    }
}

/// One immutable follow/unfollow event: the internal id of the account, the
/// run timestamp shared by every event of the run, and the kind.
#[derive(Clone, Copy, PartialEq, Eq, Structural, Debug)]
pub struct FollowEvent {
    pub user_id: i64,
    pub founddate: i64,
    pub kind: EventKind,
}

/// One event per account of `users`, in order, all with timestamp `date` and
/// kind `kind`.
pub open spec fn events_for(users: Seq<User>, date: i64, kind: EventKind) -> Seq<FollowEvent>
    decreases users.len(),
{
    if users.len() == 0 {
        Seq::<FollowEvent>::empty()
    } else {
        events_for(users.drop_last(), date, kind).push(
            FollowEvent { user_id: users.last().id, founddate: date, kind },
        )
    }
}

/// EventRecorder: an append-only log of follow events. Events are never
/// mutated or removed.
pub struct EventRecorder {
    pub events: Vec<FollowEvent>,
}

impl EventRecorder {
    /// An empty log.
    pub fn new() -> (r: EventRecorder)
        ensures
            r.events@ == Seq::<FollowEvent>::empty(),
    {
        EventRecorder { events: Vec::new() }
    }

    /// Appends one `Joined` event per account in `comes` and one `Left` event
    /// per account in `leaves`, all sharing the run timestamp `date`. Earlier
    /// events are untouched.
    #[verifier::loop_isolation(false)]
    pub fn record(&mut self, comes: &Vec<User>, leaves: &Vec<User>, date: i64)
        ensures
            final(self).events@ == old(self).events@ + events_for(comes@, date, EventKind::Joined)
                + events_for(leaves@, date, EventKind::Left),
    {
        let ghost e0 = self.events@;
        let mut i: usize = 0;
        while i < comes.len()
            invariant
                0 <= i <= comes@.len(),
                self.events@ == e0 + events_for(comes@.take(i as int), date, EventKind::Joined),
            decreases comes@.len() - i,
        {
            self.events.push(
                FollowEvent { user_id: comes[i].id, founddate: date, kind: EventKind::Joined },
            );
            proof {
                assert(comes@.take(i + 1).drop_last() =~= comes@.take(i as int));
                assert(comes@.take(i + 1).last() == comes@[i as int]);
            }
            i = i + 1;
        }
        proof {
            assert(comes@.take(comes@.len() as int) =~= comes@);
        }
        let ghost e1 = self.events@;
        let mut j: usize = 0;
        while j < leaves.len()
            invariant
                0 <= j <= leaves@.len(),
                self.events@ == e1 + events_for(leaves@.take(j as int), date, EventKind::Left),
            decreases leaves@.len() - j,
        {
            self.events.push(
                FollowEvent { user_id: leaves[j].id, founddate: date, kind: EventKind::Left },
            );
            proof {
                assert(leaves@.take(j + 1).drop_last() =~= leaves@.take(j as int));
                assert(leaves@.take(j + 1).last() == leaves@[j as int]);
            }
            j = j + 1;
        }
        proof {
            assert(leaves@.take(leaves@.len() as int) =~= leaves@);
            assert(self.events@ == e0 + events_for(comes@, date, EventKind::Joined) + events_for(
                leaves@,
                date,
                EventKind::Left,
            ));
        }
    }
}

/// The events of one batch, indexed: one per account, in order.
pub proof fn lemma_events_for(users: Seq<User>, date: i64, kind: EventKind)
    ensures
        events_for(users, date, kind).len() == users.len(),
        forall|i: int|
            0 <= i < users.len() ==> #[trigger] events_for(users, date, kind)[i] == (FollowEvent {
                user_id: users[i].id,
                founddate: date,
                kind,
            }),
    decreases users.len(),
{
    if users.len() == 0 {
    } else {
        lemma_events_for(users.drop_last(), date, kind);
    }
}

/// Event count invariant: recording `comes` and `leaves` at timestamp `date`
/// appends exactly `|comes| + |leaves|` events; every appended event carries
/// timestamp `date`, the first `|comes|` carry kind `Joined` and the internal
/// id of the matching account of `comes`, the rest kind `Left` and the
/// internal id of the matching account of `leaves`.
pub proof fn lemma_event_count(comes: Seq<User>, leaves: Seq<User>, date: i64)
    ensures
        (events_for(comes, date, EventKind::Joined) + events_for(
            leaves,
            date,
            EventKind::Left,
        )).len() == comes.len() + leaves.len(),
        forall|i: int|
            0 <= i < comes.len() + leaves.len() ==> #[trigger] (events_for(
                comes,
                date,
                EventKind::Joined,
            ) + events_for(leaves, date, EventKind::Left))[i].founddate == date,
        forall|i: int|
            0 <= i < comes.len() ==> (events_for(comes, date, EventKind::Joined) + events_for(
                leaves,
                date,
                EventKind::Left,
            ))[i] == (FollowEvent { user_id: comes[i].id, founddate: date, kind: EventKind::Joined }),
        forall|i: int|
            comes.len() <= i < comes.len() + leaves.len() ==> (events_for(
                comes,
                date,
                EventKind::Joined,
            ) + events_for(leaves, date, EventKind::Left))[i] == (FollowEvent {
                user_id: leaves[i - comes.len()].id,
                founddate: date,
                kind: EventKind::Left,
            }),
{
    lemma_events_for(comes, date, EventKind::Joined);
    lemma_events_for(leaves, date, EventKind::Left);
}

} // verus!
