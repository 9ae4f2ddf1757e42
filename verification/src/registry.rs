use vstd::prelude::*;

use crate::account::User;

verus! {

/// Whether some row in `s` carries platform id `pid`.
pub open spec fn has_pid(s: Seq<User>, pid: i64) -> bool {
    exists|i: int| 0 <= i < s.len() && s[i].twitter_id == pid
}

/// The index of the row carrying `pid`; meaningful when `has_pid` holds and
/// the platform ids of `s` are pairwise distinct.
pub open spec fn pid_index(s: Seq<User>, pid: i64) -> int {
    choose|i: int| 0 <= i < s.len() && s[i].twitter_id == pid
}

/// The internal id stored for `pid`.
pub open spec fn stored_id(s: Seq<User>, pid: i64) -> i64 {
    s[pid_index(s, pid)].id
}

/// No two rows carry the same platform id.
pub open spec fn pids_distinct(s: Seq<User>) -> bool {
    forall|i: int, j: int|
        0 <= i < j < s.len() ==> #[trigger] s[i].twitter_id != #[trigger] s[j].twitter_id
}

/// `candidate` as it is returned or persisted: the given internal id combined
/// with the candidate's own platform id and descriptive fields.
pub open spec fn with_id(candidate: User, fresh: i64) -> User {
    User {
        id: fresh,
        twitter_id: candidate.twitter_id,
        screenname: candidate.screenname,
        name: candidate.name,
    }
}

/// The rows after resolving `c` against rows `s` with next fresh id `next`:
/// unchanged when the platform id is already present, extended by one row
/// otherwise.
pub open spec fn resolve_accounts(s: Seq<User>, next: int, c: User) -> Seq<User> {
    if has_pid(s, c.twitter_id) {
        s
    } else {
        s.push(with_id(c, next as i64))
    }
}

/// The next fresh internal id after resolving `c`.
pub open spec fn resolve_next(s: Seq<User>, next: int, c: User) -> int {
    if has_pid(s, c.twitter_id) {
        next
    } else {
        next + 1
    }
}

/// The internal id that resolving `c` yields: the stored one when the
/// platform id is already present, the fresh one otherwise.
pub open spec fn resolve_id(s: Seq<User>, next: int, c: User) -> i64 {
    if has_pid(s, c.twitter_id) {
        stored_id(s, c.twitter_id)
    } else {
        next as i64
    }
}

/// The state and output of resolving the candidates `cs` in order, starting
/// from rows `s` and next fresh id `next`: the final rows, the final next id,
/// and one output row per candidate, in input order.
pub open spec fn resolve_many(s: Seq<User>, next: int, cs: Seq<User>) -> (Seq<User>, int, Seq<
    User,
>)
    decreases cs.len(),
{
    if cs.len() == 0 {
        (s, next, Seq::<User>::empty())
    } else {
        let p = resolve_many(s, next, cs.drop_last());
        let c = cs.last();
        (
            resolve_accounts(p.0, p.1, c),
            resolve_next(p.0, p.1, c),
            p.2.push(with_id(c, resolve_id(p.0, p.1, c))),
        )
    }
}

/// How many rows of `s` carry platform id `pid`.
pub open spec fn count_pid(s: Seq<User>, pid: i64) -> int
    decreases s.len(),
{
    if s.len() == 0 {
        0
    } else {
        count_pid(s.drop_last(), pid) + if s.last().twitter_id == pid {
            1int
        } else {
            0int
        }
    }
}

/// What persisted rows must satisfy to form a well-formed registry: pairwise
/// distinct platform ids, pairwise distinct internal ids, every internal id
/// positive and small enough to leave room for a fresh one.
pub open spec fn rows_wf(s: Seq<User>) -> bool {
    &&& pids_distinct(s)
    &&& forall|i: int, j: int| 0 <= i < j < s.len() ==> #[trigger] s[i].id != #[trigger] s[j].id
    &&& forall|i: int| 0 <= i < s.len() ==> 1 <= #[trigger] s[i].id < i64::MAX
}

/// Whether the platform ids of `users` are pairwise distinct, so that the
/// vector stands for a set of accounts.
#[verifier::loop_isolation(false)]
pub fn pids_unique(users: &Vec<User>) -> (b: bool)
    ensures
        b == pids_distinct(users@),
{
    let mut i: usize = 0;
    while i < users.len()
        invariant
            0 <= i <= users@.len(),
            forall|p: int, q: int|
                0 <= p < q < i ==> #[trigger] users@[p].twitter_id != #[trigger] users@[q].twitter_id,
        decreases users@.len() - i,
    {
        let mut j: usize = 0;
        while j < i
            invariant
                0 <= j <= i < users@.len(),
                forall|p: int, q: int|
                    0 <= p < q < i ==> #[trigger] users@[p].twitter_id
                        != #[trigger] users@[q].twitter_id,
                forall|p: int|
                    0 <= p < j ==> #[trigger] users@[p].twitter_id != users@[i as int].twitter_id,
            decreases i - j,
        {
            if users[j].twitter_id == users[i].twitter_id {
                return false;
            }
            j = j + 1;
        }
        i = i + 1;
    }
    true
}

/// AccountRegistry: resolves platform ids to stable internal ids, inserting
/// unseen accounts exactly once. Rows are append-only; an internal id is
/// assigned once and never reused.
pub struct AccountRegistry {
    pub accounts: Vec<User>,
    pub next_id: i64,
}

impl AccountRegistry {
    /// Well-formedness: platform ids are unique, internal ids are unique,
    /// positive, strictly below the next fresh id.
    pub open spec fn wf(self) -> bool {
        &&& pids_distinct(self.accounts@)
        &&& forall|i: int|
            0 <= i < self.accounts@.len() ==> 1 <= #[trigger] self.accounts@[i].id
                < self.next_id
        &&& forall|i: int, j: int|
            0 <= i < j < self.accounts@.len() ==> #[trigger] self.accounts@[i].id
                != #[trigger] self.accounts@[j].id
        &&& 1 <= self.next_id
    }

    /// An empty registry; internal ids start at 1.
    pub fn new() -> (r: AccountRegistry)
        ensures
            r.wf(),
            r.accounts@ == Seq::<User>::empty(),
            r.next_id == 1,
    {
        AccountRegistry { accounts: Vec::new(), next_id: 1 }
    }

    /// Rebuilds a registry from rows read back from storage. Succeeds exactly
    /// when the rows could have been written by this registry: platform ids
    /// unique, internal ids unique, positive and below the largest usable id.
    /// The next fresh id is one past the largest internal id on the rows.
    #[verifier::loop_isolation(false)]
    pub fn from_rows(rows: Vec<User>) -> (r: Option<AccountRegistry>)
        ensures
            r is Some <==> rows_wf(rows@),
            r matches Some(reg) ==> reg.wf() && reg.accounts@ == rows@,
    {
        let mut max_id: i64 = 0;
        let mut i: usize = 0;
        while i < rows.len()
            invariant
                0 <= i <= rows@.len(),
                forall|p: int, q: int|
                    0 <= p < q < i ==> #[trigger] rows@[p].twitter_id
                        != #[trigger] rows@[q].twitter_id,
                forall|p: int, q: int|
                    0 <= p < q < i ==> #[trigger] rows@[p].id != #[trigger] rows@[q].id,
                forall|p: int| 0 <= p < i ==> 1 <= #[trigger] rows@[p].id < i64::MAX,
                0 <= max_id < i64::MAX,
                forall|p: int| 0 <= p < i ==> #[trigger] rows@[p].id <= max_id,
            decreases rows@.len() - i,
        {
            let row_id = rows[i].id;
            if row_id < 1 || row_id == i64::MAX {
                proof {
                    assert(!rows_wf(rows@)) by {
                        if rows_wf(rows@) {
                            assert(1 <= rows@[i as int].id < i64::MAX);
                        }
                    }
                }
                return None;
            }
            let mut j: usize = 0;
            while j < i
                invariant
                    0 <= j <= i < rows@.len(),
                    forall|p: int|
                        0 <= p < j ==> #[trigger] rows@[p].twitter_id
                            != rows@[i as int].twitter_id,
                    forall|p: int| 0 <= p < j ==> #[trigger] rows@[p].id != rows@[i as int].id,
                decreases i - j,
            {
                if rows[j].twitter_id == rows[i].twitter_id {
                    proof {
                        assert(!rows_wf(rows@)) by {
                            if rows_wf(rows@) {
                                assert(rows@[j as int].twitter_id != rows@[i as int].twitter_id);
                            }
                        }
                    }
                    return None;
                }
                if rows[j].id == row_id {
                    proof {
                        assert(!rows_wf(rows@)) by {
                            if rows_wf(rows@) {
                                assert(rows@[j as int].id != rows@[i as int].id);
                            }
                        }
                    }
                    return None;
                }
                j = j + 1;
            }
            if row_id > max_id {
                max_id = row_id;
            }
            i = i + 1;
        }
        Some(AccountRegistry { accounts: rows, next_id: max_id + 1 })
    }

    /// Idempotent upsert: returns the internal id for the candidate's
    /// platform id. When that platform id is already registered, the existing
    /// id is returned and no row is added or changed; otherwise one row is
    /// inserted with a fresh internal id. Safe to repeat across runs.
    #[verifier::loop_isolation(false)]
    pub fn resolve_or_create(&mut self, candidate: &User) -> (r: i64)
        requires
            old(self).wf(),
            old(self).next_id < i64::MAX,
        ensures
            final(self).wf(),
            r == resolve_id(old(self).accounts@, old(self).next_id as int, *candidate),
            final(self).accounts@ == resolve_accounts(
                old(self).accounts@,
                old(self).next_id as int,
                *candidate,
            ),
            final(self).next_id as int == resolve_next(
                old(self).accounts@,
                old(self).next_id as int,
                *candidate,
            ),
    {
        let ghost s0 = self.accounts@;
        let mut i: usize = 0;
        while i < self.accounts.len()
            invariant
                0 <= i <= s0.len(),
                self.accounts@ == s0,
                self.next_id == old(self).next_id,
                forall|k: int| 0 <= k < i ==> #[trigger] s0[k].twitter_id != candidate.twitter_id,
            decreases s0.len() - i,
        {
            if self.accounts[i].twitter_id == candidate.twitter_id {
                proof {
                    assert(has_pid(s0, candidate.twitter_id));
                    let j = pid_index(s0, candidate.twitter_id);
                    assert(0 <= j < s0.len() && s0[j].twitter_id == candidate.twitter_id);
                    assert(j == i) by {
                        if j < i {
                            assert(s0[j].twitter_id != s0[i as int].twitter_id);
                        }
                        if i < j {
                            assert(s0[i as int].twitter_id != s0[j].twitter_id);
                        }
                    }
                }
                return self.accounts[i].id;
            }
            i = i + 1;
        }
        proof {
            assert(!has_pid(s0, candidate.twitter_id));
        }
        let fresh = self.next_id;
        let row = User {
            id: fresh,
            twitter_id: candidate.twitter_id,
            screenname: candidate.screenname.clone(),
            name: candidate.name.clone(),
        };
        self.accounts.push(row);
        self.next_id = self.next_id + 1;
        proof {
            let s1 = self.accounts@;
            assert(s1 == s0.push(with_id(*candidate, fresh)));
            assert forall|i: int, j: int| 0 <= i < j < s1.len() implies #[trigger] s1[i].twitter_id
                != #[trigger] s1[j].twitter_id by {
                if j < s0.len() {
                    assert(s0[i].twitter_id != s0[j].twitter_id);
                } else {
                    assert(s1[j] == with_id(*candidate, fresh));
                    assert(s0[i].twitter_id != candidate.twitter_id) by {
                        if s0[i].twitter_id == candidate.twitter_id {
                            assert(has_pid(s0, candidate.twitter_id));
                        }
                    }
                }
            }
        }
        fresh
    }

    /// Batch upsert: resolves each candidate in order; the output has one row
    /// per candidate, in input order, carrying the candidate's platform id
    /// and descriptive fields together with its resolved internal id.
    #[verifier::loop_isolation(false)]
    pub fn resolve_or_create_many(&mut self, candidates: &Vec<User>) -> (r: Vec<User>)
        requires
            old(self).wf(),
            old(self).next_id + candidates@.len() <= i64::MAX,
        ensures
            final(self).wf(),
            r@ == resolve_many(old(self).accounts@, old(self).next_id as int, candidates@).2,
            final(self).accounts@ == resolve_many(
                old(self).accounts@,
                old(self).next_id as int,
                candidates@,
            ).0,
            final(self).next_id as int == resolve_many(
                old(self).accounts@,
                old(self).next_id as int,
                candidates@,
            ).1,
            r@.len() == candidates@.len(),
            forall|k: int|
                0 <= k < r@.len() ==> #[trigger] r@[k].twitter_id == candidates@[k].twitter_id,
    {
        let ghost s0 = self.accounts@;
        let ghost n0 = self.next_id as int;
        let ghost cs = candidates@;
        let mut out: Vec<User> = Vec::new();
        let mut i: usize = 0;
        while i < candidates.len()
            invariant
                0 <= i <= cs.len(),
                self.wf(),
                self.accounts@ == resolve_many(s0, n0, cs.take(i as int)).0,
                self.next_id as int == resolve_many(s0, n0, cs.take(i as int)).1,
                out@ == resolve_many(s0, n0, cs.take(i as int)).2,
                out@.len() == i,
                self.next_id as int <= n0 + i,
                forall|k: int|
                    0 <= k < out@.len() ==> #[trigger] out@[k].twitter_id == cs[k].twitter_id,
            decreases cs.len() - i,
        {
            let id = self.resolve_or_create(&candidates[i]);
            let row = User {
                id,
                twitter_id: candidates[i].twitter_id,
                screenname: candidates[i].screenname.clone(),
                name: candidates[i].name.clone(),
            };
            out.push(row);
            proof {
                assert(cs.take(i + 1).drop_last() =~= cs.take(i as int));
                assert(cs.take(i + 1).last() == cs[i as int]);
            }
            i = i + 1;
        }
        proof {
            assert(cs.take(cs.len() as int) =~= cs);
        }
        out
    }
}

/// Registry idempotence: resolving the same platform id a second time, with
/// the same or different descriptive fields, returns the internal id of the
/// first resolution, changes nothing, and the rows hold exactly one entry for
/// that platform id.
pub proof fn lemma_registry_idempotent(s: Seq<User>, next: int, c1: User, c2: User)
    requires
        pids_distinct(s),
        c1.twitter_id == c2.twitter_id,
    ensures
        resolve_id(resolve_accounts(s, next, c1), resolve_next(s, next, c1), c2) == resolve_id(
            s,
            next,
            c1,
        ),
        resolve_accounts(resolve_accounts(s, next, c1), resolve_next(s, next, c1), c2)
            == resolve_accounts(s, next, c1),
        resolve_next(resolve_accounts(s, next, c1), resolve_next(s, next, c1), c2) == resolve_next(
            s,
            next,
            c1,
        ),
        count_pid(resolve_accounts(s, next, c1), c1.twitter_id) == 1,
{
    let pid = c1.twitter_id;
    let s1 = resolve_accounts(s, next, c1);
    if has_pid(s, pid) {
        assert(s1 == s);
        lemma_count_pid_distinct(s, pid);
    } else {
        let u = with_id(c1, next as i64);
        assert(s1 == s.push(u));
        assert(s1[s.len() as int] == u);
        assert(has_pid(s1, pid));
        assert(pids_distinct(s1)) by {
            assert forall|i: int, j: int| 0 <= i < j < s1.len() implies #[trigger] s1[i].twitter_id
                != #[trigger] s1[j].twitter_id by {
                if j < s.len() {
                    assert(s[i].twitter_id != s[j].twitter_id);
                } else {
                    assert(s1[j].twitter_id == pid);
                    if s[i].twitter_id == pid {
                        assert(has_pid(s, pid));
                    }
                }
            }
        }
        let j = pid_index(s1, pid);
        assert(0 <= j < s1.len() && s1[j].twitter_id == pid);
        assert(j == s.len()) by {
            if j < s.len() {
                assert(s[j].twitter_id == pid);
                assert(has_pid(s, pid));
            }
        }
        assert(stored_id(s1, pid) == next as i64);
        lemma_count_pid_distinct(s1, pid);
    }
}

/// Among rows with pairwise-distinct platform ids, a platform id occurs on
/// exactly one row when present and on none otherwise.
proof fn lemma_count_pid_distinct(s: Seq<User>, pid: i64)
    requires
        pids_distinct(s),
    ensures
        count_pid(s, pid) == if has_pid(s, pid) {
            1int
        } else {
            0int
        },
    decreases s.len(),
{
    if s.len() == 0 {
    } else {
        let butlast = s.drop_last();
        assert(pids_distinct(butlast)) by {
            assert forall|i: int, j: int| 0 <= i < j < butlast.len() implies #[trigger] butlast[i].twitter_id
                != #[trigger] butlast[j].twitter_id by {
                assert(butlast[i] == s[i] && butlast[j] == s[j]);
                assert(s[i].twitter_id != s[j].twitter_id);
            }
        }
        lemma_count_pid_distinct(butlast, pid);
        if s.last().twitter_id == pid {
            assert(has_pid(s, pid)) by {
                assert(s[s.len() - 1].twitter_id == pid);
            }
            assert(!has_pid(butlast, pid)) by {
                if has_pid(butlast, pid) {
                    let k = choose|k: int|
                        0 <= k < butlast.len() && butlast[k].twitter_id == pid;
                    assert(s[k].twitter_id == pid);
                    assert(s[k].twitter_id != s[s.len() - 1].twitter_id);
                }
            }
        } else {
            assert(has_pid(butlast, pid) <==> has_pid(s, pid)) by {
                if has_pid(butlast, pid) {
                    let k = choose|k: int|
                        0 <= k < butlast.len() && butlast[k].twitter_id == pid;
                    assert(s[k].twitter_id == pid);
                }
                if has_pid(s, pid) {
                    let k = choose|k: int| 0 <= k < s.len() && s[k].twitter_id == pid;
                    assert(k < s.len() - 1);
                    assert(butlast[k].twitter_id == pid);
                }
            }
        }
    }
}

} // verus!
