use vstd::prelude::*;

verus! {

/// The ids that follow now but were not previously recorded.
pub open spec fn joined_of(current: Set<i64>, previous: Set<i64>) -> Set<i64> {
    current.difference(previous)
}

/// The ids that were previously recorded but follow no longer.
pub open spec fn left_of(current: Set<i64>, previous: Set<i64>) -> Set<i64> {
    previous.difference(current)
}

/// Whether `x` occurs in `v`.
pub fn contains_id(v: &Vec<i64>, x: i64) -> (b: bool)
    ensures
        b == v@.contains(x),
{
    let mut i: usize = 0;
    while i < v.len()
        invariant
            0 <= i <= v@.len(),
            forall|j: int| 0 <= j < i ==> v@[j] != x,
        decreases v@.len() - i,
    {
        if v[i] == x {
            assert(v@[i as int] == x);
            return true;
        }
        i = i + 1;
    }
    false
}

/// The elements of `a`, in order, that do not occur in `b`.
fn minus(a: &Vec<i64>, b: &Vec<i64>) -> (r: Vec<i64>)
    requires
        a@.no_duplicates(),
    ensures
        forall|x: i64| r@.contains(x) <==> a@.contains(x) && !b@.contains(x),
        r@.no_duplicates(),
{
    let mut out: Vec<i64> = Vec::new();
    let mut i: usize = 0;
    while i < a.len()
        invariant
            0 <= i <= a@.len(),
            a@.no_duplicates(),
            out@.no_duplicates(),
            forall|x: i64| out@.contains(x) <==> (a@.take(i as int).contains(x) && !b@.contains(x)),
        decreases a@.len() - i,
    {
        let ghost prefix = a@.take(i as int);
        let ghost out_before = out@;
        let in_b = contains_id(b, a[i]);
        if !in_b {
            proof {
                broadcast use vstd::seq_lib::group_seq_properties;

                assert(!prefix.contains(a@[i as int])) by {
                    assert(forall|k: int|
                        0 <= k < i ==> #[trigger] prefix[k] == a@[k] && a@[k] != a@[i as int]);
                }
                assert(!out_before.contains(a@[i as int]));
            }
            out.push(a[i]);
        }
        proof {
            broadcast use vstd::seq_lib::group_seq_properties;

            let e = a@[i as int];
            assert(a@.take(i + 1) =~= prefix.push(e));
            if !in_b {
                assert(out@ == out_before.push(e));
                assert forall|x: i64| out@.contains(x) implies (a@.take(i + 1).contains(x)
                    && !b@.contains(x)) by {
                    assert(out_before.push(e).contains(x));
                    assert(prefix.push(e).contains(x));
                }
                assert forall|x: i64| (a@.take(i + 1).contains(x) && !b@.contains(x)) implies
                    out@.contains(x) by {
                    assert(prefix.push(e).contains(x));
                    assert(out_before.push(e).contains(x));
                }
            } else {
                assert forall|x: i64| (a@.take(i + 1).contains(x) && !b@.contains(x)) implies
                    out@.contains(x) by {
                    assert(prefix.push(e).contains(x));
                    assert(x != e);
                    assert(prefix.contains(x));
                }
                assert forall|x: i64| out@.contains(x) implies (a@.take(i + 1).contains(x)
                    && !b@.contains(x)) by {
                    assert(prefix.contains(x));
                    assert(prefix.push(e).contains(x));
                }
            }
        }
        i = i + 1;
    }
    proof {
        assert(a@.take(a@.len() as int) =~= a@);
    }
    out
}

/// FollowerDiffEngine: partitions a freshly observed follower-id set
/// (`current`) against the previously recorded one (`previous`) into the ids
/// that newly follow and the ids that no longer follow. The inputs are
/// duplicate-free vectors standing for finite sets; the order of the outputs
/// carries no meaning and callers must not depend on it. An id in both inputs
/// (a continuing follower) is emitted in neither output; no id is dropped.
pub fn diff(current: &Vec<i64>, previous: &Vec<i64>) -> (r: (Vec<i64>, Vec<i64>))
    requires
        current@.no_duplicates(),
        previous@.no_duplicates(),
    ensures
        forall|x: i64| r.0@.contains(x) <==> current@.contains(x) && !previous@.contains(x),
        forall|x: i64| r.1@.contains(x) <==> previous@.contains(x) && !current@.contains(x),
        r.0@.no_duplicates(),
        r.1@.no_duplicates(),
        r.0@.to_set() == joined_of(current@.to_set(), previous@.to_set()),
        r.1@.to_set() == left_of(current@.to_set(), previous@.to_set()),
{
    let joined = minus(current, previous);
    let left = minus(previous, current);
    proof {
        assert(joined@.to_set() =~= joined_of(current@.to_set(), previous@.to_set()));
        assert(left@.to_set() =~= left_of(current@.to_set(), previous@.to_set()));
    }
    (joined, left)
}

/// Partition completeness: the newly joined ids, the continuing ids and the
/// departed ids together cover exactly `current ∪ previous`, and no id is both
/// joined and departed.
pub proof fn lemma_partition_completeness(current: Set<i64>, previous: Set<i64>)
    ensures
        joined_of(current, previous).union(current.intersect(previous)).union(
            left_of(current, previous),
        ) == current.union(previous),
        joined_of(current, previous).intersect(left_of(current, previous)) == Set::<i64>::empty(),
{
    assert(joined_of(current, previous).union(current.intersect(previous)).union(
        left_of(current, previous),
    ) =~= current.union(previous));
    assert(joined_of(current, previous).intersect(left_of(current, previous))
        =~= Set::<i64>::empty());
}

/// First-run behaviour: against an empty previous set, every current follower
/// is newly joined and nobody has departed.
pub proof fn lemma_first_run(current: Set<i64>)
    ensures
        joined_of(current, Set::<i64>::empty()) == current,
        left_of(current, Set::<i64>::empty()) == Set::<i64>::empty(),
{
    assert(joined_of(current, Set::<i64>::empty()) =~= current);
    assert(left_of(current, Set::<i64>::empty()) =~= Set::<i64>::empty());
}

/// No-change idempotence: comparing a follower set against itself reports
/// nobody joined and nobody departed.
pub proof fn lemma_no_change(s: Set<i64>)
    ensures
        joined_of(s, s) == Set::<i64>::empty(),
        left_of(s, s) == Set::<i64>::empty(),
{
    assert(joined_of(s, s) =~= Set::<i64>::empty());
    assert(left_of(s, s) =~= Set::<i64>::empty());
}

} // verus!
