//! Quorums: how many replies a coordinator waits for, and why any two
//! quorums share a process.

use vstd::prelude::*;

verus! {

/// The size of a quorum among `n` processes: more than half of them.
pub open spec fn quorum(n: int) -> int {
    n / 2 + 1
}

/// The size of a quorum among `n` processes.
pub fn quorum_size(n: u8) -> (q: usize)
    ensures
        q == quorum(n as int),
        2 * q > n,
        n >= 1 ==> q <= n,
{
    (n / 2) as usize + 1
}

/// How many entries of `s` are set.
pub open spec fn count_true(s: Seq<bool>) -> nat
    decreases s.len(),
{
    if s.len() == 0 {
        0
    } else {
        count_true(s.drop_last()) + if s.last() {
            1nat
        } else {
            0nat
        }
    }
}

/// How many entries of `v` are set.
pub fn count_set(v: &Vec<bool>) -> (c: usize)
    ensures
        c == count_true(v@),
{
    let mut c: usize = 0;
    let mut i: usize = 0;
    while i < v.len()
        invariant
            i <= v@.len(),
            c <= i,
            c == count_true(v@.subrange(0, i as int)),
        decreases v@.len() - i,
    {
        assert(v@.subrange(0, i + 1).drop_last() =~= v@.subrange(0, i as int));
        if v[i] {
            c += 1;
        }
        i += 1;
    }
    assert(v@.subrange(0, i as int) =~= v@);
    c
}

/// No more entries are set than there are.
pub proof fn lemma_count_bounded(s: Seq<bool>)
    ensures
        count_true(s) <= s.len(),
    decreases s.len(),
{
    if s.len() > 0 {
        lemma_count_bounded(s.drop_last());
    }
}

/// Where no entry is set the count is zero.
pub proof fn lemma_count_none(s: Seq<bool>)
    requires
        forall|i: int| 0 <= i < s.len() ==> !s[i],
    ensures
        count_true(s) == 0,
    decreases s.len(),
{
    if s.len() > 0 {
        lemma_count_none(s.drop_last());
    }
}

/// Setting an entry that was not set adds one to the count.
pub proof fn lemma_count_set(s: Seq<bool>, i: int)
    requires
        0 <= i < s.len(),
        !s[i],
    ensures
        count_true(s.update(i, true)) == count_true(s) + 1,
    decreases s.len(),
{
    let t = s.update(i, true);
    if i == s.len() - 1 {
        assert(t.drop_last() =~= s.drop_last());
    } else {
        lemma_count_set(s.drop_last(), i);
        assert(t.drop_last() =~= s.drop_last().update(i, true));
    }
}

/// Two sets of processes that share no process hold, together, no more
/// processes than there are.
pub proof fn lemma_disjoint_counts(a: Seq<bool>, b: Seq<bool>)
    requires
        a.len() == b.len(),
        forall|i: int| 0 <= i < a.len() ==> !(a[i] && b[i]),
    ensures
        count_true(a) + count_true(b) <= a.len(),
    decreases a.len(),
{
    if a.len() > 0 {
        lemma_disjoint_counts(a.drop_last(), b.drop_last());
    }
}

/// Any two quorums intersect: among `n` processes, two sets of at least
/// `quorum(n)` processes each have a process in common.
pub proof fn lemma_quorums_intersect(a: Seq<bool>, b: Seq<bool>)
    requires
        a.len() == b.len(),
        count_true(a) >= quorum(a.len() as int),
        count_true(b) >= quorum(a.len() as int),
    ensures
        exists|i: int| 0 <= i < a.len() && a[i] && b[i],
{
    if forall|i: int| 0 <= i < a.len() ==> !(a[i] && b[i]) {
        lemma_disjoint_counts(a, b);
    }
}

/// A quorum is reached while a minority of the processes is down: among
/// `n >= 1` processes a quorum is half of `n + 1`, rounded up; it is at most
/// `n`, and what is left when a quorum answers is less than a quorum.
pub proof fn lemma_quorum_is_majority(n: int)
    requires
        n >= 1,
    ensures
        quorum(n) == (n + 2) / 2,
        2 * quorum(n) >= n + 1,
        2 * (quorum(n) - 1) < n + 1,
        1 <= quorum(n) <= n,
        n - quorum(n) < quorum(n),
{
}

} // verus!
