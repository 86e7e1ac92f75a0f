//! What the order of records and the size of quorums give.

use crate::quorum::{count_true, lemma_quorums_intersect, quorum};
use crate::storage::{accepted, initial_record, older, stamp_lt, Record};
use vstd::prelude::*;

verus! {

/// Stamps are totally ordered: of two stamps exactly one is older than the
/// other, unless they are the same stamp, and then neither is.
pub proof fn lemma_stamps_totally_ordered(ts_a: u64, rank_a: u8, ts_b: u64, rank_b: u8)
    ensures
        (ts_a == ts_b && rank_a == rank_b) ==> !stamp_lt(ts_a, rank_a, ts_b, rank_b) && !stamp_lt(
            ts_b,
            rank_b,
            ts_a,
            rank_a,
        ),
        !(ts_a == ts_b && rank_a == rank_b) ==> (stamp_lt(ts_a, rank_a, ts_b, rank_b) != stamp_lt(
            ts_b,
            rank_b,
            ts_a,
            rank_a,
        )),
{
}

/// Writes with the same timestamp are ordered by the rank of the writer.
pub proof fn lemma_rank_breaks_ties(ts: u64, rank_a: u8, rank_b: u8)
    ensures
        stamp_lt(ts, rank_a, ts, rank_b) == (rank_a < rank_b),
{
}

/// The order of stamps is transitive.
pub proof fn lemma_stamp_order_transitive(a: Record, b: Record, c: Record)
    requires
        older(a, b),
        older(b, c),
    ensures
        older(a, c),
{
}

/// A replica never goes back: what it holds after an offer is older neither
/// than what it held nor than what it was offered, and is one of the two.
pub proof fn lemma_accepted_is_newest(current: Record, incoming: Record)
    ensures
        !older(accepted(current, incoming), current),
        !older(accepted(current, incoming), incoming),
        accepted(current, incoming) == current || accepted(current, incoming) == incoming,
{
}

/// Replicas converge: a replica that is offered two writes holds the same
/// stamp whichever came first, the newest of the three stamps involved. The
/// content is the same too where the writes come from different ranks.
pub proof fn lemma_offers_commute(current: Record, a: Record, b: Record)
    ensures
        accepted(accepted(current, a), b).timestamp == accepted(
            accepted(current, b),
            a,
        ).timestamp,
        accepted(accepted(current, a), b).write_rank == accepted(
            accepted(current, b),
            a,
        ).write_rank,
        !older(accepted(accepted(current, a), b), current),
        !older(accepted(accepted(current, a), b), a),
        !older(accepted(accepted(current, a), b), b),
        a.write_rank != b.write_rank ==> accepted(accepted(current, a), b) == accepted(
            accepted(current, b),
            a,
        ),
{
}

/// What a replica that held `current` holds after it was offered `offers`
/// in turn.
pub open spec fn settled(current: Record, offers: Seq<Record>) -> Record
    decreases offers.len(),
{
    if offers.len() == 0 {
        current
    } else {
        accepted(settled(current, offers.drop_last()), offers.last())
    }
}

/// Whether `a` and `b` carry the same stamp.
pub open spec fn same_stamp(a: Record, b: Record) -> bool {
    a.timestamp == b.timestamp && a.write_rank == b.write_rank
}

/// After any offers a replica holds the newest of what it held and what it
/// was offered: a record that is one of them and older than none of them.
pub proof fn lemma_settled_is_newest(current: Record, offers: Seq<Record>)
    ensures
        !older(settled(current, offers), current),
        forall|k: int| 0 <= k < offers.len() ==> !older(settled(current, offers), offers[k]),
        settled(current, offers) == current || exists|k: int|
            0 <= k < offers.len() && settled(current, offers) == offers[k],
    decreases offers.len(),
{
    if offers.len() > 0 {
        let before = offers.drop_last();
        lemma_settled_is_newest(current, before);
        let s = settled(current, offers);
        assert forall|k: int| 0 <= k < offers.len() implies !older(s, offers[k]) by {
            if k < offers.len() - 1 {
                assert(before[k] == offers[k]);
            }
        }
        if s != current {
            if s == offers.last() {
                assert(s == offers[offers.len() - 1]);
            } else {
                let k = choose|k: int| 0 <= k < before.len() && settled(current, before) == before[k];
                assert(s == offers[k]);
            }
        }
    }
}

/// Replicas converge: two replicas that held the same record and were
/// offered the same writes, in whatever order and however often, hold the
/// same stamp. They hold the same record if no two different records among
/// those involved carry the same stamp.
pub proof fn lemma_replicas_converge(current: Record, a: Seq<Record>, b: Seq<Record>)
    requires
        forall|i: int| 0 <= i < a.len() ==> b.contains(#[trigger] a[i]),
        forall|j: int| 0 <= j < b.len() ==> a.contains(#[trigger] b[j]),
    ensures
        same_stamp(settled(current, a), settled(current, b)),
        (forall|i: int, j: int|
            0 <= i < a.len() && 0 <= j < a.len() && #[trigger] same_stamp(a[i], a[j]) ==> a[i]
                == a[j]) && (forall|i: int|
            0 <= i < a.len() && #[trigger] same_stamp(a[i], current) ==> a[i] == current)
            ==> settled(current, a) == settled(current, b),
{
    let sa = settled(current, a);
    let sb = settled(current, b);
    lemma_settled_is_newest(current, a);
    lemma_settled_is_newest(current, b);
    assert(!older(sb, sa)) by {
        if sa != current {
            let i = choose|i: int| 0 <= i < a.len() && sa == a[i];
            assert(b.contains(a[i]));
            let j = choose|j: int| 0 <= j < b.len() && b[j] == a[i];
            assert(!older(sb, b[j]));
        }
    }
    assert(!older(sa, sb)) by {
        if sb != current {
            let j = choose|j: int| 0 <= j < b.len() && sb == b[j];
            assert(a.contains(b[j]));
            let i = choose|i: int| 0 <= i < a.len() && a[i] == b[j];
            assert(!older(sa, a[i]));
        }
    }
    if (forall|i: int, j: int|
        0 <= i < a.len() && 0 <= j < a.len() && #[trigger] same_stamp(a[i], a[j]) ==> a[i] == a[j])
        && (forall|i: int|
        0 <= i < a.len() && #[trigger] same_stamp(a[i], current) ==> a[i] == current) {
        if sa != current && sb != current {
            let i = choose|i: int| 0 <= i < a.len() && sa == a[i];
            let j = choose|j: int| 0 <= j < b.len() && sb == b[j];
            assert(a.contains(b[j]));
            let i2 = choose|i2: int| 0 <= i2 < a.len() && a[i2] == b[j];
            assert(same_stamp(a[i], a[i2]));
        } else if sa != current {
            let i = choose|i: int| 0 <= i < a.len() && sa == a[i];
            assert(same_stamp(a[i], current));
        } else if sb != current {
            let j = choose|j: int| 0 <= j < b.len() && sb == b[j];
            assert(a.contains(b[j]));
            let i2 = choose|i2: int| 0 <= i2 < a.len() && a[i2] == b[j];
            assert(same_stamp(a[i2], current));
        }
    }
}

/// The newest record among `replies`, taken in the order of arrival from the
/// initial record on: what a coordinator holds as newest after counting them.
pub open spec fn newest(replies: Seq<Record>) -> Record {
    settled(initial_record(), replies)
}

/// None of the replies is newer than the newest.
pub proof fn lemma_newest_bounds(replies: Seq<Record>, i: int)
    requires
        0 <= i < replies.len(),
    ensures
        !older(newest(replies), replies[i]),
{
    lemma_settled_is_newest(initial_record(), replies);
}

/// What a replica holds stays no older than a write it has taken: where
/// `current` is no older than `written`, neither is what the replica holds
/// after any further offer.
pub proof fn lemma_accepted_keeps_bound(current: Record, incoming: Record, written: Record)
    requires
        !older(current, written),
    ensures
        !older(accepted(current, incoming), written),
{
}

/// What the replicas hold after the replica `to` was offered `incoming`.
/// An offer to no replica changes nothing.
pub open spec fn offer(records: Seq<Record>, to: int, incoming: Record) -> Seq<Record> {
    if 0 <= to < records.len() {
        records.update(to, accepted(records[to], incoming))
    } else {
        records
    }
}

/// What the replicas hold after the offers `offers`, each to one replica,
/// were made in turn.
pub open spec fn after_offers(records: Seq<Record>, offers: Seq<(int, Record)>) -> Seq<Record>
    decreases offers.len(),
{
    if offers.len() == 0 {
        records
    } else {
        offer(after_offers(records, offers.drop_last()), offers.last().0, offers.last().1)
    }
}

/// Whatever is offered to whom, a replica that holds a record no older than
/// `written` goes on holding one.
pub proof fn lemma_replicas_never_go_back(
    records: Seq<Record>,
    offers: Seq<(int, Record)>,
    i: int,
    written: Record,
)
    requires
        0 <= i < records.len(),
        !older(records[i], written),
    ensures
        after_offers(records, offers).len() == records.len(),
        !older(after_offers(records, offers)[i], written),
    decreases offers.len(),
{
    if offers.len() > 0 {
        lemma_replicas_never_go_back(records, offers.drop_last(), i, written);
    }
}

/// An acknowledged write stays visible: once a quorum of replicas (`acked`)
/// holds records no older than `written`, then after any offers to any
/// replicas every quorum (`answered`) has a replica whose record is no older
/// than `written`. So no later read phase ends on an older record.
pub proof fn lemma_acknowledged_write_stays_visible(
    records: Seq<Record>,
    offers: Seq<(int, Record)>,
    acked: Seq<bool>,
    answered: Seq<bool>,
    written: Record,
)
    requires
        acked.len() == records.len(),
        answered.len() == records.len(),
        count_true(acked) >= quorum(records.len() as int),
        count_true(answered) >= quorum(records.len() as int),
        forall|i: int| 0 <= i < records.len() && acked[i] ==> !older(records[i], written),
    ensures
        after_offers(records, offers).len() == records.len(),
        exists|i: int|
            0 <= i < records.len() && answered[i] && !older(
                after_offers(records, offers)[i],
                written,
            ),
{
    lemma_quorums_intersect(acked, answered);
    let i = choose|i: int| 0 <= i < acked.len() && acked[i] && answered[i];
    lemma_replicas_never_go_back(records, offers, i, written);
    assert(0 <= i < records.len() && answered[i] && !older(
        after_offers(records, offers)[i],
        written,
    ));
}

/// A read phase that hears from a replica holding a record no older than
/// `written` ends with a newest record no older than `written`: a read
/// returns it or something newer.
pub proof fn lemma_read_phase_is_no_older(replies: Seq<Record>, k: int, written: Record)
    requires
        0 <= k < replies.len(),
        !older(replies[k], written),
    ensures
        !older(newest(replies), written),
{
    lemma_newest_bounds(replies, k);
}

/// No stale read after an acknowledged write. Let `records` be what the
/// replicas held when a quorum of them (`acked`) had taken `written`. Let a
/// later read phase count the replies `replies`, the `k`-th from replica
/// `from[k]`, each no older than what that replica held then, and let the
/// replicas heard from (`answered`) be a quorum. Then the newest record of
/// that read phase is no older than `written`.
pub proof fn lemma_read_after_write(
    records: Seq<Record>,
    acked: Seq<bool>,
    answered: Seq<bool>,
    replies: Seq<Record>,
    from: Seq<int>,
    written: Record,
)
    requires
        acked.len() == records.len(),
        answered.len() == records.len(),
        from.len() == replies.len(),
        count_true(acked) >= quorum(records.len() as int),
        count_true(answered) >= quorum(records.len() as int),
        forall|i: int| 0 <= i < records.len() && acked[i] ==> !older(records[i], written),
        forall|i: int|
            0 <= i < records.len() && answered[i] ==> exists|k: int|
                0 <= k < replies.len() && #[trigger] from[k] == i,
        forall|k: int|
            0 <= k < replies.len() && 0 <= from[k] < records.len() ==> !older(
                #[trigger] replies[k],
                records[from[k]],
            ),
    ensures
        !older(newest(replies), written),
{
    lemma_quorums_intersect(acked, answered);
    let i = choose|i: int| 0 <= i < acked.len() && acked[i] && answered[i];
    let k = choose|k: int| 0 <= k < replies.len() && #[trigger] from[k] == i;
    assert(!older(replies[k], records[from[k]]));
    lemma_read_phase_is_no_older(replies, k, written);
}

/// A write that follows an acknowledged write is stamped past it: where the
/// newest record of its read phase is no older than `written`, the stamp it
/// gets is newer than that of `written`.
pub proof fn lemma_later_write_is_newer(best: Record, written: Record, self_rank: u8)
    requires
        best.timestamp < u64::MAX,
        !older(best, written),
    ensures
        stamp_lt(
            written.timestamp,
            written.write_rank,
            (best.timestamp + 1) as u64,
            self_rank,
        ),
{
}

/// What the replicas hold after the first `q` offers of the run `run`.
pub open spec fn state_at(records: Seq<Record>, run: Seq<(int, Record)>, q: int) -> Seq<Record> {
    after_offers(records, run.subrange(0, q))
}

/// Offers never change how many replicas there are.
pub proof fn lemma_after_offers_len(records: Seq<Record>, offers: Seq<(int, Record)>)
    ensures
        after_offers(records, offers).len() == records.len(),
    decreases offers.len(),
{
    if offers.len() > 0 {
        lemma_after_offers_len(records, offers.drop_last());
    }
}

/// A run may be taken in two parts.
pub proof fn lemma_after_offers_split(
    records: Seq<Record>,
    a: Seq<(int, Record)>,
    b: Seq<(int, Record)>,
)
    ensures
        after_offers(records, a + b) == after_offers(after_offers(records, a), b),
    decreases b.len(),
{
    if b.len() == 0 {
        assert(a + b =~= a);
    } else {
        lemma_after_offers_split(records, a, b.drop_last());
        assert((a + b).drop_last() =~= a + b.drop_last());
        assert((a + b).last() == b.last());
    }
}

/// Whatever a replica holds during a run, it held at the start or was
/// offered before, whole: records are never mixed.
pub proof fn lemma_held_was_offered(records: Seq<Record>, offers: Seq<(int, Record)>, i: int)
    requires
        0 <= i < records.len(),
    ensures
        after_offers(records, offers).len() == records.len(),
        after_offers(records, offers)[i] == records[i] || exists|k: int|
            0 <= k < offers.len() && #[trigger] offers[k] == (i, after_offers(records, offers)[i]),
    decreases offers.len(),
{
    lemma_after_offers_len(records, offers);
    if offers.len() > 0 {
        let before = offers.drop_last();
        lemma_held_was_offered(records, before, i);
        lemma_after_offers_len(records, before);
        let prev = after_offers(records, before);
        let now = after_offers(records, offers);
        if now[i] != records[i] {
            if now[i] == prev[i] {
                let k = choose|k: int| 0 <= k < before.len() && #[trigger] before[k] == (i, prev[i]);
                assert(offers[k] == (i, now[i]));
            } else {
                assert(offers[offers.len() - 1] == (i, now[i]));
            }
        }
    }
}

/// During a run no replica goes back: what replica `i` holds after `q`
/// offers is no older than anything it was no older than after `p <= q`
/// offers.
pub proof fn lemma_state_never_goes_back(
    records: Seq<Record>,
    run: Seq<(int, Record)>,
    p: int,
    q: int,
    i: int,
    written: Record,
)
    requires
        0 <= p <= q <= run.len(),
        0 <= i < records.len(),
        !older(state_at(records, run, p)[i], written),
    ensures
        state_at(records, run, q).len() == records.len(),
        !older(state_at(records, run, q)[i], written),
{
    let head = run.subrange(0, p);
    let tail = run.subrange(p, q);
    assert(run.subrange(0, q) =~= head + tail);
    lemma_after_offers_split(records, head, tail);
    lemma_after_offers_len(records, head);
    lemma_replicas_never_go_back(state_at(records, run, p), tail, i, written);
}

/// No stale read in any run. Take any run of offers to the replicas of one
/// sector. Let a quorum of replicas (`acked`) hold records no older than
/// `written` after the first `p` offers: a write, or a read's write-back,
/// is acknowledged then. Let a read phase that begins later count the
/// replies `replies`: the `k`-th is what replica `from[k]` holds after
/// `at[k] >= p` offers, and the replicas heard from (`answered`) are a
/// quorum. Then the newest record of that read phase, which a read returns
/// and a write is stamped past, is no older than `written`.
pub proof fn lemma_no_stale_read_in_run(
    records: Seq<Record>,
    run: Seq<(int, Record)>,
    p: int,
    acked: Seq<bool>,
    answered: Seq<bool>,
    replies: Seq<Record>,
    from: Seq<int>,
    at: Seq<int>,
    written: Record,
)
    requires
        0 <= p <= run.len(),
        acked.len() == records.len(),
        answered.len() == records.len(),
        from.len() == replies.len(),
        at.len() == replies.len(),
        count_true(acked) >= quorum(records.len() as int),
        count_true(answered) >= quorum(records.len() as int),
        forall|i: int|
            0 <= i < records.len() && acked[i] ==> !older(
                state_at(records, run, p)[i],
                written,
            ),
        forall|i: int|
            0 <= i < records.len() && answered[i] ==> exists|k: int|
                0 <= k < replies.len() && #[trigger] from[k] == i,
        forall|k: int|
            0 <= k < replies.len() ==> p <= at[k] <= run.len() && 0 <= from[k] < records.len()
                && #[trigger] replies[k] == state_at(records, run, at[k])[from[k]],
    ensures
        !older(newest(replies), written),
{
    lemma_quorums_intersect(acked, answered);
    let i = choose|i: int| 0 <= i < acked.len() && acked[i] && answered[i];
    let k = choose|k: int| 0 <= k < replies.len() && #[trigger] from[k] == i;
    assert(replies[k] == state_at(records, run, at[k])[from[k]]);
    lemma_state_never_goes_back(records, run, p, at[k], i, written);
    lemma_read_phase_is_no_older(replies, k, written);
}

/// What a read returns is whole: the newest record of a read phase whose
/// replies are what replicas hold during a run is a record that a replica
/// held at the start, or one that was offered in the run, or the initial
/// record.
pub proof fn lemma_read_returns_a_whole_record(
    records: Seq<Record>,
    run: Seq<(int, Record)>,
    replies: Seq<Record>,
    from: Seq<int>,
    at: Seq<int>,
)
    requires
        from.len() == replies.len(),
        at.len() == replies.len(),
        forall|k: int|
            0 <= k < replies.len() ==> 0 <= at[k] <= run.len() && 0 <= from[k] < records.len()
                && #[trigger] replies[k] == state_at(records, run, at[k])[from[k]],
    ensures
        newest(replies) == initial_record() || records.contains(newest(replies)) || exists|j: int|
            0 <= j < run.len() && (#[trigger] run[j]).1 == newest(replies),
{
    lemma_settled_is_newest(initial_record(), replies);
    let best = newest(replies);
    if best != initial_record() {
        let k = choose|k: int| 0 <= k < replies.len() && best == replies[k];
        assert(replies[k] == state_at(records, run, at[k])[from[k]]);
        let head = run.subrange(0, at[k]);
        lemma_held_was_offered(records, head, from[k]);
        if best != records[from[k]] {
            let j = choose|j: int| 0 <= j < head.len() && #[trigger] head[j] == (from[k], best);
            assert(run[j] == head[j]);
        } else {
            assert(records[from[k]] == best);
        }
    }
}

} // verus!
