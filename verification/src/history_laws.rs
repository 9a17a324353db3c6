//! Laws of the delayed views, proved of the functions that the contracts of
//! [`History`] are stated with.

use crate::history::{horizon, reach, History, Update};
use vstd::prelude::*;

verus! {

/// A scan stops inside the log, at or after its start, and every update that it
/// passes was made up to the limit.
pub proof fn lemma_reach_bounds(updates: Seq<Update>, from: int, limit: int)
    requires
        0 <= from <= updates.len(),
    ensures
        from <= reach(updates, from, limit) <= updates.len(),
        forall|i: int| from <= i < reach(updates, from, limit) ==> updates[i].timestamp <= limit,
        reach(updates, from, limit) < updates.len() ==> updates[reach(
            updates,
            from,
            limit,
        )].timestamp > limit,
    decreases updates.len() - from,
{
    if from < updates.len() && updates[from].timestamp <= limit {
        lemma_reach_bounds(updates, from + 1, limit);
    }
}

/// A scan that meets no update made after the limit before `to` gets to `to`
/// at least.
pub proof fn lemma_reach_passes(updates: Seq<Update>, from: int, to: int, limit: int)
    requires
        0 <= from <= to <= updates.len(),
        forall|i: int| from <= i < to ==> updates[i].timestamp <= limit,
    ensures
        reach(updates, from, limit) >= to,
    decreases to - from,
{
    if from < to {
        lemma_reach_passes(updates, from + 1, to, limit);
    } else {
        lemma_reach_bounds(updates, from, limit);
    }
}

/// Where a scan has stopped, a scan with the same limit stays.
pub proof fn lemma_reach_idempotent(updates: Seq<Update>, from: int, limit: int)
    requires
        0 <= from <= updates.len(),
    ensures
        reach(updates, reach(updates, from, limit), limit) == reach(updates, from, limit),
{
    lemma_reach_bounds(updates, from, limit);
}

/// A scan that starts no earlier and has no earlier a limit stops no earlier.
pub proof fn lemma_reach_monotonic(
    updates: Seq<Update>,
    early: int,
    late: int,
    low: int,
    high: int,
)
    requires
        0 <= early <= late <= updates.len(),
        low <= high,
    ensures
        reach(updates, early, low) <= reach(updates, late, high),
{
    lemma_reach_bounds(updates, early, low);
    lemma_reach_bounds(updates, late, high);
    let stop = reach(updates, late, high);
    if stop < reach(updates, early, low) {
        assert(updates[stop].timestamp <= low);
    }
}

/// Whether the updates are in the order of their instants.
pub open spec fn in_order(updates: Seq<Update>) -> bool {
    forall|i: int, j: int|
        0 <= i <= j < updates.len() ==> updates[i].timestamp <= updates[j].timestamp
}

/// In a log that is in the order of its instants, a scan from the start passes
/// exactly the updates made up to the limit.
pub proof fn lemma_reach_cuts_at_limit(updates: Seq<Update>, limit: int)
    requires
        in_order(updates),
    ensures
        forall|i: int|
            0 <= i < updates.len() ==> (i < reach(updates, 0, limit) <==> updates[i].timestamp
                <= limit),
{
    lemma_reach_bounds(updates, 0, limit);
    let stop = reach(updates, 0, limit);
    assert forall|i: int| 0 <= i < updates.len() implies (i < stop <==> updates[i].timestamp
        <= limit) by {
        if stop <= i {
            assert(updates[stop].timestamp <= updates[i].timestamp);
        }
    }
}

/// With no delay the view is the realtime view, as long as no update of the log
/// was made after `now`.
pub proof fn lemma_zero_delay_is_realtime(history: History, now: i64)
    requires
        history.wf(),
        history.initial is Some,
        forall|i: int| 0 <= i < history.updates@.len() ==> history.updates@[i].timestamp <= now,
    ensures
        history.delayed_view(now, 0) == history.realtime->0.state@,
        history.position_at(now, 0) == history.updates@.len(),
{
    let start = history.start_of(0);
    assert(0 <= start <= history.updates@.len()) by {
        if history.delay_states@.contains_key(0) {
            assert(history.delay_states@[0].wf(history.initial->0@, history.updates@));
        }
    }
    lemma_reach_passes(history.updates@, start, history.updates@.len() as int, horizon(now, 0));
    lemma_reach_bounds(history.updates@, start, horizon(now, 0));
}

/// A scan that gets to `mid` stops where a scan from `mid` stops.
pub proof fn lemma_reach_resumes(updates: Seq<Update>, from: int, mid: int, limit: int)
    requires
        0 <= from <= mid <= updates.len(),
        forall|i: int| from <= i < mid ==> updates[i].timestamp <= limit,
    ensures
        reach(updates, from, limit) == reach(updates, mid, limit),
    decreases mid - from,
{
    if from < mid {
        lemma_reach_resumes(updates, from + 1, mid, limit);
    }
}

/// Monotonicity: queried at one instant, the shorter delay arrives at least as
/// far into the log as the longer one. This holds where the shorter delay does
/// not start behind the longer one, or starts behind it only by updates that
/// it may show: as it is while the clock does not run backwards.
pub proof fn lemma_shorter_delay_is_ahead(history: History, now: i64, short: i64, long: i64)
    requires
        history.wf(),
        short < long,
        forall|i: int|
            history.start_of(short) <= i < history.start_of(long)
                ==> history.updates@[i].timestamp <= horizon(now, short),
    ensures
        history.position_at(now, short) >= history.position_at(now, long),
{
    if history.delay_states@.contains_key(short) {
        assert(history.delay_states@[short].wf(history.initial->0@, history.updates@));
    }
    if history.delay_states@.contains_key(long) {
        assert(history.delay_states@[long].wf(history.initial->0@, history.updates@));
    }
    let from_short = history.start_of(short);
    let from_long = history.start_of(long);
    if from_short < from_long {
        lemma_reach_resumes(history.updates@, from_short, from_long, horizon(now, short));
        lemma_reach_monotonic(
            history.updates@,
            from_long,
            from_long,
            horizon(now, long),
            horizon(now, short),
        );
    } else {
        lemma_reach_monotonic(
            history.updates@,
            from_long,
            from_short,
            horizon(now, long),
            horizon(now, short),
        );
    }
}

/// Idempotence: once a query for `delay` at the instant `now` has left its
/// entry in `after`, the same query shows the same document and leaves the
/// entry where it stands.
pub proof fn lemma_delayed_idempotent(before: History, after: History, now: i64, delay: i64)
    requires
        before.wf(),
        before.initial is Some,
        after.initial == before.initial,
        after.updates == before.updates,
        after.delay_states@.contains_key(delay),
        after.delay_states@[delay].stands_at(
            before.initial->0@,
            before.updates@,
            before.position_at(now, delay),
        ),
    ensures
        after.position_at(now, delay) == before.position_at(now, delay),
        after.delayed_view(now, delay) == before.delayed_view(now, delay),
{
    if before.delay_states@.contains_key(delay) {
        assert(before.delay_states@[delay].wf(before.initial->0@, before.updates@));
    }
    lemma_reach_idempotent(before.updates@, before.start_of(delay), horizon(now, delay));
}

} // verus!
