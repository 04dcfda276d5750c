//! The engine's cross-operation laws, stated over the same spec functions
//! the operations' contracts use, and proved once for every store state.

use vstd::prelude::*;
use crate::admission::{admit_outcome, admit_rows, requested_duration, Outcome};
use crate::store::{counts_toward_rate, due_rows, has_pair, is_due, lemma_filter_none,
    lemma_filter_push, lemma_filter_subset, pair_count, rate_count, store_wf, with_fired,
    ReminderView, RATE_LIMIT, RATE_WINDOW_SECS};

verus! {

broadcast use vstd::seq_lib::group_filter_ensures;

/// Duplicate suppression is idempotent: once Admission has created the one
/// reminder for a `(target, requester)` pair, a second recognized and
/// non-rate-limited request for the same pair yields `Duplicate`, adds no
/// row, and the store holds exactly one more row for the pair than before —
/// exactly one, when the pair was new.
pub proof fn lemma_duplicate_suppressed(
    rows: Seq<ReminderView>,
    requester: Seq<char>,
    target: Seq<char>,
    request_time: u64,
    content: Seq<char>,
    now: u64,
    content2: Seq<char>,
    request_time2: u64,
    now2: u64,
)
    requires
        admit_outcome(rows, requester, target, content, now) matches Outcome::Created { .. },
        requested_duration(content2) is Some,
        rate_count(
            admit_rows(rows, requester, target, request_time, content, now),
            requester,
            now2,
        ) < RATE_LIMIT,
    ensures
        admit_outcome(
            admit_rows(rows, requester, target, request_time, content, now),
            requester,
            target,
            content2,
            now2,
        ) == Outcome::Duplicate,
        admit_rows(
            admit_rows(rows, requester, target, request_time, content, now),
            requester,
            target,
            request_time2,
            content2,
            now2,
        ) == admit_rows(rows, requester, target, request_time, content, now),
        pair_count(admit_rows(rows, requester, target, request_time, content, now), target, requester)
            == pair_count(rows, target, requester) + 1,
        pair_count(admit_rows(rows, requester, target, request_time, content, now), target, requester)
            == 1,
{
    let rows1 = admit_rows(rows, requester, target, request_time, content, now);
    let newrow = rows1[rows.len() as int];
    assert(newrow.target_id == target && newrow.requester_id == requester);
    assert(has_pair(rows1, target, requester));
    let pred = |r: ReminderView| r.target_id == target && r.requester_id == requester;
    lemma_filter_push(rows, pred, newrow);
    assert(forall|i: int| 0 <= i < rows.len() ==> !pred(#[trigger] rows[i]));
    lemma_filter_none(rows, pred);
}

/// Rate-limit boundary: a recognized, non-duplicate, representable request
/// is admitted exactly when the requester's trailing-window count is below
/// the limit — a requester with four prior reminders in the window is
/// admitted on the fifth attempt, and refused once the count has reached
/// five.
pub proof fn lemma_rate_limit_boundary(
    rows: Seq<ReminderView>,
    requester: Seq<char>,
    target: Seq<char>,
    content: Seq<char>,
    now: u64,
    d: u64,
)
    requires
        requested_duration(content) == Some(d),
        !has_pair(rows, target, requester),
        now + d <= u64::MAX,
    ensures
        rate_count(rows, requester, now) < RATE_LIMIT ==> admit_outcome(
            rows,
            requester,
            target,
            content,
            now,
        ) == (Outcome::Created { remind_at: (now + d) as u64 }),
        rate_count(rows, requester, now) >= RATE_LIMIT ==> admit_outcome(
            rows,
            requester,
            target,
            content,
            now,
        ) == Outcome::RateLimited,
{
}

/// A created reminder raises its requester's rate count at a later scan
/// exactly when its creation time lies within that scan's trailing window.
pub proof fn lemma_created_counts(
    rows: Seq<ReminderView>,
    requester: Seq<char>,
    target: Seq<char>,
    request_time: u64,
    content: Seq<char>,
    now: u64,
    now2: u64,
)
    requires
        admit_outcome(rows, requester, target, content, now) matches Outcome::Created { .. },
    ensures
        rate_count(
            admit_rows(rows, requester, target, request_time, content, now),
            requester,
            now2,
        ) == rate_count(rows, requester, now2) + (if request_time + RATE_WINDOW_SECS >= now2 {
            1int
        } else {
            0int
        }),
{
    let rows1 = admit_rows(rows, requester, target, request_time, content, now);
    let newrow = rows1[rows.len() as int];
    lemma_filter_push(rows, |r: ReminderView| counts_toward_rate(r, requester, now2), newrow);
}

/// A record created before the trailing window opened adds nothing to the
/// rate count: one created sixty-one minutes ago no longer counts.
pub proof fn lemma_stale_row_not_counted(
    rows: Seq<ReminderView>,
    r: ReminderView,
    requester: Seq<char>,
    now: u64,
)
    requires
        r.created_at + RATE_WINDOW_SECS < now,
    ensures
        rate_count(rows.push(r), requester, now) == rate_count(rows, requester, now),
{
    lemma_filter_push(rows, |x: ReminderView| counts_toward_rate(x, requester, now), r);
}

/// Delivery correctness: a pending reminder whose time has passed is
/// returned by the due-query, and once it is marked fired no later
/// due-query returns a record with its id — a second cycle cannot
/// re-deliver it.
pub proof fn lemma_fired_never_due_again(
    rows: Seq<ReminderView>,
    id: u64,
    t: u64,
    now: u64,
    later: u64,
)
    requires
        store_wf(rows),
        rows.len() <= u64::MAX,
        id < rows.len(),
        rows[id as int].fired_at is None,
    ensures
        is_due(rows[id as int], now) ==> due_rows(rows, now).contains(rows[id as int]),
        store_wf(rows.update(id as int, with_fired(rows[id as int], t))),
        forall|k: int|
            0 <= k < due_rows(rows.update(id as int, with_fired(rows[id as int], t)), later).len()
                ==> (#[trigger] due_rows(
                rows.update(id as int, with_fired(rows[id as int], t)),
                later,
            )[k]).id != id,
{
    let rows2 = rows.update(id as int, with_fired(rows[id as int], t));
    assert(store_wf(rows2));
    lemma_filter_subset(rows2, |r: ReminderView| is_due(r, later));
    assert forall|k: int|
        0 <= k < due_rows(rows2, later).len() implies (#[trigger] due_rows(rows2, later)[k]).id
        != id by {
        let x = due_rows(rows2, later)[k];
        assert(is_due(x, later));
        assert(rows2.contains(x));
        let i = choose|i: int| 0 <= i < rows2.len() && rows2[i] == x;
        assert(x.id == i as u64);
        if x.id == id {
            assert(i == id);
            assert(x == rows2[id as int]);
            assert(x.fired_at is Some);
            assert(false);
        }
    }
}

/// Delivery retry: a reminder that stays unfired stays due, so it
/// reappears in any later cycle's due-query.
pub proof fn lemma_undelivered_stays_due(rows: Seq<ReminderView>, i: int, now: u64, later: u64)
    requires
        0 <= i < rows.len(),
        is_due(rows[i], now),
        now <= later,
    ensures
        due_rows(rows, later).contains(rows[i]),
{
    assert(is_due(rows[i], later));
}

} // verus!
