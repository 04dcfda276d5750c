//! Reminder store: the single source of truth for reminder records.
//!
//! The store keeps an append-only table of [`Reminder`] rows and offers the
//! query operations the engine needs: a rate-limit count over the trailing
//! window, a duplicate check, insertion under the `(target_id, requester_id)`
//! uniqueness constraint, the due-and-unfired scan, and marking a single row
//! fired. A row is never deleted, and `fired_at`, once set, is never changed.
//!
//! The store assumes a single active engine instance; nothing here coordinates
//! concurrent scans from several processes.

use vstd::prelude::*;
use crate::duration::str_eq;

verus! {

/// How many reminders a requester may create inside the trailing window
/// before further requests are rejected.
pub const RATE_LIMIT: u64 = 5;

/// Length of the trailing rate-limit window, in seconds.
pub const RATE_WINDOW_SECS: u64 = 3600;

/// One reminder record, as the store's mathematical model sees it.
pub struct ReminderView {
    pub id: u64,
    pub target_id: Seq<char>,
    pub requester_id: Seq<char>,
    pub created_at: u64,
    pub remind_at: u64,
    pub fired_at: Option<u64>,
}

/// A stored reminder: who asked to be reminded about which target, when the
/// request was made, and when delivery becomes due. `fired_at` is `None`
/// while the reminder is pending and is set exactly once on delivery.
pub struct Reminder {
    pub id: u64,
    pub target_id: String,
    pub requester_id: String,
    pub created_at: u64,
    pub remind_at: u64,
    pub fired_at: Option<u64>,
}

impl View for Reminder {
    type V = ReminderView;

    open spec fn view(&self) -> ReminderView {
        ReminderView {
            id: self.id,
            target_id: self.target_id@,
            requester_id: self.requester_id@,
            created_at: self.created_at,
            remind_at: self.remind_at,
            fired_at: self.fired_at,
        }
    }
}

impl Clone for Reminder {
    fn clone(&self) -> (r: Self)
        ensures
            r@ == self@,
    {
        Reminder {
            id: self.id,
            target_id: self.target_id.clone(),
            requester_id: self.requester_id.clone(),
            created_at: self.created_at,
            remind_at: self.remind_at,
            fired_at: self.fired_at,
        }
    }
}

/// An operation the store refuses.
#[derive(Clone, Copy, Debug, PartialEq, Eq, Structural)]
pub enum StoreError {
    /// Inserting would violate the `(target_id, requester_id)` uniqueness
    /// constraint.
    UniquenessViolation,
    /// No pending row carries the given id.
    NotFound,
}

/// Two records ask for a reminder about the same target for the same
/// requester.
pub open spec fn same_pair(a: ReminderView, b: ReminderView) -> bool {
    a.target_id == b.target_id && a.requester_id == b.requester_id
}

/// Some row holds the given `(target_id, requester_id)` pair, fired or not.
pub open spec fn has_pair(rows: Seq<ReminderView>, target: Seq<char>, requester: Seq<char>) -> bool {
    exists|i: int|
        0 <= i < rows.len() && (#[trigger] rows[i]).target_id == target && rows[i].requester_id
            == requester
}

/// The record counts toward `requester`'s rate limit at time `now`: it is
/// theirs and was created within the trailing window.
pub open spec fn counts_toward_rate(r: ReminderView, requester: Seq<char>, now: u64) -> bool {
    r.requester_id == requester && r.created_at + RATE_WINDOW_SECS >= now
}

/// How many of `requester`'s records were created within the trailing
/// window ending at `now`.
pub open spec fn rate_count(rows: Seq<ReminderView>, requester: Seq<char>, now: u64) -> nat {
    rows.filter(|r: ReminderView| counts_toward_rate(r, requester, now)).len()
}

/// The record is due: delivery time has passed and it has not fired yet.
pub open spec fn is_due(r: ReminderView, now: u64) -> bool {
    r.fired_at is None && r.remind_at <= now
}

/// The due-and-unfired records, in store order.
pub open spec fn due_rows(rows: Seq<ReminderView>, now: u64) -> Seq<ReminderView> {
    rows.filter(|r: ReminderView| is_due(r, now))
}

/// The record with its `fired_at` set.
pub open spec fn with_fired(r: ReminderView, t: u64) -> ReminderView {
    ReminderView { fired_at: Some(t), ..r }
}

/// How many rows hold the given `(target_id, requester_id)` pair.
pub open spec fn pair_count(rows: Seq<ReminderView>, target: Seq<char>, requester: Seq<char>) -> nat {
    rows.filter(|r: ReminderView| r.target_id == target && r.requester_id == requester).len()
}

/// The store's invariant: ids are the row positions (so they are unique and
/// assigned by the store), no two rows share a `(target_id, requester_id)`
/// pair, and no reminder is due before it was created.
pub open spec fn store_wf(rows: Seq<ReminderView>) -> bool {
    &&& forall|i: int| 0 <= i < rows.len() ==> (#[trigger] rows[i]).id == i as u64
    &&& forall|i: int| 0 <= i < rows.len() ==> (#[trigger] rows[i]).created_at <= rows[i].remind_at
    &&& forall|i: int, j: int|
        #![trigger rows[i], rows[j]]
        0 <= i < j < rows.len() ==> !same_pair(rows[i], rows[j])
}

/// Appending one row changes a filtered view by at most that row.
proof fn lemma_filter_take_step(rows: Seq<ReminderView>, pred: spec_fn(ReminderView) -> bool, i: int)
    requires
        0 <= i < rows.len(),
    ensures
        rows.take(i + 1).filter(pred) == if pred(rows[i]) {
            rows.take(i).filter(pred).push(rows[i])
        } else {
            rows.take(i).filter(pred)
        },
{
    let s1 = seq![rows[i]];
    assert(rows.take(i + 1) =~= rows.take(i) + s1);
    Seq::filter_distributes_over_add(rows.take(i), s1, pred);
    reveal_with_fuel(Seq::<_>::filter, 2);
    assert(s1.drop_last() =~= Seq::<ReminderView>::empty());
    assert(Seq::<ReminderView>::empty().filter(pred) =~= Seq::<ReminderView>::empty());
    if pred(rows[i]) {
        assert(s1.filter(pred) =~= s1);
        assert(rows.take(i).filter(pred) + s1 =~= rows.take(i).filter(pred).push(rows[i]));
    } else {
        assert(s1.filter(pred) =~= Seq::<ReminderView>::empty());
        assert(rows.take(i).filter(pred) + Seq::<ReminderView>::empty() =~= rows.take(i).filter(
            pred,
        ));
    }
}

/// Appending one row extends a filtered view by that row or not at all.
pub(crate) proof fn lemma_filter_push(
    rows: Seq<ReminderView>,
    pred: spec_fn(ReminderView) -> bool,
    x: ReminderView,
)
    ensures
        rows.push(x).filter(pred) == if pred(x) {
            rows.filter(pred).push(x)
        } else {
            rows.filter(pred)
        },
{
    let rows1 = rows.push(x);
    assert(rows1.take(rows.len() as int) =~= rows);
    assert(rows1.take(rows.len() as int + 1) =~= rows1);
    lemma_filter_take_step(rows1, pred, rows.len() as int);
}

/// A filter that rejects every row yields nothing.
pub(crate) proof fn lemma_filter_none(rows: Seq<ReminderView>, pred: spec_fn(ReminderView) -> bool)
    requires
        forall|i: int| 0 <= i < rows.len() ==> !pred(#[trigger] rows[i]),
    ensures
        rows.filter(pred) == Seq::<ReminderView>::empty(),
    decreases rows.len(),
{
    reveal_with_fuel(Seq::<_>::filter, 1);
    if rows.len() > 0 {
        assert(forall|i: int|
            0 <= i < rows.drop_last().len() ==> !pred(#[trigger] rows.drop_last()[i]));
        lemma_filter_none(rows.drop_last(), pred);
    } else {
        assert(rows =~= Seq::<ReminderView>::empty());
    }
}

/// Every row a filter keeps comes from the filtered sequence.
pub(crate) proof fn lemma_filter_subset(rows: Seq<ReminderView>, pred: spec_fn(ReminderView) -> bool)
    ensures
        forall|k: int|
            0 <= k < rows.filter(pred).len() ==> rows.contains(#[trigger] rows.filter(pred)[k]),
    decreases rows.len(),
{
    reveal_with_fuel(Seq::<_>::filter, 1);
    if rows.len() > 0 {
        lemma_filter_subset(rows.drop_last(), pred);
        assert forall|k: int| 0 <= k < rows.filter(pred).len() implies rows.contains(
            #[trigger] rows.filter(pred)[k],
        ) by {
            let sub = rows.drop_last().filter(pred);
            if k < sub.len() {
                assert(rows.filter(pred)[k] == sub[k]);
                let i = choose|i: int| 0 <= i < rows.drop_last().len() && rows.drop_last()[i] == sub[k];
                assert(rows[i] == sub[k]);
            } else {
                assert(rows.filter(pred)[k] == rows.last());
                assert(rows[rows.len() - 1] == rows.last());
            }
        }
    }
}

/// The durable reminder table.
pub struct ReminderStore {
    rows: Vec<Reminder>,
}

impl View for ReminderStore {
    type V = Seq<ReminderView>;

    closed spec fn view(&self) -> Seq<ReminderView> {
        self.rows@.map_values(|r: Reminder| r@)
    }
}

impl ReminderStore {
    pub open spec fn wf(&self) -> bool {
        store_wf(self@)
    }

    /// An empty store.
    pub fn new() -> (s: Self)
        ensures
            s@ == Seq::<ReminderView>::empty(),
            s.wf(),
    {
        let s = ReminderStore { rows: Vec::new() };
        proof {
            assert(s@ =~= Seq::<ReminderView>::empty());
        }
        s
    }

    /// Number of rows ever stored.
    pub fn row_count(&self) -> (n: usize)
        ensures
            n == self@.len(),
    {
        self.rows.len()
    }

    /// The row at a position, in store order.
    pub fn row(&self, i: usize) -> (r: &Reminder)
        requires
            i < self@.len(),
        ensures
            r@ == self@[i as int],
    {
        &self.rows[i]
    }

    /// Whether `requester_id` has already created `RATE_LIMIT` or more
    /// reminders within the trailing window ending at `now`.
    #[verifier::loop_isolation(false)]
    pub fn user_hit_rate_limit(&self, requester_id: &str, now: u64) -> (r: bool)
        ensures
            r == (rate_count(self@, requester_id@, now) >= RATE_LIMIT),
    {
        let ghost pred = |rv: ReminderView| counts_toward_rate(rv, requester_id@, now);
        let mut count: usize = 0;
        let mut i: usize = 0;
        while i < self.rows.len()
            invariant
                i <= self.rows.len(),
                self@.len() == self.rows.len(),
                count <= i,
                count == self@.take(i as int).filter(pred).len(),
            decreases self.rows.len() - i,
        {
            let in_window = self.rows[i].created_at > u64::MAX - RATE_WINDOW_SECS
                || self.rows[i].created_at + RATE_WINDOW_SECS >= now;
            let counts = in_window && str_eq(self.rows[i].requester_id.as_str(), requester_id);
            proof {
                assert(self@[i as int] == self.rows@[i as int]@);
                assert(counts == counts_toward_rate(self@[i as int], requester_id@, now));
                assert(pred(self@[i as int]) == counts_toward_rate(
                    self@[i as int],
                    requester_id@,
                    now,
                ));
                lemma_filter_take_step(self@, pred, i as int);
            }
            if counts {
                count = count + 1;
            }
            i = i + 1;
        }
        proof {
            assert(self@.take(self.rows.len() as int) =~= self@);
        }
        count >= RATE_LIMIT as usize
    }

    /// Whether a reminder for `(target_id, requester_id)` already exists,
    /// fired or not.
    pub fn user_has_reminder(&self, target_id: &str, requester_id: &str) -> (r: bool)
        ensures
            r == has_pair(self@, target_id@, requester_id@),
    {
        let mut i: usize = 0;
        while i < self.rows.len()
            invariant
                i <= self.rows.len(),
                self@.len() == self.rows.len(),
                forall|j: int|
                    0 <= j < i ==> !((#[trigger] self@[j]).target_id == target_id@
                        && self@[j].requester_id == requester_id@),
            decreases self.rows.len() - i,
        {
            if str_eq(self.rows[i].target_id.as_str(), target_id) && str_eq(
                self.rows[i].requester_id.as_str(),
                requester_id,
            ) {
                proof {
                    assert(self@[i as int] == self.rows@[i as int]@);
                    assert(self@[i as int].target_id == target_id@ && self@[
                        i as int
                    ].requester_id == requester_id@);
                }
                return true;
            }
            proof {
                assert(self@[i as int] == self.rows@[i as int]@);
            }
            i = i + 1;
        }
        false
    }

    /// Inserts a new pending reminder, assigning it the next id, unless a row
    /// for the `(target_id, requester_id)` pair already exists — the
    /// uniqueness constraint is the store's own backstop, checked again here
    /// regardless of any earlier duplicate check.
    pub fn insert_reminder(
        &mut self,
        target_id: &str,
        requester_id: &str,
        created_at: u64,
        remind_at: u64,
    ) -> (r: Result<u64, StoreError>)
        requires
            old(self).wf(),
            created_at <= remind_at,
        ensures
            final(self).wf(),
            has_pair(old(self)@, target_id@, requester_id@) ==> r == Err::<u64, StoreError>(
                StoreError::UniquenessViolation,
            ) && final(self)@ == old(self)@,
            !has_pair(old(self)@, target_id@, requester_id@) ==> r == Ok::<u64, StoreError>(
                old(self)@.len() as u64,
            ) && final(self)@ == old(self)@.push(
                (ReminderView {
                    id: old(self)@.len() as u64,
                    target_id: target_id@,
                    requester_id: requester_id@,
                    created_at,
                    remind_at,
                    fired_at: None,
                }),
            ),
    {
        if self.user_has_reminder(target_id, requester_id) {
            return Err(StoreError::UniquenessViolation);
        }
        let id = self.rows.len() as u64;
        let row = Reminder {
            id,
            target_id: target_id.to_owned(),
            requester_id: requester_id.to_owned(),
            created_at,
            remind_at,
            fired_at: None,
        };
        self.rows.push(row);
        proof {
            assert(self@ =~= old(self)@.push(
                (ReminderView {
                    id: old(self)@.len() as u64,
                    target_id: target_id@,
                    requester_id: requester_id@,
                    created_at,
                    remind_at,
                    fired_at: None,
                }),
            ));
        }
        Ok(id)
    }

    /// The due-and-unfired reminders at time `now`, in store order.
    #[verifier::loop_isolation(false)]
    pub fn get_open_reminders(&self, now: u64) -> (r: Vec<Reminder>)
        ensures
            r@.map_values(|x: Reminder| x@) == due_rows(self@, now),
    {
        let ghost pred = |rv: ReminderView| is_due(rv, now);
        let mut found: Vec<Reminder> = Vec::new();
        proof {
            assert(found@.map_values(|x: Reminder| x@) =~= self@.take(0).filter(pred));
        }
        let mut i: usize = 0;
        while i < self.rows.len()
            invariant
                i <= self.rows.len(),
                self@.len() == self.rows.len(),
                found@.map_values(|x: Reminder| x@) == self@.take(i as int).filter(pred),
            decreases self.rows.len() - i,
        {
            proof {
                assert(self@[i as int] == self.rows@[i as int]@);
                lemma_filter_take_step(self@, pred, i as int);
            }
            let due = self.rows[i].fired_at.is_none() && self.rows[i].remind_at <= now;
            proof {
                assert(due == is_due(self@[i as int], now));
                assert(pred(self@[i as int]) == is_due(self@[i as int], now));
            }
            if due {
                let ghost pre = found@;
                found.push(self.rows[i].clone());
                proof {
                    assert(found@.map_values(|x: Reminder| x@) =~= pre.map_values(
                        |x: Reminder| x@,
                    ).push(self@[i as int]));
                }
            }
            i = i + 1;
        }
        proof {
            assert(self@.take(self.rows.len() as int) =~= self@);
        }
        found
    }

    /// Sets `fired_at` on the pending row with the given id; refuses when no
    /// such row is pending, and never touches a `fired_at` that is already
    /// set.
    pub fn mark_fired(&mut self, id: u64, fired_at: u64) -> (r: Result<(), StoreError>)
        requires
            old(self).wf(),
        ensures
            final(self).wf(),
            (id < old(self)@.len() && old(self)@[id as int].fired_at is None) ==> r == Ok::<
                (),
                StoreError,
            >(()) && final(self)@ == old(self)@.update(
                id as int,
                with_fired(old(self)@[id as int], fired_at),
            ),
            !(id < old(self)@.len() && old(self)@[id as int].fired_at is None) ==> r == Err::<
                (),
                StoreError,
            >(StoreError::NotFound) && final(self)@ == old(self)@,
    {
        if id >= self.rows.len() as u64 {
            return Err(StoreError::NotFound);
        }
        let i = id as usize;
        if self.rows[i].fired_at.is_some() {
            return Err(StoreError::NotFound);
        }
        let mut row = self.rows[i].clone();
        row.fired_at = Some(fired_at);
        self.rows[i] = row;
        proof {
            assert(self@ =~= old(self)@.update(
                id as int,
                with_fired(old(self)@[id as int], fired_at),
            ));
        }
        Ok(())
    }
}

} // verus!
