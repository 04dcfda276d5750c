//! Delivery Loop decisions: the timer state and the per-record step.
//!
//! The loop's driver waits out the schedule, asks the store for the due
//! reminders via [`crate::store::ReminderStore::get_open_reminders`], emits a
//! delivery notification for each, and records each attempt's result here:
//! success marks the record fired, failure leaves it pending so the next
//! cycle retries it — one failure never aborts the batch, and there is no
//! retry ceiling. Notification always precedes the `fired_at` update, so a
//! crash between the two re-delivers rather than silently losing a delivery.

use vstd::prelude::*;
use crate::store::{with_fired, ReminderStore, StoreError};

verus! {

/// Seconds the Delivery Loop waits between scans, after the immediate first
/// one.
pub const POLL_INTERVAL_SECS: u64 = 60;

/// The Delivery Loop's only state: how long to wait before the next scan.
pub struct DeliverySchedule {
    pub next_wait_secs: u64,
}

impl DeliverySchedule {
    /// At startup the wait is zero, so the first scan runs immediately.
    pub fn new() -> (s: Self)
        ensures
            s.next_wait_secs == 0,
    {
        DeliverySchedule { next_wait_secs: 0 }
    }

    /// After each scan the loop resumes waiting with the fixed interval.
    pub fn cycle_finished(&mut self)
        ensures
            final(self).next_wait_secs == POLL_INTERVAL_SECS,
    {
        self.next_wait_secs = POLL_INTERVAL_SECS;
    }
}

/// Records the result of one delivery attempt for the reminder with the
/// given id: a successful emission marks it fired at `now`; a failed one
/// changes nothing, so the record reappears in the next cycle's due-query.
pub fn record_delivery_outcome(store: &mut ReminderStore, id: u64, delivered: bool, now: u64) -> (r:
    Result<(), StoreError>)
    requires
        old(store).wf(),
    ensures
        final(store).wf(),
        !delivered ==> final(store)@ == old(store)@ && r == Ok::<(), StoreError>(()),
        delivered && id < old(store)@.len() && old(store)@[id as int].fired_at is None ==> r
            == Ok::<(), StoreError>(()) && final(store)@ == old(store)@.update(
            id as int,
            with_fired(old(store)@[id as int], now),
        ),
        delivered && !(id < old(store)@.len() && old(store)@[id as int].fired_at is None) ==> r
            == Err::<(), StoreError>(StoreError::NotFound) && final(store)@ == old(store)@,
{
    if delivered {
        store.mark_fired(id, now)
    } else {
        Ok(())
    }
}

} // verus!
