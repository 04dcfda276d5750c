use remindme::admission::{admit_request, Outcome};
use remindme::store::ReminderStore;

const HOUR: u64 = 3600;
const DAY: u64 = 86400;

#[test]
fn recognized_request_creates_a_reminder() {
    let mut store = ReminderStore::new();
    let o = admit_request(&mut store, "alice", "note-a", 1000, "@bot in 1 day", 1200);
    assert_eq!(o, Outcome::Created { remind_at: 1200 + DAY });
    assert_eq!(store.row_count(), 1);
    let row = store.row(0);
    assert_eq!(row.requester_id.as_str(), "alice");
    assert_eq!(row.target_id.as_str(), "note-a");
    // created_at comes from the message's own timestamp, not admission time
    assert_eq!(row.created_at, 1000);
    assert_eq!(row.remind_at, 1200 + DAY);
    assert_eq!(row.fired_at, None);
}

#[test]
fn unrecognized_content_is_ignored() {
    let mut store = ReminderStore::new();
    assert_eq!(
        admit_request(&mut store, "alice", "note-a", 1000, "hello there", 1000),
        Outcome::Ignored
    );
    assert_eq!(store.row_count(), 0);
}

#[test]
fn malformed_durations_are_ignored() {
    let mut store = ReminderStore::new();
    // zero magnitude parses out of the pattern but fails the parser
    assert_eq!(
        admit_request(&mut store, "alice", "note-a", 1000, "in 0days", 1000),
        Outcome::Ignored
    );
    // unknown unit
    assert_eq!(
        admit_request(&mut store, "alice", "note-a", 1000, "in 3 fortnights", 1000),
        Outcome::Ignored
    );
    // missing unit
    assert_eq!(
        admit_request(&mut store, "alice", "note-a", 1000, "in 7", 1000),
        Outcome::Ignored
    );
    assert_eq!(store.row_count(), 0);
}

#[test]
fn duplicate_pair_is_suppressed_silently() {
    let mut store = ReminderStore::new();
    let o1 = admit_request(&mut store, "alice", "note-a", 1000, "in 2 hours", 1000);
    assert_eq!(o1, Outcome::Created { remind_at: 1000 + 2 * HOUR });
    let o2 = admit_request(&mut store, "alice", "note-a", 2000, "in 5 days", 2000);
    assert_eq!(o2, Outcome::Duplicate);
    // exactly one stored reminder for the pair
    assert_eq!(store.row_count(), 1);
    assert_eq!(store.row(0).remind_at, 1000 + 2 * HOUR);
}

#[test]
fn fifth_request_is_admitted_and_sixth_is_rate_limited() {
    let mut store = ReminderStore::new();
    let now = 10 * HOUR;
    for (i, target) in ["n1", "n2", "n3", "n4"].iter().enumerate() {
        let o = admit_request(&mut store, "alice", target, now - 100 + i as u64, "in 1h", now);
        assert!(matches!(o, Outcome::Created { .. }));
    }
    // four prior reminders in the window: the fifth attempt is admitted
    let o5 = admit_request(&mut store, "alice", "n5", now, "in 1h", now);
    assert_eq!(o5, Outcome::Created { remind_at: now + HOUR });
    // the count is now five: the sixth attempt is refused, and stores nothing
    let o6 = admit_request(&mut store, "alice", "n6", now, "in 1h", now);
    assert_eq!(o6, Outcome::RateLimited);
    assert_eq!(store.row_count(), 5);
    // another requester is not throttled
    let o = admit_request(&mut store, "bob", "n6", now, "in 1h", now);
    assert_eq!(o, Outcome::Created { remind_at: now + HOUR });
}

#[test]
fn reminders_older_than_the_window_do_not_throttle() {
    let mut store = ReminderStore::new();
    let now = 100 * HOUR;
    // five reminders created 61 minutes ago
    for target in ["n1", "n2", "n3", "n4", "n5"] {
        let t = now - HOUR - 60;
        let o = admit_request(&mut store, "alice", target, t, "in 1h", t);
        assert!(matches!(o, Outcome::Created { .. }));
    }
    // none of them counts toward the window ending now
    let o = admit_request(&mut store, "alice", "n6", now, "in 1h", now);
    assert_eq!(o, Outcome::Created { remind_at: now + HOUR });
}

#[test]
fn unrepresentable_delivery_time_is_an_error() {
    let mut store = ReminderStore::new();
    let o = admit_request(
        &mut store,
        "alice",
        "note-a",
        100,
        "in 18446744073709551615s",
        100,
    );
    assert_eq!(o, Outcome::Error);
    assert_eq!(store.row_count(), 0);
}
