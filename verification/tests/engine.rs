use remindme::admission::{handle_inbound, InboundMessage, Outcome};
use remindme::delivery::{record_delivery_outcome, DeliverySchedule, POLL_INTERVAL_SECS};
use remindme::responses::{new_reminder_creation, rate_limit_hit, reminder_duration_reached};
use remindme::store::ReminderStore;

const DAY: u64 = 86400;
// 2020-01-01 00:00:00 UTC
const T0: u64 = 1577836800;

fn reply(author: &str, target: &str, content: &str, created_at: u64) -> InboundMessage {
    InboundMessage {
        author_id: author.to_string(),
        content: content.to_string(),
        created_at,
        reply_target: Some(target.to_string()),
    }
}

#[test]
fn end_to_end_request_then_delivery() {
    let mut store = ReminderStore::new();

    // inbound reply "@bot in 1 day" about note N1 from U1, at T0
    let msg = reply("U1", "N1", "@bot in 1 day", T0);
    let (outcome, ack) = handle_inbound(&mut store, &msg, T0);
    assert_eq!(outcome, Outcome::Created { remind_at: T0 + DAY });
    assert_eq!(
        ack.as_deref(),
        Some("Will do. I will remind you of this note at Thu, 02 Jan 2020 00:00:00 +0000.")
    );

    // nothing is due before the delivery time
    assert_eq!(store.get_open_reminders(T0 + DAY - 1).len(), 0);

    // at the delivery time, the scan finds it; the notification goes to U1
    // and references N1
    let due = store.get_open_reminders(T0 + DAY);
    assert_eq!(due.len(), 1);
    let rec = &due[0];
    assert_eq!(rec.requester_id.as_str(), "U1");
    assert_eq!(rec.target_id.as_str(), "N1");
    let note = reminder_duration_reached(rec.requester_id.as_str(), rec.target_id.as_str());
    assert_eq!(
        note.as_str(),
        "Hey nostr:U1! You asked me to remind you about this. nostr:N1"
    );

    // the emission succeeded: the record fires and never comes back
    record_delivery_outcome(&mut store, rec.id, true, T0 + DAY).unwrap();
    assert_eq!(store.row(0).fired_at, Some(T0 + DAY));
    assert_eq!(store.get_open_reminders(T0 + DAY).len(), 0);
    assert_eq!(store.get_open_reminders(T0 + 30 * DAY).len(), 0);
}

#[test]
fn failed_delivery_leaves_the_record_for_retry() {
    let mut store = ReminderStore::new();
    let msg = reply("U1", "N1", "in 1 day", T0);
    handle_inbound(&mut store, &msg, T0);

    let due = store.get_open_reminders(T0 + DAY);
    assert_eq!(due.len(), 1);

    // the notification failed: fired_at stays null and the next cycle sees
    // the record again
    record_delivery_outcome(&mut store, due[0].id, false, T0 + DAY).unwrap();
    assert_eq!(store.row(0).fired_at, None);
    let again = store.get_open_reminders(T0 + DAY + POLL_INTERVAL_SECS);
    assert_eq!(again.len(), 1);
    assert_eq!(again[0].id, due[0].id);
}

#[test]
fn non_reply_messages_are_ignored_silently() {
    let mut store = ReminderStore::new();
    let msg = InboundMessage {
        author_id: "U1".to_string(),
        content: "in 1 day".to_string(),
        created_at: T0,
        reply_target: None,
    };
    let (outcome, response) = handle_inbound(&mut store, &msg, T0);
    assert_eq!(outcome, Outcome::Ignored);
    assert_eq!(response, None);
    assert_eq!(store.row_count(), 0);
}

#[test]
fn rate_limited_requester_gets_the_rejection_notice() {
    let mut store = ReminderStore::new();
    for target in ["n1", "n2", "n3", "n4", "n5"] {
        let (o, _) = handle_inbound(&mut store, &reply("U1", target, "in 1h", T0), T0);
        assert!(matches!(o, Outcome::Created { .. }));
    }
    let (o, response) = handle_inbound(&mut store, &reply("U1", "n6", "in 1h", T0), T0);
    assert_eq!(o, Outcome::RateLimited);
    assert_eq!(
        response.as_deref(),
        Some("I'm sorry, but you've been rate-limited. Maybe wait a bit and try again later.")
    );
    assert_eq!(store.row_count(), 5);
}

#[test]
fn duplicate_requests_get_no_reply() {
    let mut store = ReminderStore::new();
    handle_inbound(&mut store, &reply("U1", "N1", "in 1 day", T0), T0);
    let (o, response) = handle_inbound(&mut store, &reply("U1", "N1", "in 2 days", T0 + 10), T0 + 10);
    assert_eq!(o, Outcome::Duplicate);
    assert_eq!(response, None);
    assert_eq!(store.row_count(), 1);
}

#[test]
fn response_texts_are_exact() {
    assert_eq!(
        new_reminder_creation(T0).as_deref(),
        Some("Will do. I will remind you of this note at Wed, 01 Jan 2020 00:00:00 +0000.")
    );
    // a delivery time beyond year 9999 cannot be rendered
    assert_eq!(new_reminder_creation(u64::MAX), None);
    assert_eq!(
        rate_limit_hit().as_str(),
        "I'm sorry, but you've been rate-limited. Maybe wait a bit and try again later."
    );
    assert_eq!(
        reminder_duration_reached("npub1alice", "note1xyz").as_str(),
        "Hey nostr:npub1alice! You asked me to remind you about this. nostr:note1xyz"
    );
}

#[test]
fn delivery_schedule_starts_eager_then_polls() {
    let mut schedule = DeliverySchedule::new();
    assert_eq!(schedule.next_wait_secs, 0);
    schedule.cycle_finished();
    assert_eq!(schedule.next_wait_secs, POLL_INTERVAL_SECS);
    assert_eq!(POLL_INTERVAL_SECS, 60);
}
