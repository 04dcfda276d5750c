//! Request Admission: decides whether an inbound reply message creates a
//! new reminder.
//!
//! The steps, each a potential short-circuit: extract the duration token
//! from the content, parse it, check the requester's rate limit, check for a
//! duplicate `(target, requester)` pair, then insert the new record with
//! `created_at` taken from the message's own timestamp and
//! `remind_at = now + duration`. Exactly one store write happens on the
//! `Created` path and none otherwise.
//!
//! The rate-limit and duplicate checks are read-then-write without a
//! spanning transaction; the store's uniqueness constraint, re-checked
//! inside [`ReminderStore::insert_reminder`], is the actual backstop for
//! duplicates. That relaxation is deliberate: a marginal rate-limit
//! overshoot under concurrent admission is tolerated rather than locked
//! away.

use vstd::prelude::*;
use crate::duration::{parse_duration, parse_spec};
use crate::request::{extract_duration_text, extracted};
use crate::responses::{creation_ack_text, new_reminder_creation, rate_limit_hit, rate_limit_text,
    RFC2822_MAX_TIMESTAMP};
use crate::store::{has_pair, rate_count, ReminderStore, ReminderView, RATE_LIMIT};

verus! {

/// What Request Admission decided for one inbound message.
#[derive(Clone, Copy, Debug, PartialEq, Eq, Structural)]
pub enum Outcome {
    /// The message is not a recognizable reminder request: the pattern does
    /// not match or the duration token is malformed. Treated as noise, not
    /// as a user-facing error.
    Ignored,
    /// The requester already created the allowed number of reminders within
    /// the trailing window; no record was created.
    RateLimited,
    /// A reminder for this `(target, requester)` pair already exists, fired
    /// or not; nothing was created and no reply is owed.
    Duplicate,
    /// A reminder was created, due at the given time.
    Created { remind_at: u64 },
    /// The store refused the write, or the delivery time is not
    /// representable.
    Error,
}

/// The duration a message's content asks for: the parsed value of the
/// extracted token, when the pattern matches and the token parses.
pub open spec fn requested_duration(content: Seq<char>) -> Option<u64> {
    match extracted(content) {
        None => None,
        Some(t) => match parse_spec(t) {
            Ok(d) => Some(d),
            Err(_) => None,
        },
    }
}

/// The outcome Admission owes for the given store contents and request.
pub open spec fn admit_outcome(
    rows: Seq<ReminderView>,
    requester: Seq<char>,
    target: Seq<char>,
    content: Seq<char>,
    now: u64,
) -> Outcome {
    match requested_duration(content) {
        None => Outcome::Ignored,
        Some(d) => if rate_count(rows, requester, now) >= RATE_LIMIT {
            Outcome::RateLimited
        } else if has_pair(rows, target, requester) {
            Outcome::Duplicate
        } else if now + d > u64::MAX {
            Outcome::Error
        } else {
            Outcome::Created { remind_at: (now + d) as u64 }
        },
    }
}

/// The store contents after Admission: one appended row on the `Created`
/// path, untouched otherwise.
pub open spec fn admit_rows(
    rows: Seq<ReminderView>,
    requester: Seq<char>,
    target: Seq<char>,
    request_time: u64,
    content: Seq<char>,
    now: u64,
) -> Seq<ReminderView> {
    match admit_outcome(rows, requester, target, content, now) {
        Outcome::Created { remind_at } => rows.push(
            ReminderView {
                id: rows.len() as u64,
                target_id: target,
                requester_id: requester,
                created_at: request_time,
                remind_at,
                fired_at: None,
            },
        ),
        _ => rows,
    }
}

/// Decides whether the inbound request creates a reminder, and creates it.
///
/// `request_time` is the inbound message's own timestamp (it becomes the
/// record's `created_at`), `now` the admission wall-clock time; the record
/// becomes due at `now` plus the requested duration.
pub fn admit_request(
    store: &mut ReminderStore,
    requester_id: &str,
    target_id: &str,
    request_time: u64,
    content: &str,
    now: u64,
) -> (o: Outcome)
    requires
        old(store).wf(),
        request_time <= now,
    ensures
        final(store).wf(),
        o == admit_outcome(old(store)@, requester_id@, target_id@, content@, now),
        final(store)@ == admit_rows(
            old(store)@,
            requester_id@,
            target_id@,
            request_time,
            content@,
            now,
        ),
{
    let text = match extract_duration_text(content) {
        Some(t) => t,
        None => {
            return Outcome::Ignored;
        },
    };
    let d = match parse_duration(text.as_str()) {
        Ok(d) => d,
        Err(_) => {
            return Outcome::Ignored;
        },
    };
    if store.user_hit_rate_limit(requester_id, now) {
        return Outcome::RateLimited;
    }
    if store.user_has_reminder(target_id, requester_id) {
        return Outcome::Duplicate;
    }
    let remind_at = match now.checked_add(d) {
        Some(r) => r,
        None => {
            return Outcome::Error;
        },
    };
    match store.insert_reminder(target_id, requester_id, request_time, remind_at) {
        Ok(_) => Outcome::Created { remind_at },
        Err(_) => Outcome::Error,
    }
}

/// One inbound message event, as the transport hands it to the engine.
pub struct InboundMessage {
    /// Identity of the author, who becomes the requester.
    pub author_id: String,
    /// The message text.
    pub content: String,
    /// The message's own timestamp.
    pub created_at: u64,
    /// The id of the message this one replies to, when it is a reply.
    pub reply_target: Option<String>,
}

/// One step of the ingestion loop: runs Admission on a reply message and
/// chooses the reply to publish, if any. Only replies are considered;
/// `Created` earns an acknowledgement, `RateLimited` a rejection notice, and
/// every other outcome stays silent.
pub fn handle_inbound(store: &mut ReminderStore, msg: &InboundMessage, now: u64) -> (r: (
    Outcome,
    Option<String>,
))
    requires
        old(store).wf(),
        msg.created_at <= now,
    ensures
        final(store).wf(),
        msg.reply_target is None ==> r.0 == Outcome::Ignored && final(store)@ == old(store)@
            && r.1 is None,
        msg.reply_target matches Some(t) ==> {
            &&& r.0 == admit_outcome(old(store)@, msg.author_id@, t@, msg.content@, now)
            &&& final(store)@ == admit_rows(
                old(store)@,
                msg.author_id@,
                t@,
                msg.created_at,
                msg.content@,
                now,
            )
            &&& (r.0 matches Outcome::Created { remind_at } ==> match r.1 {
                Some(m) => m@ == creation_ack_text(remind_at),
                None => remind_at > RFC2822_MAX_TIMESTAMP,
            })
            &&& (r.0 == Outcome::RateLimited ==> (r.1 matches Some(m) && m@ == rate_limit_text()))
            &&& ((r.0 == Outcome::Ignored || r.0 == Outcome::Duplicate || r.0 == Outcome::Error)
                ==> r.1 is None)
        },
{
    let target = match &msg.reply_target {
        Some(t) => t,
        None => {
            return (Outcome::Ignored, None);
        },
    };
    let o = admit_request(
        store,
        msg.author_id.as_str(),
        target.as_str(),
        msg.created_at,
        msg.content.as_str(),
        now,
    );
    let reply = match o {
        Outcome::Created { remind_at } => new_reminder_creation(remind_at),
        Outcome::RateLimited => Some(rate_limit_hit()),
        _ => None,
    };
    (o, reply)
}

} // verus!
