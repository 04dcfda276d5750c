//! Notification texts: the engine's three outbound messages.
//!
//! The engine acknowledges a created reminder (naming its delivery time),
//! notifies a requester who hit the rate limit, and delivers a due reminder.
//! Building the texts is the engine's own work; addressing and publishing
//! them belongs to the transport, which receives these strings as-is.

use vstd::prelude::*;
use vstd::string::StringExecFns;

verus! {

/// Latest unix timestamp the RFC 2822 renderer accepts: the last second of
/// year 9999.
pub const RFC2822_MAX_TIMESTAMP: u64 = 253402300799;

/// RFC 2822 rendering of a unix timestamp, as the `time` crate produces it.
pub uninterp spec fn rfc2822_of(t: u64) -> Seq<char>;

/// Relies on `time::OffsetDateTime::from_unix_timestamp` and
/// `OffsetDateTime::format` with the RFC 2822 well-known description: the
/// rendering is a function of the timestamp alone, and both steps succeed
/// for any timestamp up to the end of year 9999 — `from_unix_timestamp`
/// covers that whole range and yields a UTC value, and the formatter rejects
/// only years outside 1900..=9999 and offsets with a seconds component,
/// neither of which such a value has.
#[verifier::external_body]
fn format_rfc2822(t: u64) -> (r: Option<String>)
    ensures
        r matches Some(s) ==> s@ == rfc2822_of(t),
        t <= RFC2822_MAX_TIMESTAMP ==> r is Some,
{
    let ts = i64::try_from(t).ok()?;
    let dt = time::OffsetDateTime::from_unix_timestamp(ts).ok()?;
    dt.format(&time::format_description::well_known::Rfc2822).ok()
}

/// The acknowledgement text for a reminder due at `remind_at`.
pub open spec fn creation_ack_text(remind_at: u64) -> Seq<char> {
    "Will do. I will remind you of this note at "@ + rfc2822_of(remind_at) + "."@
}

/// Acknowledgement sent when a reminder was created, naming the delivery
/// time; `None` only when that time cannot be rendered (it lies beyond year
/// 9999).
pub fn new_reminder_creation(remind_at: u64) -> (r: Option<String>)
    ensures
        r matches Some(s) ==> s@ == creation_ack_text(remind_at),
        remind_at <= RFC2822_MAX_TIMESTAMP ==> r is Some,
{
    let when = match format_rfc2822(remind_at) {
        Some(w) => w,
        None => {
            return None;
        },
    };
    let mut msg = String::from_str("Will do. I will remind you of this note at ");
    msg.append(when.as_str());
    msg.append(".");
    Some(msg)
}

/// The delivery text referencing the requester and the target note.
pub open spec fn delivery_text(requester_ref: Seq<char>, target_ref: Seq<char>) -> Seq<char> {
    "Hey nostr:"@ + requester_ref + "! You asked me to remind you about this. nostr:"@ + target_ref
}

/// Delivery notification for a due reminder. The two arguments are the
/// transport's display forms of the requester identity and the target note
/// id; identity encoding is the transport's concern, not the engine's.
pub fn reminder_duration_reached(requester_ref: &str, target_ref: &str) -> (r: String)
    ensures
        r@ == delivery_text(requester_ref@, target_ref@),
{
    let mut msg = String::from_str("Hey nostr:");
    msg.append(requester_ref);
    msg.append("! You asked me to remind you about this. nostr:");
    msg.append(target_ref);
    msg
}

/// The rejection text for a rate-limited requester.
pub open spec fn rate_limit_text() -> Seq<char> {
    "I'm sorry, but you've been rate-limited. Maybe wait a bit and try again later."@
}

/// Notification sent when a request was refused by the rate limit.
pub fn rate_limit_hit() -> (r: String)
    ensures
        r@ == rate_limit_text(),
{
    String::from_str(
        "I'm sorry, but you've been rate-limited. Maybe wait a bit and try again later.",
    )
}

} // verus!
