//! Reminder lifecycle engine: parse "remind me in <duration>" requests,
//! admit them under rate-limit and duplicate policy, store the resulting
//! reminders, and decide when each one is due for delivery.

pub mod admission;
pub mod delivery;
pub mod duration;
pub mod laws;
pub mod request;
pub mod responses;
pub mod store;
