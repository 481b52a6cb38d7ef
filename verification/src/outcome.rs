//! The result of one delivery attempt, and what the caller is told.

use vstd::prelude::*;
use vstd::string::StringExecFns;

verus! {

/// How a single delivery attempt ended. No attempt is repeated here.
#[derive(Debug, Clone, Copy, PartialEq, Eq, Structural)]
pub enum Outcome {
    /// The provider took the notification.
    Delivered,
    /// The token will never work: the caller should forget it.
    RejectedPermanent,
    /// This attempt failed; a later one may succeed.
    FailedTransient,
}

/// A counter of the metrics sink.
#[derive(Debug, Clone, Copy, PartialEq, Eq, Structural)]
pub enum Counter {
    /// Successfully sent visible APNS notifications.
    DirectNotifications,
    /// Successfully sent visible FCM notifications.
    FcmNotifications,
    /// Successfully sent heartbeat notifications.
    HeartbeatNotifications,
    /// Heartbeat token registrations.
    HeartbeatRegistrations,
}

/// HTTP status `200 OK`.
pub const STATUS_OK: u16 = 200;

/// HTTP status `410 Gone`.
pub const STATUS_GONE: u16 = 410;

/// HTTP status `500 Internal Server Error`.
pub const STATUS_INTERNAL_SERVER_ERROR: u16 = 500;

/// The HTTP status that tells the caller of `outcome`.
pub open spec fn status_of(outcome: Outcome) -> u16 {
    match outcome {
        Outcome::Delivered => STATUS_OK,
        Outcome::RejectedPermanent => STATUS_GONE,
        Outcome::FailedTransient => STATUS_INTERNAL_SERVER_ERROR,
    }
}

impl Outcome {
    /// The HTTP status that tells the caller of this outcome.
    pub fn status(self) -> (code: u16)
        ensures
            code == status_of(self),
    {
        match self {
            Outcome::Delivered => STATUS_OK,
            Outcome::RejectedPermanent => STATUS_GONE,
            Outcome::FailedTransient => STATUS_INTERNAL_SERVER_ERROR,
        }
    }
}

/// What a failure that is reported in words starts with.
pub open spec fn failure_intro() -> Seq<char> {
    "Something went wrong: "@
}

/// The end of a request: what the caller is told, and what is to be done
/// on the way out.
#[derive(Debug, Clone, PartialEq, Eq)]
pub struct Finish {
    /// HTTP status of the response.
    pub status: u16,
    /// Body of the response.
    pub body: String,
    /// The token to strike from the schedule, if any. A failure to do so is
    /// not reported to the caller.
    pub unschedule: Option<String>,
    /// The counter to increment, if any.
    pub count: Option<Counter>,
}

impl Finish {
    /// Whether this is the bare answer for `outcome`: its status, an empty
    /// body, and nothing to be done on the way out.
    pub open spec fn is_plain(&self, outcome: Outcome) -> bool {
        &&& self.status == status_of(outcome)
        &&& self.body@ == Seq::<char>::empty()
        &&& self.unschedule is None
        &&& self.count is None
    }

    /// Whether this reports the failure `reason` in words.
    pub open spec fn is_failure(&self, reason: Seq<char>) -> bool {
        &&& self.status == STATUS_INTERNAL_SERVER_ERROR
        &&& self.body@ == failure_intro() + reason
        &&& self.unschedule is None
        &&& self.count is None
    }

    /// The bare answer for `outcome`.
    pub fn plain(outcome: Outcome) -> (f: Finish)
        ensures
            f.is_plain(outcome),
    {
        Finish { status: outcome.status(), body: String::new(), unschedule: None, count: None }
    }

    /// The answer to a request that failed for `reason`.
    pub fn failure(reason: &str) -> (f: Finish)
        ensures
            f.is_failure(reason@),
    {
        let mut body = String::from_str("Something went wrong: ");
        body.append(reason);
        Finish { status: STATUS_INTERNAL_SERVER_ERROR, body, unschedule: None, count: None }
    }
}

} // verus!
