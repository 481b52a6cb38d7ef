//! Delivery through the Apple Push Notification service: what is sent, and
//! how the answer is read.

use crate::outcome::{Counter, Finish, Outcome, STATUS_GONE, STATUS_OK};
use vstd::prelude::*;
use vstd::string::StringExecFns;

verus! {

/// The two environments of the service. Each has a client of its own.
#[derive(Debug, Clone, Copy, PartialEq, Eq, Structural)]
pub enum Endpoint {
    /// The production environment.
    Production,
    /// The development environment.
    Sandbox,
}

/// How fast the notification is to reach the user.
#[derive(Debug, Clone, Copy, PartialEq, Eq, Structural)]
pub enum Urgency {
    /// Send the push message immediately (10).
    High,
    /// Send it when it suits the device (5).
    Normal,
}

/// The kind of push, as the `apns-push-type` header names it.
#[derive(Debug, Clone, Copy, PartialEq, Eq, Structural)]
pub enum PushKind {
    /// A notification that the user gets to see.
    Alert,
    /// A notification that delivers content in the background.
    Background,
}

/// One visible notification for one device.
#[derive(Debug, Clone, PartialEq, Eq)]
pub struct Alert {
    /// The token of the receiving device.
    pub device_token: String,
    /// Title of the notification.
    pub title: String,
    /// Localization key for the title.
    pub title_loc_key: String,
    /// Text of the notification.
    pub body: String,
    /// Localization key for the text.
    pub loc_key: String,
    /// Name of the sound to play.
    pub sound: String,
    /// Whether the app may change the notification before it is shown.
    pub mutable_content: bool,
    /// Priority of the notification.
    pub priority: Urgency,
    /// Kind of push.
    pub push_type: PushKind,
    /// Bundle identifier that the notification is for, if configured.
    pub topic: Option<String>,
}

impl Alert {
    /// Whether this is the notification of new messages for `device_token`
    /// under `topic`: fixed words with their localization keys, the default
    /// sound, changeable by the app, of high priority.
    pub open spec fn announces(&self, device_token: Seq<char>, topic: Option<Seq<char>>) -> bool {
        &&& self.device_token@ == device_token
        &&& self.title@ == "New messages"@
        &&& self.title_loc_key@ == "new_messages"@
        &&& self.body@ == "You have new messages"@
        &&& self.loc_key@ == "new_messages_body"@
        &&& self.sound@ == "default"@
        &&& self.mutable_content
        &&& self.priority == Urgency::High
        &&& self.push_type == PushKind::Alert
        &&& match topic {
            Some(t) => self.topic matches Some(own) && own@ == t,
            None => self.topic is None,
        }
    }
}

/// The view of an optional string.
pub open spec fn text_of(s: Option<&str>) -> Option<Seq<char>> {
    match s {
        Some(t) => Some(t@),
        None => None,
    }
}

/// Prepares the notification of a single APNS token. It is sent once, by
/// the client of the environment that the token belongs to.
pub fn notify_apns(device_token: &str, topic: Option<&str>) -> (alert: Alert)
    ensures
        alert.announces(device_token@, text_of(topic)),
{
    let topic = match topic {
        Some(t) => Some(String::from_str(t)),
        None => None,
    };
    Alert {
        device_token: String::from_str(device_token),
        title: String::from_str("New messages"),
        title_loc_key: String::from_str("new_messages"),
        body: String::from_str("You have new messages"),
        loc_key: String::from_str("new_messages_body"),
        sound: String::from_str("default"),
        mutable_content: true,
        priority: Urgency::High,
        push_type: PushKind::Alert,
        topic,
    }
}

/// What came back from one attempt to send.
#[derive(Debug, Clone, Copy, PartialEq, Eq, Structural)]
pub enum ApnsReply {
    /// The service took the notification; `code` is its HTTP status.
    Accepted { code: u16 },
    /// The service answered and did not take it; `code` is its HTTP status.
    Rejected { code: u16 },
    /// No answer: the request did not get through, or timed out.
    NoAnswer,
}

/// How an attempt ended that got `reply`. Status 410 says that the device
/// token is no longer active for the topic; every other rejection, and no
/// answer at all, may pass.
pub open spec fn apns_verdict(reply: ApnsReply) -> Outcome {
    match reply {
        ApnsReply::Accepted { code } => Outcome::Delivered,
        ApnsReply::Rejected { code } => if code == STATUS_GONE {
            Outcome::RejectedPermanent
        } else {
            Outcome::FailedTransient
        },
        ApnsReply::NoAnswer => Outcome::FailedTransient,
    }
}

/// Reads the reply to one attempt.
pub fn apns_outcome(reply: ApnsReply) -> (outcome: Outcome)
    ensures
        outcome == apns_verdict(reply),
{
    match reply {
        ApnsReply::Accepted { code } => Outcome::Delivered,
        ApnsReply::Rejected { code } => if code == STATUS_GONE {
            Outcome::RejectedPermanent
        } else {
            Outcome::FailedTransient
        },
        ApnsReply::NoAnswer => Outcome::FailedTransient,
    }
}

/// Ends the attempt for `device_token` that got `reply`. A token that is
/// rejected for good is struck from the schedule, and no other is. The
/// counter of direct notifications goes up when the service took the
/// notification with status 200.
pub fn apns_finish(device_token: &str, reply: ApnsReply) -> (finish: Finish)
    ensures
        finish.status == crate::outcome::status_of(apns_verdict(reply)),
        finish.body@ == Seq::<char>::empty(),
        apns_verdict(reply) == Outcome::RejectedPermanent ==> (finish.unschedule matches Some(token)
            && token@ == device_token@),
        apns_verdict(reply) != Outcome::RejectedPermanent ==> finish.unschedule is None,
        finish.count == if reply == (ApnsReply::Accepted { code: STATUS_OK }) {
            Some(Counter::DirectNotifications)
        } else {
            None::<Counter>
        },
{
    let outcome = apns_outcome(reply);
    let mut finish = Finish::plain(outcome);
    match reply {
        ApnsReply::Accepted { code } => {
            if code == STATUS_OK {
                finish.count = Some(Counter::DirectNotifications);
            }
        },
        ApnsReply::Rejected { code } => {
            if code == STATUS_GONE {
                finish.unschedule = Some(String::from_str(device_token));
            }
        },
        ApnsReply::NoAnswer => {},
    }
    finish
}

} // verus!
