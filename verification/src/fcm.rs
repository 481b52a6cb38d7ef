//! Delivery through Firebase Cloud Messaging: what is sent, and how the
//! answer is read.
//!
//! API documentation is available at
//! <https://firebase.google.com/docs/cloud-messaging/send-message#rest>

use crate::outcome::Outcome;
use vstd::prelude::*;
use vstd::string::StringExecFns;

verus! {

/// Whether `c` may occur in an FCM token.
pub open spec fn is_token_char(c: char) -> bool {
    ||| 'a' <= c <= 'z'
    ||| 'A' <= c <= 'Z'
    ||| '0' <= c <= '9'
    ||| c == '_'
    ||| c == ':'
    ||| c == '-'
}

/// Whether `token` is one or more of the characters that may occur in an
/// FCM token.
pub open spec fn is_fcm_token(token: Seq<char>) -> bool {
    token.len() > 0 && forall|i: int| 0 <= i < token.len() ==> is_token_char(#[trigger] token[i])
}

/// The address that FCM messages are posted to.
pub open spec fn fcm_url() -> Seq<char> {
    "https://fcm.googleapis.com/v1/projects/delta-chat-fcm/messages:send"@
}

/// The JSON message that wakes up `token`.
pub open spec fn fcm_body(token: Seq<char>) -> Seq<char> {
    "{\"message\":{\"token\":\""@ + token + "\",\"data\":{\"level\": \"awesome\"} } }"@
}

/// The value of the `Authorization` header for `api_key`.
pub open spec fn fcm_authorization(api_key: Seq<char>) -> Seq<char> {
    "Bearer "@ + api_key
}

/// One POST request to FCM.
#[derive(Debug, Clone, PartialEq, Eq)]
pub struct FcmRequest {
    /// Where to post to.
    pub url: String,
    /// The body of the request.
    pub body: String,
    /// Value of the `Content-Type` header.
    pub content_type: String,
    /// Value of the `Authorization` header.
    pub authorization: String,
}

impl FcmRequest {
    /// Whether this is the request that wakes up `token` with `api_key`.
    pub open spec fn wakes(&self, api_key: Seq<char>, token: Seq<char>) -> bool {
        &&& self.url@ == fcm_url()
        &&& self.body@ == fcm_body(token)
        &&& self.content_type@ == "application/json"@
        &&& self.authorization@ == fcm_authorization(api_key)
    }
}

/// What to do about one FCM token.
#[derive(Debug, Clone, PartialEq, Eq)]
pub enum FcmPlan {
    /// Nothing is sent: the attempt has ended already.
    Settled(Outcome),
    /// Send this request, once.
    Send(FcmRequest),
}

/// Decides whether `c` may occur in an FCM token.
pub fn token_char_ok(c: char) -> (ok: bool)
    ensures
        ok == is_token_char(c),
{
    ('a' <= c && c <= 'z') || ('A' <= c && c <= 'Z') || ('0' <= c && c <= '9') || c == '_' || c
        == ':' || c == '-'
}

/// Decides whether `token` can be put into a request as it stands.
pub fn fcm_token_ok(token: &str) -> (ok: bool)
    ensures
        ok == is_fcm_token(token@),
{
    let mut any = false;
    for c in it: token.chars()
        invariant
            it.seq() == token@,
            any == (it.index() > 0),
            forall|j: int| 0 <= j < it.index() ==> is_token_char(#[trigger] token@[j]),
    {
        if !token_char_ok(c) {
            return false;
        }
        any = true;
    }
    any
}

/// Prepares the notification of a single FCM token. Without an API key the
/// attempt fails at once; a token with a character that does not belong in
/// one, or with none at all, is rejected for good. In both cases nothing is
/// sent. The package name is not used.
pub fn notify_fcm(fcm_api_key: Option<&str>, _package_name: &str, token: &str) -> (plan: FcmPlan)
    ensures
        fcm_api_key is None ==> plan == FcmPlan::Settled(Outcome::FailedTransient),
        fcm_api_key is Some && !is_fcm_token(token@) ==> plan == FcmPlan::Settled(
            Outcome::RejectedPermanent,
        ),
        fcm_api_key matches Some(key) ==> (is_fcm_token(token@) ==> (plan matches FcmPlan::Send(
            request,
        ) && request.wakes(key@, token@))),
{
    let Some(api_key) = fcm_api_key else {
        return FcmPlan::Settled(Outcome::FailedTransient);
    };
    if !fcm_token_ok(token) {
        return FcmPlan::Settled(Outcome::RejectedPermanent);
    }
    let mut body = String::from_str("{\"message\":{\"token\":\"");
    body.append(token);
    body.append("\",\"data\":{\"level\": \"awesome\"} } }");
    let mut authorization = String::from_str("Bearer ");
    authorization.append(api_key);
    FcmPlan::Send(
        FcmRequest {
            url: String::from_str(
                "https://fcm.googleapis.com/v1/projects/delta-chat-fcm/messages:send",
            ),
            body,
            content_type: String::from_str("application/json"),
            authorization,
        },
    )
}

/// How an attempt ended that FCM answered with HTTP status `status`.
pub open spec fn fcm_verdict(status: u16) -> Outcome {
    if 400 <= status < 500 {
        Outcome::RejectedPermanent
    } else if 500 <= status < 600 {
        Outcome::FailedTransient
    } else {
        Outcome::Delivered
    }
}

/// Reads the HTTP status of FCM's answer: a client error means the token is
/// rejected for good, a server error that this attempt failed, anything
/// else that the notification was delivered.
pub fn fcm_outcome(status: u16) -> (outcome: Outcome)
    ensures
        outcome == fcm_verdict(status),
{
    if 400 <= status && status < 500 {
        Outcome::RejectedPermanent
    } else if 500 <= status && status < 600 {
        Outcome::FailedTransient
    } else {
        Outcome::Delivered
    }
}

} // verus!
