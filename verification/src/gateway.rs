//! The two requests of the gateway, as steps.
//!
//! Decrypting, sending and the schedule are someone else's work. Each
//! function here takes what that work gave and says what is to be done
//! next, until the request ends in a `Finish`.

use crate::apns::{notify_apns, text_of, Alert, Endpoint};
use crate::fcm::{fcm_outcome, fcm_verdict, is_fcm_token, notify_fcm, FcmPlan, FcmRequest};
use crate::outcome::{status_of, Counter, Finish, Outcome, STATUS_OK};
use crate::text::strip_prefix;
use crate::token::{
    encrypted_prefix,
    lemma_routed_is_well_formed,
    lemma_routes_one,
    malformed,
    NotificationToken,
    Route,
};
use vstd::prelude::*;
use vstd::string::StringExecFns;

verus! {

/// What is to be done next for a request.
#[derive(Debug, Clone, PartialEq, Eq)]
pub enum Step {
    /// Have `ciphertext` decrypted.
    Decrypt { ciphertext: String },
    /// Post `request` to FCM, once.
    SendFcm { request: FcmRequest },
    /// Send `alert` with the client for `endpoint`, once.
    SendApns { endpoint: Endpoint, alert: Alert },
    /// Put `token` into the schedule as due now, and have the schedule
    /// written out.
    Enroll { token: String },
    /// Answer the request.
    Finish(Finish),
}

/// What came back from one POST request to FCM.
#[derive(Debug, Clone, PartialEq, Eq)]
pub enum FcmReply {
    /// FCM answered with this HTTP status.
    Status(u16),
    /// No answer; `reason` says what went wrong.
    NoAnswer { reason: String },
}

impl Step {
    /// Whether this is the step that delivers to `route`, under the
    /// configured `topic` and FCM key. For an FCM token nothing is sent
    /// without a key, or if the token does not look like one.
    pub open spec fn serves(
        &self,
        route: Route,
        topic: Option<Seq<char>>,
        fcm_api_key: Option<Seq<char>>,
    ) -> bool {
        match route {
            Route::Fcm { package_name, token } => match fcm_api_key {
                None => self matches Step::Finish(f) && f.is_plain(Outcome::FailedTransient),
                Some(key) => if is_fcm_token(token) {
                    self matches Step::SendFcm { request } && request.wakes(key, token)
                } else {
                    self matches Step::Finish(f) && f.is_plain(Outcome::RejectedPermanent)
                },
            },
            Route::ApnsSandbox(token) => self matches Step::SendApns { endpoint, alert } && endpoint
                == Endpoint::Sandbox && alert.announces(token, topic),
            Route::ApnsProduction(token) => self matches Step::SendApns { endpoint, alert }
                && endpoint == Endpoint::Production && alert.announces(token, topic),
        }
    }

    /// Whether this is the first step for the plain token `raw`: a token
    /// that cannot be routed fails in words, every other one is served.
    pub open spec fn starts(
        &self,
        raw: Seq<char>,
        topic: Option<Seq<char>>,
        fcm_api_key: Option<Seq<char>>,
    ) -> bool {
        &&& malformed(raw) ==> (self matches Step::Finish(f) && f.is_failure("Invalid FCM token"@))
        &&& forall|route: Route| #[trigger] route.routes(raw) ==> self.serves(route, topic, fcm_api_key)
    }
}

/// The encrypted part of `device_token`, if it is an encrypted token.
pub fn encrypted_part(device_token: &str) -> (part: Option<&str>)
    ensures
        match part {
            Some(ciphertext) => device_token@ == encrypted_prefix() + ciphertext@,
            None => !encrypted_prefix().is_prefix_of(device_token@),
        },
{
    proof {
        reveal_strlit("openpgp:");
    }
    assert("openpgp:"@ =~= encrypted_prefix());
    strip_prefix(device_token, "openpgp:")
}

/// The step that delivers to `token`.
pub fn dispatch(token: &NotificationToken, topic: Option<&str>, fcm_api_key: Option<&str>) -> (step:
    Step)
    ensures
        step.serves(token@, text_of(topic), text_of(fcm_api_key)),
{
    match token {
        NotificationToken::Fcm { package_name, token } => {
            match notify_fcm(fcm_api_key, package_name.as_str(), token.as_str()) {
                FcmPlan::Settled(outcome) => Step::Finish(Finish::plain(outcome)),
                FcmPlan::Send(request) => Step::SendFcm { request },
            }
        },
        NotificationToken::ApnsSandbox(token) => Step::SendApns {
            endpoint: Endpoint::Sandbox,
            alert: notify_apns(token.as_str(), topic),
        },
        NotificationToken::ApnsProduction(token) => Step::SendApns {
            endpoint: Endpoint::Production,
            alert: notify_apns(token.as_str(), topic),
        },
    }
}

/// The first step for a token that is not, or no longer, encrypted.
pub fn notify_plain(device_token: &str, topic: Option<&str>, fcm_api_key: Option<&str>) -> (step:
    Step)
    ensures
        step.starts(device_token@, text_of(topic), text_of(fcm_api_key)),
{
    match NotificationToken::from_str(device_token) {
        Ok(token) => {
            let step = dispatch(&token, topic, fcm_api_key);
            proof {
                assert forall|route: Route| #[trigger] route.routes(device_token@) implies step.serves(
                    route,
                    text_of(topic),
                    text_of(fcm_api_key),
                ) by {
                    lemma_routes_one(device_token@, route, token@);
                }
            }
            step
        },
        Err(err) => {
            proof {
                assert forall|route: Route| #[trigger] route.routes(device_token@) implies false by {
                    lemma_routed_is_well_formed(device_token@, route);
                }
            }
            Step::Finish(Finish::failure(err.message().as_str()))
        },
    }
}

/// Notifies a single device with a visible notification: the first step.
/// An encrypted token is decrypted first; any other is routed as it
/// stands.
pub fn notify_device(device_token: &str, topic: Option<&str>, fcm_api_key: Option<&str>) -> (step:
    Step)
    ensures
        encrypted_prefix().is_prefix_of(device_token@) ==> (step matches Step::Decrypt { ciphertext }
            && device_token@ == encrypted_prefix() + ciphertext@),
        !encrypted_prefix().is_prefix_of(device_token@) ==> step.starts(
            device_token@,
            text_of(topic),
            text_of(fcm_api_key),
        ),
{
    match encrypted_part(device_token) {
        Some(ciphertext) => {
            assert((encrypted_prefix() + ciphertext@).skip(8) =~= ciphertext@);
            Step::Decrypt { ciphertext: String::from_str(ciphertext) }
        },
        None => notify_plain(device_token, topic, fcm_api_key),
    }
}

/// The step after decryption, for a notification. A token that could not
/// be decrypted never will be: it is rejected for good. What was decrypted
/// is routed as it stands, and not decrypted again.
pub fn notify_decrypted(
    decrypted: Option<&str>,
    topic: Option<&str>,
    fcm_api_key: Option<&str>,
) -> (step: Step)
    ensures
        match decrypted {
            Some(plaintext) => step.starts(plaintext@, text_of(topic), text_of(fcm_api_key)),
            None => step matches Step::Finish(f) && f.is_plain(Outcome::RejectedPermanent),
        },
{
    match decrypted {
        Some(plaintext) => notify_plain(plaintext, topic, fcm_api_key),
        None => Step::Finish(Finish::plain(Outcome::RejectedPermanent)),
    }
}

/// Ends the attempt that got `reply` from FCM. The counter of FCM
/// notifications goes up when the notification was delivered. No token is
/// struck from the schedule on this path.
pub fn fcm_finish(reply: &FcmReply) -> (finish: Finish)
    ensures
        match reply {
            FcmReply::Status(status) => {
                &&& finish.status == status_of(fcm_verdict(*status))
                &&& finish.body@ == Seq::<char>::empty()
                &&& finish.unschedule is None
                &&& finish.count == if fcm_verdict(*status) == Outcome::Delivered {
                    Some(Counter::FcmNotifications)
                } else {
                    None::<Counter>
                }
            },
            FcmReply::NoAnswer { reason } => finish.is_failure(reason@),
        },
{
    match reply {
        FcmReply::Status(status) => {
            let outcome = fcm_outcome(*status);
            let mut finish = Finish::plain(outcome);
            if outcome == Outcome::Delivered {
                finish.count = Some(Counter::FcmNotifications);
            }
            finish
        },
        FcmReply::NoAnswer { reason } => Finish::failure(reason.as_str()),
    }
}

/// Registers a device for heartbeat notifications: the first step. An
/// encrypted token is decrypted first; any other is enrolled as it stands.
pub fn register_device(device_token: &str) -> (step: Step)
    ensures
        encrypted_prefix().is_prefix_of(device_token@) ==> (step matches Step::Decrypt { ciphertext }
            && device_token@ == encrypted_prefix() + ciphertext@),
        !encrypted_prefix().is_prefix_of(device_token@) ==> (step matches Step::Enroll { token }
            && token@ == device_token@),
{
    match encrypted_part(device_token) {
        Some(ciphertext) => {
            assert((encrypted_prefix() + ciphertext@).skip(8) =~= ciphertext@);
            Step::Decrypt { ciphertext: String::from_str(ciphertext) }
        },
        None => Step::Enroll { token: String::from_str(device_token) },
    }
}

/// The step after decryption, for a registration: the plaintext is
/// enrolled, and a failure to decrypt is reported in words.
pub fn register_decrypted(decrypted: Result<&str, &str>) -> (step: Step)
    ensures
        match decrypted {
            Ok(plaintext) => step matches Step::Enroll { token } && token@ == plaintext@,
            Err(reason) => step matches Step::Finish(f) && f.is_failure(reason@),
        },
{
    match decrypted {
        Ok(plaintext) => Step::Enroll { token: String::from_str(plaintext) },
        Err(reason) => Step::Finish(Finish::failure(reason)),
    }
}

/// Ends a registration. Once the schedule holds the token and has been
/// written out, the counter of registrations goes up and the answer is an
/// empty success; a failure of the schedule is reported in words.
pub fn register_finish(enrolled: Result<(), &str>) -> (finish: Finish)
    ensures
        match enrolled {
            Ok(_) => {
                &&& finish.status == STATUS_OK
                &&& finish.body@ == Seq::<char>::empty()
                &&& finish.unschedule is None
                &&& finish.count == Some(Counter::HeartbeatRegistrations)
            },
            Err(reason) => finish.is_failure(reason@),
        },
{
    match enrolled {
        Ok(_) => {
            let mut finish = Finish::plain(Outcome::Delivered);
            finish.count = Some(Counter::HeartbeatRegistrations);
            finish
        },
        Err(reason) => Finish::failure(reason),
    }
}

} // verus!
