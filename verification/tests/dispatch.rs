use notifiers::apns::{
    apns_finish, apns_outcome, notify_apns, Alert, ApnsReply, Endpoint, PushKind, Urgency,
};
use notifiers::fcm::{fcm_outcome, fcm_token_ok, notify_fcm, token_char_ok, FcmPlan, FcmRequest};
use notifiers::gateway::{
    dispatch, encrypted_part, fcm_finish, notify_decrypted, notify_device, notify_plain,
    register_decrypted, register_device, register_finish, FcmReply, Step,
};
use notifiers::outcome::{
    Counter, Finish, Outcome, STATUS_GONE, STATUS_INTERNAL_SERVER_ERROR, STATUS_OK,
};
use notifiers::token::NotificationToken;

fn plain(status: u16) -> Finish {
    Finish { status, body: String::new(), unschedule: None, count: None }
}

fn alert_for(device_token: &str, topic: Option<&str>) -> Alert {
    Alert {
        device_token: device_token.to_string(),
        title: "New messages".to_string(),
        title_loc_key: "new_messages".to_string(),
        body: "You have new messages".to_string(),
        loc_key: "new_messages_body".to_string(),
        sound: "default".to_string(),
        mutable_content: true,
        priority: Urgency::High,
        push_type: PushKind::Alert,
        topic: topic.map(str::to_string),
    }
}

fn request_for(api_key: &str, token: &str) -> FcmRequest {
    FcmRequest {
        url: "https://fcm.googleapis.com/v1/projects/delta-chat-fcm/messages:send".to_string(),
        body: format!("{{\"message\":{{\"token\":\"{token}\",\"data\":{{\"level\": \"awesome\"}} }} }}"),
        content_type: "application/json".to_string(),
        authorization: format!("Bearer {api_key}"),
    }
}

#[test]
fn outcome_maps_to_status() {
    assert_eq!(Outcome::Delivered.status(), 200);
    assert_eq!(Outcome::RejectedPermanent.status(), 410);
    assert_eq!(Outcome::FailedTransient.status(), 500);
    assert_eq!((STATUS_OK, STATUS_GONE, STATUS_INTERNAL_SERVER_ERROR), (200, 410, 500));
    assert_eq!(Finish::plain(Outcome::RejectedPermanent), plain(410));
    assert_eq!(
        Finish::failure("disk full"),
        Finish {
            status: 500,
            body: "Something went wrong: disk full".to_string(),
            unschedule: None,
            count: None
        }
    );
}

#[test]
fn fcm_token_characters() {
    for c in ['a', 'z', 'A', 'Z', '0', '9', '_', ':', '-', 'm', 'Q', '5'] {
        assert!(token_char_ok(c), "{c:?}");
    }
    for c in [' ', '"', '\\', '/', '.', '+', '=', '{', '`', '@', '[', 'ä', '\n', '\0'] {
        assert!(!token_char_ok(c), "{c:?}");
    }
    assert!(fcm_token_ok("abc-DEF_123:xyz"));
    assert!(fcm_token_ok(":"));
    assert!(!fcm_token_ok(""));
    assert!(!fcm_token_ok("abc def"));
    assert!(!fcm_token_ok("abc\""));
    assert!(!fcm_token_ok("tökén"));
}

#[test]
fn fcm_without_key_fails_without_sending() {
    assert_eq!(notify_fcm(None, "chat.delta", "abc"), FcmPlan::Settled(Outcome::FailedTransient));
    // The key is looked at first.
    assert_eq!(notify_fcm(None, "chat.delta", "a b"), FcmPlan::Settled(Outcome::FailedTransient));
}

#[test]
fn fcm_token_with_space_is_gone_without_sending() {
    let plan = notify_fcm(Some("key"), "chat.delta", "abc def");
    assert_eq!(plan, FcmPlan::Settled(Outcome::RejectedPermanent));
    let step = dispatch(
        &NotificationToken::Fcm {
            package_name: "chat.delta".to_string(),
            token: "abc def".to_string(),
        },
        None,
        Some("key"),
    );
    assert_eq!(step, Step::Finish(plain(410)));
    assert_eq!(notify_device("fcm-chat.delta:abc def", None, Some("key")), Step::Finish(plain(410)));
}

#[test]
fn fcm_token_that_would_break_out_of_the_json_is_gone() {
    for token in ["\"", "a\",\"x\":\"", "a\\", "a\nb", ""] {
        assert_eq!(
            notify_fcm(Some("key"), "pkg", token),
            FcmPlan::Settled(Outcome::RejectedPermanent),
            "{token:?}"
        );
    }
}

#[test]
fn fcm_request_is_built_from_key_and_token() {
    let plan = notify_fcm(Some("SECRET-REDACTED"), "chat.delta", "dev_Tok-1:x");
    assert_eq!(plan, FcmPlan::Send(request_for("SECRET-REDACTED", "dev_Tok-1:x")));
    let FcmPlan::Send(request) = plan else { panic!("nothing to send") };
    assert_eq!(
        request.body,
        "{\"message\":{\"token\":\"dev_Tok-1:x\",\"data\":{\"level\": \"awesome\"} } }"
    );
    assert_eq!(request.authorization, "Bearer SECRET-REDACTED");
    assert_eq!(request.content_type, "application/json");
}

#[test]
fn fcm_status_is_read_by_class() {
    for status in [400, 401, 404, 410, 429, 499] {
        assert_eq!(fcm_outcome(status), Outcome::RejectedPermanent, "{status}");
    }
    for status in [500, 502, 503, 599] {
        assert_eq!(fcm_outcome(status), Outcome::FailedTransient, "{status}");
    }
    for status in [200, 201, 204, 299, 100, 302, 399, 600, 0] {
        assert_eq!(fcm_outcome(status), Outcome::Delivered, "{status}");
    }
}

#[test]
fn fcm_finish_counts_deliveries_only() {
    assert_eq!(
        fcm_finish(&FcmReply::Status(200)),
        Finish {
            status: 200,
            body: String::new(),
            unschedule: None,
            count: Some(Counter::FcmNotifications)
        }
    );
    assert_eq!(fcm_finish(&FcmReply::Status(404)), plain(410));
    assert_eq!(fcm_finish(&FcmReply::Status(503)), plain(500));
    assert_eq!(
        fcm_finish(&FcmReply::NoAnswer { reason: "connection reset".to_string() }),
        Finish::failure("connection reset")
    );
}

#[test]
fn apns_alert_has_fixed_content() {
    assert_eq!(notify_apns("devtoken", Some("chat.delta")), alert_for("devtoken", Some("chat.delta")));
    assert_eq!(notify_apns("devtoken", None), alert_for("devtoken", None));
    let alert = notify_apns("", None);
    assert_eq!(alert.device_token, "");
    assert_eq!(alert.title, "New messages");
    assert_eq!(alert.title_loc_key, "new_messages");
    assert_eq!(alert.body, "You have new messages");
    assert_eq!(alert.loc_key, "new_messages_body");
    assert_eq!(alert.sound, "default");
    assert!(alert.mutable_content);
    assert_eq!(alert.priority, Urgency::High);
    assert_eq!(alert.push_type, PushKind::Alert);
    assert_eq!(alert.topic, None);
}

#[test]
fn apns_reply_is_read() {
    assert_eq!(apns_outcome(ApnsReply::Accepted { code: 200 }), Outcome::Delivered);
    assert_eq!(apns_outcome(ApnsReply::Accepted { code: 202 }), Outcome::Delivered);
    assert_eq!(apns_outcome(ApnsReply::Rejected { code: 410 }), Outcome::RejectedPermanent);
    for code in [400, 403, 405, 413, 429, 500, 503, 200, 0] {
        assert_eq!(apns_outcome(ApnsReply::Rejected { code }), Outcome::FailedTransient, "{code}");
    }
    assert_eq!(apns_outcome(ApnsReply::NoAnswer), Outcome::FailedTransient);
}

#[test]
fn apns_410_strikes_the_token_from_the_schedule_and_answers_gone() {
    let finish = apns_finish("devtoken", ApnsReply::Rejected { code: 410 });
    assert_eq!(
        finish,
        Finish {
            status: 410,
            body: String::new(),
            unschedule: Some("devtoken".to_string()),
            count: None
        }
    );
}

#[test]
fn apns_other_endings_leave_the_schedule_alone() {
    assert_eq!(apns_finish("devtoken", ApnsReply::Rejected { code: 400 }), plain(500));
    assert_eq!(apns_finish("devtoken", ApnsReply::Rejected { code: 503 }), plain(500));
    assert_eq!(apns_finish("devtoken", ApnsReply::NoAnswer), plain(500));
    assert_eq!(
        apns_finish("devtoken", ApnsReply::Accepted { code: 200 }),
        Finish {
            status: 200,
            body: String::new(),
            unschedule: None,
            count: Some(Counter::DirectNotifications)
        }
    );
    // Taken, but not with 200: answered as a success, and not counted.
    assert_eq!(apns_finish("devtoken", ApnsReply::Accepted { code: 202 }), plain(200));
}

#[test]
fn notify_routes_by_prefix() {
    assert_eq!(
        notify_device("abc", Some("topic"), None),
        Step::SendApns { endpoint: Endpoint::Production, alert: alert_for("abc", Some("topic")) }
    );
    assert_eq!(
        notify_device("sandbox:abc", None, Some("key")),
        Step::SendApns { endpoint: Endpoint::Sandbox, alert: alert_for("abc", None) }
    );
    assert_eq!(
        notify_device("fcm-chat.delta:abc", Some("topic"), Some("key")),
        Step::SendFcm { request: request_for("key", "abc") }
    );
    assert_eq!(notify_device("fcm-chat.delta:abc", Some("topic"), None), Step::Finish(plain(500)));
    assert_eq!(notify_plain("abc", None, None), notify_device("abc", None, None));
}

#[test]
fn notify_reports_a_malformed_token_in_words() {
    assert_eq!(
        notify_device("fcm-nocolon", None, Some("key")),
        Step::Finish(Finish {
            status: 500,
            body: "Something went wrong: Invalid FCM token".to_string(),
            unschedule: None,
            count: None
        })
    );
}

#[test]
fn encrypted_token_is_decrypted_first() {
    assert_eq!(encrypted_part("openpgp:wcBM..."), Some("wcBM..."));
    assert_eq!(encrypted_part("openpgp:"), Some(""));
    assert_eq!(encrypted_part("openpgp"), None);
    assert_eq!(encrypted_part("fcm-openpgp:x"), None);
    assert_eq!(
        notify_device("openpgp:wcBM...", None, None),
        Step::Decrypt { ciphertext: "wcBM...".to_string() }
    );
    assert_eq!(
        register_device("openpgp:wcBM..."),
        Step::Decrypt { ciphertext: "wcBM...".to_string() }
    );
}

#[test]
fn undecryptable_token_is_gone_for_a_notification() {
    assert_eq!(notify_decrypted(None, Some("topic"), Some("key")), Step::Finish(plain(410)));
}

#[test]
fn decrypted_token_is_routed_and_not_decrypted_again() {
    assert_eq!(
        notify_decrypted(Some("sandbox:abc"), None, None),
        Step::SendApns { endpoint: Endpoint::Sandbox, alert: alert_for("abc", None) }
    );
    assert_eq!(
        notify_decrypted(Some("openpgp:abc"), None, None),
        Step::SendApns { endpoint: Endpoint::Production, alert: alert_for("openpgp:abc", None) }
    );
    assert_eq!(
        notify_decrypted(Some("fcm-nocolon"), None, None),
        Step::Finish(Finish::failure("Invalid FCM token"))
    );
}

#[test]
fn registration_enrolls_the_token_as_it_stands() {
    assert_eq!(register_device("abc"), Step::Enroll { token: "abc".to_string() });
    assert_eq!(register_device("sandbox:abc"), Step::Enroll { token: "sandbox:abc".to_string() });
    assert_eq!(register_device("fcm-nocolon"), Step::Enroll { token: "fcm-nocolon".to_string() });
    assert_eq!(register_decrypted(Ok("abc")), Step::Enroll { token: "abc".to_string() });
    assert_eq!(
        register_decrypted(Err("no key")),
        Step::Finish(Finish::failure("no key"))
    );
}

#[test]
fn registration_ends_with_empty_success_or_failure_in_words() {
    assert_eq!(
        register_finish(Ok(())),
        Finish {
            status: 200,
            body: String::new(),
            unschedule: None,
            count: Some(Counter::HeartbeatRegistrations)
        }
    );
    assert_eq!(
        register_finish(Err("database is gone")),
        Finish {
            status: 500,
            body: "Something went wrong: database is gone".to_string(),
            unschedule: None,
            count: None
        }
    );
}
