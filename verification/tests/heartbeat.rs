use notifiers::apns::{notify_apns, ApnsReply, Endpoint};
use notifiers::debouncer::Debouncer;
use notifiers::heartbeat::{heartbeat_alert, heartbeat_finish, heartbeat_round};
use notifiers::outcome::{Counter, Finish};

const SECOND: u64 = 1_000_000_000;

fn tokens(names: &[&str]) -> Vec<String> {
    names.iter().map(|name| name.to_string()).collect()
}

#[test]
fn round_notifies_each_due_token_once() {
    let mut debouncer = Debouncer::new();
    let out = heartbeat_round(&mut debouncer, 0, &tokens(&["a", "b", "a", "c", "b"]));
    assert_eq!(out, tokens(&["a", "b", "c"]));
    assert_eq!(debouncer.count(), 3);
}

#[test]
fn round_skips_tokens_notified_within_the_last_second() {
    let mut debouncer = Debouncer::new();
    assert!(!debouncer.notify(0, "direct".to_string()));
    let out = heartbeat_round(&mut debouncer, SECOND / 2, &tokens(&["direct", "other"]));
    assert_eq!(out, tokens(&["other"]));
    // "direct" is let through a second after it was recorded; "other" is
    // held back until a second after the round.
    let out = heartbeat_round(&mut debouncer, SECOND, &tokens(&["direct", "other"]));
    assert_eq!(out, tokens(&["direct"]));
    let out = heartbeat_round(&mut debouncer, SECOND + SECOND / 2, &tokens(&["direct", "other"]));
    assert_eq!(out, tokens(&["other"]));
}

#[test]
fn empty_round_leaves_the_debouncer_alone() {
    let mut debouncer = Debouncer::new();
    debouncer.notify(0, "a".to_string());
    let out = heartbeat_round(&mut debouncer, 10 * SECOND, &Vec::new());
    assert_eq!(out, Vec::<String>::new());
    assert_eq!(debouncer.count(), 1);
}

#[test]
fn round_is_what_one_call_after_the_other_gives() {
    let due = tokens(&["a", "b", "a", "c", "b", "d"]);
    let mut by_round = Debouncer::new();
    let mut by_calls = Debouncer::new();
    by_round.notify(0, "b".to_string());
    by_calls.notify(0, "b".to_string());

    let out = heartbeat_round(&mut by_round, SECOND / 2, &due);
    let mut expected = Vec::new();
    for token in &due {
        if !by_calls.notify(SECOND / 2, token.clone()) {
            expected.push(token.clone());
        }
    }
    assert_eq!(out, expected);
    assert_eq!(out, tokens(&["a", "c", "d"]));
    assert_eq!(by_round.count(), by_calls.count());
    for token in tokens(&["a", "b", "c", "d", "e"]) {
        assert_eq!(
            by_round.is_debounced(SECOND, &token),
            by_calls.is_debounced(SECOND, &token),
            "{token}"
        );
    }
}

#[test]
fn heartbeat_goes_to_the_environment_of_the_token() {
    assert_eq!(
        heartbeat_alert("abc", Some("topic")),
        Some((Endpoint::Production, notify_apns("abc", Some("topic"))))
    );
    assert_eq!(
        heartbeat_alert("sandbox:abc", None),
        Some((Endpoint::Sandbox, notify_apns("abc", None)))
    );
}

#[test]
fn heartbeat_skips_what_is_not_for_apns() {
    assert_eq!(heartbeat_alert("fcm-chat.delta:abc", Some("topic")), None);
    assert_eq!(heartbeat_alert("fcm-nocolon", Some("topic")), None);
}

#[test]
fn heartbeat_410_strikes_the_token_as_the_schedule_holds_it() {
    assert_eq!(
        heartbeat_finish("sandbox:abc", ApnsReply::Rejected { code: 410 }),
        Finish {
            status: 410,
            body: String::new(),
            unschedule: Some("sandbox:abc".to_string()),
            count: None
        }
    );
}

#[test]
fn heartbeat_delivery_is_counted_as_one() {
    assert_eq!(
        heartbeat_finish("abc", ApnsReply::Accepted { code: 200 }),
        Finish {
            status: 200,
            body: String::new(),
            unschedule: None,
            count: Some(Counter::HeartbeatNotifications)
        }
    );
    for reply in [
        ApnsReply::Accepted { code: 202 },
        ApnsReply::Rejected { code: 400 },
        ApnsReply::Rejected { code: 500 },
        ApnsReply::NoAnswer,
    ] {
        let finish = heartbeat_finish("abc", reply);
        assert_eq!(finish.unschedule, None);
        assert_eq!(finish.count, None);
    }
}
