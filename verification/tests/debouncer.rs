use notifiers::debouncer::{is_expired, Debouncer, DebouncerState, WINDOW_NANOS};
use std::time::{Duration, Instant};

const SECOND: u64 = 1_000_000_000;

#[test]
fn test_debouncer() {
    let start = Instant::now();
    let at = |t: Instant| t.duration_since(start).as_nanos() as u64;
    let mut now = start;

    let mut debouncer = Debouncer::default();

    let token1 = "foobar".to_string();
    let token2 = "barbaz".to_string();

    assert!(!debouncer.is_debounced(at(now), &token1));
    assert!(!debouncer.is_debounced(at(now), &token2));
    assert_eq!(debouncer.count(), 0);

    debouncer.notify(at(now), token1.clone());

    assert!(debouncer.is_debounced(at(now), &token1));
    assert!(!debouncer.is_debounced(at(now), &token2));
    assert_eq!(debouncer.count(), 1);

    now += Duration::from_secs(5);

    assert!(!debouncer.is_debounced(at(now), &token1));
    assert!(!debouncer.is_debounced(at(now), &token2));
    assert_eq!(debouncer.count(), 0);
}

#[test]
fn window_is_one_second() {
    assert_eq!(WINDOW_NANOS, 1_000_000_000);
    assert!(!is_expired(10, 10));
    assert!(!is_expired(10, 10 + SECOND - 1));
    assert!(is_expired(10, 10 + SECOND));
    assert!(is_expired(0, u64::MAX));
    // A clock that went back counts as no time passed.
    assert!(!is_expired(5 * SECOND, 0));
}

#[test]
fn first_call_is_let_through_then_held_back_for_a_window() {
    let t0 = 7 * SECOND;
    let mut debouncer = Debouncer::new();
    assert!(!debouncer.notify(t0, "T".to_string()));
    assert!(debouncer.notify(t0, "T".to_string()));
    assert!(debouncer.notify(t0 + 1, "T".to_string()));
    assert!(debouncer.notify(t0 + SECOND - 1, "T".to_string()));
    assert!(!debouncer.notify(t0 + SECOND, "T".to_string()));
}

#[test]
fn let_through_again_long_after() {
    let mut debouncer = Debouncer::new();
    assert!(!debouncer.notify(3, "T".to_string()));
    assert!(!debouncer.notify(3 + 60 * SECOND, "T".to_string()));
    assert_eq!(debouncer.count(), 1);
}

#[test]
fn debounced_call_does_not_refresh_expiry() {
    let t0 = 100 * SECOND;
    let mut debouncer = Debouncer::new();
    assert!(!debouncer.notify(t0, "T".to_string()));
    assert!(debouncer.notify(t0 + SECOND / 2, "T".to_string()));
    assert!(!debouncer.notify(t0 + SECOND + SECOND / 10, "T".to_string()));
}

#[test]
fn distinct_tokens_are_independent() {
    let mut debouncer = Debouncer::new();
    assert!(!debouncer.notify(0, "a".to_string()));
    assert!(!debouncer.notify(1, "b".to_string()));
    assert!(debouncer.notify(2, "a".to_string()));
    assert!(debouncer.notify(3, "b".to_string()));
    assert!(!debouncer.notify(4, "c".to_string()));
    assert_eq!(debouncer.count(), 3);
    // "a" expires, "b" and "c" do not.
    assert!(!debouncer.is_debounced(SECOND, &"a".to_string()));
    assert!(debouncer.is_debounced(SECOND, &"b".to_string()));
    assert!(debouncer.is_debounced(SECOND, &"c".to_string()));
    assert_eq!(debouncer.count(), 2);
}

#[test]
fn count_does_not_expire_by_itself() {
    let mut debouncer = Debouncer::new();
    debouncer.notify(0, "a".to_string());
    debouncer.notify(0, "b".to_string());
    assert_eq!(debouncer.count(), 2);
    assert_eq!(debouncer.count(), 2);
    // Only a call that changes the state drops what has expired.
    assert!(!debouncer.is_debounced(10 * SECOND, &"zzz".to_string()));
    assert_eq!(debouncer.count(), 0);
}

#[test]
fn count_is_the_number_of_tokens_let_through_within_the_window() {
    let mut debouncer = Debouncer::new();
    let mut now = 0;
    for round in 0..50u64 {
        now = round * (SECOND / 4);
        // Two tokens per round, one of them the same in every round.
        debouncer.notify(now, "steady".to_string());
        debouncer.notify(now, format!("round-{round}"));
        assert!(debouncer.count() <= 5);
    }
    // Rounds 46..=49 are less than a second old; "steady" was last let
    // through in round 48.
    debouncer.is_debounced(now, &String::new());
    assert_eq!(debouncer.count(), 5);
}

#[test]
fn calls_out_of_time_order_keep_every_entry_for_its_own_window() {
    let mut debouncer = Debouncer::new();
    assert!(!debouncer.notify(5 * SECOND, "late".to_string()));
    // This call carries an older time than the entry before it.
    assert!(!debouncer.notify(4 * SECOND + SECOND / 2, "early".to_string()));
    assert_eq!(debouncer.count(), 2);
    // At 5.5 s "early" has been held for a second, "late" for half of one.
    assert!(!debouncer.is_debounced(5 * SECOND + SECOND / 2, &"early".to_string()));
    assert!(debouncer.is_debounced(5 * SECOND + SECOND / 2, &"late".to_string()));
    assert_eq!(debouncer.count(), 1);
    assert!(!debouncer.is_debounced(6 * SECOND, &"late".to_string()));
    assert_eq!(debouncer.count(), 0);
}

#[test]
fn same_token_from_many_callers_is_let_through_once() {
    // The times the callers took before they got the lock, in the order in
    // which they got it.
    let orders: [[u64; 5]; 4] = [
        [10, 11, 12, 13, 14],
        [14, 13, 12, 11, 10],
        [12, 10, 14, 11, 13],
        [10, 10, 10, 10, 10],
    ];
    for order in orders {
        let mut debouncer = Debouncer::new();
        let outcomes: Vec<bool> =
            order.iter().map(|now| debouncer.notify(*now, "token".to_string())).collect();
        assert_eq!(outcomes, vec![false, true, true, true, true]);
        assert_eq!(debouncer.count(), 1);
    }
}

#[test]
fn state_without_lock_behaves_the_same() {
    let mut state = DebouncerState::new();
    assert_eq!(state.count(), 0);
    assert!(!state.notify(0, "a".to_string()));
    assert!(state.notify(1, "a".to_string()));
    assert!(state.is_debounced(2, &"a".to_string()));
    assert!(!state.is_debounced(2, &"b".to_string()));
    assert_eq!(state.count(), 1);
    state.cleanup(SECOND - 1);
    assert_eq!(state.count(), 1);
    state.cleanup(SECOND);
    assert_eq!(state.count(), 0);
    assert!(!state.notify(SECOND, "a".to_string()));
}
